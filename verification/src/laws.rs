//! What holds of every descriptor: which line decides a field, which lines
//! reach the map of other keys, and which lines are passed over.

use vstd::prelude::*;
use crate::field::{Field, FIELD_COUNT};
use crate::release::{
    first_recognized, line_assignment, other_pair, parse_lines, recognized_value, AssignmentView,
    OsReleaseView,
};

verus! {

/// Whether what a line gives is a value for `field`.
pub open spec fn sets_field(assignment: Option<AssignmentView>, field: Field) -> bool {
    assignment matches Some(AssignmentView::Known(set, _)) && set == field
}

/// Whether what a line gives is a value for the other key `key`.
pub open spec fn sets_key(assignment: Option<AssignmentView>, key: Seq<char>) -> bool {
    assignment matches Some(AssignmentView::Other(set, _)) && set == key
}

/// No lines give the record in which every field is empty and no other key is
/// held.
pub proof fn law_no_lines_give_the_empty_record()
    ensures
        parse_lines(Seq::empty()) == OsReleaseView::empty(),
{
}

/// Reading is a function of the lines: two sequences that hold the same lines
/// give the same record.
pub proof fn law_same_lines_same_record(first: Seq<Seq<char>>, second: Seq<Seq<char>>)
    requires
        first.len() == second.len(),
        forall|i: int| 0 <= i < first.len() ==> first[i] == second[i],
    ensures
        parse_lines(first) == parse_lines(second),
{
    assert(first =~= second);
}

/// One more line changes the record by what that line gives, and by nothing
/// else.
pub proof fn law_lines_are_read_in_turn(lines: Seq<Seq<char>>, line: Seq<char>)
    ensures
        parse_lines(lines.push(line)) == parse_lines(lines).absorb(line_assignment(line)),
{
    assert(lines.push(line).drop_last() =~= lines);
}

/// From place `from` on, the well-known keys are tried in their order and the
/// first whose pattern matches decides; the result is never a pair for the
/// map of other keys.
pub proof fn lemma_first_recognized(line: Seq<char>, from: int)
    requires
        0 <= from <= FIELD_COUNT,
    ensures
        match first_recognized(line, from) {
            Some(AssignmentView::Known(field, value)) => {
                &&& from <= field.rank()
                &&& recognized_value(field, line) == Some(value)
                &&& forall|earlier: Field|
                    from <= earlier.rank() < field.rank() ==> #[trigger] recognized_value(
                        earlier,
                        line,
                    ) is None
            },
            Some(AssignmentView::Other(_, _)) => false,
            None => forall|field: Field|
                from <= field.rank() ==> #[trigger] recognized_value(field, line) is None,
        },
    decreases FIELD_COUNT - from,
{
    if from < FIELD_COUNT {
        lemma_first_recognized(line, from + 1);
        assert forall|field: Field| field.rank() == from implies field == Field::at(from) by {
            field.lemma_rank_names_the_key();
        }
    } else {
        assert forall|field: Field| from <= field.rank() implies false by {
            field.lemma_rank_names_the_key();
        }
    }
}

/// A line sets a well-known key exactly when it matches the pattern of that
/// key and the pattern of no key that is tried before it.
pub proof fn law_first_matching_key_decides(line: Seq<char>, field: Field, value: Seq<char>)
    ensures
        line_assignment(line) == Some(AssignmentView::Known(field, value)) <==> {
            &&& recognized_value(field, line) == Some(value)
            &&& forall|earlier: Field|
                earlier.rank() < field.rank() ==> #[trigger] recognized_value(earlier, line) is None
        },
{
    lemma_first_recognized(line, 0);
    field.lemma_rank_names_the_key();
    assert forall|earlier: Field| 0 <= earlier.rank() by {
        earlier.lemma_rank_names_the_key();
    }
    if let Some(AssignmentView::Known(first, _)) = first_recognized(line, 0) {
        first.lemma_rank_names_the_key();
        if recognized_value(field, line) == Some(value) && (forall|earlier: Field|
            earlier.rank() < field.rank() ==> #[trigger] recognized_value(earlier, line) is None) {
            assert(recognized_value(first, line) is Some);
            assert(first.rank() == field.rank());
        }
    }
}

/// A line that matches the pattern of a well-known key never reaches the map
/// of other keys, whatever the pattern for other keys would find in it.
pub proof fn law_recognized_line_stays_out_of_extra(
    record: OsReleaseView,
    line: Seq<char>,
    field: Field,
)
    requires
        recognized_value(field, line) is Some,
    ensures
        line_assignment(line) matches Some(AssignmentView::Known(_, _)),
        record.absorb(line_assignment(line)).extra == record.extra,
{
    lemma_first_recognized(line, 0);
    field.lemma_rank_names_the_key();
}

/// A line that matches the pattern of no well-known key, and in which the
/// pattern for other keys finds a pair, puts that pair into the map of other
/// keys, over whatever the key held, and changes no field.
pub proof fn law_unrecognized_line_goes_to_extra(
    record: OsReleaseView,
    line: Seq<char>,
    key: Seq<char>,
    value: Seq<char>,
)
    requires
        forall|field: Field| recognized_value(field, line) is None,
        other_pair(line) == Some(AssignmentView::Other(key, value)),
    ensures
        record.absorb(line_assignment(line)) == (OsReleaseView {
            extra: record.extra.insert(key, value),
            ..record
        }),
{
    lemma_first_recognized(line, 0);
}

/// A line that matches no pattern at all is passed over: the record is the
/// one that the lines before it gave.
pub proof fn law_unmatched_line_is_passed_over(lines: Seq<Seq<char>>, line: Seq<char>)
    requires
        forall|field: Field| recognized_value(field, line) is None,
        other_pair(line) is None,
    ensures
        line_assignment(line) is None,
        parse_lines(lines.push(line)) == parse_lines(lines),
{
    lemma_first_recognized(line, 0);
    law_lines_are_read_in_turn(lines, line);
}

/// The last line that sets a well-known key decides its value.
pub proof fn law_last_line_for_a_field_wins(
    lines: Seq<Seq<char>>,
    at: int,
    field: Field,
    value: Seq<char>,
)
    requires
        0 <= at < lines.len(),
        line_assignment(lines[at]) == Some(AssignmentView::Known(field, value)),
        forall|later: int|
            at < later < lines.len() ==> !sets_field(line_assignment(lines[later]), field),
    ensures
        parse_lines(lines).get(field) == value,
    decreases lines.len(),
{
    if at < lines.len() - 1 {
        assert(!sets_field(line_assignment(lines[lines.len() - 1]), field));
        law_last_line_for_a_field_wins(lines.drop_last(), at, field, value);
    }
}

/// A well-known key that no line sets stays empty.
pub proof fn law_unset_field_stays_empty(lines: Seq<Seq<char>>, field: Field)
    requires
        forall|i: int| 0 <= i < lines.len() ==> !sets_field(line_assignment(lines[i]), field),
    ensures
        parse_lines(lines).get(field) == Seq::<char>::empty(),
    decreases lines.len(),
{
    if lines.len() > 0 {
        assert(!sets_field(line_assignment(lines[lines.len() - 1]), field));
        law_unset_field_stays_empty(lines.drop_last(), field);
    }
}

/// The last line that gives a value to another key decides the value of that
/// key in the map.
pub proof fn law_last_line_for_a_key_wins(
    lines: Seq<Seq<char>>,
    at: int,
    key: Seq<char>,
    value: Seq<char>,
)
    requires
        0 <= at < lines.len(),
        line_assignment(lines[at]) == Some(AssignmentView::Other(key, value)),
        forall|later: int|
            at < later < lines.len() ==> !sets_key(line_assignment(lines[later]), key),
    ensures
        parse_lines(lines).extra.contains_key(key),
        parse_lines(lines).extra[key] == value,
    decreases lines.len(),
{
    if at < lines.len() - 1 {
        assert(!sets_key(line_assignment(lines[lines.len() - 1]), key));
        law_last_line_for_a_key_wins(lines.drop_last(), at, key, value);
    }
}

/// The map holds no key that no line gave a value to.
pub proof fn law_unmet_key_is_absent(lines: Seq<Seq<char>>, key: Seq<char>)
    requires
        forall|i: int| 0 <= i < lines.len() ==> !sets_key(line_assignment(lines[i]), key),
    ensures
        !parse_lines(lines).extra.contains_key(key),
    decreases lines.len(),
{
    if lines.len() > 0 {
        assert(!sets_key(line_assignment(lines[lines.len() - 1]), key));
        law_unmet_key_is_absent(lines.drop_last(), key);
    }
}

} // verus!
