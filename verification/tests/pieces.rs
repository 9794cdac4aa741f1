use os_release::field::{
    EXTRA_PATTERN, FIELD_COUNT, ID_LIKE_PATTERN, NAME_PATTERN, VERSION_CODENAME_PATTERN,
};
use os_release::matching::take_group;
use os_release::order::{compare_bytes, compare_keys, Side};
use os_release::{parse_line, Assignment, ExtraMap, Field, OsRelease};

#[test]
fn fields_are_tried_in_their_order() {
    assert_eq!(FIELD_COUNT, 11);
    let order = [
        Field::Name,
        Field::Version,
        Field::Id,
        Field::IdLike,
        Field::PrettyName,
        Field::VersionId,
        Field::HomeUrl,
        Field::SupportUrl,
        Field::BugReportUrl,
        Field::PrivacyPolicyUrl,
        Field::VersionCodename,
    ];
    for (rank, field) in order.iter().enumerate() {
        assert_eq!(Field::by_rank(rank), *field);
    }
}

#[test]
fn each_field_has_its_pattern() {
    assert_eq!(NAME_PATTERN, "^NAME=\"?([^\"]+)\"?$");
    assert_eq!(Field::Name.pattern(), NAME_PATTERN);
    assert_eq!(Field::Version.pattern(), "^VERSION=\"?([^\"]+)\"?$");
    assert_eq!(Field::Id.pattern(), "^ID=\"?([^\"]+)\"?$");
    assert_eq!(Field::IdLike.pattern(), ID_LIKE_PATTERN);
    assert_eq!(Field::IdLike.pattern(), "^ID_LIKE=\"?([^\"]+)\"?$");
    assert_eq!(Field::PrettyName.pattern(), "^PRETTY_NAME=\"?([^\"]+)\"?$");
    assert_eq!(Field::VersionId.pattern(), "^VERSION_ID=\"?([^\"]+)\"?$");
    assert_eq!(Field::HomeUrl.pattern(), "^HOME_URL=\"?([^\"]+)\"?$");
    assert_eq!(Field::SupportUrl.pattern(), "^SUPPORT_URL=\"?([^\"]+)\"?$");
    assert_eq!(Field::BugReportUrl.pattern(), "^BUG_REPORT_URL=\"?([^\"]+)\"?$");
    assert_eq!(
        Field::PrivacyPolicyUrl.pattern(),
        "^PRIVACY_POLICY_URL=\"?([^\"]+)\"?$"
    );
    assert_eq!(Field::VersionCodename.pattern(), VERSION_CODENAME_PATTERN);
    assert_eq!(
        Field::VersionCodename.pattern(),
        "^VERSION_CODENAME=\"?([^\"]+)\"?$"
    );
    assert_eq!(EXTRA_PATTERN, "(\\w+)=\"?([^\"]+)\"?");
}

#[test]
fn a_group_is_taken_where_it_took_part() {
    let groups = Some(vec![
        Some("NAME=x".to_owned()),
        Some("x".to_owned()),
        None,
    ]);
    assert_eq!(take_group(&groups, 0), Some("NAME=x".to_owned()));
    assert_eq!(take_group(&groups, 1), Some("x".to_owned()));
    assert_eq!(take_group(&groups, 2), None);
    assert_eq!(take_group(&groups, 3), None);
    assert_eq!(take_group(&None, 0), None);
    assert_eq!(take_group(&Some(Vec::new()), 0), None);
}

#[test]
fn a_line_is_read_as_one_assignment() {
    assert_eq!(
        parse_line("NAME=\"Pop!_OS\""),
        Some(Assignment::Known(Field::Name, "Pop!_OS".to_owned()))
    );
    assert_eq!(
        parse_line("VERSION_CODENAME=bionic"),
        Some(Assignment::Known(
            Field::VersionCodename,
            "bionic".to_owned()
        ))
    );
    assert_eq!(
        parse_line("EXTRA_KEY=thing"),
        Some(Assignment::Other("EXTRA_KEY".to_owned(), "thing".to_owned()))
    );
    assert_eq!(parse_line("ANOTHER_KEY=\""), None);
    assert_eq!(parse_line("no assignment"), None);
    assert_eq!(parse_line("NAME=x"), parse_line("NAME=\"x\""));
    assert_ne!(parse_line("NAME=x"), parse_line("NAME=y"));
}

#[test]
fn an_assignment_changes_one_place() {
    let fields = [
        Field::Name,
        Field::Version,
        Field::Id,
        Field::IdLike,
        Field::PrettyName,
        Field::VersionId,
        Field::HomeUrl,
        Field::SupportUrl,
        Field::BugReportUrl,
        Field::PrivacyPolicyUrl,
        Field::VersionCodename,
    ];
    for (rank, field) in fields.iter().enumerate() {
        let mut release = OsRelease::default();
        release.assign(Assignment::Known(*field, "value".to_owned()));
        let read: [&String; 11] = [
            &release.name,
            &release.version,
            &release.id,
            &release.id_like,
            &release.pretty_name,
            &release.version_id,
            &release.home_url,
            &release.support_url,
            &release.bug_report_url,
            &release.privacy_policy_url,
            &release.version_codename,
        ];
        for (place, text) in read.iter().enumerate() {
            if place == rank {
                assert_eq!(text.as_str(), "value");
            } else {
                assert_eq!(text.as_str(), "");
            }
            assert_eq!(release.get(fields[place]), *text);
        }
        assert_eq!(release.extra.len(), 0);
    }

    let mut release = OsRelease::default();
    release.set(Field::Id, "first".to_owned());
    release.set(Field::Id, "second".to_owned());
    assert_eq!(release.id, "second");

    release.assign(Assignment::Other("NAME".to_owned(), "other".to_owned()));
    assert_eq!(release.name, "");
    assert_eq!(release.id, "second");
    assert_eq!(release.extra.get("NAME"), Some(&"other".to_owned()));
}

#[test]
fn bytes_are_compared_place_by_place() {
    assert_eq!(compare_bytes(b"", b""), Side::Same);
    assert_eq!(compare_bytes(b"", b"a"), Side::Before);
    assert_eq!(compare_bytes(b"a", b""), Side::After);
    assert_eq!(compare_bytes(b"abc", b"abc"), Side::Same);
    assert_eq!(compare_bytes(b"abc", b"abd"), Side::Before);
    assert_eq!(compare_bytes(b"abd", b"abc"), Side::After);
    assert_eq!(compare_bytes(b"ab", b"abc"), Side::Before);
    assert_eq!(compare_bytes(b"abc", b"ab"), Side::After);
    assert_eq!(compare_bytes(b"b", b"abc"), Side::After);
    assert_eq!(compare_bytes(&[0x7f], &[0x80]), Side::Before);
    assert_eq!(compare_bytes(&[0xff], &[0x00, 0x00]), Side::After);
}

#[test]
fn keys_are_ordered_as_strings_are() {
    let keys = ["", "A", "B", "Z", "_", "a", "ab", "b", "\u{e9}", "\u{4e2d}", "\u{1f600}"];
    for (i, first) in keys.iter().enumerate() {
        for (j, second) in keys.iter().enumerate() {
            let expected = if i < j {
                Side::Before
            } else if i == j {
                Side::Same
            } else {
                Side::After
            };
            assert_eq!(compare_keys(first, second), expected);
            assert_eq!(first < second, expected == Side::Before);
        }
    }
}

#[test]
fn the_map_keeps_one_value_for_each_key() {
    let mut map = ExtraMap::new();
    assert_eq!(map.len(), 0);
    assert_eq!(map.get("b"), None);

    assert_eq!(map.insert("b".to_owned(), "1".to_owned()), None);
    assert_eq!(map.insert("a".to_owned(), "2".to_owned()), None);
    assert_eq!(map.insert("c".to_owned(), "3".to_owned()), None);
    assert_eq!(map.insert("B".to_owned(), "4".to_owned()), None);
    assert_eq!(map.len(), 4);
    assert_eq!(
        map.insert("a".to_owned(), "5".to_owned()),
        Some("2".to_owned())
    );
    assert_eq!(map.len(), 4);

    assert_eq!(map.get("a"), Some(&"5".to_owned()));
    assert_eq!(map.get("b"), Some(&"1".to_owned()));
    assert_eq!(map.get("c"), Some(&"3".to_owned()));
    assert_eq!(map.get("B"), Some(&"4".to_owned()));
    assert_eq!(map.get("d"), None);
    assert_eq!(map.get(""), None);

    assert_eq!(
        map.entries(),
        &vec![
            ("B".to_owned(), "4".to_owned()),
            ("a".to_owned(), "5".to_owned()),
            ("b".to_owned(), "1".to_owned()),
            ("c".to_owned(), "3".to_owned()),
        ]
    );
}

#[test]
fn the_map_does_not_depend_on_the_order_of_arrival() {
    let keys = ["delta", "alpha", "echo", "charlie", "bravo", "alpha", "echo"];
    let mut forward = ExtraMap::new();
    for key in keys.iter() {
        forward.insert((*key).to_owned(), "v".to_owned());
    }
    let mut backward = ExtraMap::new();
    for key in keys.iter().rev() {
        backward.insert((*key).to_owned(), "v".to_owned());
    }
    assert_eq!(forward, backward);
    assert_eq!(forward.len(), 5);
    assert_eq!(forward.clone(), forward);
    let read: Vec<&str> = forward
        .entries()
        .iter()
        .map(|entry| entry.0.as_str())
        .collect();
    assert_eq!(read, vec!["alpha", "bravo", "charlie", "delta", "echo"]);
}
