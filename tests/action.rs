use fsy::action::{get_ns_split, template_msg_with_ns, ActionNamespace, CommAction};
use fsy::text::{decimal_string, parse_i64, parse_u8, signed_decimal_string, split_once};

fn s(x: &str) -> String {
    x.to_string()
}

#[test]
fn test_action_ns_to_u8() {
    let test_values = [
        (ActionNamespace::Unknown, 0),
        (ActionNamespace::SendMessage, 1),
        (ActionNamespace::TargetHasChanged, 2),
        (ActionNamespace::RequestTarget, 3),
        (ActionNamespace::DownloadTarget, 4),
        (ActionNamespace::DownloadDone, 5),
        (ActionNamespace::RequestTargetTimestamp, 6),
        (ActionNamespace::TargetTimestamp, 7),
    ];

    for spec in test_values {
        let action_u8 = spec.0.to_u8();
        assert_eq!(action_u8, spec.1);
    }
}

#[test]
fn test_action_ns_from() {
    let test_values = [
        ("a".to_string(), ActionNamespace::Unknown),
        ("abc".to_string(), ActionNamespace::Unknown),
        ("-1".to_string(), ActionNamespace::Unknown),
        ("_1".to_string(), ActionNamespace::Unknown),
        ("1234".to_string(), ActionNamespace::Unknown),
        ("1".to_string(), ActionNamespace::SendMessage),
        ("2".to_string(), ActionNamespace::TargetHasChanged),
        ("3".to_string(), ActionNamespace::RequestTarget),
        ("4".to_string(), ActionNamespace::DownloadTarget),
        ("5".to_string(), ActionNamespace::DownloadDone),
        ("6".to_string(), ActionNamespace::RequestTargetTimestamp),
        ("7".to_string(), ActionNamespace::TargetTimestamp),
    ];

    for spec in test_values {
        let action = ActionNamespace::from(spec.0);
        assert_eq!(action, spec.1);
    }
}

#[test]
fn test_action_get_ns_split() {
    let test_values = [
        ("a", ActionNamespace::Unknown, ""),
        ("0]]::foo", ActionNamespace::Unknown, "foo"),
        ("1]]::foo", ActionNamespace::SendMessage, "foo"),
        ("2]]::bar", ActionNamespace::TargetHasChanged, "bar"),
        ("3]]::zed", ActionNamespace::RequestTarget, "zed"),
        ("4]]::zinga", ActionNamespace::DownloadTarget, "zinga"),
        ("5]]::foo bar", ActionNamespace::DownloadDone, "foo bar"),
        (
            "6]]::zed zinga",
            ActionNamespace::RequestTargetTimestamp,
            "zed zinga",
        ),
        ("7]]::", ActionNamespace::TargetTimestamp, ""),
    ];

    for spec in test_values {
        let (action, raw) = get_ns_split(spec.0);
        assert_eq!(action, spec.1);
        assert_eq!(raw, spec.2);
    }
}

#[test]
fn test_action_template_msg_with_ns() {
    let test_values = [
        (ActionNamespace::Unknown, "", "0]]::"),
        (ActionNamespace::Unknown, "foo", "0]]::foo"),
        (ActionNamespace::SendMessage, "foo", "1]]::foo"),
        (ActionNamespace::TargetHasChanged, "bar", "2]]::bar"),
        (ActionNamespace::RequestTarget, "zed", "3]]::zed"),
        (ActionNamespace::DownloadTarget, "zinga", "4]]::zinga"),
        (ActionNamespace::DownloadDone, "foo bar", "5]]::foo bar"),
        (
            ActionNamespace::RequestTargetTimestamp,
            "zed zinga",
            "6]]::zed zinga",
        ),
        (ActionNamespace::TargetTimestamp, "", "7]]::"),
    ];

    for spec in test_values {
        let result = template_msg_with_ns(spec.0, spec.1);
        assert_eq!(result, spec.2);
    }
}

#[test]
fn decode_target_has_changed() {
    let action = CommAction::from_namespaced_msg("nodeA", "2]]::photos;vacation/img1.jpg");
    assert_eq!(
        action,
        CommAction::TargetHasChanged(s("nodeA"), s("photos"), s("vacation/img1.jpg"))
    );
}

#[test]
fn encode_target_timestamp() {
    let action = CommAction::TargetTimestamp(s("nodeB"), s("docs"), 1700000000);
    assert_eq!(
        action.to_send_message(),
        CommAction::SendMessage(s("nodeB"), s("7]]::docs;1700000000"))
    );
}

#[test]
fn encode_each_variant() {
    let cases = [
        (
            CommAction::TargetHasChanged(s("n"), s("g"), s("a/b")),
            "2]]::g;a/b",
        ),
        (CommAction::RequestTarget(s("n"), s("g"), s("x.txt")), "3]]::g;x.txt"),
        (
            CommAction::DownloadTarget(s("n"), s("g"), s("x.txt"), s("tk")),
            "4]]::g;x.txt;tk",
        ),
        (CommAction::DownloadDone(s("n"), s("tk")), "5]]::tk"),
        (CommAction::RequestTargetTimestamp(s("n"), s("g")), "6]]::g"),
        (CommAction::TargetTimestamp(s("n"), s("g"), -5), "7]]::g;-5"),
    ];
    for (action, payload) in cases {
        assert_eq!(action.to_send_message(), CommAction::SendMessage(s("n"), s(payload)));
    }
    let send = CommAction::SendMessage(s("n"), s("1]]::raw"));
    assert_eq!(send.to_send_message(), send);
    assert_eq!(CommAction::Unknown.to_send_message(), CommAction::Unknown);
}

#[test]
fn codec_round_trip_each_variant() {
    let actions = [
        CommAction::TargetHasChanged(s("peer"), s("photos"), s("a;b/c.jpg")),
        CommAction::TargetHasChanged(s("peer"), s("photos"), s("")),
        CommAction::RequestTarget(s("peer"), s("docs"), s("x.txt")),
        CommAction::DownloadTarget(s("peer"), s("docs"), s("x.txt"), s("blobabc123")),
        CommAction::DownloadDone(s("peer"), s("blob;with;semicolons")),
        CommAction::RequestTargetTimestamp(s("peer"), s("docs")),
        CommAction::TargetTimestamp(s("peer"), s("docs"), 1700000000),
        CommAction::TargetTimestamp(s("peer"), s("docs"), -86400),
        CommAction::TargetTimestamp(s("peer"), s("docs"), 0),
    ];
    for action in actions {
        match action.to_send_message() {
            CommAction::SendMessage(to, payload) => {
                assert_eq!(to, "peer");
                assert_eq!(CommAction::from_namespaced_msg(&to, &payload), action);
            }
            other => panic!("not a send: {:?}", other),
        }
    }
}

#[test]
fn decode_outside_grammar_is_unknown() {
    let raws = [
        "",
        "abc",
        "2]]",
        "0]]::foo",
        "8]]::foo",
        "256]]::foo",
        "x]]::foo",
        "2]]::no-separator",
        "3]]::no-separator",
        "4]]::a;b",
        "4]]::a;b;c;d",
        "7]]::docs",
        "7]]::docs;soon",
        "7]]::docs;99999999999999999999",
        "7]]::docs;9223372036854775807",
    ];
    for raw in raws {
        assert_eq!(CommAction::from_namespaced_msg("n", raw), CommAction::Unknown, "{raw}");
    }
}

#[test]
fn decode_simple_bodies() {
    assert_eq!(
        CommAction::from_namespaced_msg("n", "1]]::anything;at]]::all"),
        CommAction::SendMessage(s("n"), s("anything;at]]::all"))
    );
    assert_eq!(
        CommAction::from_namespaced_msg("n", "5]]::tk-1"),
        CommAction::DownloadDone(s("n"), s("tk-1"))
    );
    assert_eq!(
        CommAction::from_namespaced_msg("n", "6]]::docs"),
        CommAction::RequestTargetTimestamp(s("n"), s("docs"))
    );
    assert_eq!(
        CommAction::from_namespaced_msg("n", "+2]]::g;r"),
        CommAction::TargetHasChanged(s("n"), s("g"), s("r"))
    );
    assert_eq!(
        CommAction::from_namespaced_msg("n", "7]]::docs;-12"),
        CommAction::TargetTimestamp(s("n"), s("docs"), -12)
    );
}

#[test]
fn numerals_read_and_write() {
    assert_eq!(parse_u8("0"), Some(0));
    assert_eq!(parse_u8("255"), Some(255));
    assert_eq!(parse_u8("256"), None);
    assert_eq!(parse_u8("+7"), Some(7));
    assert_eq!(parse_u8("007"), Some(7));
    assert_eq!(parse_u8(""), None);
    assert_eq!(parse_u8("+"), None);
    assert_eq!(parse_u8("-0"), None);
    assert_eq!(parse_i64("-9223372036854775808"), Some(i64::MIN));
    assert_eq!(parse_i64("9223372036854775807"), Some(i64::MAX));
    assert_eq!(parse_i64("9223372036854775808"), None);
    assert_eq!(parse_i64("-"), None);
    assert_eq!(parse_i64("12a"), None);
    assert_eq!(decimal_string(0), "0");
    assert_eq!(decimal_string(1700000000), "1700000000");
    assert_eq!(signed_decimal_string(i64::MIN), "-9223372036854775808");
    assert_eq!(signed_decimal_string(42), "42");
}

#[test]
fn split_once_takes_first_separator() {
    assert_eq!(split_once("a;b;c", ";"), Some((s("a"), s("b;c"))));
    assert_eq!(split_once("abc", ";"), None);
    assert_eq!(split_once("7]]::]]::x", "]]::"), Some((s("7"), s("]]::x"))));
    assert_eq!(split_once("é;ü", ";"), Some((s("é"), s("ü"))));
}
