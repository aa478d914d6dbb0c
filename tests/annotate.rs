use diag_annotate::{annotate_record, annotations, format_line, json_string, json_u64, severity, Json};

fn s(text: &str) -> Json {
    Json::Str(text.to_string())
}

fn obj(members: Vec<(&str, Json)>) -> Json {
    Json::Object(members.into_iter().map(|(k, v)| (k.to_string(), v)).collect())
}

fn full_span() -> Json {
    obj(vec![
        ("file_name", s("a.rs")),
        ("column_start", Json::Unsigned(1)),
        ("column_end", Json::Unsigned(2)),
        ("line_start", Json::Unsigned(3)),
        ("line_end", Json::Unsigned(4)),
    ])
}

fn diagnostic(level: &str, message: &str, spans: Vec<Json>) -> Json {
    obj(vec![("level", s(level)), ("message", s(message)), ("spans", Json::Array(spans))])
}

#[test]
fn error_with_full_span() {
    let lines = annotations(&diagnostic("error", "oops", vec![full_span()]));
    assert_eq!(lines, vec!["::error file=a.rs,col=1,endColumn=2,line=3,endLine=4::oops".to_string()]);
}

#[test]
fn help_is_written_as_notice() {
    let lines = annotations(&diagnostic("help", "try this", vec![full_span()]));
    assert_eq!(lines, vec!["::notice file=a.rs,col=1,endColumn=2,line=3,endLine=4::try this".to_string()]);
}

#[test]
fn warning_keeps_its_name() {
    let lines = annotations(&diagnostic("warning", "w", vec![full_span()]));
    assert_eq!(lines, vec!["::warning file=a.rs,col=1,endColumn=2,line=3,endLine=4::w".to_string()]);
}

#[test]
fn severity_table() {
    assert_eq!(severity(&"error".to_string()), Some("error".to_string()));
    assert_eq!(severity(&"help".to_string()), Some("notice".to_string()));
    assert_eq!(severity(&"warning".to_string()), Some("warning".to_string()));
    assert_eq!(severity(&"note".to_string()), None);
    assert_eq!(severity(&"Error".to_string()), None);
}

#[test]
fn unknown_level_gives_no_line_but_children_do() {
    let child = diagnostic("error", "inner", vec![full_span()]);
    let node = obj(vec![
        ("children", Json::Array(vec![child])),
        ("level", s("note")),
        ("message", s("outer")),
        ("spans", Json::Array(vec![full_span()])),
    ]);
    let lines = annotations(&node);
    assert_eq!(lines, vec!["::error file=a.rs,col=1,endColumn=2,line=3,endLine=4::inner".to_string()]);
}

#[test]
fn absent_file_keeps_the_space() {
    let span = obj(vec![("column_start", Json::Unsigned(5))]);
    let line = format_line(&"error".to_string(), &span, &"message".to_string());
    assert_eq!(line, "::error ,col=5::message");
}

#[test]
fn span_without_fields() {
    let line = format_line(&"warning".to_string(), &obj(vec![]), &"m".to_string());
    assert_eq!(line, "::warning ::m");
}

#[test]
fn mistyped_fields_are_left_out() {
    let span = obj(vec![
        ("file_name", Json::Unsigned(7)),
        ("column_start", s("1")),
        ("column_end", Json::OtherNumber),
        ("line_start", Json::Unsigned(3)),
        ("line_end", Json::Null),
    ]);
    let line = format_line(&"error".to_string(), &span, &"x".to_string());
    assert_eq!(line, "::error ,line=3::x");
}

#[test]
fn only_file_name() {
    let span = obj(vec![("file_name", s("src/lib.rs"))]);
    let line = format_line(&"notice".to_string(), &span, &"m".to_string());
    assert_eq!(line, "::notice file=src/lib.rs::m");
}

#[test]
fn numbers_in_base_ten() {
    let span = obj(vec![
        ("column_start", Json::Unsigned(0)),
        ("column_end", Json::Unsigned(10)),
        ("line_start", Json::Unsigned(1203)),
        ("line_end", Json::Unsigned(u64::MAX)),
    ]);
    let line = format_line(&"error".to_string(), &span, &"m".to_string());
    assert_eq!(line, "::error ,col=0,endColumn=10,line=1203,endLine=18446744073709551615::m");
}

#[test]
fn text_is_not_escaped() {
    let span = obj(vec![("file_name", s("a:b,c=d"))]);
    let line = format_line(&"error".to_string(), &span, &"two\nlines::here".to_string());
    assert_eq!(line, "::error file=a:b,c=d::two\nlines::here");
}

#[test]
fn missing_spans_give_no_line() {
    let node = obj(vec![("level", s("error")), ("message", s("oops"))]);
    assert!(annotations(&node).is_empty());
}

#[test]
fn empty_or_mistyped_spans_give_no_line() {
    assert!(annotations(&diagnostic("error", "oops", vec![])).is_empty());
    let node = obj(vec![("level", s("error")), ("message", s("oops")), ("spans", full_span())]);
    assert!(annotations(&node).is_empty());
}

#[test]
fn missing_or_mistyped_level_or_message_gives_no_line() {
    let no_level = obj(vec![("message", s("oops")), ("spans", Json::Array(vec![full_span()]))]);
    assert!(annotations(&no_level).is_empty());
    let no_message = obj(vec![("level", s("error")), ("spans", Json::Array(vec![full_span()]))]);
    assert!(annotations(&no_message).is_empty());
    let null_message = obj(vec![
        ("level", s("error")),
        ("message", Json::Null),
        ("spans", Json::Array(vec![full_span()])),
    ]);
    assert!(annotations(&null_message).is_empty());
}

#[test]
fn empty_node_gives_nothing() {
    let node = obj(vec![("children", Json::Array(vec![]))]);
    assert!(annotations(&node).is_empty());
}

#[test]
fn children_come_first_in_order() {
    let first = diagnostic("warning", "first", vec![obj(vec![("line_start", Json::Unsigned(1))])]);
    let grandchild = diagnostic("help", "deep", vec![obj(vec![("line_start", Json::Unsigned(2))])]);
    let second = obj(vec![
        ("children", Json::Array(vec![grandchild])),
        ("level", s("error")),
        ("message", s("second")),
        ("spans", Json::Array(vec![obj(vec![("line_start", Json::Unsigned(3))])])),
    ]);
    let node = obj(vec![
        ("level", s("error")),
        ("message", s("parent")),
        ("spans", Json::Array(vec![obj(vec![("line_start", Json::Unsigned(4))])])),
        ("children", Json::Array(vec![first, second])),
    ]);
    let lines = annotations(&node);
    assert_eq!(
        lines,
        vec![
            "::warning ,line=1::first".to_string(),
            "::notice ,line=2::deep".to_string(),
            "::error ,line=3::second".to_string(),
            "::error ,line=4::parent".to_string(),
        ]
    );
}

#[test]
fn one_line_per_span_in_order() {
    let spans = vec![
        obj(vec![("file_name", s("a.rs"))]),
        obj(vec![("file_name", s("b.rs"))]),
        obj(vec![("file_name", s("c.rs"))]),
    ];
    let lines = annotations(&diagnostic("error", "e", spans));
    assert_eq!(
        lines,
        vec!["::error file=a.rs::e".to_string(), "::error file=b.rs::e".to_string(), "::error file=c.rs::e".to_string()]
    );
}

#[test]
fn record_message_is_annotated() {
    let record = obj(vec![("reason", s("compiler-message")), ("message", diagnostic("error", "oops", vec![full_span()]))]);
    assert_eq!(
        annotate_record(&record),
        vec!["::error file=a.rs,col=1,endColumn=2,line=3,endLine=4::oops".to_string()]
    );
}

#[test]
fn records_without_message_are_skipped() {
    assert!(annotate_record(&obj(vec![("reason", s("build-finished"))])).is_empty());
    assert!(annotate_record(&Json::Array(vec![diagnostic("error", "oops", vec![full_span()])])).is_empty());
    assert!(annotate_record(&s("message")).is_empty());
    assert!(annotate_record(&Json::Null).is_empty());
}

#[test]
fn first_member_of_a_name_is_read() {
    let node = obj(vec![
        ("level", s("error")),
        ("level", s("note")),
        ("message", s("m")),
        ("spans", Json::Array(vec![obj(vec![])])),
    ]);
    assert_eq!(annotations(&node), vec!["::error ::m".to_string()]);
}

#[test]
fn typed_field_readers() {
    let v = obj(vec![("a", s("x")), ("b", Json::Unsigned(9)), ("c", Json::OtherNumber)]);
    assert_eq!(json_string(v.get(&"a".to_string())), Some("x".to_string()));
    assert_eq!(json_string(v.get(&"b".to_string())), None);
    assert_eq!(json_string(v.get(&"z".to_string())), None);
    assert_eq!(json_u64(v.get(&"b".to_string())), Some(9));
    assert_eq!(json_u64(v.get(&"a".to_string())), None);
    assert_eq!(json_u64(v.get(&"c".to_string())), None);
    assert_eq!(json_u64(None), None);
    assert!(s("x").get(&"a".to_string()).is_none());
}
