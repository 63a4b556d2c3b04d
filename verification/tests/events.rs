use nvs_shell::bridge::events::{
    parse_msg_show, parse_redraw_event, FormatError, MessageKind, ParseError, RedrawEvent,
};
use nvs_shell::bridge::value::{Integer, Utf8Str, Value};

fn s(text: &str) -> Value {
    Value::String(Utf8Str::Valid(text.to_string()))
}

fn n(x: u64) -> Value {
    Value::Integer(Integer::PosInt(x))
}

#[test]
fn grid_line_parses_repeat_and_inherited_highlight() {
    let v = Value::Array(vec![
        s("grid_line"),
        Value::Array(vec![
            n(2),
            n(0),
            n(0),
            Value::Array(vec![
                Value::Array(vec![s("a"), n(3)]),
                Value::Array(vec![s(" "), n(0), n(5)]),
                Value::Array(vec![s("b")]),
            ]),
            Value::Boolean(false),
        ]),
    ]);
    let events = parse_redraw_event(v).unwrap();
    match &events[0] {
        RedrawEvent::GridLine { grid, cells, .. } => {
            assert_eq!(*grid, 2);
            assert_eq!(cells[0].highlight_id, Some(3));
            assert_eq!(cells[1].repeat, Some(5));
            assert_eq!(cells[2].highlight_id, None);
        }
        other => panic!("{other:?}"),
    }
}

#[test]
fn unknown_events_are_skipped() {
    let v = Value::Array(vec![s("chdir"), Value::Array(vec![s("/tmp")])]);
    assert!(parse_redraw_event(v).unwrap().is_empty());
}

#[test]
fn msg_show_tolerates_old_and_new_arity() {
    let short = parse_msg_show(vec![s("echo"), Value::Array(vec![]), Value::Boolean(false)]).unwrap();
    assert!(matches!(short, RedrawEvent::MessageShow { append: false, .. }));
    let long = parse_msg_show(vec![
        s("echo"),
        Value::Array(vec![]),
        Value::Boolean(false),
        Value::Boolean(true),
        Value::Boolean(true),
        Value::Nil,
        s(""),
    ])
    .unwrap();
    assert!(matches!(long, RedrawEvent::MessageShow { append: true, .. }));
    assert!(matches!(long, RedrawEvent::MessageShow { kind: MessageKind::Echo, .. }));
}

#[test]
fn unknown_events_are_skipped_in_every_argument_list() {
    let v = Value::Array(vec![s("chdir"), Value::Array(vec![s("/a")]), Value::Array(vec![s("/b")])]);
    assert!(parse_redraw_event(v).unwrap().is_empty());
}

#[test]
fn a_batch_gives_one_event_per_argument_list() {
    let v = Value::Array(vec![s("grid_clear"), Value::Array(vec![n(1)]), Value::Array(vec![n(2)])]);
    let events = parse_redraw_event(v).unwrap();
    assert_eq!(events.len(), 2);
    assert!(matches!(events[0], RedrawEvent::Clear { grid: 1 }));
    assert!(matches!(events[1], RedrawEvent::Clear { grid: 2 }));
}

#[test]
fn an_empty_batch_is_an_error() {
    assert!(matches!(parse_redraw_event(Value::Array(vec![])), Err(ParseError::Format(FormatError::EmptyEvent))));
}

#[test]
fn a_batch_that_is_not_an_array_is_an_error() {
    assert!(matches!(parse_redraw_event(n(3)), Err(ParseError::Array(_))));
}

#[test]
fn a_failing_event_names_itself() {
    let v = Value::Array(vec![s("grid_clear"), Value::Array(vec![s("x")])]);
    match parse_redraw_event(v) {
        Err(ParseError::Format(FormatError::Event { name, params, error })) => {
            assert_eq!(name, "grid_clear");
            assert_eq!(params.len(), 1);
            assert!(matches!(*error, ParseError::U64(_)));
        }
        other => panic!("{other:?}"),
    }
}

#[test]
fn too_few_values_is_an_error() {
    let v = Value::Array(vec![s("grid_resize"), Value::Array(vec![n(1), n(2)])]);
    assert!(parse_redraw_event(v).is_err());
}
