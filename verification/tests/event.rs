use subrass::parser::event::{
    get_comment_events, get_dialogue_events, get_events_at_time, parse_events,
    sort_events_by_layer, sort_events_by_time,
};
use subrass::types::event::{Event, EventType};

#[test]
fn test_parse_events_basic() {
    let lines = vec![
        "Format: Layer, Start, End, Style, Name, MarginL, MarginR, MarginV, Effect, Text",
        "Dialogue: 0,0:00:01.00,0:00:04.00,Default,John,0,0,0,,Hello World!",
        "Comment: 0,0:00:00.00,0:00:30.00,Default,,0,0,0,,This is a comment",
    ];

    let events = parse_events(&lines, 0).unwrap();
    assert_eq!(events.len(), 2);
    assert_eq!(events[0].event_type, EventType::Dialogue);
    assert_eq!(events[1].event_type, EventType::Comment);
}

#[test]
fn test_multibyte_lines_skip_without_panicking() {
    let lines = vec![
        "éééééééééé,0:00:01.00,0:00:04.00,Default,,0,0,0,,x",
        "Dialogué: 0,0:00:01.00,0:00:04.00,Default,,0,0,0,,x",
        "Formaté: Layer, Start",
    ];
    let events = parse_events(&lines, 0).unwrap();
    assert!(events.is_empty());
    assert!(Event::parse_from_line("éééééééééé").is_err());
}

#[test]
fn test_reordered_format_columns() {
    let lines = vec![
        "Format: Start, End, Style, Text, Layer, Name, MarginL, MarginR, MarginV, Effect",
        "Dialogue: 0:00:01.00,0:00:04.00,Default,Hello,2,John,1,2,3,",
    ];
    assert!(parse_events(&lines, 0).is_err());

    let lines = vec![
        "Format: Style, Layer, Start, End, Name, MarginL, MarginR, MarginV, Effect, Text",
        "Dialogue: Default,2,0:00:01.00,0:00:04.00,John,1,2,3,,Hello, with comma",
    ];
    let events = parse_events(&lines, 0).unwrap();
    assert_eq!(events[0].layer, 2);
    assert_eq!(events[0].style, "Default");
    assert_eq!(events[0].margin_v, 3);
    assert_eq!(events[0].text, "Hello, with comma");
}

#[test]
fn test_ssa_marked_format() {
    let lines = vec![
        "Format: Marked, Start, End, Style, Name, MarginL, MarginR, MarginV, Effect, Text",
        "Dialogue: Marked=0,0:00:01.00,0:00:04.00,Default,,0,0,0,,Hello SSA",
    ];
    let events = parse_events(&lines, 0).unwrap();
    assert_eq!(events.len(), 1);
    assert_eq!(events[0].layer, 0);
    assert_eq!(events[0].text, "Hello SSA");
}

#[test]
fn test_unknown_columns_ignored() {
    let lines = vec![
        "Format: Layer, Start, End, Style, Future, Text",
        "Dialogue: 0,0:00:01.00,0:00:04.00,Default,whatever,Hello",
    ];
    let events = parse_events(&lines, 0).unwrap();
    assert_eq!(events[0].text, "Hello");
}

#[test]
fn test_missing_required_column_errors() {
    let lines = vec![
        "Format: Layer, Start, Style, Text",
        "Dialogue: 0,0:00:01.00,Default,Hello",
    ];
    assert!(parse_events(&lines, 0).is_err());
}

#[test]
fn test_malformed_numbers_error() {
    let lines = vec![
        "Format: Layer, Start, End, Style, Name, MarginL, MarginR, MarginV, Effect, Text",
        "Dialogue: abc,0:00:01.00,0:00:04.00,Default,,0,0,0,,Hello",
    ];
    assert!(parse_events(&lines, 0).is_err());

    let lines = vec![
        "Format: Layer, Start, End, Style, Name, MarginL, MarginR, MarginV, Effect, Text",
        "Dialogue: 0,0:00:01.00,0:00:04.00,Default,,xyz,0,0,,Hello",
    ];
    assert!(parse_events(&lines, 0).is_err());
}

#[test]
fn test_malformed_timestamp_errors() {
    let lines = vec![
        "Format: Layer, Start, End, Style, Name, MarginL, MarginR, MarginV, Effect, Text",
        "Dialogue: 0,0:99:99.99,0:00:04.00,Default,,0,0,0,,Hello",
    ];
    assert!(parse_events(&lines, 0).is_err());
}

#[test]
fn event_test_get_events_at_time() {
    let lines = vec![
        "Dialogue: 0,0:00:01.00,0:00:04.00,Default,,0,0,0,,Event 1",
        "Dialogue: 0,0:00:03.00,0:00:06.00,Default,,0,0,0,,Event 2",
        "Dialogue: 0,0:00:05.00,0:00:08.00,Default,,0,0,0,,Event 3",
    ];

    let events = parse_events(&lines, 0).unwrap();

    let active = get_events_at_time(&events, 2000);
    assert_eq!(active.len(), 1);
    assert_eq!(active[0].text, "Event 1");

    let active = get_events_at_time(&events, 3500);
    assert_eq!(active.len(), 2);

    let active = get_events_at_time(&events, 5500);
    assert_eq!(active.len(), 2);

    let active = get_events_at_time(&events, 0);
    assert!(active.is_empty());
}

#[test]
fn event_test_get_dialogue_events() {
    let lines = vec![
        "Dialogue: 0,0:00:01.00,0:00:04.00,Default,,0,0,0,,Hello",
        "Comment: 0,0:00:00.00,0:00:30.00,Default,,0,0,0,,Comment",
    ];

    let events = parse_events(&lines, 0).unwrap();
    let dialogues = get_dialogue_events(&events);
    assert_eq!(dialogues.len(), 1);
}

#[test]
fn test_sort_events_by_time() {
    let lines = vec![
        "Dialogue: 0,0:00:05.00,0:00:08.00,Default,,0,0,0,,Event 3",
        "Dialogue: 0,0:00:01.00,0:00:04.00,Default,,0,0,0,,Event 1",
        "Dialogue: 0,0:00:03.00,0:00:06.00,Default,,0,0,0,,Event 2",
    ];

    let mut events = parse_events(&lines, 0).unwrap();
    sort_events_by_time(&mut events);

    assert_eq!(events[0].text, "Event 1");
    assert_eq!(events[1].text, "Event 2");
    assert_eq!(events[2].text, "Event 3");
}

#[test]
fn test_layer_sort_is_stable() {
    let lines = vec![
        "Dialogue: 1,0:00:01.00,0:00:04.00,Default,,0,0,0,,First",
        "Dialogue: 1,0:00:01.00,0:00:04.00,Default,,0,0,0,,Second",
        "Dialogue: 0,0:00:01.00,0:00:04.00,Default,,0,0,0,,Third",
    ];
    let mut events = parse_events(&lines, 0).unwrap();
    sort_events_by_layer(&mut events);
    assert_eq!(events[0].text, "Third");
    assert_eq!(events[1].text, "First");
    assert_eq!(events[2].text, "Second");
}

#[test]
fn time_sort_keeps_equal_starts_in_order() {
    let lines = vec![
        "Dialogue: 0,0:00:02.00,0:00:04.00,Default,,0,0,0,,B1",
        "Dialogue: 0,0:00:01.00,0:00:04.00,Default,,0,0,0,,A",
        "Dialogue: 0,0:00:02.00,0:00:04.00,Default,,0,0,0,,B2",
        "Dialogue: 0,0:00:02.00,0:00:04.00,Default,,0,0,0,,B3",
    ];
    let mut events = parse_events(&lines, 0).unwrap();
    sort_events_by_time(&mut events);
    let texts: Vec<&str> = events.iter().map(|e| e.text.as_str()).collect();
    assert_eq!(texts, vec!["A", "B1", "B2", "B3"]);
}

#[test]
fn sorting_keeps_every_event() {
    let lines = vec![
        "Dialogue: 3,0:00:01.00,0:00:04.00,Default,,0,0,0,,a",
        "Dialogue: -1,0:00:01.00,0:00:04.00,Default,,0,0,0,,b",
        "Dialogue: 2,0:00:01.00,0:00:04.00,Default,,0,0,0,,c",
        "Comment: 0,0:00:01.00,0:00:04.00,Default,,0,0,0,,d",
    ];
    let mut events = parse_events(&lines, 0).unwrap();
    sort_events_by_layer(&mut events);
    let layers: Vec<i32> = events.iter().map(|e| e.layer).collect();
    assert_eq!(layers, vec![-1, 0, 2, 3]);
    let mut texts: Vec<&str> = events.iter().map(|e| e.text.as_str()).collect();
    texts.sort();
    assert_eq!(texts, vec!["a", "b", "c", "d"]);
}

#[test]
fn comment_filter_and_activity_bounds() {
    let lines = vec![
        "Dialogue: 0,0:00:01.00,0:00:02.00,Default,,0,0,0,,d",
        "Comment: 0,0:00:01.00,0:00:02.00,Default,,0,0,0,,c",
    ];
    let events = parse_events(&lines, 0).unwrap();
    assert_eq!(get_comment_events(&events).len(), 1);
    assert_eq!(get_comment_events(&events)[0].text, "c");
    // Start is inclusive, end exclusive.
    assert_eq!(get_events_at_time(&events, 1000).len(), 2);
    assert_eq!(get_events_at_time(&events, 2000).len(), 0);
}

#[test]
fn event_fields_are_read_and_trimmed() {
    let lines = vec!["Dialogue: 5, 0:00:01.50 ,1:02:03.04, Main , Bob ,10,20,30, Banner ,  text stays "];
    let events = parse_events(&lines, 0).unwrap();
    let e = &events[0];
    assert_eq!(e.layer, 5);
    assert_eq!(e.start.millis, 1500);
    assert_eq!(e.end.millis, 3_723_040);
    assert_eq!(e.style, "Main");
    assert_eq!(e.name, "Bob");
    assert_eq!((e.margin_l, e.margin_r, e.margin_v), (10, 20, 30));
    assert_eq!(e.effect, "Banner");
    // The line itself is trimmed; the text keeps its leading spaces.
    assert_eq!(e.text, "  text stays");
}

#[test]
fn event_errors_carry_line_numbers() {
    let lines = vec!["", "Dialogue: x,0:00:01.00,0:00:02.00,Default,,0,0,0,,t"];
    let err = parse_events(&lines, 40).unwrap_err();
    assert_eq!(err.message(), "Parse error at line 41: Invalid value for field layer: x");
}

#[test]
fn too_few_fields_is_a_count_mismatch() {
    let lines = vec!["Dialogue: 0,0:00:01.00,0:00:02.00"];
    let err = parse_events(&lines, 0).unwrap_err();
    assert_eq!(err.message(), "Parse error at line 0: Field count mismatch: expected 10, got 3");
}
