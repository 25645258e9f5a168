use cubed::console::{command_text, ConsoleBook, ConsoleLine, BUFFER_LINES};
use cubed::error::CubedError;

fn line(id: u128, text: &str) -> ConsoleLine {
    ConsoleLine { server_id: id, is_stdout: true, text: text.to_string() }
}

#[test]
fn tail_empty_initially() {
    let book = ConsoleBook::new();
    assert!(book.tail(7, 10).is_empty());
}

#[test]
fn send_command_no_process_returns_error() {
    let book = ConsoleBook::new();
    assert!(book.command_target(42).is_err());
}

#[test]
fn buffer_stores_lines_up_to_limit() {
    let mut book = ConsoleBook::new();
    let id = 9;
    book.ensure_slot(id);
    for i in 0..(BUFFER_LINES + 10) {
        book.record_line(line(id, &format!("line {}", i)));
    }
    let tail = book.tail(id, BUFFER_LINES + 100);
    assert_eq!(tail.len(), BUFFER_LINES);
    assert_eq!(tail.last().unwrap().text, format!("line {}", BUFFER_LINES + 9));
    assert_eq!(tail[0].text, "line 10");
}

#[test]
fn attach_replays_buffer_and_delivers_future_lines() {
    let mut book = ConsoleBook::new();
    let id = 3;
    book.ensure_slot(id);
    for i in 0..3 {
        book.record_line(line(id, &format!("msg {}", i)));
    }
    let replay = book.attach(id);
    assert_eq!(replay.len(), 3);
    assert_eq!(replay[2].text, "msg 2");
    assert!(book.record_line(line(id, "new")));
    assert_eq!(book.tail(id, 1)[0].text, "new");
}

#[test]
fn lines_without_console_are_dropped() {
    let mut book = ConsoleBook::new();
    assert!(!book.record_line(line(5, "lost")));
    assert!(!book.has_slot(5));
    assert!(book.tail(5, 10).is_empty());
}

#[test]
fn command_needs_stdin() {
    let mut book = ConsoleBook::new();
    book.ensure_slot(1);
    assert!(matches!(book.command_target(1), Err(CubedError::StdinUnavailable)));
    assert!(matches!(book.command_target(2), Err(CubedError::NoConsole { server_id: 2 })));
    book.register_stdin(1);
    assert!(book.command_target(1).is_ok());
    book.detach(1);
    assert!(matches!(book.command_target(1), Err(CubedError::StdinUnavailable)));
    assert_eq!(command_text("say hi"), "say hi\n");
}

#[test]
fn tail_returns_last_lines_oldest_first() {
    let mut book = ConsoleBook::new();
    book.ensure_slot(4);
    for i in 0..5 {
        book.record_line(line(4, &format!("{}", i)));
    }
    let t: Vec<String> = book.tail(4, 2).into_iter().map(|l| l.text).collect();
    assert_eq!(t, vec!["3".to_string(), "4".to_string()]);
    assert_eq!(book.tail(4, 0).len(), 0);
}

#[test]
fn consoles_are_separate() {
    let mut book = ConsoleBook::new();
    book.ensure_slot(1);
    book.ensure_slot(2);
    book.record_line(line(1, "a"));
    assert_eq!(book.tail(1, 10).len(), 1);
    assert_eq!(book.tail(2, 10).len(), 0);
}

#[test]
fn lines_reach_a_listener_only_while_attached() {
    let mut book = ConsoleBook::new();
    book.ensure_slot(6);
    assert!(!book.record_line(line(6, "before")));
    let replay = book.attach(6);
    assert_eq!(replay.len(), 1);
    assert!(book.record_line(line(6, "during")));
    book.detach(6);
    assert!(!book.record_line(line(6, "after")));
    let t: Vec<String> = book.tail(6, 10).into_iter().map(|l| l.text).collect();
    assert_eq!(t, vec!["before".to_string(), "during".to_string(), "after".to_string()]);
}

#[test]
fn attach_creates_a_missing_slot() {
    let mut book = ConsoleBook::new();
    assert!(book.attach(8).is_empty());
    assert!(book.has_slot(8));
    assert!(book.record_line(line(8, "x")));
}
