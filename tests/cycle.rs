use crossterm::event::KeyCode;
use mosaic_loader::cycle::{deliver_event, drain_output, menu_choice, prime_input, Step, PRIMING_INPUT};
use mosaic_loader::keys::{encode_key, is_quit_key, key_line, KeyPress, TermEvent};
use mosaic_loader::pipe::Pipe;
use mosaic_loader::render::to_raw_lines;

fn key(c: char) -> KeyPress {
    KeyPress { code: KeyCode::Char(c), modifiers: 0 }
}

#[test]
fn raw_lines_end_in_line_feed_then_carriage_return() {
    assert_eq!(to_raw_lines(b"a\nb"), b"a\n\rb\n\r".to_vec());
    assert_eq!(to_raw_lines(b"a\nb\n"), b"a\n\rb\n\r".to_vec());
    assert_eq!(to_raw_lines(b"a\r\nb"), b"a\n\rb\n\r".to_vec());
    assert_eq!(to_raw_lines(b"a\n\n"), b"a\n\r\n\r".to_vec());
}

#[test]
fn raw_lines_of_empty_text_is_one_empty_line() {
    assert_eq!(to_raw_lines(b""), b"\n\r".to_vec());
    assert_eq!(to_raw_lines(b"\n"), b"\n\r".to_vec());
}

#[test]
fn quit_key_ignores_modifiers() {
    assert!(is_quit_key(&key('q')));
    assert!(is_quit_key(&KeyPress { code: KeyCode::Char('q'), modifiers: 2 }));
    assert!(!is_quit_key(&key('Q')));
    assert!(!is_quit_key(&KeyPress { code: KeyCode::Esc, modifiers: 0 }));
}

#[test]
fn key_line_appends_crlf() {
    assert_eq!(key_line(b"{}"), b"{}\r\n".to_vec());
    assert_eq!(key_line(b""), b"\r\n".to_vec());
}

#[test]
fn encode_key_gives_one_json_line() {
    let line = encode_key(&key('a'));
    assert_eq!(line, b"{\"code\":{\"Char\":\"a\"},\"modifiers\":{\"bits\":0}}\r\n".to_vec());
    let enter = encode_key(&KeyPress { code: KeyCode::Enter, modifiers: 1 });
    assert_eq!(enter, b"{\"code\":\"Enter\",\"modifiers\":{\"bits\":1}}\r\n".to_vec());
}

#[test]
fn drain_renders_and_empties_output() {
    let mut out = Pipe::new();
    out.write(b"one\ntwo");
    assert_eq!(drain_output(&mut out), "one\n\rtwo\n\r");
    assert!(out.buffer.is_empty());
    assert_eq!(drain_output(&mut out), "\n\r");
}

#[test]
fn drain_keeps_ascii_text() {
    let mut out = Pipe::new();
    out.write(b"x = 1\r\ny = 2\n");
    assert_eq!(drain_output(&mut out), "x = 1\n\ry = 2\n\r");
}

#[test]
fn drain_survives_invalid_utf8() {
    let mut out = Pipe::new();
    out.write(&[0xc3, b'\n']);
    assert_eq!(drain_output(&mut out), "\u{FFFD}\n\r");
}

#[test]
fn output_is_rendered_one_cycle_later() {
    let mut out = Pipe::new();
    out.write(b"before");
    let first = drain_output(&mut out);
    out.write(b"during call");
    assert_eq!(first, "before\n\r");
    assert_eq!(drain_output(&mut out), "during call\n\r");
}

#[test]
fn non_key_event_leaves_input_empty() {
    let mut input = Pipe::new();
    input.write(b"stale line\r\n");
    assert_eq!(deliver_event(&mut input, &TermEvent::Other), Step::CallGuest);
    assert!(input.buffer.is_empty());
}

#[test]
fn quit_key_is_not_delivered() {
    let mut input = Pipe::new();
    input.write(b"stale");
    assert_eq!(deliver_event(&mut input, &TermEvent::Key(key('q'))), Step::Quit);
    assert!(input.buffer.is_empty());
}

#[test]
fn consecutive_keys_arrive_in_separate_cycles() {
    let mut input = Pipe::new();
    assert_eq!(deliver_event(&mut input, &TermEvent::Key(key('a'))), Step::CallGuest);
    let first = input.buffer.clone();
    assert_eq!(first, encode_key(&key('a')));
    assert_eq!(deliver_event(&mut input, &TermEvent::Key(key('b'))), Step::CallGuest);
    let second = input.buffer.clone();
    assert_eq!(second, encode_key(&key('b')));
    assert_eq!(first.iter().filter(|b| **b == b'\n').count(), 1);
    assert_eq!(second.iter().filter(|b| **b == b'\n').count(), 1);
    assert!(second.starts_with(b"{\"code\":{\"Char\":\"b\"}"));
}

#[test]
fn priming_appends_seed_line() {
    let mut input = Pipe::new();
    input.write(b">");
    prime_input(&mut input);
    assert_eq!(input.buffer, b">Here is a spicy input!\n".to_vec());
    assert_eq!(PRIMING_INPUT, "Here is a spicy input!\n");
}

#[test]
fn third_of_three_menu_entries() {
    assert_eq!(menu_choice(3, 3), Some(2));
    assert_eq!(menu_choice(1, 3), Some(0));
}

#[test]
fn menu_choice_out_of_range() {
    assert_eq!(menu_choice(0, 3), None);
    assert_eq!(menu_choice(4, 3), None);
}
