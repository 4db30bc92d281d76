use yt_cli::overlay::{add_line, remove_line, thumbnail_path, OverlayCommand, OverlayConsumer, OverlayLifecycle};
use yt_cli::text::{parse_columns, to_decimal};

const REMOVE: &str = "{\"action\":\"remove\",\"identifier\":\"preview\"}";

fn add(path: &str, x: u64, w: u64) -> String {
    format!(
        "{{\"action\":\"add\",\"identifier\":\"preview\",\"path\":\"{}\",\"x\":{},\"y\":0,\"width\":{},\"scaler\":\"contain\",\"scaling_position_x\":0.5,\"scaling_position_y\":0.5}}",
        path, x, w
    )
}

#[test]
fn protocol_lines() {
    assert_eq!(remove_line(), REMOVE);
    assert_eq!(thumbnail_path("/c", "abc"), "/c/thumb/abc.jpg");
    assert_eq!(add_line("/c", "abc", 83, 80), add("/c/thumb/abc.jpg", 83, 80));
}

#[test]
fn remove_then_add_writes_one_add_for_the_new_video() {
    let mut c = OverlayConsumer::new("/c".to_string());
    assert_eq!(c.handle(OverlayCommand::Add("old".to_string(), 40)), Some(add("/c/thumb/old.jpg", 43, 40)));
    assert_eq!(c.handle(OverlayCommand::Remove), Some(REMOVE.to_string()));
    assert_eq!(c.handle_resize("100"), None);
    assert_eq!(c.handle(OverlayCommand::Add("new".to_string(), 80)), Some(add("/c/thumb/new.jpg", 83, 80)));
    assert_eq!(c.last_shown, Some("new".to_string()));
}

#[test]
fn resize_replays_current_image_in_right_half() {
    let mut c = OverlayConsumer::new("/c".to_string());
    assert_eq!(c.handle_resize("120"), None);
    c.handle(OverlayCommand::Add("abc".to_string(), 50));
    assert_eq!(c.handle_resize(" 120\n"), Some(add("/c/thumb/abc.jpg", 61, 60)));
    assert_eq!(c.handle_resize("garbage"), Some(add("/c/thumb/abc.jpg", 1, 0)));
    assert_eq!(c.handle_resize(""), Some(add("/c/thumb/abc.jpg", 1, 0)));
}

#[test]
fn shutdown_stops_and_nothing_follows() {
    let mut c = OverlayConsumer::new("/c".to_string());
    let queued = vec![
        OverlayCommand::Add("a".to_string(), 10),
        OverlayCommand::Remove,
        OverlayCommand::Shutdown,
        OverlayCommand::Add("b".to_string(), 10),
        OverlayCommand::Remove,
    ];
    let mut written = Vec::new();
    for cmd in queued {
        if let Some(line) = c.handle(cmd) {
            written.push(line);
        }
    }
    assert_eq!(written, vec![add("/c/thumb/a.jpg", 13, 10), REMOVE.to_string()]);
    assert!(!c.running);
    assert_eq!(c.handle_resize("80"), None);
}

#[test]
fn largest_width_does_not_overflow() {
    let mut c = OverlayConsumer::new("/c".to_string());
    let w = usize::MAX;
    let line = c.handle(OverlayCommand::Add("v".to_string(), w)).unwrap();
    let expected = add("/c/thumb/v.jpg", 0, 0)
        .replace("\"x\":0", &format!("\"x\":{}", (w as u128) + 3))
        .replace("\"width\":0", &format!("\"width\":{}", w));
    assert_eq!(line, expected);
}

#[test]
fn lifecycle_starts_once_and_never_again() {
    let mut l = OverlayLifecycle::new();
    assert!(!l.accepts_commands());
    assert!(l.begin());
    assert!(l.accepts_commands());
    assert!(!l.begin());
    assert!(l.finish());
    assert_eq!(l, OverlayLifecycle::Terminated);
    assert!(!l.accepts_commands());
    assert!(!l.begin());
    assert!(!l.finish());
}

#[test]
fn lifecycle_finished_before_start() {
    let mut l = OverlayLifecycle::new();
    assert!(!l.finish());
    assert!(!l.begin());
    assert_eq!(l, OverlayLifecycle::Terminated);
}

#[test]
fn terminal_width_parsing() {
    assert_eq!(parse_columns("80"), 80);
    assert_eq!(parse_columns("  80 \n"), 80);
    assert_eq!(parse_columns("+7"), 7);
    assert_eq!(parse_columns("4294967295"), 4294967295);
    assert_eq!(parse_columns("4294967296"), 0);
    assert_eq!(parse_columns("99999999999999999999"), 0);
    assert_eq!(parse_columns(""), 0);
    assert_eq!(parse_columns("+"), 0);
    assert_eq!(parse_columns("-1"), 0);
    assert_eq!(parse_columns("8 0"), 0);
    assert_eq!(parse_columns("\u{3000}42\u{a0}"), 42);
}

#[test]
fn decimal_rendering() {
    assert_eq!(to_decimal(0), "0");
    assert_eq!(to_decimal(7), "7");
    assert_eq!(to_decimal(1234567890), "1234567890");
    assert_eq!(to_decimal(u128::MAX), u128::MAX.to_string());
}
