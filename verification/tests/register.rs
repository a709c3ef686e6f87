use pincers::clipboard::collect_readable;
use pincers::register::{Register, RegisterSummary};

fn text(s: &str) -> String {
    s.to_string()
}

fn summary(r: &Register) -> (bool, String, usize) {
    match r.summarize() {
        RegisterSummary::Text(t, n) => (true, t, n),
        RegisterSummary::Blob(m, n) => (false, m, n),
    }
}

#[test]
fn insert_hands_back_what_was_there() {
    let mut r = Register::new();
    assert!(r.is_empty());
    assert_eq!(r.insert(text("text/plain"), vec![1]), None);
    assert!(!r.is_empty());
    assert_eq!(r.insert(text("text/plain"), vec![2, 3]), Some(vec![1]));
    assert_eq!(r.insert(text("image/png"), vec![4]), None);
    assert_eq!(r.get(&text("text/plain")), Some(&vec![2, 3]));
    assert_eq!(r.get(&text("image/png")), Some(&vec![4]));
    assert_eq!(r.get(&text("text/html")), None);
}

#[test]
fn clear_takes_everything_out() {
    let mut r = Register::default();
    r.insert(text("text/plain"), vec![1]);
    r.clear();
    assert!(r.is_empty());
    assert_eq!(r.get(&text("text/plain")), None);
}

#[test]
fn clones_hold_the_same() {
    let mut r = Register::new();
    r.insert(text("b"), vec![1]);
    r.insert(text("a"), vec![2]);
    let c = r.clone();
    r.clear();
    let entries: Vec<(String, Vec<u8>)> = c.into_iter().collect();
    assert_eq!(entries, vec![(text("b"), vec![1]), (text("a"), vec![2])]);
}

#[test]
fn walking_shows_every_entry_once() {
    let mut r = Register::new();
    r.insert(text("b"), vec![1]);
    r.insert(text("a"), vec![2]);
    r.insert(text("b"), vec![3]);
    let mut seen = Vec::new();
    for (mime, data) in &r {
        seen.push((mime.clone(), data.clone()));
    }
    assert_eq!(seen, vec![(text("b"), vec![3]), (text("a"), vec![2])]);
}

#[test]
fn empty_registers_have_no_text() {
    assert_eq!(summary(&Register::new()), (true, text(""), 0));
}

#[test]
fn short_text_is_shown() {
    let mut r = Register::new();
    r.insert(text("image/png"), vec![0; 10]);
    r.insert(text("text/plain"), "grüße".as_bytes().to_vec());
    assert_eq!(summary(&r), (true, text("grüße"), 7));
}

#[test]
fn text_of_full_length_is_shown() {
    let mut r = Register::new();
    r.insert(text("text/plain"), "ä".repeat(64).into_bytes());
    assert_eq!(summary(&r), (true, "ä".repeat(64), 128));
}

#[test]
fn long_text_is_ellipsized() {
    let mut r = Register::new();
    r.insert(text("text/plain"), "ä".repeat(65).into_bytes());
    assert_eq!(summary(&r), (true, format!("{}...", "ä".repeat(61)), 130));
}

#[test]
fn text_that_is_not_utf8_is_patched() {
    let mut r = Register::new();
    r.insert(text("text/plain"), vec![b'a', 0xff, b'b']);
    assert_eq!(summary(&r), (true, text("a\u{fffd}b"), 3));
}

#[test]
fn other_data_is_a_blob() {
    let mut r = Register::new();
    r.insert(text("image/png"), vec![0; 10]);
    r.insert(text("text/html"), vec![0; 3]);
    assert_eq!(summary(&r), (false, text("image/png"), 10));
}

#[test]
fn summaries_of_text() {
    match RegisterSummary::of_text(text("abc"), 3) {
        RegisterSummary::Text(t, n) => assert_eq!((t, n), (text("abc"), 3)),
        RegisterSummary::Blob(..) => panic!("not a text"),
    }
}

#[test]
fn bytes_are_counted() {
    let mut r = Register::new();
    assert_eq!(r.byte_count(), Some(0));
    r.insert(text("a"), vec![0; 4]);
    r.insert(text("b"), vec![0; 5]);
    r.insert(text("a"), vec![0; 1]);
    assert_eq!(r.byte_count(), Some(6));
}

#[test]
fn unreadable_data_is_left_out() {
    let r = collect_readable(vec![
        (text("a"), Some(vec![1])),
        (text("b"), None),
        (text("c"), Some(vec![])),
    ]);
    let entries: Vec<(String, Vec<u8>)> = r.into_iter().collect();
    assert_eq!(entries, vec![(text("a"), vec![1]), (text("c"), vec![])]);
}
