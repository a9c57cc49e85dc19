use cmdpool::source::WorkSource;

fn lines(items: &[&str]) -> Vec<String> {
    items.iter().map(|s| s.to_string()).collect()
}

#[test]
fn source_hands_out_in_arrival_order() {
    let mut source = WorkSource::new(lines(&["first", "second", "third"]));
    assert_eq!(source.len(), 3);
    assert_eq!(source.position(), 0);
    assert_eq!(source.next(), Some("first".to_string()));
    assert_eq!(source.position(), 1);
    assert_eq!(source.next(), Some("second".to_string()));
    assert_eq!(source.next(), Some("third".to_string()));
    assert_eq!(source.position(), 3);
}

#[test]
fn source_stays_exhausted() {
    let mut source = WorkSource::new(lines(&["only"]));
    assert!(!source.is_exhausted());
    assert_eq!(source.next(), Some("only".to_string()));
    assert!(source.is_exhausted());
    for _ in 0..5 {
        assert_eq!(source.next(), None);
        assert_eq!(source.position(), 1);
        assert!(source.is_exhausted());
    }
}

#[test]
fn empty_source_is_exhausted_from_the_start() {
    let mut source = WorkSource::new(Vec::new());
    assert_eq!(source.len(), 0);
    assert!(source.is_exhausted());
    assert_eq!(source.next(), None);
    assert_eq!(source.position(), 0);
}

#[test]
fn source_keeps_equal_lines_apart() {
    let mut source = WorkSource::new(lines(&["same", "same"]));
    assert_eq!(source.next(), Some("same".to_string()));
    assert!(!source.is_exhausted());
    assert_eq!(source.next(), Some("same".to_string()));
    assert_eq!(source.next(), None);
}

#[test]
fn source_does_not_alter_command_text() {
    let text = "  echo 'a b'  | wc -c ; true\t";
    let mut source = WorkSource::new(lines(&[text, ""]));
    assert_eq!(source.next(), Some(text.to_string()));
    assert_eq!(source.next(), Some(String::new()));
    assert_eq!(source.next(), None);
}
