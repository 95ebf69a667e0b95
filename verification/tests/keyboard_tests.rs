use rpn_calc::keyboard::{key_at, KeyName, Keyboard, ScanTally};

fn tally(count: u32, row: usize, col: usize) -> ScanTally {
    ScanTally { down_count: count, row, col }
}

#[test]
fn key_map_corners_and_digits() {
    assert_eq!(key_at(0, 0), KeyName::Exit);
    assert_eq!(key_at(0, 1), KeyName::Number(0));
    assert_eq!(key_at(0, 2), KeyName::DecimalPoint);
    assert_eq!(key_at(1, 4), KeyName::Number(3));
    assert_eq!(key_at(3, 4), KeyName::Number(9));
    assert_eq!(key_at(4, 0), KeyName::Enter);
    assert_eq!(key_at(4, 1), KeyName::Enter);
    assert_eq!(key_at(4, 4), KeyName::E);
    assert_eq!(key_at(4, 5), KeyName::Back);
    assert_eq!(key_at(7, 5), KeyName::Fn6);
}

#[test]
fn record_counts_high_levels() {
    let mut t = ScanTally::new();
    assert_eq!(t, tally(0, 0, 0));
    t.record(3, 2, false);
    assert_eq!(t, tally(0, 0, 0));
    t.record(3, 2, true);
    assert_eq!(t, tally(1, 3, 2));
    t.record(5, 4, true);
    assert_eq!(t, tally(2, 5, 4));
}

#[test]
fn held_key_is_reported_once() {
    let mut k = Keyboard::new();
    assert_eq!(k.scan(&tally(1, 4, 5)), Some(KeyName::Back));
    assert_eq!(k.scan(&tally(1, 4, 5)), None);
    assert_eq!(k.scan(&tally(1, 4, 5)), None);
}

#[test]
fn release_then_press_reports_again() {
    let mut k = Keyboard::new();
    assert_eq!(k.scan(&tally(1, 1, 1)), Some(KeyName::Number(1)));
    assert_eq!(k.scan(&tally(0, 0, 0)), None);
    assert_eq!(k.scan(&tally(1, 1, 1)), Some(KeyName::Number(1)));
}

#[test]
fn other_key_is_reported_while_one_held() {
    let mut k = Keyboard::new();
    assert_eq!(k.scan(&tally(1, 1, 1)), Some(KeyName::Number(1)));
    assert_eq!(k.scan(&tally(1, 1, 2)), Some(KeyName::Number(2)));
}

#[test]
fn several_keys_report_nothing_and_keep_held_key() {
    let mut k = Keyboard::new();
    assert_eq!(k.scan(&tally(1, 2, 1)), Some(KeyName::Number(4)));
    assert_eq!(k.scan(&tally(2, 2, 2)), None);
    assert_eq!(k.scan(&tally(1, 2, 1)), None);
}
