use rpn_calc::calc::{Calc, KeyOutcome, Stack};
use rpn_calc::fixed::ByteBuf;
use rpn_calc::keyboard::KeyName;

fn bytes(s: &[u8]) -> ByteBuf {
    ByteBuf(heapless::Vec::from_slice(s).unwrap())
}

fn shown(calc: &mut Calc, key: KeyName) -> String {
    assert!(calc.accepts_key(Some(key)));
    match calc.process_key(Some(key)) {
        Some(KeyOutcome::Show(t)) => t.0.as_str().to_string(),
        _ => panic!("expected a line to show"),
    }
}

fn parse_text(calc: &mut Calc) -> Vec<u8> {
    match calc.process_key(Some(KeyName::Enter)) {
        Some(KeyOutcome::Parse(t)) => t.0.as_slice().to_vec(),
        _ => panic!("expected text to parse"),
    }
}

#[test]
fn stack_starts_at_zero() {
    let s = Stack::new();
    assert_eq!((s.x, s.y, s.z, s.a), (0, 0, 0, 0));
    assert_eq!(f64::from_bits(s.x), 0.0);
}

#[test]
fn stack_push_copies_x_up() {
    let mut s = Stack { x: 1, y: 2, z: 3, a: 4 };
    s.push();
    assert_eq!((s.x, s.y, s.z, s.a), (1, 1, 2, 3));
}

#[test]
fn stack_pop_drops_down() {
    let mut s = Stack { x: 1, y: 2, z: 3, a: 4 };
    s.pop();
    assert_eq!((s.x, s.y, s.z, s.a), (2, 3, 4, 4));
}

#[test]
fn stack_pop_after_push_restores() {
    let mut s = Stack { x: 5, y: 6, z: 7, a: 8 };
    s.push();
    s.pop();
    assert_eq!((s.x, s.y, s.z, s.a), (5, 6, 7, 7));
}

#[test]
fn no_key_does_nothing() {
    let mut c = Calc::new();
    assert!(c.process_key(None).is_none());
    assert_eq!(shown(&mut c, KeyName::Number(4)), "4_");
}

#[test]
fn digits_are_typed_before_the_cursor() {
    let mut c = Calc::new();
    assert_eq!(shown(&mut c, KeyName::Number(1)), "1_");
    assert_eq!(shown(&mut c, KeyName::Number(2)), "12_");
    assert_eq!(shown(&mut c, KeyName::DecimalPoint), "12._");
    assert_eq!(shown(&mut c, KeyName::Number(5)), "12.5_");
    assert_eq!(shown(&mut c, KeyName::DecimalPoint), "12.5_");
    assert_eq!(shown(&mut c, KeyName::E), "12.5e_");
    assert_eq!(shown(&mut c, KeyName::Number(3)), "12.5e3_");
    assert_eq!(shown(&mut c, KeyName::E), "12.5e3_");
}

#[test]
fn digits_above_nine_and_other_keys_change_nothing() {
    let mut c = Calc::new();
    assert_eq!(shown(&mut c, KeyName::Number(7)), "7_");
    assert_eq!(shown(&mut c, KeyName::Number(12)), "7_");
    assert_eq!(shown(&mut c, KeyName::Sin), "7_");
    assert_eq!(shown(&mut c, KeyName::XswapY), "7_");
}

#[test]
fn plus_minus_toggles_leading_minus() {
    let mut c = Calc::new();
    assert_eq!(shown(&mut c, KeyName::Number(9)), "9_");
    assert_eq!(shown(&mut c, KeyName::PlusMinus), "-9_");
    assert_eq!(shown(&mut c, KeyName::PlusMinus), "9_");
}

#[test]
fn enter_hands_back_text_without_cursor() {
    let mut c = Calc::new();
    shown(&mut c, KeyName::Number(1));
    shown(&mut c, KeyName::DecimalPoint);
    shown(&mut c, KeyName::Number(5));
    assert!(c.accepts_key(Some(KeyName::Enter)));
    assert_eq!(parse_text(&mut c), b"1.5".to_vec());
    // ENTER alone leaves the line as it was
    assert_eq!(shown(&mut c, KeyName::Number(0)), "1.50_");
}

#[test]
fn finish_enter_pushes_value_and_shows_text() {
    let mut c = Calc::new();
    c.stack = Stack { x: 1, y: 2, z: 3, a: 4 };
    shown(&mut c, KeyName::Number(2));
    let text = parse_text(&mut c);
    let value: f64 = std::str::from_utf8(&text).unwrap().parse().unwrap();
    assert_eq!(value, 2.0);
    let line = c.finish_enter(value.to_bits(), bytes(b"2e0")).unwrap();
    assert_eq!(line.0.as_str(), "2e0");
    assert_eq!(c.stack.x, 2.0f64.to_bits());
    assert_eq!(c.stack.y, 2.0f64.to_bits());
    assert_eq!(c.stack.z, 2);
    assert_eq!(c.stack.a, 3);
    // no cursor any more: the next digit starts a new number
    assert_eq!(shown(&mut c, KeyName::Number(3)), "3_");
}

#[test]
fn point_after_enter_starts_zero_point() {
    let mut c = Calc::new();
    c.finish_enter(0, bytes(b"0e0")).unwrap();
    assert_eq!(shown(&mut c, KeyName::DecimalPoint), "0._");
    assert_eq!(shown(&mut c, KeyName::Number(5)), "0.5_");
    assert_eq!(parse_text(&mut c), vec![0u8, b'.', b'5']);
}

#[test]
fn exponent_key_after_enter_goes_before_last_byte() {
    let mut c = Calc::new();
    c.finish_enter(0, bytes(b"12")).unwrap();
    assert_eq!(shown(&mut c, KeyName::E), "1e2");
}

#[test]
fn back_deletes_before_cursor() {
    let mut c = Calc::new();
    shown(&mut c, KeyName::Number(1));
    shown(&mut c, KeyName::Number(2));
    assert_eq!(shown(&mut c, KeyName::Back), "1_");
    assert_eq!(shown(&mut c, KeyName::Back), "0.000");
    // editing has ended: a digit starts a new number
    assert_eq!(shown(&mut c, KeyName::Number(4)), "4_");
}

#[test]
fn back_on_cursor_alone_does_nothing() {
    let mut c = Calc::new();
    assert_eq!(shown(&mut c, KeyName::Back), "_");
}

#[test]
fn back_without_cursor_deletes_last_byte() {
    let mut c = Calc::new();
    c.finish_enter(0, bytes(b"1e0")).unwrap();
    assert_eq!(shown(&mut c, KeyName::Back), "1e");
    assert_eq!(shown(&mut c, KeyName::Back), "1");
    assert_eq!(shown(&mut c, KeyName::Back), "1");
}

#[test]
fn empty_line_refuses_enter_and_sign() {
    let mut c = Calc::new();
    c.finish_enter(0, bytes(b"-")).unwrap();
    assert_eq!(shown(&mut c, KeyName::PlusMinus), "");
    assert!(!c.accepts_key(Some(KeyName::PlusMinus)));
    assert!(!c.accepts_key(Some(KeyName::Enter)));
    assert!(!c.accepts_key(Some(KeyName::E)));
    assert!(c.accepts_key(Some(KeyName::Back)));
    assert!(c.accepts_key(None));
    assert_eq!(shown(&mut c, KeyName::Number(8)), "8_");
}

#[test]
fn full_line_refuses_another_digit() {
    let mut c = Calc::new();
    for _ in 0..63 {
        shown(&mut c, KeyName::Number(1));
    }
    assert!(!c.accepts_key(Some(KeyName::Number(1))));
    assert!(!c.accepts_key(Some(KeyName::DecimalPoint)));
    assert!(!c.accepts_key(Some(KeyName::E)));
    assert!(!c.accepts_key(Some(KeyName::PlusMinus)));
    assert!(c.accepts_key(Some(KeyName::Back)));
    assert!(c.accepts_key(Some(KeyName::Number(10))));
    assert_eq!(shown(&mut c, KeyName::Back).len(), 63);
}

#[test]
fn convert_shows_small_values_as_digits() {
    let c = Calc::new();
    let t = c
        .convert_to_string(bytes(&[0, 1, 2, 3, 4, 5, 6, 7, 8, 9, 30, 95, b'-', b'e']))
        .unwrap();
    assert_eq!(t.0.as_str(), "0123456789B_-e");
}

#[test]
fn convert_wide_characters() {
    let c = Calc::new();
    let t = c.convert_to_string(bytes(&[200, b'a'])).unwrap();
    assert_eq!(t.0.as_str(), "\u{c8}a");
    assert_eq!(t.0.len(), 3);
}

#[test]
fn number_text_drops_only_a_trailing_cursor() {
    let c = Calc::new();
    assert_eq!(c.number_text(bytes(b"12_")).0.as_slice(), b"12");
    assert_eq!(c.number_text(bytes(b"12")).0.as_slice(), b"12");
    assert_eq!(c.number_text(bytes(b"_")).0.as_slice(), b"");
}
