use rpn_calc::stack::Stack;

#[test]
fn display_stack_starts_at_zero() {
    let mut s = Stack::new();
    assert_eq!(s.fetch_values(), (0, 0, 0, 0));
    assert!(!s.changed());
    assert_eq!(s.fetch_strs(), ("0.000", "0.000", "0.000", "0.000"));
}

#[test]
fn display_stack_push_and_pop() {
    let mut s = Stack::new();
    s.push(1);
    s.push(2);
    s.push(3);
    s.push(4);
    assert_eq!(s.fetch_values(), (4, 3, 2, 1));
    assert!(s.changed());
    s.push(5);
    assert_eq!(s.fetch_values(), (5, 4, 3, 2));
    assert_eq!(s.pop(), 5);
    assert_eq!(s.fetch_values(), (4, 3, 2, 2));
}

#[test]
fn display_stack_pop_returns_pushed() {
    let mut s = Stack::new();
    s.fill_y_to_t(7, 8, 9);
    s.push(42);
    assert_eq!(s.pop(), 42);
    assert_eq!(s.fetch_values(), (0, 7, 8, 8));
}

#[test]
fn display_stack_pop_sets_changed() {
    let mut s = Stack::new();
    s.pop();
    assert!(s.changed());
}

#[test]
fn display_stack_set_changed() {
    let mut s = Stack::new();
    s.set_changed();
    assert!(s.changed());
    assert_eq!(s.fetch_values(), (0, 0, 0, 0));
}

#[test]
fn display_stack_swaps() {
    let mut s = Stack::new();
    s.push(1);
    s.push(2);
    s.swapxy();
    assert_eq!((s.get_x(), s.get_y()), (1, 2));
    s.swapxy();
    assert_eq!((s.get_x(), s.get_y()), (2, 1));
    s.swapx_with_new_y(9);
    assert_eq!(s.fetch_values(), (1, 9, 0, 0));
}

#[test]
fn display_stack_clone_keeps_everything() {
    let mut s = Stack::new();
    s.push(3);
    let mut c = s.clone();
    assert_eq!(c.fetch_values(), (3, 0, 0, 0));
    assert!(c.changed());
    assert_eq!(c.fetch_strs().0, "0.000");
}

#[test]
fn display_stack_floats_round_trip() {
    let mut s = Stack::new();
    s.push(1.5f64.to_bits());
    assert_eq!(f64::from_bits(s.pop()), 1.5);
}
