//! The calculation: a four-register stack and the editing of the number
//! being keyed in. Key presses edit a buffer of bytes that is shown, with a
//! trailing `_` cursor while a number is being typed, as the x line.
//!
//! Registers hold the bit pattern (`f64::to_bits`) of an `f64`, so that the
//! value 0 is `+0.0`. Turning text into a number and a number into text is
//! floating-point work done by the caller: on ENTER, `process_key` hands
//! back the text to convert, and `finish_enter` takes the converted value and
//! its `{:e}` text.
use vstd::prelude::*;

use crate::fixed::{
    bytes_as_slice, bytes_clear, bytes_clone, bytes_insert, bytes_new, bytes_of, bytes_pop,
    bytes_push, bytes_remove, char_width, chars_of, text_new, text_push, utf8_len, ByteBuf, TextBuf,
    CAPACITY,
};
use crate::keyboard::KeyName;

verus! {

/// The cursor shown after the number being typed: `_`.
pub const UNDERSCORE: u8 = 95;

/// The decimal point: `.`.
pub const DP: u8 = 46;

/// The upper-case exponent letter `E`, whose removal clears the exponent flag.
pub const E: u8 = 69;

/// The byte shown as `B` on the display.
pub const PLUSMINUS: u8 = 30;

/// The exponent marker typed by the `E` key: `e`.
pub const EXPONENT: u8 = 101;

/// The minus sign: `-`.
pub const MINUS: u8 = 45;

/// The digit `0`.
pub const ZERO: u8 = 48;

/// The four registers x, y, z and a.
#[derive(Debug, Clone, Copy, PartialEq, Eq, Structural)]
pub struct Stack {
    pub x: u64,
    pub y: u64,
    pub z: u64,
    pub a: u64,
}

/// The stack after a push: y takes x, z takes y, a takes z; x stays.
pub open spec fn pushed(s: Stack) -> Stack {
    Stack { x: s.x, y: s.x, z: s.y, a: s.z }
}

/// The stack after a pop: x takes y, y takes z, z takes a; a stays.
pub open spec fn popped(s: Stack) -> Stack {
    Stack { x: s.y, y: s.z, z: s.a, a: s.a }
}

impl Stack {
    /// All four registers at zero.
    pub fn new() -> (s: Stack)
        ensures
            s == (Stack { x: 0, y: 0, z: 0, a: 0 }),
    {
        Stack { x: 0, y: 0, z: 0, a: 0 }
    }

    /// Lifts the stack, leaving x in both x and y.
    pub fn push(&mut self)
        ensures
            *final(self) == pushed(*old(self)),
    {
        self.a = self.z;
        self.z = self.y;
        self.y = self.x;
    }

    /// Drops the stack, leaving a in both a and z.
    pub fn pop(&mut self)
        ensures
            *final(self) == popped(*old(self)),
    {
        self.x = self.y;
        self.y = self.z;
        self.z = self.a;
    }
}

/// A pop after a push gives back x, y and z; a then holds the old z.
pub proof fn lemma_pop_undoes_push(s: Stack)
    ensures
        popped(pushed(s)) == (Stack { x: s.x, y: s.y, z: s.z, a: s.z }),
{
}

/// The state of the calculator as the contracts see it.
pub ghost struct CalcState {
    /// The bytes of the x line being edited.
    pub buffer: Seq<u8>,
    pub has_point: bool,
    /// Whether a number is being typed.
    pub editing: bool,
    pub has_exponent: bool,
    pub is_negative: bool,
    pub stack: Stack,
}

/// The calculator: the line being edited, its flags, and the stack.
pub struct Calc {
    num_buffer: ByteBuf,
    num_has_point: bool,
    editing: bool,
    num_has_exponent: bool,
    num_is_negative: bool,
    pub stack: Stack,
}

/// What a key press asks the caller to do.
pub enum KeyOutcome {
    /// Show this text as the x line.
    Show(TextBuf),
    /// ENTER: turn this text into a number, then call `Calc::finish_enter`.
    Parse(ByteBuf),
}

/// Every byte is ASCII.
pub open spec fn is_ascii_bytes(b: Seq<u8>) -> bool {
    forall|i: int| 0 <= i < b.len() ==> #[trigger] b[i] < 128
}

/// The character the display shows for byte `b`: the digit for the values
/// 0 to 9, `B` for `PLUSMINUS`, and otherwise the character with code `b`.
pub open spec fn shown_char(b: u8) -> char {
    if b <= 9 {
        (b + ZERO) as char
    } else if b == PLUSMINUS {
        'B'
    } else {
        b as char
    }
}

/// The characters the display shows for a buffer.
pub open spec fn shown(b: Seq<u8>) -> Seq<char> {
    b.map_values(|c: u8| shown_char(c))
}

/// The text that ENTER converts to a number: the buffer without its last
/// byte when that byte is the cursor.
pub open spec fn entry_text(b: Seq<u8>) -> Seq<u8> {
    if b.last() == UNDERSCORE {
        b.drop_last()
    } else {
        b
    }
}

/// The line `0.000`, shown when the last digit is deleted.
pub open spec fn zero_text() -> Seq<u8> {
    seq![ZERO, DP, ZERO, ZERO, ZERO]
}

/// `b` with `c` put in front of its last byte.
pub open spec fn before_last(b: Seq<u8>, c: u8) -> Seq<u8> {
    b.insert(b.len() - 1, c)
}

/// The state after a key other than ENTER:
/// - a digit starts a new number (`d_`) when no cursor is shown, and is
///   typed in front of the last byte otherwise;
/// - `.` does nothing when the line has a point, is typed in front of the
///   last byte while editing, and otherwise starts the number `0._`, whose
///   first byte is the value 0 (shown as the digit 0);
/// - `E` types `e` in front of the last byte unless the line has one;
/// - `+/-` removes a leading `-`, or else puts one in front;
/// - BACK, on a line of two bytes or more, deletes the last byte, or the
///   byte in front of the cursor; deleting the only digit leaves `0.000`
///   and ends editing; deleting `.` clears the point flag and deleting `E`
///   the exponent flag;
/// - every other key changes nothing.
pub open spec fn after_key(s: CalcState, key: KeyName) -> CalcState {
    let b = s.buffer;
    match key {
        KeyName::Number(n) => {
            if n > 9 {
                s
            } else if !b.contains(UNDERSCORE) {
                CalcState { buffer: seq![(n + ZERO) as u8, UNDERSCORE], editing: true, ..s }
            } else {
                CalcState { buffer: before_last(b, (n + ZERO) as u8), ..s }
            }
        },
        KeyName::DecimalPoint => {
            if b.contains(DP) {
                s
            } else if s.editing {
                CalcState { buffer: before_last(b, DP), ..s }
            } else {
                CalcState { buffer: seq![0u8, DP, UNDERSCORE], editing: true, ..s }
            }
        },
        KeyName::E => {
            if b.contains(EXPONENT) {
                s
            } else {
                CalcState { buffer: before_last(b, EXPONENT), ..s }
            }
        },
        KeyName::PlusMinus => {
            if b[0] == MINUS {
                CalcState { buffer: b.remove(0), ..s }
            } else {
                CalcState { buffer: b.insert(0, MINUS), ..s }
            }
        },
        KeyName::Back => {
            if b.len() <= 1 {
                s
            } else {
                let last = b.last();
                let rest = b.drop_last();
                CalcState {
                    buffer: if last != UNDERSCORE {
                        rest
                    } else if rest.len() > 1 {
                        rest.drop_last().push(UNDERSCORE)
                    } else {
                        zero_text()
                    },
                    editing: if last == UNDERSCORE && rest.len() <= 1 {
                        false
                    } else {
                        s.editing
                    },
                    has_point: s.has_point && last != DP,
                    has_exponent: s.has_exponent && last != E,
                    ..s
                }
            }
        },
        _ => s,
    }
}

/// The keys the calculator takes in state `s` without failing: a digit or
/// `.` typed in front of the last byte, `E`, and `+/-` adding a sign need
/// a byte to go in front of and room for one more; ENTER and `+/-` need
/// a line that is not empty.
pub open spec fn key_allowed(s: CalcState, key: Option<KeyName>) -> bool {
    let b = s.buffer;
    match key {
        Some(KeyName::Number(n)) => n > 9 || !b.contains(UNDERSCORE) || b.len() < CAPACITY,
        Some(KeyName::DecimalPoint) => b.contains(DP) || !s.editing || (0 < b.len() < CAPACITY),
        Some(KeyName::Enter) => b.len() > 0,
        Some(KeyName::E) => b.contains(EXPONENT) || (0 < b.len() < CAPACITY),
        Some(KeyName::PlusMinus) => b.len() > 0 && (b[0] == MINUS || b.len() < CAPACITY),
        _ => true,
    }
}

/// The cursor is shown exactly while a number is being typed, and then once,
/// as the last byte.
pub open spec fn cursor_consistent(s: CalcState) -> bool {
    if s.editing {
        s.buffer.len() > 0 && s.buffer.last() == UNDERSCORE && !s.buffer.drop_last().contains(
            UNDERSCORE,
        )
    } else {
        !s.buffer.contains(UNDERSCORE)
    }
}

impl View for Calc {
    type V = CalcState;

    closed spec fn view(&self) -> CalcState {
        CalcState {
            buffer: bytes_of(self.num_buffer),
            has_point: self.num_has_point,
            editing: self.editing,
            has_exponent: self.num_has_exponent,
            is_negative: self.num_is_negative,
            stack: self.stack,
        }
    }
}

/// Whether `v` holds `c`.
fn has_byte(v: &ByteBuf, c: u8) -> (r: bool)
    ensures
        r == bytes_of(*v).contains(c),
{
    let s = bytes_as_slice(v);
    let mut i: usize = 0;
    while i < s.len()
        invariant
            s@ == bytes_of(*v),
            i <= s.len(),
            forall|j: int| 0 <= j < i ==> s@[j] != c,
        decreases s.len() - i,
    {
        if s[i] == c {
            return true;
        }
        i = i + 1;
    }
    false
}

/// The display character for byte `b`.
fn display_char(b: u8) -> (c: char)
    ensures
        c == shown_char(b),
{
    if b <= 9 {
        (b + ZERO) as char
    } else if b == PLUSMINUS {
        'B'
    } else {
        b as char
    }
}

/// The UTF-8 length of a prefix grows by the width of the next character.
proof fn lemma_utf8_len_take(s: Seq<char>, i: int)
    requires
        0 <= i < s.len(),
    ensures
        utf8_len(s.take(i + 1)) == utf8_len(s.take(i)) + char_width(s[i]),
{
    assert(s.take(i + 1).drop_last() =~= s.take(i));
}

/// The UTF-8 length of a prefix is at most that of the whole.
proof fn lemma_utf8_len_prefix(s: Seq<char>, i: int)
    requires
        0 <= i <= s.len(),
    ensures
        utf8_len(s.take(i)) <= utf8_len(s),
    decreases s.len() - i,
{
    if i < s.len() {
        lemma_utf8_len_take(s, i);
        lemma_utf8_len_prefix(s, i + 1);
    } else {
        assert(s.take(i) =~= s);
    }
}

/// An ASCII buffer shows as one byte per character.
proof fn lemma_ascii_shown_len(b: Seq<u8>)
    requires
        is_ascii_bytes(b),
    ensures
        utf8_len(shown(b)) == b.len(),
    decreases b.len(),
{
    if b.len() > 0 {
        let t = b.drop_last();
        assert(shown(b).drop_last() =~= shown(t));
        lemma_ascii_shown_len(t);
    }
}

/// A key taken in a well-formed state leaves at most 64 ASCII bytes.
proof fn lemma_after_key_wf(s: CalcState, k: KeyName)
    requires
        s.buffer.len() <= CAPACITY,
        is_ascii_bytes(s.buffer),
        key_allowed(s, Some(k)),
    ensures
        after_key(s, k).buffer.len() <= CAPACITY,
        is_ascii_bytes(after_key(s, k).buffer),
{
    let b = s.buffer;
    match k {
        KeyName::Number(d) => {
            if d <= 9 && b.contains(UNDERSCORE) {
                b.insert_ensures(b.len() - 1, (d + ZERO) as u8);
            }
        },
        KeyName::DecimalPoint => {
            if !b.contains(DP) && s.editing {
                b.insert_ensures(b.len() - 1, DP);
            }
        },
        KeyName::E => {
            if !b.contains(EXPONENT) {
                b.insert_ensures(b.len() - 1, EXPONENT);
            }
        },
        KeyName::PlusMinus => {
            if b[0] == MINUS {
                b.remove_ensures(0);
            } else {
                b.insert_ensures(0, MINUS);
            }
        },
        _ => {},
    }
}

/// Law: every key taken keeps the cursor shown exactly while a number is
/// typed, and then once, as the last byte.
pub proof fn lemma_key_keeps_cursor(s: CalcState, k: KeyName)
    requires
        cursor_consistent(s),
        key_allowed(s, Some(k)),
    ensures
        cursor_consistent(after_key(s, k)),
{
    let b = s.buffer;
    let n = after_key(s, k).buffer;
    match k {
        KeyName::Number(d) => {
            if d <= 9 && b.contains(UNDERSCORE) {
                let c = (d + ZERO) as u8;
                assert(n.drop_last() =~= b.drop_last().push(c));
                assert(n.last() == UNDERSCORE);
            } else if d <= 9 {
                assert(n.drop_last() =~= seq![(d + ZERO) as u8]);
            }
        },
        KeyName::DecimalPoint => {
            if !b.contains(DP) && s.editing {
                assert(n.drop_last() =~= b.drop_last().push(DP));
            } else if !b.contains(DP) {
                assert(n.drop_last() =~= seq![0u8, DP]);
            }
        },
        KeyName::E => {
            if !b.contains(EXPONENT) {
                if s.editing {
                    assert(n.drop_last() =~= b.drop_last().push(EXPONENT));
                } else {
                    assert(n =~= b.drop_last().push(EXPONENT).push(b.last()));
                    assert(b =~= b.drop_last().push(b.last()));
                }
            }
        },
        KeyName::PlusMinus => {
            if b[0] == MINUS {
                if s.editing {
                    assert(n.drop_last() =~= b.drop_last().remove(0));
                } else {
                    assert(n =~= b.subrange(1, b.len() as int));
                }
            } else {
                if s.editing {
                    assert(n.drop_last() =~= b.drop_last().insert(0, MINUS));
                } else {
                    assert(n =~= seq![MINUS] + b);
                }
            }
        },
        KeyName::Back => {
            if b.len() > 1 {
                let rest = b.drop_last();
                if b.last() == UNDERSCORE && rest.len() > 1 {
                    assert(n.drop_last() =~= rest.drop_last());
                } else if b.last() != UNDERSCORE {
                    assert(b =~= rest.push(b.last()));
                }
            }
        },
        _ => {},
    }
}

/// Law: a push copies x into y and moves y to z and z to a; a pop moves
/// y to x, z to y and a to z, keeping a.
pub proof fn lemma_stack_moves(s: Stack)
    ensures
        pushed(s).x == s.x && pushed(s).y == s.x && pushed(s).z == s.y && pushed(s).a == s.z,
        popped(s).x == s.y && popped(s).y == s.z && popped(s).z == s.a && popped(s).a == s.a,
{
}

/// Law: no key changes the stack or the sign flag; only BACK changes the
/// point and exponent flags, and only by clearing them.
pub proof fn lemma_key_keeps_stack(s: CalcState, k: KeyName)
    ensures
        after_key(s, k).stack == s.stack,
        after_key(s, k).is_negative == s.is_negative,
        after_key(s, k).has_point ==> s.has_point,
        after_key(s, k).has_exponent ==> s.has_exponent,
        k != KeyName::Back ==> after_key(s, k).has_point == s.has_point
            && after_key(s, k).has_exponent == s.has_exponent,
{
}

/// Law: a digit key above 9, and every key other than the digits, the
/// point, E, +/- and BACK, leaves the state as it is.
pub proof fn lemma_other_keys_inert(s: CalcState, k: KeyName)
    requires
        match k {
            KeyName::Number(n) => n > 9,
            KeyName::DecimalPoint | KeyName::E | KeyName::PlusMinus | KeyName::Back => false,
            _ => true,
        },
    ensures
        after_key(s, k) == s,
{
}

/// Law: while a number is typed (the line is its text `t` then the cursor
/// `_`), a digit `n` is appended to `t` as the character `'0' + n`, and the
/// cursor stays last.
pub proof fn lemma_digit_typed(s: CalcState, t: Seq<u8>, n: u8)
    requires
        n <= 9,
        s.buffer == t.push(95u8),
    ensures
        after_key(s, KeyName::Number(n)) == (CalcState {
            buffer: t.push((48 + n) as u8).push(95u8),
            ..s
        }),
{
    assert(s.buffer.contains(95u8)) by {
        assert(s.buffer[t.len() as int] == 95u8);
    }
    assert(before_last(s.buffer, (n + ZERO) as u8) =~= t.push((48 + n) as u8).push(95u8));
}

/// Law: on a line without cursor, a digit `n` starts the new number
/// `'0' + n` followed by the cursor, and editing starts.
pub proof fn lemma_digit_starts_number(s: CalcState, n: u8)
    requires
        n <= 9,
        !s.buffer.contains(95u8),
    ensures
        after_key(s, KeyName::Number(n)) == (CalcState {
            buffer: seq![(48 + n) as u8, 95u8],
            editing: true,
            ..s
        }),
{
}

/// Law: while a number without a point is typed, `.` is appended to its
/// text before the cursor.
pub proof fn lemma_point_typed(s: CalcState, t: Seq<u8>)
    requires
        s.editing,
        s.buffer == t.push(95u8),
        !t.contains(46u8),
    ensures
        after_key(s, KeyName::DecimalPoint) == (CalcState {
            buffer: t.push(46u8).push(95u8),
            ..s
        }),
{
    assert(!s.buffer.contains(46u8)) by {
        if s.buffer.contains(46u8) {
            let i = choose|i: int| 0 <= i < s.buffer.len() && s.buffer[i] == 46u8;
            assert(t[i] == 46u8);
        }
    }
    assert(before_last(s.buffer, DP) =~= t.push(46u8).push(95u8));
}

/// Law: when no number is typed and the line has no point, `.` starts the
/// number whose bytes are the value 0, `.` and the cursor; editing starts.
pub proof fn lemma_point_starts_number(s: CalcState)
    requires
        !s.editing,
        !s.buffer.contains(46u8),
    ensures
        after_key(s, KeyName::DecimalPoint) == (CalcState {
            buffer: seq![0u8, 46u8, 95u8],
            editing: true,
            ..s
        }),
{
}

/// Law: a line that has a point already ignores `.`; a line that has an
/// exponent marker `e` already ignores E.
pub proof fn lemma_point_and_exponent_once(s: CalcState)
    ensures
        s.buffer.contains(46u8) ==> after_key(s, KeyName::DecimalPoint) == s,
        s.buffer.contains(101u8) ==> after_key(s, KeyName::E) == s,
{
}

/// Law: on a line without `e` whose last byte is `c`, E puts `e` in front
/// of `c`, editing or not.
pub proof fn lemma_exponent_typed(s: CalcState, t: Seq<u8>, c: u8)
    requires
        s.buffer == t.push(c),
        !s.buffer.contains(101u8),
    ensures
        after_key(s, KeyName::E) == (CalcState { buffer: t.push(101u8).push(c), ..s }),
{
    assert(before_last(s.buffer, EXPONENT) =~= t.push(101u8).push(c));
}

/// Law: +/- on a line that does not start with `-` puts `-` in front of
/// it, and on a line that does, takes that `-` off; nothing else changes,
/// whether a number is being typed or not.
pub proof fn lemma_plus_minus(s: CalcState)
    requires
        s.buffer.len() > 0,
    ensures
        s.buffer[0] != 45u8 ==> after_key(s, KeyName::PlusMinus) == (CalcState {
            buffer: seq![45u8] + s.buffer,
            ..s
        }),
        s.buffer[0] == 45u8 ==> seq![45u8] + after_key(s, KeyName::PlusMinus).buffer == s.buffer,
        after_key(s, KeyName::PlusMinus) == (CalcState {
            buffer: after_key(s, KeyName::PlusMinus).buffer,
            ..s
        }),
{
    if s.buffer[0] != 45u8 {
        assert(s.buffer.insert(0, MINUS) =~= seq![45u8] + s.buffer);
    } else {
        assert(seq![45u8] + s.buffer.remove(0) =~= s.buffer);
    }
}

/// Law: +/- twice gives back the state it started from, on a line that is
/// not empty and does not start with two `-` (a lone `-` is emptied, and
/// of two leading `-` the second is taken off next).
pub proof fn lemma_plus_minus_twice(s: CalcState)
    requires
        s.buffer.len() > 0,
        s.buffer[0] != 45u8 || (s.buffer.len() > 1 && s.buffer[1] != 45u8),
    ensures
        after_key(after_key(s, KeyName::PlusMinus), KeyName::PlusMinus) == s,
{
    let b = s.buffer;
    if b[0] != 45u8 {
        assert(b.insert(0, MINUS)[0] == MINUS);
        assert(b.insert(0, MINUS).remove(0) =~= b);
    } else {
        assert(b.remove(0)[0] == b[1]);
        assert(b.remove(0).insert(0, MINUS) =~= b);
    }
}

/// Law: BACK while a number `t c` is typed (line `t c _`, with `t` not
/// empty) deletes `c` and keeps the cursor; the flags stay.
pub proof fn lemma_back_typed(s: CalcState, t: Seq<u8>, c: u8)
    requires
        s.buffer == t.push(c).push(95u8),
        t.len() > 0,
    ensures
        after_key(s, KeyName::Back) == (CalcState { buffer: t.push(95u8), ..s }),
{
    assert(s.buffer.drop_last() =~= t.push(c));
    assert(t.push(c).drop_last() =~= t);
}

/// Law: BACK on the last typed character (line `c _`) leaves the line
/// `0.000` and ends editing.
pub proof fn lemma_back_last_digit(s: CalcState, c: u8)
    requires
        s.buffer == seq![c, 95u8],
    ensures
        after_key(s, KeyName::Back) == (CalcState {
            buffer: seq![48u8, 46u8, 48u8, 48u8, 48u8],
            editing: false,
            ..s
        }),
{
    assert(s.buffer.drop_last() =~= seq![c]);
    assert(zero_text() =~= seq![48u8, 46u8, 48u8, 48u8, 48u8]);
}

/// Law: BACK on a line `t c` of two bytes or more that does not end in the
/// cursor deletes `c`; deleting `.` clears the point flag and deleting `E`
/// the exponent flag.
pub proof fn lemma_back_plain(s: CalcState, t: Seq<u8>, c: u8)
    requires
        s.buffer == t.push(c),
        c != 95u8,
        t.len() > 0,
    ensures
        after_key(s, KeyName::Back) == (CalcState {
            buffer: t,
            has_point: s.has_point && c != 46u8,
            has_exponent: s.has_exponent && c != 69u8,
            ..s
        }),
{
    assert(s.buffer.drop_last() =~= t);
}

/// Law: BACK on a line of at most one byte does nothing.
pub proof fn lemma_back_short(s: CalcState)
    requires
        s.buffer.len() <= 1,
    ensures
        after_key(s, KeyName::Back) == s,
{
}

/// Law: the text ENTER converts is the line without its trailing cursor:
/// a line `t _` gives `t`, and a line not ending in the cursor is taken
/// whole. Either way it is a prefix of the line.
pub proof fn lemma_entry_text(t: Seq<u8>, c: u8)
    ensures
        entry_text(t.push(95u8)) == t,
        c != 95u8 ==> entry_text(t.push(c)) == t.push(c),
{
    assert(t.push(95u8).drop_last() =~= t);
}

/// Law: ENTER is taken exactly on a line that is not empty, whether a
/// number is being typed or not.
pub proof fn lemma_enter_allowed(s: CalcState)
    ensures
        key_allowed(s, Some(KeyName::Enter)) <==> s.buffer.len() > 0,
{
}

/// Law: every key is taken on a line that is neither empty nor full, BACK
/// and no key always; the refusals are the inputs that would fail: an
/// empty line refuses ENTER and +/-, and a full line being typed refuses
/// a digit.
pub proof fn lemma_keys_allowed(s: CalcState, k: KeyName)
    ensures
        0 < s.buffer.len() < 64 ==> key_allowed(s, Some(k)),
        key_allowed(s, Some(KeyName::Back)),
        key_allowed(s, None),
        s.buffer.len() == 0 ==> !key_allowed(s, Some(KeyName::Enter)) && !key_allowed(
            s,
            Some(KeyName::PlusMinus),
        ),
        s.buffer.len() >= 64 && s.buffer.contains(95u8) ==> !key_allowed(
            s,
            Some(KeyName::Number(0)),
        ),
        !s.buffer.contains(95u8) ==> key_allowed(s, Some(KeyName::Number(0))),
{
}

/// Law: exactly when each editing key is taken: a digit unless a cursor is
/// shown on a full line; `.` unless, with no point on the line and a number
/// being typed, the line is empty or full; E unless, with no `e` on the
/// line, it is empty or full; ENTER on any line that is not empty; +/- on a
/// line that is not empty and either starts with `-` or is not full.
pub proof fn lemma_key_allowed_exactly(s: CalcState, n: u8)
    ensures
        key_allowed(s, Some(KeyName::Number(n))) <==> (n > 9 || !s.buffer.contains(95u8)
            || s.buffer.len() < 64),
        key_allowed(s, Some(KeyName::DecimalPoint)) <==> (s.buffer.contains(46u8) || !s.editing
            || (0 < s.buffer.len() < 64)),
        key_allowed(s, Some(KeyName::E)) <==> (s.buffer.contains(101u8) || (0 < s.buffer.len()
            < 64)),
        key_allowed(s, Some(KeyName::Enter)) <==> s.buffer.len() > 0,
        key_allowed(s, Some(KeyName::PlusMinus)) <==> (s.buffer.len() > 0 && (s.buffer[0] == 45u8
            || s.buffer.len() < 64)),
{
}

/// Law: the display shows one character per byte: the digit `'0' + b` for
/// the values 0 to 9, `B` for 30, and the character with code `b` otherwise.
pub proof fn lemma_shown(b: Seq<u8>)
    ensures
        shown(b).len() == b.len(),
        forall|i: int| 0 <= i < b.len() && b[i] <= 9 ==> #[trigger] shown(b)[i] as u32 == b[i] + 48,
        forall|i: int| 0 <= i < b.len() && b[i] == 30 ==> #[trigger] shown(b)[i] == 'B',
        forall|i: int|
            0 <= i < b.len() && b[i] > 9 && b[i] != 30 ==> #[trigger] shown(b)[i] as u32 == b[i],
{
}

impl Calc {
    /// Well-formed: the line holds at most 64 ASCII bytes.
    pub open spec fn wf(&self) -> bool {
        &&& self@.buffer.len() <= CAPACITY
        &&& is_ascii_bytes(self@.buffer)
    }

    /// At power up: just the cursor in the line, which means editing; the
    /// flags clear and the stack at zero.
    pub fn new() -> (c: Calc)
        ensures
            c.wf(),
            cursor_consistent(c@),
            c@ == (CalcState {
                buffer: seq![UNDERSCORE],
                has_point: false,
                editing: true,
                has_exponent: false,
                is_negative: false,
                stack: Stack { x: 0, y: 0, z: 0, a: 0 },
            }),
    {
        let mut num_buffer = bytes_new();
        let _ = bytes_push(&mut num_buffer, UNDERSCORE);
        assert(bytes_of(num_buffer) =~= seq![UNDERSCORE]);
        Calc {
            num_buffer,
            num_has_point: false,
            num_has_exponent: false,
            num_is_negative: false,
            editing: true,
            stack: Stack::new(),
        }
    }

    /// The text a number is read from: `s` without its last byte when that
    /// byte is the cursor.
    pub fn number_text(&self, s: ByteBuf) -> (t: ByteBuf)
        requires
            bytes_of(s).len() > 0,
        ensures
            bytes_of(t) == entry_text(bytes_of(s)),
    {
        let mut s = s;
        let ghost s0 = bytes_of(s);
        let popped = bytes_pop(&mut s);
        let last = match popped {
            Some(b) => b,
            None => 0,
        };
        if last != UNDERSCORE {
            let _ = bytes_push(&mut s, last);
            assert(bytes_of(s) =~= s0);
        }
        s
    }

    /// The text shown for a line: each byte as `shown_char` gives it.
    /// The 64 bytes of the display string must hold it.
    pub fn convert_to_string(&self, entry_buffer: ByteBuf) -> (r: Option<TextBuf>)
        requires
            utf8_len(shown(bytes_of(entry_buffer))) <= CAPACITY,
        ensures
            r matches Some(t) && chars_of(t) == shown(bytes_of(entry_buffer)),
    {
        let ghost all = shown(bytes_of(entry_buffer));
        let mut num_buffer_str = text_new();
        let s = bytes_as_slice(&entry_buffer);
        let mut i: usize = 0;
        while i < s.len()
            invariant
                s@ == bytes_of(entry_buffer),
                all == shown(s@),
                utf8_len(all) <= CAPACITY,
                i <= s.len(),
                chars_of(num_buffer_str) == all.take(i as int),
            decreases s.len() - i,
        {
            let c = display_char(s[i]);
            proof {
                lemma_utf8_len_take(all, i as int);
                lemma_utf8_len_prefix(all, i as int + 1);
            }
            let _ = text_push(&mut num_buffer_str, c);
            assert(chars_of(num_buffer_str) =~= all.take(i as int + 1));
            i = i + 1;
        }
        assert(all.take(s.len() as int) =~= all);
        Some(num_buffer_str)
    }

    /// Whether the calculator takes `key` in its present state without
    /// failing (see `key_allowed`).
    pub fn accepts_key(&self, key: Option<KeyName>) -> (ok: bool)
        requires
            self.wf(),
        ensures
            ok == key_allowed(self@, key),
    {
        let s = bytes_as_slice(&self.num_buffer);
        let len = s.len();
        match key {
            Some(KeyName::Number(n)) => n > 9 || !has_byte(&self.num_buffer, UNDERSCORE) || len
                < CAPACITY,
            Some(KeyName::DecimalPoint) => has_byte(&self.num_buffer, DP) || !self.editing || (0
                < len && len < CAPACITY),
            Some(KeyName::Enter) => len > 0,
            Some(KeyName::E) => has_byte(&self.num_buffer, EXPONENT) || (0 < len && len
                < CAPACITY),
            Some(KeyName::PlusMinus) => len > 0 && (s[0] == MINUS || len < CAPACITY),
            _ => true,
        }
    }

    /// Takes a key press. No key: nothing happens. ENTER: the state is left
    /// as it is and the text of the number comes back, to be converted and
    /// passed to `finish_enter`. Any other key edits the line as `after_key`
    /// says and the new line comes back as the display shows it.
    pub fn process_key(&mut self, key: Option<KeyName>) -> (r: Option<KeyOutcome>)
        requires
            old(self).wf(),
            key_allowed(old(self)@, key),
        ensures
            final(self).wf(),
            match key {
                None => r is None && final(self)@ == old(self)@,
                Some(KeyName::Enter) => final(self)@ == old(self)@ && (r matches Some(
                    KeyOutcome::Parse(t),
                ) && bytes_of(t) == entry_text(old(self)@.buffer)),
                Some(k) => final(self)@ == after_key(old(self)@, k) && (r matches Some(
                    KeyOutcome::Show(t),
                ) && chars_of(t) == shown(final(self)@.buffer)),
            },
            cursor_consistent(old(self)@) ==> cursor_consistent(final(self)@),
    {
        let key = match key {
            None => return None,
            Some(k) => k,
        };
        if let KeyName::Enter = key {
            let text = self.number_text(bytes_clone(&self.num_buffer));
            return Some(KeyOutcome::Parse(text));
        }
        let ghost s0 = self@;
        let ghost b0 = s0.buffer;
        let mut entry_buffer = bytes_clone(&self.num_buffer);
        let len = bytes_as_slice(&entry_buffer).len();
        match key {
            KeyName::Number(n) => {
                if n <= 9 {
                    if !has_byte(&entry_buffer, UNDERSCORE) {
                        bytes_clear(&mut entry_buffer);
                        let _ = bytes_push(&mut entry_buffer, n + ZERO);
                        let _ = bytes_push(&mut entry_buffer, UNDERSCORE);
                        assert(bytes_of(entry_buffer) =~= seq![(n + ZERO) as u8, UNDERSCORE]);
                        self.editing = true;
                    } else {
                        let _ = bytes_insert(&mut entry_buffer, len - 1, n + ZERO);
                    }
                }
            },
            KeyName::DecimalPoint => {
                if !has_byte(&entry_buffer, DP) {
                    if self.editing {
                        let _ = bytes_insert(&mut entry_buffer, len - 1, DP);
                    } else {
                        self.editing = true;
                        bytes_clear(&mut entry_buffer);
                        let _ = bytes_push(&mut entry_buffer, 0);
                        let _ = bytes_push(&mut entry_buffer, DP);
                        let _ = bytes_push(&mut entry_buffer, UNDERSCORE);
                        assert(bytes_of(entry_buffer) =~= seq![0u8, DP, UNDERSCORE]);
                    }
                }
            },
            KeyName::E => {
                if !has_byte(&entry_buffer, EXPONENT) {
                    let _ = bytes_insert(&mut entry_buffer, len - 1, EXPONENT);
                }
            },
            KeyName::PlusMinus => {
                let first = bytes_as_slice(&entry_buffer)[0];
                if first == MINUS {
                    let _ = bytes_remove(&mut entry_buffer, 0);
                } else {
                    let _ = bytes_insert(&mut entry_buffer, 0, MINUS);
                }
            },
            KeyName::Back => {
                if len > 1 {
                    let popped = bytes_pop(&mut entry_buffer);
                    let last_key = match popped {
                        Some(b) => b,
                        None => 0,
                    };
                    if last_key == UNDERSCORE {
                        if len - 1 > 1 {
                            let _ = bytes_pop(&mut entry_buffer);
                            let _ = bytes_push(&mut entry_buffer, last_key);
                        } else {
                            let _ = bytes_pop(&mut entry_buffer);
                            let _ = bytes_push(&mut entry_buffer, ZERO);
                            let _ = bytes_push(&mut entry_buffer, DP);
                            let _ = bytes_push(&mut entry_buffer, ZERO);
                            let _ = bytes_push(&mut entry_buffer, ZERO);
                            let _ = bytes_push(&mut entry_buffer, ZERO);
                            assert(bytes_of(entry_buffer) =~= zero_text());
                            self.editing = false;
                        }
                    }
                    if last_key == DP {
                        self.num_has_point = false;
                    }
                    if last_key == E {
                        self.num_has_exponent = false;
                    }
                }
            },
            _ => {},
        }
        self.num_buffer = bytes_clone(&entry_buffer);
        proof {
            lemma_after_key_wf(s0, key);
            assert(self@ =~= after_key(s0, key));
            lemma_ascii_shown_len(self@.buffer);
            if cursor_consistent(s0) {
                lemma_key_keeps_cursor(s0, key);
            }
        }
        match self.convert_to_string(entry_buffer) {
            Some(t) => Some(KeyOutcome::Show(t)),
            None => None,
        }
    }

    /// Finishes ENTER once the caller has turned the text into `value` and
    /// written `value` back as text (`{:e}` formatting, which is ASCII):
    /// editing ends, x takes `value` and the stack is pushed, so that x and
    /// y both hold `value`; the text becomes the line and comes back as the
    /// display shows it.
    pub fn finish_enter(&mut self, value: u64, shown_text: ByteBuf) -> (r: Option<TextBuf>)
        requires
            old(self).wf(),
            is_ascii_bytes(bytes_of(shown_text)),
        ensures
            final(self).wf(),
            final(self)@ == (CalcState {
                buffer: bytes_of(shown_text),
                editing: false,
                stack: pushed(Stack { x: value, ..old(self)@.stack }),
                ..old(self)@
            }),
            r matches Some(t) && chars_of(t) == shown(bytes_of(shown_text)),
            !bytes_of(shown_text).contains(UNDERSCORE) ==> cursor_consistent(final(self)@),
    {
        self.editing = false;
        self.stack.x = value;
        self.stack.push();
        let _ = bytes_as_slice(&shown_text);  // the text holds at most 64 bytes
        self.num_buffer = bytes_clone(&shown_text);
        proof {
            lemma_ascii_shown_len(bytes_of(shown_text));
        }
        self.convert_to_string(shown_text)
    }
}

} // verus!
