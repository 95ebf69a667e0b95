//! The display stack: four registers x, y, z and t, a flag that records a
//! push or pop since it was last read, and the four lines of text shown for
//! the registers.
//!
//! Registers hold the bit pattern (`f64::to_bits`) of an `f64`, so that the
//! value 0 is `+0.0`.
use vstd::prelude::*;

use crate::fixed::{chars_of, text_as_str, text_clone, text_try_from, utf8_len, TextBuf, CAPACITY};

verus! {

/// The four registers, the change flag and the four lines of text.
pub struct Stack {
    x: u64,
    y: u64,
    z: u64,
    t: u64,
    changed: bool,
    x_str: TextBuf,
    y_str: TextBuf,
    z_str: TextBuf,
    t_str: TextBuf,
}

/// The display stack as the contracts see it.
pub ghost struct StackState {
    pub x: u64,
    pub y: u64,
    pub z: u64,
    pub t: u64,
    pub changed: bool,
    pub x_str: Seq<char>,
    pub y_str: Seq<char>,
    pub z_str: Seq<char>,
    pub t_str: Seq<char>,
}

impl View for Stack {
    type V = StackState;

    closed spec fn view(&self) -> StackState {
        StackState {
            x: self.x,
            y: self.y,
            z: self.z,
            t: self.t,
            changed: self.changed,
            x_str: chars_of(self.x_str),
            y_str: chars_of(self.y_str),
            z_str: chars_of(self.z_str),
            t_str: chars_of(self.t_str),
        }
    }
}

/// The text every register line starts with: `0.000`.
pub open spec fn zero_line() -> Seq<char> {
    seq!['0', '.', '0', '0', '0']
}

/// The stack after pushing `v`: t takes z, z takes y, y takes x, x takes
/// `v`; the change flag is set.
pub open spec fn after_push(s: StackState, v: u64) -> StackState {
    StackState { x: v, y: s.x, z: s.y, t: s.z, changed: true, ..s }
}

/// The stack after a pop: x takes y, y takes z, z takes t, t stays; the
/// change flag is set. The value popped is the old x.
pub open spec fn after_pop(s: StackState) -> StackState {
    StackState { x: s.y, y: s.z, z: s.t, changed: true, ..s }
}

/// The stack with x and y exchanged.
pub open spec fn after_swap(s: StackState) -> StackState {
    StackState { x: s.y, y: s.x, ..s }
}

/// Law: a push of `v` puts `v` in x and moves x to y, y to z and z to t; a
/// pop moves y to x, z to y and t to z, keeping t; both set the change
/// flag; x<>y exchanges x and y only. None of them touches the lines.
pub proof fn lemma_register_moves(s: StackState, v: u64)
    ensures
        after_push(s, v).x == v && after_push(s, v).y == s.x && after_push(s, v).z == s.y
            && after_push(s, v).t == s.z && after_push(s, v).changed,
        after_pop(s).x == s.y && after_pop(s).y == s.z && after_pop(s).z == s.t && after_pop(s).t
            == s.t && after_pop(s).changed,
        after_swap(s).x == s.y && after_swap(s).y == s.x && after_swap(s).z == s.z
            && after_swap(s).t == s.t && after_swap(s).changed == s.changed,
        after_push(s, v).x_str == s.x_str && after_push(s, v).y_str == s.y_str && after_push(
            s,
            v,
        ).z_str == s.z_str && after_push(s, v).t_str == s.t_str,
        after_pop(s).x_str == s.x_str && after_pop(s).y_str == s.y_str && after_pop(s).z_str
            == s.z_str && after_pop(s).t_str == s.t_str,
        after_swap(s).x_str == s.x_str && after_swap(s).y_str == s.y_str && after_swap(s).z_str
            == s.z_str && after_swap(s).t_str == s.t_str,
{
}

/// Law: the register lines read `0.000`.
pub proof fn lemma_zero_line()
    ensures
        zero_line() == seq!['0', '.', '0', '0', '0'],
        zero_line().len() == 5,
{
}

/// Law: popping right after pushing `v` gives back `v` and restores x, y
/// and z; t then holds the old z.
pub proof fn lemma_pop_returns_pushed(s: StackState, v: u64)
    ensures
        after_push(s, v).x == v,
        after_pop(after_push(s, v)) == (StackState { t: s.z, changed: true, ..s }),
{
}

/// Law: exchanging x and y twice changes nothing.
pub proof fn lemma_swap_twice(s: StackState)
    ensures
        after_swap(after_swap(s)) == s,
{
}

impl Clone for Stack {
    fn clone(&self) -> (c: Stack)
        ensures
            c@ == self@,
    {
        Stack {
            x: self.x,
            y: self.y,
            z: self.z,
            t: self.t,
            changed: self.changed,
            x_str: text_clone(&self.x_str),
            y_str: text_clone(&self.y_str),
            z_str: text_clone(&self.z_str),
            t_str: text_clone(&self.t_str),
        }
    }
}

/// The line `0.000`.
fn zero_text_line() -> (s: TextBuf)
    ensures
        chars_of(s) == zero_line(),
{
    let r = text_try_from("0.000");
    proof {
        reveal_strlit("0.000");
        assert("0.000"@ =~= zero_line());
        reveal_with_fuel(utf8_len, 6);
        assert(utf8_len(zero_line()) == 5);
    }
    r.unwrap()
}

impl Stack {
    /// All registers at zero, the change flag clear, every line `0.000`.
    pub fn new() -> (s: Stack)
        ensures
            s@ == (StackState {
                x: 0,
                y: 0,
                z: 0,
                t: 0,
                changed: false,
                x_str: zero_line(),
                y_str: zero_line(),
                z_str: zero_line(),
                t_str: zero_line(),
            }),
    {
        Stack {
            x: 0,
            y: 0,
            z: 0,
            t: 0,
            changed: false,
            x_str: zero_text_line(),
            y_str: zero_text_line(),
            z_str: zero_text_line(),
            t_str: zero_text_line(),
        }
    }

    /// Pushes `x` (see `after_push`).
    pub fn push(&mut self, x: u64)
        ensures
            final(self)@ == after_push(old(self)@, x),
    {
        self.t = self.z;
        self.z = self.y;
        self.y = self.x;
        self.x = x;
        self.changed = true;
    }

    /// Pops and returns x (see `after_pop`).
    pub fn pop(&mut self) -> (r: u64)
        ensures
            r == old(self)@.x,
            final(self)@ == after_pop(old(self)@),
    {
        let temp = self.x;
        self.x = self.y;
        self.y = self.z;
        self.z = self.t;
        self.changed = true;
        temp
    }

    /// Sets the change flag.
    pub fn set_changed(&mut self)
        ensures
            final(self)@ == (StackState { changed: true, ..old(self)@ }),
    {
        self.changed = true;
    }

    /// The change flag.
    pub fn changed(&mut self) -> (r: bool)
        ensures
            r == old(self)@.changed,
            final(self)@ == old(self)@,
    {
        self.changed
    }

    /// The four registers x, y, z, t.
    pub fn fetch_values(&mut self) -> (r: (u64, u64, u64, u64))
        ensures
            r == (old(self)@.x, old(self)@.y, old(self)@.z, old(self)@.t),
            final(self)@ == old(self)@,
    {
        (self.x, self.y, self.z, self.t)
    }

    /// The four lines of text of x, y, z, t.
    pub fn fetch_strs(&mut self) -> (r: (&str, &str, &str, &str))
        ensures
            r.0@ == old(self)@.x_str,
            r.1@ == old(self)@.y_str,
            r.2@ == old(self)@.z_str,
            r.3@ == old(self)@.t_str,
            final(self)@ == old(self)@,
    {
        (
            text_as_str(&self.x_str),
            text_as_str(&self.y_str),
            text_as_str(&self.z_str),
            text_as_str(&self.t_str),
        )
    }

    /// Sets y, z and t; x stays.
    pub fn fill_y_to_t(&mut self, y: u64, z: u64, t: u64)
        ensures
            final(self)@ == (StackState { y, z, t, ..old(self)@ }),
    {
        self.y = y;
        self.z = z;
        self.t = t;
    }

    /// Exchanges x and y.
    pub fn swapxy(&mut self)
        ensures
            final(self)@ == after_swap(old(self)@),
    {
        let temp = self.x;
        self.x = self.y;
        self.y = temp;
    }

    /// x takes y, and y takes `new_y`.
    pub fn swapx_with_new_y(&mut self, new_y: u64)
        ensures
            final(self)@ == (StackState { x: old(self)@.y, y: new_y, ..old(self)@ }),
    {
        self.x = self.y;
        self.y = new_y;
    }

    /// Register x.
    pub fn get_x(&mut self) -> (r: u64)
        ensures
            r == old(self)@.x,
            final(self)@ == old(self)@,
    {
        return self.x;
    }

    /// Register y.
    pub fn get_y(&mut self) -> (r: u64)
        ensures
            r == old(self)@.y,
            final(self)@ == old(self)@,
    {
        return self.y;
    }
}

} // verus!
