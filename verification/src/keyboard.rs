//! The keypad: the names of its keys, where each sits in the 8 x 6 matrix of
//! rows and columns, and the debouncing that turns one matrix scan into at
//! most one reported key press.
use vstd::prelude::*;

verus! {

/// The keys of the calculator's keypad.
#[derive(Debug, Clone, Copy, PartialEq, Eq, Structural)]
pub enum KeyName {
    Fn1,
    Fn2,
    Fn3,
    Fn4,
    Fn5,
    Fn6,
    SigmaPlus,
    Invert,
    Sqrt,
    Log,
    Ln,
    Xeq,
    Sto,
    Rcl,
    RollDown,
    Sin,
    Cos,
    Tan,
    Enter,
    XswapY,
    PlusMinus,
    E,
    Back,
    Up,
    Down,
    Orange,
    Exit,
    DecimalPoint,
    RunStop,
    Plus,
    Minus,
    Divide,
    Multiply,
    Number(u8),
    Error,
}

/// Number of rows (inputs) of the keypad matrix.
pub const ROWS: usize = 8;

/// Number of columns (driven outputs) of the keypad matrix.
pub const COLS: usize = 6;

/// The keys of one row of the keypad matrix, from column 0 to column 5.
pub open spec fn key_row(row: int) -> Seq<KeyName> {
    if row == 0 {
        seq![
            KeyName::Exit,
            KeyName::Number(0),
            KeyName::DecimalPoint,
            KeyName::Error,
            KeyName::RunStop,
            KeyName::Plus,
        ]
    } else if row == 1 {
        seq![
            KeyName::Orange,
            KeyName::Number(1),
            KeyName::Number(2),
            KeyName::Error,
            KeyName::Number(3),
            KeyName::Minus,
        ]
    } else if row == 2 {
        seq![
            KeyName::Down,
            KeyName::Number(4),
            KeyName::Number(5),
            KeyName::Error,
            KeyName::Number(6),
            KeyName::Multiply,
        ]
    } else if row == 3 {
        seq![
            KeyName::Up,
            KeyName::Number(7),
            KeyName::Number(8),
            KeyName::Error,
            KeyName::Number(9),
            KeyName::Divide,
        ]
    } else if row == 4 {
        seq![
            KeyName::Enter,
            KeyName::Enter,
            KeyName::XswapY,
            KeyName::PlusMinus,
            KeyName::E,
            KeyName::Back,
        ]
    } else if row == 5 {
        seq![
            KeyName::Sto,
            KeyName::Rcl,
            KeyName::RollDown,
            KeyName::Sin,
            KeyName::Cos,
            KeyName::Tan,
        ]
    } else if row == 6 {
        seq![
            KeyName::SigmaPlus,
            KeyName::Invert,
            KeyName::Sqrt,
            KeyName::Log,
            KeyName::Ln,
            KeyName::Xeq,
        ]
    } else {
        seq![
            KeyName::Fn1,
            KeyName::Fn2,
            KeyName::Fn3,
            KeyName::Fn4,
            KeyName::Fn5,
            KeyName::Fn6,
        ]
    }
}

/// The key wired at `row` and `col` of the keypad matrix.
pub open spec fn key_map(row: int, col: int) -> KeyName {
    key_row(row)[col]
}

/// The key wired at `row` and `col` of the keypad matrix.
pub fn key_at(row: usize, col: usize) -> (k: KeyName)
    requires
        row < ROWS,
        col < COLS,
    ensures
        k == key_map(row as int, col as int),
{
    let keys: [KeyName; 6] = match row {
        0 => [
            KeyName::Exit,
            KeyName::Number(0),
            KeyName::DecimalPoint,
            KeyName::Error,
            KeyName::RunStop,
            KeyName::Plus,
        ],
        1 => [
            KeyName::Orange,
            KeyName::Number(1),
            KeyName::Number(2),
            KeyName::Error,
            KeyName::Number(3),
            KeyName::Minus,
        ],
        2 => [
            KeyName::Down,
            KeyName::Number(4),
            KeyName::Number(5),
            KeyName::Error,
            KeyName::Number(6),
            KeyName::Multiply,
        ],
        3 => [
            KeyName::Up,
            KeyName::Number(7),
            KeyName::Number(8),
            KeyName::Error,
            KeyName::Number(9),
            KeyName::Divide,
        ],
        4 => [
            KeyName::Enter,
            KeyName::Enter,
            KeyName::XswapY,
            KeyName::PlusMinus,
            KeyName::E,
            KeyName::Back,
        ],
        5 => [
            KeyName::Sto,
            KeyName::Rcl,
            KeyName::RollDown,
            KeyName::Sin,
            KeyName::Cos,
            KeyName::Tan,
        ],
        6 => [
            KeyName::SigmaPlus,
            KeyName::Invert,
            KeyName::Sqrt,
            KeyName::Log,
            KeyName::Ln,
            KeyName::Xeq,
        ],
        _ => [KeyName::Fn1, KeyName::Fn2, KeyName::Fn3, KeyName::Fn4, KeyName::Fn5, KeyName::Fn6],
    };
    keys[col]
}

/// What one scan of the matrix saw: how many (row, column) crossings read
/// high, and the last of them.
#[derive(Debug, Clone, Copy, PartialEq, Eq, Structural)]
pub struct ScanTally {
    pub down_count: u32,
    pub row: usize,
    pub col: usize,
}

impl ScanTally {
    /// A scan that has seen nothing yet.
    pub fn new() -> (t: ScanTally)
        ensures
            t == (ScanTally { down_count: 0, row: 0, col: 0 }),
    {
        ScanTally { down_count: 0, row: 0, col: 0 }
    }

    /// Notes the level read at `row` while `col` is driven high: a high
    /// level counts one more key down, and that key becomes the last one seen.
    pub fn record(&mut self, row: usize, col: usize, high: bool)
        requires
            high ==> old(self).down_count < u32::MAX,
        ensures
            high ==> *final(self) == (ScanTally {
                down_count: (old(self).down_count + 1) as u32,
                row,
                col,
            }),
            !high ==> *final(self) == *old(self),
    {
        if high {
            self.down_count = self.down_count + 1;
            self.row = row;
            self.col = col;
        }
    }
}

/// The key press reported for a scan, and the key then held down, given the
/// key held down before the scan: nothing when no key is down; the key when
/// exactly one is down and it was not already held; nothing otherwise
/// (the same key still held, or several keys at once, which leave the held
/// key as it was).
pub open spec fn scan_outcome(held: Option<KeyName>, t: ScanTally) -> (Option<KeyName>, Option<
    KeyName,
>) {
    if t.down_count == 0 {
        (None, None)
    } else if t.down_count == 1 {
        let k = key_map(t.row as int, t.col as int);
        if held == Some(k) {
            (None, held)
        } else {
            (Some(k), Some(k))
        }
    } else {
        (None, held)
    }
}

/// The keypad's debouncing state: the key found held down by the last scan.
pub struct Keyboard {
    current_key: Option<KeyName>,
}

impl Keyboard {
    /// The key held down, as the last scan left it.
    pub closed spec fn held(&self) -> Option<KeyName> {
        self.current_key
    }

    /// A keypad with no key held down.
    pub fn new() -> (k: Keyboard)
        ensures
            k.held() is None,
    {
        Keyboard { current_key: None }
    }

    /// Takes the result of one matrix scan and returns the key press to
    /// report, if any (see `scan_outcome`).
    pub fn scan(&mut self, tally: &ScanTally) -> (r: Option<KeyName>)
        requires
            tally.down_count == 1 ==> tally.row < ROWS && tally.col < COLS,
        ensures
            (r, final(self).held()) == scan_outcome(old(self).held(), *tally),
    {
        if tally.down_count == 0 {
            self.current_key = None;
            return None;
        }
        if tally.down_count == 1 {
            let k = key_at(tally.row, tally.col);
            let same = match self.current_key {
                Some(c) => c == k,
                None => false,
            };
            if same {
                return None;
            } else {
                self.current_key = Some(k);
                return Some(k);
            }
        }
        None
    }
}

/// Law: the wiring of the keypad, position by position (row, column):
/// row 0 holds Exit, 0, point, -, Run/Stop, +; rows 1 to 3 hold the digits
/// 1 to 9 in columns 1, 2 and 4, with -, x and / in column 5; row 4 holds
/// the two ENTER positions, x<>y, +/-, E and BACK; rows 5 to 7 the
/// function keys.
pub proof fn lemma_key_wiring()
    ensures
        key_map(0, 0) == KeyName::Exit,
        key_map(0, 1) == KeyName::Number(0),
        key_map(0, 2) == KeyName::DecimalPoint,
        key_map(0, 3) == KeyName::Error,
        key_map(0, 4) == KeyName::RunStop,
        key_map(0, 5) == KeyName::Plus,
        key_map(1, 0) == KeyName::Orange,
        key_map(1, 1) == KeyName::Number(1),
        key_map(1, 2) == KeyName::Number(2),
        key_map(1, 3) == KeyName::Error,
        key_map(1, 4) == KeyName::Number(3),
        key_map(1, 5) == KeyName::Minus,
        key_map(2, 0) == KeyName::Down,
        key_map(2, 1) == KeyName::Number(4),
        key_map(2, 2) == KeyName::Number(5),
        key_map(2, 3) == KeyName::Error,
        key_map(2, 4) == KeyName::Number(6),
        key_map(2, 5) == KeyName::Multiply,
        key_map(3, 0) == KeyName::Up,
        key_map(3, 1) == KeyName::Number(7),
        key_map(3, 2) == KeyName::Number(8),
        key_map(3, 3) == KeyName::Error,
        key_map(3, 4) == KeyName::Number(9),
        key_map(3, 5) == KeyName::Divide,
        key_map(4, 0) == KeyName::Enter,
        key_map(4, 1) == KeyName::Enter,
        key_map(4, 2) == KeyName::XswapY,
        key_map(4, 3) == KeyName::PlusMinus,
        key_map(4, 4) == KeyName::E,
        key_map(4, 5) == KeyName::Back,
        key_map(5, 0) == KeyName::Sto,
        key_map(5, 1) == KeyName::Rcl,
        key_map(5, 2) == KeyName::RollDown,
        key_map(5, 3) == KeyName::Sin,
        key_map(5, 4) == KeyName::Cos,
        key_map(5, 5) == KeyName::Tan,
        key_map(6, 0) == KeyName::SigmaPlus,
        key_map(6, 1) == KeyName::Invert,
        key_map(6, 2) == KeyName::Sqrt,
        key_map(6, 3) == KeyName::Log,
        key_map(6, 4) == KeyName::Ln,
        key_map(6, 5) == KeyName::Xeq,
        key_map(7, 0) == KeyName::Fn1,
        key_map(7, 1) == KeyName::Fn2,
        key_map(7, 2) == KeyName::Fn3,
        key_map(7, 3) == KeyName::Fn4,
        key_map(7, 4) == KeyName::Fn5,
        key_map(7, 5) == KeyName::Fn6,
{
}

/// Law: a key other than ENTER and the unused positions sits at one place
/// only, and the digits sit where the wiring puts them.
pub proof fn lemma_keys_unique(r1: int, c1: int, r2: int, c2: int)
    requires
        0 <= r1 < 8,
        0 <= c1 < 6,
        0 <= r2 < 8,
        0 <= c2 < 6,
        key_map(r1, c1) == key_map(r2, c2),
        key_map(r1, c1) != KeyName::Enter,
        key_map(r1, c1) != KeyName::Error,
    ensures
        r1 == r2 && c1 == c2,
{
}

/// Law: a scan with no key down reports nothing and releases the held key;
/// a scan with several keys down reports nothing and keeps the held key; a
/// scan with one key down reports that key exactly when it is not the one
/// held, and that key is then held.
pub proof fn lemma_scan_cases(held: Option<KeyName>, t: ScanTally)
    ensures
        t.down_count == 0 ==> scan_outcome(held, t) == (None::<KeyName>, None::<KeyName>),
        t.down_count >= 2 ==> scan_outcome(held, t) == (None::<KeyName>, held),
        t.down_count == 1 ==> scan_outcome(held, t).1 == Some(key_map(t.row as int, t.col as int)),
        t.down_count == 1 ==> (scan_outcome(held, t).0 is Some <==> held != Some(
            key_map(t.row as int, t.col as int),
        )),
        scan_outcome(held, t).0 is Some ==> scan_outcome(held, t).0 == scan_outcome(held, t).1,
{
}

/// A key held down is reported once: scanning the same reading twice in a
/// row never reports a key the second time.
pub proof fn lemma_held_key_reported_once(held: Option<KeyName>, t: ScanTally)
    ensures
        scan_outcome(scan_outcome(held, t).1, t).0 is None,
{
}

/// A key pressed alone after a scan that found every key up is reported.
pub proof fn lemma_press_after_release_reported(held: Option<KeyName>, up: ScanTally, t: ScanTally)
    requires
        up.down_count == 0,
        t.down_count == 1,
    ensures
        scan_outcome(scan_outcome(held, up).1, t).0 == Some(key_map(t.row as int, t.col as int)),
{
}

} // verus!
