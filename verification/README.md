# rpn_calc

The logic of a small RPN calculator for an RP2350 board with an 8 x 6 keypad
and an ST7565 display, verified with Verus.

- `src/keyboard.rs`: the key names, the keypad matrix map, and the
  debouncing that reports a held key once.
- `src/calc.rs`: the x/y/z/a register stack and the editing of the number
  being typed (digits, point, exponent, sign, back-space, ENTER), with the
  `_` cursor shown exactly while a number is typed.
- `src/stack.rs`: the display stack x/y/z/t with its change flag and lines.
- `src/fixed.rs`: contracts for the `heapless` byte buffer and string.
- `app/`: the firmware around the library: hardware set-up, the keypad scan
  loop, drawing, and the `f64` parsing and `{:e}` formatting of ENTER.

Registers hold `f64` bit patterns; floating-point work stays in `app/`.
