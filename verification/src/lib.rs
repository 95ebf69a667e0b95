//! The logic of a four-level RPN calculator: the key map and key debouncing
//! of its keyboard, the editing of the number being typed, and the register
//! stacks.
pub mod fixed;
pub mod keyboard;
pub mod calc;
pub mod stack;
