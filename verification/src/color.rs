//! Whether failures are rendered in color: the [`ColorChoice`] a user sets,
//! and how it resolves against `NO_COLOR` and terminal detection.
//!
//! The choice itself lives in a process-wide slot as a small code; the codes
//! are defined here, and the slot is kept by the caller.

use vstd::prelude::*;

verus! {

/// Whether to color rendered failures.
#[derive(PartialEq, Eq, Structural, Clone, Copy, Debug)]
pub enum ColorChoice {
    /// Color when stderr is a terminal and `NO_COLOR` is unset or empty.
    Auto,
    /// Always color.
    Always,
    /// Never color.
    Never,
}

/// The code stored for `Auto`.
pub const AUTO: u8 = 0;

/// The code stored for `Always`.
pub const ALWAYS: u8 = 1;

/// The code stored for `Never`.
pub const NEVER: u8 = 2;

/// The code a choice is stored as.
pub open spec fn code_of(choice: ColorChoice) -> u8 {
    match choice {
        ColorChoice::Auto => AUTO,
        ColorChoice::Always => ALWAYS,
        ColorChoice::Never => NEVER,
    }
}

/// The choice a stored code stands for; an unknown code reads as `Auto`.
pub open spec fn choice_of(code: u8) -> ColorChoice {
    if code == ALWAYS {
        ColorChoice::Always
    } else if code == NEVER {
        ColorChoice::Never
    } else {
        ColorChoice::Auto
    }
}

/// The code a choice is stored as.
pub fn color_code(choice: ColorChoice) -> (code: u8)
    ensures
        code == code_of(choice),
{
    match choice {
        ColorChoice::Auto => AUTO,
        ColorChoice::Always => ALWAYS,
        ColorChoice::Never => NEVER,
    }
}

/// The choice a stored code stands for; an unknown code reads as `Auto`.
pub fn choice_from_code(code: u8) -> (choice: ColorChoice)
    ensures
        choice == choice_of(code),
{
    if code == ALWAYS {
        ColorChoice::Always
    } else if code == NEVER {
        ColorChoice::Never
    } else {
        ColorChoice::Auto
    }
}

/// Whether to color: `Always` and `Never` decide alone; `Auto` colors only on
/// a terminal with `NO_COLOR` unset or empty.
pub fn resolve(choice: ColorChoice, no_color: bool, is_terminal: bool) -> (on: bool)
    ensures
        on == match choice {
            ColorChoice::Always => true,
            ColorChoice::Never => false,
            ColorChoice::Auto => !no_color && is_terminal,
        },
{
    match choice {
        ColorChoice::Always => true,
        ColorChoice::Never => false,
        ColorChoice::Auto => !no_color && is_terminal,
    }
}

/// Storing a choice and reading it back gives the same choice.
pub proof fn lemma_choice_round_trip(choice: ColorChoice)
    ensures
        choice_of(code_of(choice)) == choice,
{
}

} // verus!
