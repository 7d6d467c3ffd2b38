//! Per-connection telnet session: which screen is shown, and its caption.

use vstd::prelude::*;
use vstd::string::*;
use crate::text::{decimal, push_decimal};

verus! {

/// Which screen the client is currently looking at.
#[derive(Debug, Clone, Copy, PartialEq, Eq, Structural)]
pub enum Screen {
    Login,
    SearchBox,
    Results,
    NoResults,
}

/// The escape key.
pub const ESC: u8 = 0x1b;

/// Given the current screen and a pressed byte, decide the next screen.
/// `has_art` is whether a result is currently rendered (affects Esc).
pub fn next_screen_on_key(current: Screen, byte: u8, has_art: bool) -> (r: Screen)
    ensures
        r == Screen::Login <==> current == Screen::Login,
        r == Screen::Results <==> current == Screen::SearchBox && byte == ESC && has_art,
        r != Screen::NoResults,
{
    match current {
        Screen::Results => Screen::SearchBox,
        Screen::NoResults => Screen::SearchBox,
        Screen::SearchBox => {
            if byte == ESC && has_art {
                Screen::Results
            } else {
                Screen::SearchBox
            }
        },
        Screen::Login => Screen::Login,
    }
}

/// One-line caption under the art.
pub fn caption(filename: &str, percent: u8) -> (r: String)
    ensures
        r@ == filename@ + " \u{00b7} "@ + decimal(percent as nat) + "% match"@,
{
    let mut out: String = filename.to_owned();
    out.append(" \u{00b7} ");
    push_decimal(&mut out, percent as u64);
    out.append("% match");
    out
}

} // verus!
