use vstd::prelude::*;

verus! {

/// The ANSI escape sequence that switches the foreground color to red.
pub open spec fn fg_red_seq() -> Seq<char> {
    seq!['\u{1b}', '[', '3', '8', ';', '5', ';', '1', 'm']
}

/// The ANSI escape sequence that switches the foreground color to cyan.
pub open spec fn fg_cyan_seq() -> Seq<char> {
    seq!['\u{1b}', '[', '3', '8', ';', '5', ';', '6', 'm']
}

/// The ANSI escape sequence that switches the foreground color to white.
pub open spec fn fg_white_seq() -> Seq<char> {
    seq!['\u{1b}', '[', '3', '8', ';', '5', ';', '7', 'm']
}

/// The ANSI escape sequence that resets the foreground color.
pub open spec fn fg_reset_seq() -> Seq<char> {
    seq!['\u{1b}', '[', '3', '9', 'm']
}

/// Relies on termion::color::Red::fg_str, which returns the constant
/// escape sequence `csi!("38;5;", "1", "m")`, i.e. `\x1B[38;5;1m`.
#[verifier::external_body]
pub fn fg_red() -> (r: &'static str)
    ensures
        r@ == fg_red_seq(),
{
    termion::color::Red.fg_str()
}

/// Relies on termion::color::Cyan::fg_str, which returns the constant
/// escape sequence `csi!("38;5;", "6", "m")`, i.e. `\x1B[38;5;6m`.
#[verifier::external_body]
pub fn fg_cyan() -> (r: &'static str)
    ensures
        r@ == fg_cyan_seq(),
{
    termion::color::Cyan.fg_str()
}

/// Relies on termion::color::White::fg_str, which returns the constant
/// escape sequence `csi!("38;5;", "7", "m")`, i.e. `\x1B[38;5;7m`.
#[verifier::external_body]
pub fn fg_white() -> (r: &'static str)
    ensures
        r@ == fg_white_seq(),
{
    termion::color::White.fg_str()
}

/// Relies on termion::color::Reset::fg_str, which returns the constant
/// escape sequence `csi!("39m")`, i.e. `\x1B[39m`.
#[verifier::external_body]
pub fn fg_reset() -> (r: &'static str)
    ensures
        r@ == fg_reset_seq(),
{
    termion::color::Reset.fg_str()
}

} // verus!
