//! The fixed style-to-ANSI-code mapping.
//!
//! Every style the renderer emits is one of these escape sequences; contracts
//! speak of the sequences through the spec functions.

use vstd::prelude::*;

verus! {

/// Clears all styling.
pub open spec fn reset_seq() -> Seq<char> {
    "\u{1b}[00m"@
}

/// Bold weight; used for headings and medium emphasis.
pub open spec fn bold_seq() -> Seq<char> {
    "\u{1b}[01m"@
}

/// Faint weight; light de-emphasis.
pub open spec fn faint_seq() -> Seq<char> {
    "\u{1b}[02m"@
}

/// Italic shape; light emphasis.
pub open spec fn italic_seq() -> Seq<char> {
    "\u{1b}[03m"@
}

/// Hidden text; strong de-emphasis.
pub open spec fn hidden_seq() -> Seq<char> {
    "\u{1b}[08m"@
}

/// Struck-through text; medium de-emphasis.
pub open spec fn crossed_seq() -> Seq<char> {
    "\u{1b}[09m"@
}

/// The accent colour put around link text.
pub open spec fn magenta_seq() -> Seq<char> {
    "\u{1b}[35m"@
}

/// The background put behind inline code.
pub open spec fn bg_black_seq() -> Seq<char> {
    "\u{1b}[40m"@
}

pub fn ansi_reset() -> (r: String)
    ensures
        r@ == reset_seq(),
{
    String::from_str("\u{1b}[00m")
}

pub fn ansi_bold() -> (r: String)
    ensures
        r@ == bold_seq(),
{
    String::from_str("\u{1b}[01m")
}

pub fn ansi_faint() -> (r: String)
    ensures
        r@ == faint_seq(),
{
    String::from_str("\u{1b}[02m")
}

pub fn ansi_italic() -> (r: String)
    ensures
        r@ == italic_seq(),
{
    String::from_str("\u{1b}[03m")
}

pub fn ansi_hidden() -> (r: String)
    ensures
        r@ == hidden_seq(),
{
    String::from_str("\u{1b}[08m")
}

pub fn ansi_crossed() -> (r: String)
    ensures
        r@ == crossed_seq(),
{
    String::from_str("\u{1b}[09m")
}

pub fn ansi_magenta() -> (r: String)
    ensures
        r@ == magenta_seq(),
{
    String::from_str("\u{1b}[35m")
}

pub fn ansi_bg_black() -> (r: String)
    ensures
        r@ == bg_black_seq(),
{
    String::from_str("\u{1b}[40m")
}

} // verus!
