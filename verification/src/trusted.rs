//! Trusted declarations for calls the verifier cannot see into: the one
//! missing `String` primitive, the delegated syntax highlighter and the
//! delegated grid renderer.

use vstd::prelude::*;

verus! {

/// Relies on `String::push`: appends exactly the one character.
#[verifier::external_body]
pub fn push_char(s: &mut String, ch: char)
    ensures
        final(s)@ == old(s)@.push(ch),
{
    s.push(ch);
}

/// Relies on `String::pop`: removes and returns the last character, or
/// returns `None` and leaves the string unchanged when it is empty.
#[verifier::external_body]
pub fn pop_char(s: &mut String) -> (r: Option<char>)
    ensures
        old(s)@.len() > 0 ==> final(s)@ == old(s)@.drop_last() && r == Some(old(s)@.last()),
        old(s)@.len() == 0 ==> final(s)@ == old(s)@ && r is None,
{
    s.pop()
}

/// The bordered block that the grid renderer draws for a matrix of
/// pre-rendered cell strings. Its exact shape is the grid renderer's own;
/// it is a function of the cell contents alone.
pub uninterp spec fn grid_of(cells: Seq<Seq<Seq<char>>>) -> Seq<char>;

/// Relies on term_table's `Table`: rendering rows of cell strings with the
/// thin border style is a pure function of the cell contents (the style and
/// all width limits are fixed here), so the result is named by [`grid_of`].
#[verifier::external_body]
pub fn render_grid(cells: Vec<Vec<String>>) -> (r: String)
    ensures
        r@ == grid_of(cells.deep_view()),
{
    let mut t = term_table::Table::builder().style(term_table::TableStyle::thin()).build();
    for row in cells {
        let cs = row.into_iter().map(term_table::table_cell::TableCell::new);
        t.add_row(term_table::row::Row::new(cs));
    }
    t.render()
}

/// Outcome of one delegated highlighting call. Each variant keeps whatever
/// the highlighter wrote before finishing, declining or failing.
pub enum Highlighted {
    /// The highlighter wrote this styled text.
    Rendered(String),
    /// The highlighter ran but declined to render the input.
    Declined(String),
    /// The highlighter failed; what it wrote, and its own message.
    Failed(String, String),
}

/// Relies on bat's `PrettyPrinter`: writes highlighted code into a string.
/// Nothing is assumed of the outcome; callers handle every case.
#[verifier::external_body]
pub fn highlight_code(code: &str, language: &str, width: usize) -> (r: Highlighted)
{
    let mut out = String::new();
    let res = bat::PrettyPrinter::new()
        .input_from_bytes(code.as_bytes())
        .language(language)
        .theme("ansi")
        .term_width(width)
        .line_numbers(true)
        .use_italics(true)
        .wrapping_mode(bat::WrappingMode::Character)
        .print_with_writer(Some(&mut out));
    match res {
        Ok(true) => Highlighted::Rendered(out),
        Ok(false) => Highlighted::Declined(out),
        Err(e) => Highlighted::Failed(out, format!("{e}")),
    }
}

} // verus!
