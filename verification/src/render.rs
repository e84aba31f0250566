//! The node renderers and the tree walker: one rendering rule per document
//! node kind, each leaving the shared style and indentation scopes exactly
//! as it found them.
//!
//! Each renderer's contract pins its output twice over. For a node that
//! contains no well-formed code block (so no delegated highlighting call is
//! made), the output equals the outcome-free spec mirror of its rule. For
//! every node, the output equals the outcome-threaded mirror for some
//! sequence of highlighter outcomes, consumed in document order, one per
//! well-formed code block (the `*_renders_with` relations): structure,
//! ordering and the whole non-delegated text are fixed for every input.

use vstd::prelude::*;

use crate::ansi::{ansi_bg_black, ansi_bold, ansi_crossed, ansi_faint, ansi_hidden, ansi_italic,
    ansi_magenta, ansi_reset};
use crate::ansi::{bg_black_seq, bold_seq, crossed_seq, faint_seq, hidden_seq, italic_seq,
    magenta_seq, reset_seq};
use crate::blocks::{code_to_ansi, spec_code_with, spec_indent_table, indent_table};
use crate::context::{frame_ok, sat_add, sat_sub, spec_pop_bg, spec_pop_fg, spec_pop_indent,
    spec_push_bg, spec_push_fg, spec_push_indent, usize_sat_add, usize_sat_sub};
use crate::context::{Config, Context, ParStatus, RState};
use crate::doc::{ditem_det, doc_det, list_det, par_det, pitem_det, sec_det, sitem_det, table_det,
    tags_contain, tags_have};
use crate::doc::{Doc, DocItem, EmOrText, EmStrength, EmType, Emphasis, Heading, Link, List,
    ListType, Nav, Paragraph, ParagraphItem, Section, SectionItem, Table, TableRow};
use crate::numbers::{dec_width, distinct_marker, distinct_marker_seq, num_digits};
use crate::reflow::{append, format_text, format_text_main, format_text_pre, newline,
    newlines_unless, spec_append, spec_format_text, spec_indent, spec_newline,
    spec_newlines_unless, spec_text_main, spec_text_pre, text_to_ansi};
use crate::trusted::{render_grid, grid_of, Highlighted};

verus! {

/// The style code of an emphasis span, from its kind and strength.
pub open spec fn em_code(etype: EmType, strength: EmStrength) -> Seq<char> {
    match (etype, strength) {
        (EmType::Emphasis, EmStrength::Light) => italic_seq(),
        (EmType::Emphasis, EmStrength::Medium) => bold_seq(),
        (EmType::Emphasis, EmStrength::Strong) => italic_seq() + bold_seq(),
        (EmType::Deemphasis, EmStrength::Light) => faint_seq(),
        (EmType::Deemphasis, EmStrength::Medium) => crossed_seq(),
        (EmType::Deemphasis, EmStrength::Strong) => hidden_seq(),
    }
}

/// What [`emphasis_to_ansi`] does to the model: style code, reflowed text,
/// reset, then the ambient style restored — a reset clears both channels, so
/// both are reissued together.
pub open spec fn spec_emphasis(em: Emphasis, s: RState, out: Seq<char>) -> (RState, Seq<char>) {
    let t = spec_format_text(em.text@, s, out + em_code(em.etype, em.strength));
    (RState { ps: ParStatus::Emphasis, ..t.0 }, t.1 + reset_seq() + t.0.fg + t.0.bg)
}

/// What [`inline_code_to_ansi`] does to the model: the separating step, a
/// reset, a background scope around the reflowed text.
pub open spec fn spec_inline_code(text: Seq<char>, s: RState, out: Seq<char>) -> (RState, Seq<
    char,
>) {
    let t0 = spec_text_pre(s, out);
    let t1 = spec_push_bg(t0.0, bg_black_seq(), t0.1 + reset_seq());
    let t2 = spec_text_main(text, t1.0, t1.1);
    let t3 = spec_pop_bg(t2.0, t2.1);
    (RState { ps: ParStatus::Char, ..t3.0 }, t3.1)
}

/// What emitting the items of a heading or link from index `i` on does.
pub open spec fn spec_em_items(items: Seq<EmOrText>, i: int, s: RState, out: Seq<char>) -> (RState,
    Seq<char>)
    decreases items.len() - i,
{
    if i < 0 || i >= items.len() {
        (s, out)
    } else {
        let t = match items[i] {
            EmOrText::Text(text) => spec_format_text(text@, s, out),
            EmOrText::Em(em) => spec_emphasis(em, s, out),
        };
        spec_em_items(items, i + 1, t.0, t.1)
    }
}

/// What [`heading_to_ansi`] does to the model: a bold foreground scope
/// around the heading's items.
pub open spec fn spec_heading(h: Heading, s: RState, out: Seq<char>) -> (RState, Seq<char>) {
    let t0 = spec_push_fg(s, bold_seq(), out);
    let t1 = spec_em_items(h.items@, 0, t0.0, t0.1);
    spec_pop_fg(t1.0, t1.1)
}

/// What [`link_to_ansi`] does to the model: an accent-colour foreground
/// scope around the link's items.
pub open spec fn spec_link(l: Link, s: RState, out: Seq<char>) -> (RState, Seq<char>) {
    let t0 = spec_push_fg(s, magenta_seq(), out);
    let t1 = spec_em_items(l.items@, 0, t0.0, t0.1);
    spec_pop_fg(t1.0, t1.1)
}

/// What emitting a nav's links from index `i` on does: each link on its own
/// line, indented by the link indent.
pub open spec fn spec_nav_links(links: Seq<Link>, i: int, s: RState, out: Seq<char>) -> (RState,
    Seq<char>)
    decreases links.len() - i,
{
    if i < 0 || i >= links.len() {
        (s, out)
    } else {
        let t0 = spec_newlines_unless(1, Seq::empty(), s, out);
        let s1 = spec_push_indent(t0.0, 2, 0);
        let t1 = spec_link(links[i], s1, t0.1);
        let s2 = spec_pop_indent(t1.0);
        spec_nav_links(links, i + 1, s2, t1.1)
    }
}

/// What emitting a nav's sub-menus from index `i` on does: each sub-menu
/// indented by the sub indent, recursively.
pub open spec fn spec_navs(nav: Nav, i: int, s: RState, out: Seq<char>) -> (RState, Seq<char>)
    decreases nav, 0int, nav.subs@.len() - i,
{
    if i < 0 || i >= nav.subs@.len() {
        (s, out)
    } else {
        let s1 = spec_push_indent(s, 2, 0);
        let t1 = spec_nav(nav.subs@[i], s1, out);
        let s2 = spec_pop_indent(t1.0);
        spec_navs(nav, i + 1, s2, t1.1)
    }
}

/// What [`nav_to_ansi`] does to the model: the description, a line break,
/// the links, then the sub-menus.
pub open spec fn spec_nav(nav: Nav, s: RState, out: Seq<char>) -> (RState, Seq<char>)
    decreases nav, 1int, 0int,
{
    let t0 = spec_newlines_unless(1, Seq::empty(), s, out);
    let t1 = spec_format_text(nav.description@, t0.0, t0.1);
    let t2 = spec_newline(t1.0, t1.1);
    let t3 = spec_nav_links(nav.links@, 0, t2.0, t2.1);
    spec_navs(nav, 0, t3.0, t3.1)
}

/// The marker column width of a list: the widest item number for `Distinct`
/// lists, the fixed marker width otherwise.
pub open spec fn list_width(l: List) -> nat {
    match l.ltype {
        ListType::Distinct => num_digits(
            if l.items@.len() == 0 {
                0
            } else {
                (l.items@.len() - 1) as nat
            },
        ),
        ListType::Identical => 2,
        ListType::Checked => 6,
    }
}

/// The indentation a list item's body gets: the full marker width.
pub open spec fn list_iwidth(l: List) -> nat {
    match l.ltype {
        ListType::Distinct => sat_add(list_width(l), 2),
        _ => list_width(l),
    }
}

/// The marker of list item `i`.
pub open spec fn marker_of(l: List, i: int) -> Seq<char> {
    match l.ltype {
        ListType::Distinct => distinct_marker_seq(i as nat, list_width(l)),
        ListType::Identical => "- "@,
        ListType::Checked => if tags_have(l.items@[i].tags@, "checked"@) {
            "- [x] "@
        } else {
            "- [ ] "@
        },
    }
}

/// What emitting a list's items from index `i` on does: a line break, the
/// indentation, the marker, then the item's paragraph indented under the
/// text with the marker width credited.
pub open spec fn spec_list_items(l: List, i: int, s: RState, out: Seq<char>) -> (RState, Seq<char>)
    decreases l, 0int, l.items@.len() - i,
{
    if i < 0 || i >= l.items@.len() {
        (s, out)
    } else {
        let t0 = spec_newlines_unless(1, Seq::empty(), s, out);
        let t1 = spec_indent(0, t0.0, t0.1);
        let t2 = spec_append(marker_of(l, i), t1.0, t1.1);
        let s3 = spec_push_indent(
            RState { ps: ParStatus::New, ..t2.0 },
            list_iwidth(l),
            list_iwidth(l),
        );
        let t4 = spec_paragraph(l.items@[i], s3, t2.1);
        let s5 = RState { ps: ParStatus::Element, ..spec_pop_indent(t4.0) };
        spec_list_items(l, i + 1, s5, t4.1)
    }
}

/// What [`list_to_ansi`] does to the model.
pub open spec fn spec_list(l: List, s: RState, out: Seq<char>) -> (RState, Seq<char>)
    decreases l, 1int, 0int,
{
    spec_list_items(l, 0, s, out)
}

/// The widest row of a table, in cells.
pub open spec fn rows_max_cols(rows: Seq<TableRow>) -> nat
    decreases rows.len(),
{
    if rows.len() == 0 {
        0
    } else {
        let rest = rows_max_cols(rows.drop_last());
        if rows.last().items@.len() > rest {
            rows.last().items@.len()
        } else {
            rest
        }
    }
}

/// The per-column width of a table: the width left after indentation, cell
/// separators and border overhead, divided evenly, minus the cell padding.
pub open spec fn table_col_width(t: Table, s: RState) -> nat {
    let mc = rows_max_cols(t.rows@);
    let avail = sat_sub(sat_sub(sat_sub(s.width, s.indentation), mc), 1);
    if mc == 0 {
        0
    } else {
        sat_sub(avail / mc, 2)
    }
}

/// The isolated render state a table cell starts from: only the column-width
/// budget is inherited.
pub open spec fn fresh_cell_state(w: nat) -> RState {
    RState {
        ps: ParStatus::New,
        fg: Seq::empty(),
        bg: Seq::empty(),
        fg_stack: Seq::empty(),
        bg_stack: Seq::empty(),
        ii_stack: Seq::empty(),
        indentation: 0,
        indented: 0,
        width: w,
        col: 0,
    }
}

/// The matrix of cell strings a table renders: each cell's paragraph in its
/// own fresh state.
pub open spec fn spec_table_cells(t: Table, w: nat) -> Seq<Seq<Seq<char>>>
    decreases t, 0int, 0int,
{
    Seq::new(
        t.rows@.len(),
        |i: int|
            if 0 <= i < t.rows@.len() {
                Seq::new(
                    t.rows@[i].items@.len(),
                    |j: int|
                        if 0 <= j < t.rows@[i].items@.len() {
                            spec_paragraph(t.rows@[i].items@[j], fresh_cell_state(w), Seq::empty()).1
                        } else {
                            Seq::empty()
                        },
                )
            } else {
                Seq::empty()
            },
    )
}

/// What [`table_to_ansi`] does to the model: the grid renderer's block over
/// the cell matrix, re-indented, behind the owed separating break, bracketed
/// by a reset and the re-issued foreground.
pub open spec fn spec_table(t: Table, s: RState, out: Seq<char>) -> (RState, Seq<char>)
    decreases t, 1int, 0int,
{
    let raw = grid_of(spec_table_cells(t, table_col_width(t, s)));
    let t2 = spec_newlines_unless(1, seq![ParStatus::New], s, out);
    let t3 = spec_indent_table(raw, t2.0, t2.1 + reset_seq());
    (RState { ps: ParStatus::Element, ..t3.0 }, t3.1 + t3.0.fg)
}

/// What emitting a paragraph's items from index `i` on does, for the
/// deterministic reading: every code item is the indentation-error value,
/// so each emits its annotation and no highlighting call occurs (renderers
/// promise this equality only for such paragraphs).
pub open spec fn spec_par_items(par: Paragraph, i: int, s: RState, out: Seq<char>) -> (RState, Seq<
    char,
>)
    decreases par, 0int, par.items@.len() - i,
{
    if i < 0 || i >= par.items@.len() {
        (s, out)
    } else {
        let t = match par.items@[i] {
            ParagraphItem::Text(text) => spec_format_text(text@, s, out),
            ParagraphItem::MText(tm) => if tags_have(tm.tags@, "code"@) {
                spec_inline_code(tm.text@, s, out)
            } else {
                spec_format_text(tm.text@, s, out)
            },
            ParagraphItem::Em(em) => spec_emphasis(em, s, out),
            ParagraphItem::Link(link) => spec_link(link, s, out),
            ParagraphItem::Code(code) => crate::blocks::spec_emit_code_body(
                crate::blocks::err_code_annotation(),
                s,
                out,
            ),
            ParagraphItem::List(l) => spec_list(l, s, out),
            ParagraphItem::Table(t) => spec_table(t, s, out),
        };
        spec_par_items(par, i + 1, t.0, t.1)
    }
}

/// What [`paragraph_to_ansi`] does to the model, for paragraphs that make no
/// delegated highlighting call.
pub open spec fn spec_paragraph(par: Paragraph, s: RState, out: Seq<char>) -> (RState, Seq<char>)
    decreases par, 1int, 0int,
{
    spec_par_items(par, 0, s, out)
}

/// What emitting a section's child items from index `i` on does: paragraphs
/// and sub-sections, each indented one step, each followed by a line break.
pub open spec fn spec_section_items(sec: Section, i: int, s: RState, out: Seq<char>) -> (RState,
    Seq<char>)
    decreases sec, 0int, sec.items@.len() - i,
{
    if i < 0 || i >= sec.items@.len() {
        (s, out)
    } else {
        let t = match sec.items@[i] {
            SectionItem::Paragraph(par) => {
                let s1 = spec_push_indent(RState { ps: ParStatus::New, ..s }, 2, 0);
                let a = spec_paragraph(par, s1, out);
                (spec_pop_indent(a.0), a.1)
            },
            SectionItem::Section(sub) => {
                let s1 = spec_push_indent(s, 2, 0);
                let a = spec_section(sub, s1, out);
                (spec_pop_indent(a.0), a.1)
            },
        };
        let t2 = spec_newline(t.0, t.1);
        spec_section_items(sec, i + 1, t2.0, t2.1)
    }
}

/// What [`section_body_to_ansi`] does to the model: the child items, with
/// the trailing line break trimmed off the whole accumulated output.
pub open spec fn spec_section_body(sec: Section, s: RState, out: Seq<char>) -> (RState, Seq<char>)
    decreases sec, 1int, 0int,
{
    let t = spec_section_items(sec, 0, s, out);
    (t.0, if t.1.len() > 0 {
        t.1.drop_last()
    } else {
        t.1
    })
}

/// What [`headed_section_to_ansi`] does to the model: a separating break,
/// the heading in bold, a line break, then the body.
pub open spec fn spec_headed_section(sec: Section, s: RState, out: Seq<char>) -> (RState, Seq<
    char,
>)
    decreases sec, 2int, 0int,
{
    let s0 = RState { ps: ParStatus::New, ..s };
    let t0 = spec_newlines_unless(1, Seq::empty(), s0, out);
    let t1 = spec_heading(sec.heading, t0.0, t0.1);
    let t2 = spec_newline(t1.0, t1.1);
    spec_section_body(sec, t2.0, t2.1)
}

/// What [`blockquote_to_ansi`] does to the model: heading (if the quote is
/// typed) and body rendered aside, then boxed by the grid renderer as a
/// one-cell grid and spliced in like a table.
pub open spec fn spec_blockquote(sec: Section, s: RState, out: Seq<char>) -> (RState, Seq<char>)
    decreases sec, 2int, 0int,
{
    let t0 = if tags_have(sec.tags@, "blockquote-typed"@) {
        let a = spec_heading(sec.heading, s, Seq::empty());
        spec_newline(a.0, a.1)
    } else {
        (s, Seq::<char>::empty())
    };
    let t1 = spec_section_body(sec, t0.0, t0.1);
    let raw = grid_of(seq![seq![t1.1]]);
    let t2 = spec_newlines_unless(1, seq![ParStatus::New], t1.0, out);
    let t3 = spec_indent_table(raw, t2.0, t2.1 + reset_seq());
    (RState { ps: ParStatus::Element, ..t3.0 }, t3.1 + t3.0.fg)
}

/// What [`section_to_ansi`] does to the model: a quoted box for sections
/// tagged as blockquotes, a headed section otherwise.
pub open spec fn spec_section(sec: Section, s: RState, out: Seq<char>) -> (RState, Seq<char>)
    decreases sec, 3int, 0int,
{
    if tags_have(sec.tags@, "blockquote"@) || tags_have(sec.tags@, "blockquote-typed"@) {
        spec_blockquote(sec, s, out)
    } else {
        spec_headed_section(sec, s, out)
    }
}

/// What walking the document's items from index `i` on does.
pub open spec fn spec_doc_items(doc: Doc, i: int, s: RState, out: Seq<char>) -> (RState, Seq<char>)
    decreases doc.items@.len() - i,
{
    if i < 0 || i >= doc.items@.len() {
        (s, out)
    } else {
        let t = match doc.items@[i] {
            DocItem::Nav(nav) => spec_nav(nav, s, out),
            DocItem::Paragraph(par) => spec_paragraph(par, RState { ps: ParStatus::New, ..s }, out),
            DocItem::Section(sec) => spec_section(sec, s, out),
        };
        spec_doc_items(doc, i + 1, t.0, t.1)
    }
}

/// What [`doc_to_ansi`] does to the model.
pub open spec fn spec_doc(doc: Doc, s: RState, out: Seq<char>) -> (RState, Seq<char>) {
    spec_doc_items(doc, 0, s, out)
}

/// The state a top-level render starts from: default everything, an active
/// reset as foreground, and the configured width.
pub open spec fn init_state(w: nat) -> RState {
    RState {
        ps: ParStatus::New,
        fg: reset_seq(),
        bg: Seq::empty(),
        fg_stack: Seq::empty(),
        bg_stack: Seq::empty(),
        ii_stack: Seq::empty(),
        indentation: 0,
        indented: 0,
        width: w,
        col: 0,
    }
}

/// What emitting a paragraph's items from index `i` on does, for any input:
/// `hs` holds the outcomes of the delegated highlighting calls, consumed in
/// order, one per well-formed code block; the third component is what
/// remains of `hs`. A malformed block consumes nothing.
pub open spec fn spec_par_items_h(
    par: Paragraph,
    i: int,
    hs: Seq<Highlighted>,
    s: RState,
    out: Seq<char>,
) -> (RState, Seq<char>, Seq<Highlighted>)
    decreases par, 0int, par.items@.len() - i,
{
    if i < 0 || i >= par.items@.len() {
        (s, out, hs)
    } else {
        let t = match par.items@[i] {
            ParagraphItem::Text(text) => {
                let a = spec_format_text(text@, s, out);
                (a.0, a.1, hs)
            },
            ParagraphItem::MText(tm) => if tags_have(tm.tags@, "code"@) {
                let a = spec_inline_code(tm.text@, s, out);
                (a.0, a.1, hs)
            } else {
                let a = spec_format_text(tm.text@, s, out);
                (a.0, a.1, hs)
            },
            ParagraphItem::Em(em) => {
                let a = spec_emphasis(em, s, out);
                (a.0, a.1, hs)
            },
            ParagraphItem::Link(link) => {
                let a = spec_link(link, s, out);
                (a.0, a.1, hs)
            },
            ParagraphItem::Code(code) => if code is Err {
                let a = crate::blocks::spec_emit_code_body(
                    crate::blocks::err_code_annotation(),
                    s,
                    out,
                );
                (a.0, a.1, hs)
            } else if hs.len() > 0 {
                let a = spec_code_with(code, hs[0], s, out);
                (a.0, a.1, hs.drop_first())
            } else {
                (s, out, hs)
            },
            ParagraphItem::List(l) => spec_list_h(l, hs, s, out),
            ParagraphItem::Table(t2) => spec_table_h(t2, hs, s, out),
        };
        spec_par_items_h(par, i + 1, t.2, t.0, t.1)
    }
}

/// What [`paragraph_to_ansi`] does to the model, for any input, given the
/// highlighter outcomes.
pub open spec fn spec_paragraph_h(
    par: Paragraph,
    hs: Seq<Highlighted>,
    s: RState,
    out: Seq<char>,
) -> (RState, Seq<char>, Seq<Highlighted>)
    decreases par, 1int, 0int,
{
    spec_par_items_h(par, 0, hs, s, out)
}

/// What emitting a list's items from index `i` on does, for any input,
/// given the highlighter outcomes.
pub open spec fn spec_list_items_h(
    l: List,
    i: int,
    hs: Seq<Highlighted>,
    s: RState,
    out: Seq<char>,
) -> (RState, Seq<char>, Seq<Highlighted>)
    decreases l, 2int, l.items@.len() - i,
{
    if i < 0 || i >= l.items@.len() {
        (s, out, hs)
    } else {
        let t0 = spec_newlines_unless(1, Seq::empty(), s, out);
        let t1 = spec_indent(0, t0.0, t0.1);
        let t2 = spec_append(marker_of(l, i), t1.0, t1.1);
        let s3 = spec_push_indent(
            RState { ps: ParStatus::New, ..t2.0 },
            list_iwidth(l),
            list_iwidth(l),
        );
        let t4 = spec_paragraph_h(l.items@[i], hs, s3, t2.1);
        let s5 = RState { ps: ParStatus::Element, ..spec_pop_indent(t4.0) };
        spec_list_items_h(l, i + 1, t4.2, s5, t4.1)
    }
}

/// What [`list_to_ansi`] does to the model, for any input, given the
/// highlighter outcomes.
pub open spec fn spec_list_h(l: List, hs: Seq<Highlighted>, s: RState, out: Seq<char>) -> (RState,
    Seq<char>, Seq<Highlighted>)
    decreases l, 3int, 0int,
{
    spec_list_items_h(l, 0, hs, s, out)
}

/// The cell strings of row `i` from cell `j` on, each cell's paragraph in
/// its own fresh state, threading the highlighter outcomes.
pub open spec fn spec_row_cells_h(t: Table, i: int, j: int, hs: Seq<Highlighted>, w: nat) -> (Seq<
    Seq<char>>, Seq<Highlighted>)
    decreases t, 0int, (if 0 <= i < t.rows@.len() {
        t.rows@[i].items@.len() - j
    } else {
        0
    }),
{
    if i < 0 || i >= t.rows@.len() || j < 0 || j >= t.rows@[i].items@.len() {
        (Seq::empty(), hs)
    } else {
        let cell = spec_paragraph_h(t.rows@[i].items@[j], hs, fresh_cell_state(w), Seq::empty());
        let rest = spec_row_cells_h(t, i, j + 1, cell.2, w);
        (seq![cell.1] + rest.0, rest.1)
    }
}

/// The cell matrix of a table from row `i` on, threading the highlighter
/// outcomes row by row, cell by cell.
pub open spec fn spec_table_rows_h(t: Table, i: int, hs: Seq<Highlighted>, w: nat) -> (Seq<Seq<Seq<
    char>>>, Seq<Highlighted>)
    decreases t, 1int, t.rows@.len() - i,
{
    if i < 0 || i >= t.rows@.len() {
        (Seq::empty(), hs)
    } else {
        let row = spec_row_cells_h(t, i, 0, hs, w);
        let rest = spec_table_rows_h(t, i + 1, row.1, w);
        (seq![row.0] + rest.0, rest.1)
    }
}

/// What [`table_to_ansi`] does to the model, for any input, given the
/// highlighter outcomes.
pub open spec fn spec_table_h(t: Table, hs: Seq<Highlighted>, s: RState, out: Seq<char>) -> (RState,
    Seq<char>, Seq<Highlighted>)
    decreases t, 2int, 0int,
{
    let cells = spec_table_rows_h(t, 0, hs, table_col_width(t, s));
    let raw = grid_of(cells.0);
    let t2 = spec_newlines_unless(1, seq![ParStatus::New], s, out);
    let t3 = spec_indent_table(raw, t2.0, t2.1 + reset_seq());
    (RState { ps: ParStatus::Element, ..t3.0 }, t3.1 + t3.0.fg, cells.1)
}

/// What emitting a section's child items from index `i` on does, for any
/// input, given the highlighter outcomes.
pub open spec fn spec_section_items_h(
    sec: Section,
    i: int,
    hs: Seq<Highlighted>,
    s: RState,
    out: Seq<char>,
) -> (RState, Seq<char>, Seq<Highlighted>)
    decreases sec, 0int, sec.items@.len() - i,
{
    if i < 0 || i >= sec.items@.len() {
        (s, out, hs)
    } else {
        let t = match sec.items@[i] {
            SectionItem::Paragraph(par) => {
                let s1 = spec_push_indent(RState { ps: ParStatus::New, ..s }, 2, 0);
                let a = spec_paragraph_h(par, hs, s1, out);
                (spec_pop_indent(a.0), a.1, a.2)
            },
            SectionItem::Section(sub) => {
                let s1 = spec_push_indent(s, 2, 0);
                let a = spec_section_h(sub, hs, s1, out);
                (spec_pop_indent(a.0), a.1, a.2)
            },
        };
        let t2 = spec_newline(t.0, t.1);
        spec_section_items_h(sec, i + 1, t.2, t2.0, t2.1)
    }
}

/// What [`section_body_to_ansi`] does to the model, for any input, given
/// the highlighter outcomes.
pub open spec fn spec_section_body_h(
    sec: Section,
    hs: Seq<Highlighted>,
    s: RState,
    out: Seq<char>,
) -> (RState, Seq<char>, Seq<Highlighted>)
    decreases sec, 1int, 0int,
{
    let t = spec_section_items_h(sec, 0, hs, s, out);
    (t.0, if t.1.len() > 0 {
        t.1.drop_last()
    } else {
        t.1
    }, t.2)
}

/// What [`headed_section_to_ansi`] does to the model, for any input, given
/// the highlighter outcomes.
pub open spec fn spec_headed_section_h(
    sec: Section,
    hs: Seq<Highlighted>,
    s: RState,
    out: Seq<char>,
) -> (RState, Seq<char>, Seq<Highlighted>)
    decreases sec, 2int, 0int,
{
    let s0 = RState { ps: ParStatus::New, ..s };
    let t0 = spec_newlines_unless(1, Seq::empty(), s0, out);
    let t1 = spec_heading(sec.heading, t0.0, t0.1);
    let t2 = spec_newline(t1.0, t1.1);
    spec_section_body_h(sec, hs, t2.0, t2.1)
}

/// What [`blockquote_to_ansi`] does to the model, for any input, given the
/// highlighter outcomes.
pub open spec fn spec_blockquote_h(
    sec: Section,
    hs: Seq<Highlighted>,
    s: RState,
    out: Seq<char>,
) -> (RState, Seq<char>, Seq<Highlighted>)
    decreases sec, 2int, 0int,
{
    let t0 = if tags_have(sec.tags@, "blockquote-typed"@) {
        let a = spec_heading(sec.heading, s, Seq::empty());
        spec_newline(a.0, a.1)
    } else {
        (s, Seq::<char>::empty())
    };
    let t1 = spec_section_body_h(sec, hs, t0.0, t0.1);
    let raw = grid_of(seq![seq![t1.1]]);
    let t2 = spec_newlines_unless(1, seq![ParStatus::New], t1.0, out);
    let t3 = spec_indent_table(raw, t2.0, t2.1 + reset_seq());
    (RState { ps: ParStatus::Element, ..t3.0 }, t3.1 + t3.0.fg, t1.2)
}

/// What [`section_to_ansi`] does to the model, for any input, given the
/// highlighter outcomes.
pub open spec fn spec_section_h(sec: Section, hs: Seq<Highlighted>, s: RState, out: Seq<char>) -> (
    RState,
    Seq<char>,
    Seq<Highlighted>,
)
    decreases sec, 3int, 0int,
{
    if tags_have(sec.tags@, "blockquote"@) || tags_have(sec.tags@, "blockquote-typed"@) {
        spec_blockquote_h(sec, hs, s, out)
    } else {
        spec_headed_section_h(sec, hs, s, out)
    }
}

/// What walking the document's items from index `i` on does, for any input,
/// given the highlighter outcomes.
pub open spec fn spec_doc_items_h(
    doc: Doc,
    i: int,
    hs: Seq<Highlighted>,
    s: RState,
    out: Seq<char>,
) -> (RState, Seq<char>, Seq<Highlighted>)
    decreases doc, 0int, doc.items@.len() - i,
{
    if i < 0 || i >= doc.items@.len() {
        (s, out, hs)
    } else {
        let t = match doc.items@[i] {
            DocItem::Nav(nav) => {
                let a = spec_nav(nav, s, out);
                (a.0, a.1, hs)
            },
            DocItem::Paragraph(par) => spec_paragraph_h(
                par,
                hs,
                RState { ps: ParStatus::New, ..s },
                out,
            ),
            DocItem::Section(sec) => spec_section_h(sec, hs, s, out),
        };
        spec_doc_items_h(doc, i + 1, t.2, t.0, t.1)
    }
}

/// What [`doc_to_ansi`] does to the model, for any input, given the
/// highlighter outcomes.
pub open spec fn spec_doc_h(doc: Doc, hs: Seq<Highlighted>, s: RState, out: Seq<char>) -> (RState,
    Seq<char>, Seq<Highlighted>)
    decreases doc, 1int, 0int,
{
    spec_doc_items_h(doc, 0, hs, s, out)
}

/// The rendering relation behind the unconditional contracts: from `pre`
/// the paragraph renders to exactly `post`, with the delegated highlighting
/// calls returning the outcomes `hs` in order, all of them consumed.
pub open spec fn par_renders_with(
    par: Paragraph,
    hs: Seq<Highlighted>,
    pre: RState,
    preout: Seq<char>,
    post: RState,
    postout: Seq<char>,
) -> bool {
    forall|rest: Seq<Highlighted>|
        #[trigger] spec_paragraph_h(par, hs + rest, pre, preout) == (post, postout, rest)
}

/// See [`par_renders_with`], for a list.
pub open spec fn list_renders_with(
    l: List,
    hs: Seq<Highlighted>,
    pre: RState,
    preout: Seq<char>,
    post: RState,
    postout: Seq<char>,
) -> bool {
    forall|rest: Seq<Highlighted>|
        #[trigger] spec_list_h(l, hs + rest, pre, preout) == (post, postout, rest)
}

/// See [`par_renders_with`], for a table.
pub open spec fn table_renders_with(
    t: Table,
    hs: Seq<Highlighted>,
    pre: RState,
    preout: Seq<char>,
    post: RState,
    postout: Seq<char>,
) -> bool {
    forall|rest: Seq<Highlighted>|
        #[trigger] spec_table_h(t, hs + rest, pre, preout) == (post, postout, rest)
}

/// See [`par_renders_with`], for a blockquote.
pub open spec fn blockquote_renders_with(
    sec: Section,
    hs: Seq<Highlighted>,
    pre: RState,
    preout: Seq<char>,
    post: RState,
    postout: Seq<char>,
) -> bool {
    forall|rest: Seq<Highlighted>|
        #[trigger] spec_blockquote_h(sec, hs + rest, pre, preout) == (post, postout, rest)
}

/// See [`par_renders_with`], for a section body.
pub open spec fn section_body_renders_with(
    sec: Section,
    hs: Seq<Highlighted>,
    pre: RState,
    preout: Seq<char>,
    post: RState,
    postout: Seq<char>,
) -> bool {
    forall|rest: Seq<Highlighted>|
        #[trigger] spec_section_body_h(sec, hs + rest, pre, preout) == (post, postout, rest)
}

/// See [`par_renders_with`], for a headed section.
pub open spec fn headed_section_renders_with(
    sec: Section,
    hs: Seq<Highlighted>,
    pre: RState,
    preout: Seq<char>,
    post: RState,
    postout: Seq<char>,
) -> bool {
    forall|rest: Seq<Highlighted>|
        #[trigger] spec_headed_section_h(sec, hs + rest, pre, preout) == (post, postout, rest)
}

/// See [`par_renders_with`], for a section.
pub open spec fn section_renders_with(
    sec: Section,
    hs: Seq<Highlighted>,
    pre: RState,
    preout: Seq<char>,
    post: RState,
    postout: Seq<char>,
) -> bool {
    forall|rest: Seq<Highlighted>|
        #[trigger] spec_section_h(sec, hs + rest, pre, preout) == (post, postout, rest)
}

/// See [`par_renders_with`], for a whole document.
pub open spec fn doc_renders_with(
    doc: Doc,
    hs: Seq<Highlighted>,
    pre: RState,
    preout: Seq<char>,
    post: RState,
    postout: Seq<char>,
) -> bool {
    forall|rest: Seq<Highlighted>|
        #[trigger] spec_doc_h(doc, hs + rest, pre, preout) == (post, postout, rest)
}

/// Emit an emphasised span: style code, reflowed text, reset, ambient style
/// restored.
pub fn emphasis_to_ansi(em: &Emphasis, conf: &Config, c: &mut Context, output: &mut String)
    ensures
        frame_ok(old(c)@, final(c)@),
        (final(c)@, final(output)@) == spec_emphasis(*em, old(c)@, old(output)@),
{
    let modifier: String = match (em.etype, em.strength) {
        (EmType::Emphasis, EmStrength::Light) => ansi_italic(),
        (EmType::Emphasis, EmStrength::Medium) => ansi_bold(),
        (EmType::Emphasis, EmStrength::Strong) => {
            let mut m = ansi_italic();
            m.append(ansi_bold().as_str());
            m
        },
        (EmType::Deemphasis, EmStrength::Light) => ansi_faint(),
        (EmType::Deemphasis, EmStrength::Medium) => ansi_crossed(),
        (EmType::Deemphasis, EmStrength::Strong) => ansi_hidden(),
    };
    output.append(modifier.as_str());
    format_text(em.text.as_str(), c, output);
    proof {
        crate::reflow::lemma_format_text_frame(em.text@, old(c)@, old(output)@ + em_code(
            em.etype,
            em.strength,
        ));
    }
    let r = ansi_reset();
    output.append(r.as_str());
    output.append(c.fg_mod.as_str());
    output.append(c.bg_mod.as_str());
    c.ps = ParStatus::Emphasis;
    proof {
        assert(c@ =~= spec_emphasis(*em, old(c)@, old(output)@).0);
        assert(output@ == spec_emphasis(*em, old(c)@, old(output)@).1);
    }
}

/// Emit an inline code span: background scope around the reflowed text.
pub fn inline_code_to_ansi(text: &str, conf: &Config, c: &mut Context, output: &mut String)
    ensures
        frame_ok(old(c)@, final(c)@),
        (final(c)@, final(output)@) == spec_inline_code(text@, old(c)@, old(output)@),
{
    format_text_pre(c, output);
    let r = ansi_reset();
    output.append(r.as_str());
    let bg = ansi_bg_black();
    c.push_bg_mod(bg.as_str(), output);
    format_text_main(text, c, output);
    proof {
        let t1 = spec_push_bg(
            spec_text_pre(old(c)@, old(output)@).0,
            bg_black_seq(),
            spec_text_pre(old(c)@, old(output)@).1 + reset_seq(),
        );
        crate::reflow::lemma_text_main_frame(text@, t1.0, t1.1);
    }
    c.pop_bg_mod(output);
    c.ps = ParStatus::Char;
    proof {
        assert(c@ =~= spec_inline_code(text@, old(c)@, old(output)@).0);
        assert(c@.bg_stack =~= old(c)@.bg_stack);
        assert(output@ == spec_inline_code(text@, old(c)@, old(output)@).1);
    }
}

/// Emit the text and emphasis items of a heading or link, in order.
fn em_items_to_ansi(items: &Vec<EmOrText>, conf: &Config, c: &mut Context, output: &mut String)
    ensures
        frame_ok(old(c)@, final(c)@),
        (final(c)@, final(output)@) == spec_em_items(items@, 0, old(c)@, old(output)@),
{
    let n = items.len();
    let mut i: usize = 0;
    while i < n
        invariant
            i <= n,
            n == items@.len(),
            frame_ok(old(c)@, c@),
            spec_em_items(items@, 0, old(c)@, old(output)@) == spec_em_items(
                items@,
                i as int,
                c@,
                output@,
            ),
        decreases n - i,
    {
        let ghost s0 = c@;
        let ghost o0 = output@;
        match &items[i] {
            EmOrText::Text(text) => {
                text_to_ansi(text.as_str(), c, output);
                proof {
                    crate::reflow::lemma_format_text_frame(text@, s0, o0);
                }
            },
            EmOrText::Em(em) => {
                emphasis_to_ansi(em, conf, c, output);
            },
        }
        i = i + 1;
        proof {
            assert(spec_em_items(items@, i - 1, s0, o0) == spec_em_items(
                items@,
                i as int,
                c@,
                output@,
            ));
        }
    }
}

/// Emit a heading: its items inside a bold foreground scope.
pub fn heading_to_ansi(heading: &Heading, conf: &Config, c: &mut Context, output: &mut String)
    ensures
        frame_ok(old(c)@, final(c)@),
        (final(c)@, final(output)@) == spec_heading(*heading, old(c)@, old(output)@),
{
    let b = ansi_bold();
    c.push_fg_mod(b.as_str(), output);
    em_items_to_ansi(&heading.items, conf, c, output);
    c.pop_fg_mod(output);
    proof {
        assert(c@.fg_stack =~= old(c)@.fg_stack);
        assert(c@ =~= spec_heading(*heading, old(c)@, old(output)@).0);
    }
}

/// Emit a link: its items inside an accent-colour foreground scope.
pub fn link_to_ansi(link: &Link, conf: &Config, c: &mut Context, output: &mut String)
    ensures
        frame_ok(old(c)@, final(c)@),
        (final(c)@, final(output)@) == spec_link(*link, old(c)@, old(output)@),
{
    let m = ansi_magenta();
    c.push_fg_mod(m.as_str(), output);
    em_items_to_ansi(&link.items, conf, c, output);
    c.pop_fg_mod(output);
    proof {
        assert(c@.fg_stack =~= old(c)@.fg_stack);
        assert(c@ =~= spec_link(*link, old(c)@, old(output)@).0);
    }
}

/// Emit a navigation menu: description, links, then sub-menus, recursively.
pub fn nav_to_ansi(nav: &Nav, conf: &Config, c: &mut Context, output: &mut String)
    ensures
        frame_ok(old(c)@, final(c)@),
        (final(c)@, final(output)@) == spec_nav(*nav, old(c)@, old(output)@),
    decreases *nav,
{
    let e: [ParStatus; 0] = [];
    proof {
        assert(e@ =~= Seq::<ParStatus>::empty());
    }
    newlines_unless(1, &e, c, output);
    text_to_ansi(nav.description.as_str(), c, output);
    proof {
        let t0 = spec_newlines_unless(1, Seq::empty(), old(c)@, old(output)@);
        crate::reflow::lemma_format_text_frame(nav.description@, t0.0, t0.1);
    }
    newline(c, output);

    let nl = nav.links.len();
    let mut i: usize = 0;
    while i < nl
        invariant
            i <= nl,
            nl == nav.links@.len(),
            frame_ok(old(c)@, c@),
            spec_nav(*nav, old(c)@, old(output)@) == spec_navs(
                *nav,
                0,
                spec_nav_links(nav.links@, i as int, c@, output@).0,
                spec_nav_links(nav.links@, i as int, c@, output@).1,
            ),
        decreases nl - i,
    {
        let ghost s0 = c@;
        let ghost o0 = output@;
        let e2: [ParStatus; 0] = [];
        proof {
            assert(e2@ =~= Seq::<ParStatus>::empty());
        }
        newlines_unless(1, &e2, c, output);
        c.push_indent(2, 0);
        link_to_ansi(&nav.links[i], conf, c, output);
        c.pop_indent();
        i = i + 1;
        proof {
            assert(c@.ii_stack =~= s0.ii_stack);
            assert(spec_nav_links(nav.links@, i - 1, s0, o0) == spec_nav_links(
                nav.links@,
                i as int,
                c@,
                output@,
            ));
        }
    }

    let ns = nav.subs.len();
    let mut j: usize = 0;
    proof {
        assert(spec_nav_links(nav.links@, nl as int, c@, output@) == (c@, output@));
    }
    while j < ns
        invariant
            j <= ns,
            ns == nav.subs@.len(),
            frame_ok(old(c)@, c@),
            spec_nav(*nav, old(c)@, old(output)@) == spec_navs(*nav, j as int, c@, output@),
        decreases ns - j,
    {
        let ghost s0 = c@;
        let ghost o0 = output@;
        c.push_indent(2, 0);
        nav_to_ansi(&nav.subs[j], conf, c, output);
        c.pop_indent();
        j = j + 1;
        proof {
            assert(c@.ii_stack =~= s0.ii_stack);
            assert(spec_navs(*nav, j - 1, s0, o0) == spec_navs(*nav, j as int, c@, output@));
        }
    }
}

/// Emit a paragraph: its items in order, each routed to its renderer.
pub fn paragraph_to_ansi(par: &Paragraph, conf: &Config, c: &mut Context, output: &mut String)
    ensures
        frame_ok(old(c)@, final(c)@),
        par_det(*par) ==> (final(c)@, final(output)@) == spec_paragraph(
            *par,
            old(c)@,
            old(output)@,
        ),
        exists|hs: Seq<Highlighted>|
            par_renders_with(*par, hs, old(c)@, old(output)@, final(c)@, final(output)@),
    decreases *par, 2int, 0int,
{
    let n = par.items.len();
    let mut i: usize = 0;
    let ghost mut hs: Seq<Highlighted> = Seq::empty();
    proof {
        assert forall|rest: Seq<Highlighted>|
            #[trigger] spec_par_items_h(*par, 0, hs + rest, old(c)@, old(output)@)
                == spec_par_items_h(*par, 0, rest, c@, output@) by {
            assert(hs + rest =~= rest);
        }
    }
    while i < n
        invariant
            i <= n,
            n == par.items@.len(),
            frame_ok(old(c)@, c@),
            par_det(*par) ==> spec_par_items(*par, 0, old(c)@, old(output)@) == spec_par_items(
                *par,
                i as int,
                c@,
                output@,
            ),
            forall|rest: Seq<Highlighted>|
                #[trigger] spec_par_items_h(*par, 0, hs + rest, old(c)@, old(output)@)
                    == spec_par_items_h(*par, i as int, rest, c@, output@),
        decreases n - i,
    {
        let ghost s0 = c@;
        let ghost o0 = output@;
        match &par.items[i] {
            ParagraphItem::Text(text) => {
                text_to_ansi(text.as_str(), c, output);
                proof {
                    crate::reflow::lemma_format_text_frame(text@, s0, o0);
                }
            },
            ParagraphItem::MText(tm) => {
                if tags_contain(&tm.tags, "code") {
                    inline_code_to_ansi(tm.text.as_str(), conf, c, output);
                } else {
                    text_to_ansi(tm.text.as_str(), c, output);
                    proof {
                        crate::reflow::lemma_format_text_frame(tm.text@, s0, o0);
                    }
                }
            },
            ParagraphItem::Em(em) => {
                emphasis_to_ansi(em, conf, c, output);
            },
            ParagraphItem::Link(link) => {
                link_to_ansi(link, conf, c, output);
            },
            ParagraphItem::Code(code) => {
                code_to_ansi(code, conf, c, output);
            },
            ParagraphItem::List(l) => {
                list_to_ansi(l, conf, c, output);
            },
            ParagraphItem::Table(t) => {
                table_to_ansi(t, conf, c, output);
            },
        }
        i = i + 1;
        proof {
            if par_det(*par) {
                assert(pitem_det(par.items@[i - 1]));
                assert(spec_par_items(*par, i - 1, s0, o0) == spec_par_items(
                    *par,
                    i as int,
                    c@,
                    output@,
                ));
            }
            let hs0 = hs;
            let consumed: Seq<Highlighted> = match par.items@[i - 1] {
                ParagraphItem::Code(code) => if code is Ok {
                    seq![
                        choose|hh: Highlighted|
                            (c@, output@) == spec_code_with(code, hh, s0, o0)
                    ]
                } else {
                    Seq::empty()
                },
                ParagraphItem::List(l) => choose|hc: Seq<Highlighted>|
                    #[trigger] list_renders_with(l, hc, s0, o0, c@, output@),
                ParagraphItem::Table(t2) => choose|hc: Seq<Highlighted>|
                    #[trigger] table_renders_with(t2, hc, s0, o0, c@, output@),
                _ => Seq::empty(),
            };
            assert forall|rest: Seq<Highlighted>|
                #[trigger] spec_par_items_h(*par, i - 1, consumed + rest, s0, o0)
                    == spec_par_items_h(*par, i as int, rest, c@, output@) by {
                match par.items@[i - 1] {
                    ParagraphItem::Code(code) => {
                        if code is Ok {
                            let hh = choose|hh: Highlighted|
                                (c@, output@) == spec_code_with(code, hh, s0, o0);
                            assert((consumed + rest)[0] == hh);
                            assert((consumed + rest).drop_first() =~= rest);
                        } else {
                            assert(consumed + rest =~= rest);
                        }
                    },
                    ParagraphItem::List(l) => {
                        assert(spec_list_h(l, consumed + rest, s0, o0) == (c@, output@, rest));
                    },
                    ParagraphItem::Table(t2) => {
                        assert(spec_table_h(t2, consumed + rest, s0, o0) == (c@, output@, rest));
                    },
                    _ => {
                        assert(consumed + rest =~= rest);
                    },
                }
            }
            hs = hs0 + consumed;
            assert forall|rest: Seq<Highlighted>|
                #[trigger] spec_par_items_h(*par, 0, hs + rest, old(c)@, old(output)@)
                    == spec_par_items_h(*par, i as int, rest, c@, output@) by {
                assert(hs + rest =~= hs0 + (consumed + rest));
                assert(spec_par_items_h(*par, 0, hs0 + (consumed + rest), old(c)@, old(output)@)
                    == spec_par_items_h(*par, i - 1, consumed + rest, s0, o0));
            }
        }
    }
    proof {
        assert forall|rest: Seq<Highlighted>|
            #[trigger] spec_paragraph_h(*par, hs + rest, old(c)@, old(output)@)
                == (c@, output@, rest) by {
            assert(spec_par_items_h(*par, 0, hs + rest, old(c)@, old(output)@)
                == spec_par_items_h(*par, n as int, rest, c@, output@));
        }
        assert(par_renders_with(*par, hs, old(c)@, old(output)@, c@, output@));
    }
}

/// Emit a list: for each item a line break, the indentation, the marker,
/// then the item's paragraph indented under the text.
#[verifier::rlimit(100)]
pub fn list_to_ansi(list: &List, conf: &Config, c: &mut Context, output: &mut String)
    ensures
        frame_ok(old(c)@, final(c)@),
        list_det(*list) ==> (final(c)@, final(output)@) == spec_list(*list, old(c)@, old(output)@),
        exists|hs: Seq<Highlighted>|
            list_renders_with(*list, hs, old(c)@, old(output)@, final(c)@, final(output)@),
    decreases *list, 2int, 0int,
{
    let width: usize = match list.ltype {
        ListType::Distinct => {
            let m: usize = if list.items.len() == 0 {
                0
            } else {
                list.items.len() - 1
            };
            dec_width(m)
        },
        ListType::Identical => 2,
        ListType::Checked => 6,
    };
    let iwidth: usize = match list.ltype {
        ListType::Distinct => usize_sat_add(width, 2),
        ListType::Identical => width,
        ListType::Checked => width,
    };
    proof {
        assert(width as nat == list_width(*list));
        assert(iwidth as nat == list_iwidth(*list));
    }
    let n = list.items.len();
    let mut i: usize = 0;
    let ghost mut hs: Seq<Highlighted> = Seq::empty();
    proof {
        assert forall|rest: Seq<Highlighted>|
            #[trigger] spec_list_items_h(*list, 0, hs + rest, old(c)@, old(output)@)
                == spec_list_items_h(*list, 0, rest, c@, output@) by {
            assert(hs + rest =~= rest);
        }
    }
    while i < n
        invariant
            i <= n,
            n == list.items@.len(),
            width as nat == list_width(*list),
            iwidth as nat == list_iwidth(*list),
            frame_ok(old(c)@, c@),
            list_det(*list) ==> spec_list_items(*list, 0, old(c)@, old(output)@)
                == spec_list_items(*list, i as int, c@, output@),
            forall|rest: Seq<Highlighted>|
                #[trigger] spec_list_items_h(*list, 0, hs + rest, old(c)@, old(output)@)
                    == spec_list_items_h(*list, i as int, rest, c@, output@),
        decreases n - i,
    {
        let ghost s0 = c@;
        let ghost o0 = output@;
        let e: [ParStatus; 0] = [];
        proof {
            assert(e@ =~= Seq::<ParStatus>::empty());
        }
        newlines_unless(1, &e, c, output);
        crate::reflow::indent(0, c, output);
        match list.ltype {
            ListType::Distinct => {
                let mk = distinct_marker(i, width);
                append(mk.as_str(), c, output);
            },
            ListType::Identical => {
                append("- ", c, output);
            },
            ListType::Checked => {
                if tags_contain(&list.items[i].tags, "checked") {
                    append("- [x] ", c, output);
                } else {
                    append("- [ ] ", c, output);
                }
            },
        }
        proof {
            let t0 = spec_newlines_unless(1, Seq::empty(), s0, o0);
            let t1 = spec_indent(0, t0.0, t0.1);
            crate::reflow::lemma_append_frame(marker_of(*list, i as int), t1.0, t1.1);
        }
        c.ps = ParStatus::New;
        c.push_indent(iwidth, iwidth);
        let ghost sp = c@;
        let ghost op = output@;
        paragraph_to_ansi(&list.items[i], conf, c, output);
        let ghost cp = c@;
        c.pop_indent();
        c.ps = ParStatus::Element;
        i = i + 1;
        proof {
            assert(c@.ii_stack =~= s0.ii_stack);
            if list_det(*list) {
                assert(par_det(list.items@[i - 1]));
                assert(spec_list_items(*list, i - 1, s0, o0) == spec_list_items(
                    *list,
                    i as int,
                    c@,
                    output@,
                ));
            }
            let hs0 = hs;
            let consumed = choose|hc: Seq<Highlighted>|
                #[trigger] par_renders_with(list.items@[i - 1], hc, sp, op, cp, output@);
            assert forall|rest: Seq<Highlighted>|
                #[trigger] spec_list_items_h(*list, i - 1, consumed + rest, s0, o0)
                    == spec_list_items_h(*list, i as int, rest, c@, output@) by {
                let t0 = spec_newlines_unless(1, Seq::empty(), s0, o0);
                let t1 = spec_indent(0, t0.0, t0.1);
                let t2 = spec_append(marker_of(*list, i - 1), t1.0, t1.1);
                let s3 = spec_push_indent(
                    RState { ps: ParStatus::New, ..t2.0 },
                    list_iwidth(*list),
                    list_iwidth(*list),
                );
                assert(sp =~= s3);
                assert(op == t2.1);
                assert(spec_paragraph_h(list.items@[i - 1], consumed + rest, sp, op) == (
                    cp,
                    output@,
                    rest,
                ));
                assert(c@ =~= (RState { ps: ParStatus::Element, ..spec_pop_indent(cp) }));
            }
            hs = hs0 + consumed;
            assert forall|rest: Seq<Highlighted>|
                #[trigger] spec_list_items_h(*list, 0, hs + rest, old(c)@, old(output)@)
                    == spec_list_items_h(*list, i as int, rest, c@, output@) by {
                assert(hs + rest =~= hs0 + (consumed + rest));
                assert(spec_list_items_h(*list, 0, hs0 + (consumed + rest), old(c)@, old(output)@)
                    == spec_list_items_h(*list, i - 1, consumed + rest, s0, o0));
            }
        }
    }
    proof {
        assert forall|rest: Seq<Highlighted>|
            #[trigger] spec_list_h(*list, hs + rest, old(c)@, old(output)@) == (c@, output@, rest)
            by {
            assert(spec_list_items_h(*list, 0, hs + rest, old(c)@, old(output)@)
                == spec_list_items_h(*list, n as int, rest, c@, output@));
        }
        assert(list_renders_with(*list, hs, old(c)@, old(output)@, c@, output@));
    }
}

/// Emit a table: each cell's paragraph rendered into an isolated state
/// scoped to the computed column width, the resulting matrix handed to the
/// grid renderer, the block re-indented and spliced in.
#[verifier::rlimit(100)]
pub fn table_to_ansi(table: &Table, conf: &Config, c: &mut Context, output: &mut String)
    ensures
        frame_ok(old(c)@, final(c)@),
        table_det(*table) ==> (final(c)@, final(output)@) == spec_table(
            *table,
            old(c)@,
            old(output)@,
        ),
        exists|hs: Seq<Highlighted>|
            table_renders_with(*table, hs, old(c)@, old(output)@, final(c)@, final(output)@),
    decreases *table, 2int, 0int,
{
    let nr = table.rows.len();
    let mut max_cols: usize = 0;
    let mut ri: usize = 0;
    proof {
        assert(table.rows@.subrange(0, 0) =~= Seq::<TableRow>::empty());
    }
    while ri < nr
        invariant
            ri <= nr,
            nr == table.rows@.len(),
            max_cols as nat == rows_max_cols(table.rows@.subrange(0, ri as int)),
        decreases nr - ri,
    {
        let rl = table.rows[ri].items.len();
        if rl > max_cols {
            max_cols = rl;
        }
        ri = ri + 1;
        proof {
            assert(table.rows@.subrange(0, ri as int).drop_last() =~= table.rows@.subrange(
                0,
                ri - 1,
            ));
            assert(table.rows@.subrange(0, ri as int).last() == table.rows@[ri - 1]);
        }
    }
    proof {
        assert(table.rows@.subrange(0, nr as int) =~= table.rows@);
    }
    let available_width = usize_sat_sub(usize_sat_sub(usize_sat_sub(c.width, c.indentation), max_cols), 1);
    let col_width: usize = if max_cols == 0 {
        0
    } else {
        usize_sat_sub(available_width / max_cols, 2)
    };
    proof {
        assert(col_width as nat == table_col_width(*table, c@));
        assert(table_col_width(*table, c@) == table_col_width(*table, old(c)@));
    }

    let mut cells: Vec<Vec<String>> = Vec::new();
    let ghost w = col_width as nat;
    let mut i: usize = 0;
    let ghost mut hs: Seq<Highlighted> = Seq::empty();
    proof {
        assert forall|rest: Seq<Highlighted>|
            #[trigger] spec_table_rows_h(*table, 0, hs + rest, w) == (
                cells.deep_view() + spec_table_rows_h(*table, 0, rest, w).0,
                spec_table_rows_h(*table, 0, rest, w).1,
            ) by {
            assert(hs + rest =~= rest);
            assert(cells.deep_view() + spec_table_rows_h(*table, 0, rest, w).0
                =~~= spec_table_rows_h(*table, 0, rest, w).0);
        }
    }
    while i < nr
        invariant
            i <= nr,
            nr == table.rows@.len(),
            w == col_width as nat,
            cells@.len() == i,
            table_det(*table) ==> cells.deep_view() =~~= spec_table_cells(*table, w).subrange(
                0,
                i as int,
            ),
            forall|rest: Seq<Highlighted>|
                #[trigger] spec_table_rows_h(*table, 0, hs + rest, w) == (
                    cells.deep_view() + spec_table_rows_h(*table, i as int, rest, w).0,
                    spec_table_rows_h(*table, i as int, rest, w).1,
                ),
            *c == *old(c),
            output == old(output),
        decreases nr - i,
    {
        let nc = table.rows[i].items.len();
        let mut row: Vec<String> = Vec::new();
        let mut j: usize = 0;
        let ghost mut hs_r: Seq<Highlighted> = Seq::empty();
        proof {
            assert forall|rest: Seq<Highlighted>|
                #[trigger] spec_row_cells_h(*table, i as int, 0, hs_r + rest, w) == (
                    row.deep_view() + spec_row_cells_h(*table, i as int, 0, rest, w).0,
                    spec_row_cells_h(*table, i as int, 0, rest, w).1,
                ) by {
                assert(hs_r + rest =~= rest);
                assert(row.deep_view() + spec_row_cells_h(*table, i as int, 0, rest, w).0
                    =~~= spec_row_cells_h(*table, i as int, 0, rest, w).0);
            }
        }
        while j < nc
            invariant
                j <= nc,
                i < nr,
                nr == table.rows@.len(),
                nc == table.rows@[i as int].items@.len(),
                w == col_width as nat,
                row@.len() == j,
                table_det(*table) ==> row.deep_view() =~~= spec_table_cells(*table, w)[i as int].subrange(
                    0,
                    j as int,
                ),
                forall|rest: Seq<Highlighted>|
                    #[trigger] spec_row_cells_h(*table, i as int, 0, hs_r + rest, w) == (
                        row.deep_view() + spec_row_cells_h(*table, i as int, j as int, rest, w).0,
                        spec_row_cells_h(*table, i as int, j as int, rest, w).1,
                    ),
            decreases nc - j,
        {
            let mut temp = String::new();
            let mut cctx = Context {
                ps: ParStatus::New,
                fg_mod: String::new(),
                bg_mod: String::new(),
                fg_mod_stack: Vec::new(),
                bg_mod_stack: Vec::new(),
                ii_stack: Vec::new(),
                indentation: 0,
                indented: 0,
                width: col_width,
                col: 0,
            };
            proof {
                assert(cctx@ =~= fresh_cell_state(w));
            }
            paragraph_to_ansi(&table.rows[i].items[j], conf, &mut cctx, &mut temp);
            let ghost tv = temp@;
            let ghost cpv = cctx@;
            let ghost rdv0 = row.deep_view();
            row.push(temp);
            j = j + 1;
            proof {
                if table_det(*table) {
                    assert(par_det(table.rows@[i as int].items@[j - 1]));
                    assert(row.deep_view() =~~= spec_table_cells(*table, w)[i as int].subrange(
                        0,
                        j as int,
                    ));
                }
                let hs_r0 = hs_r;
                let hc = choose|hc: Seq<Highlighted>|
                    #[trigger] par_renders_with(
                        table.rows@[i as int].items@[j - 1],
                        hc,
                        fresh_cell_state(w),
                        Seq::empty(),
                        cpv,
                        tv,
                    );
                assert forall|rest: Seq<Highlighted>|
                    #[trigger] spec_row_cells_h(*table, i as int, j - 1, hc + rest, w) == (
                        seq![tv] + spec_row_cells_h(*table, i as int, j as int, rest, w).0,
                        spec_row_cells_h(*table, i as int, j as int, rest, w).1,
                    ) by {
                    assert(spec_paragraph_h(
                        table.rows@[i as int].items@[j - 1],
                        hc + rest,
                        fresh_cell_state(w),
                        Seq::empty(),
                    ) == (cpv, tv, rest));
                }
                hs_r = hs_r0 + hc;
                assert forall|rest: Seq<Highlighted>|
                    #[trigger] spec_row_cells_h(*table, i as int, 0, hs_r + rest, w) == (
                        row.deep_view() + spec_row_cells_h(*table, i as int, j as int, rest, w).0,
                        spec_row_cells_h(*table, i as int, j as int, rest, w).1,
                    ) by {
                    assert(hs_r + rest =~= hs_r0 + (hc + rest));
                    assert(spec_row_cells_h(*table, i as int, 0, hs_r0 + (hc + rest), w) == (
                        rdv0 + spec_row_cells_h(*table, i as int, j - 1, hc + rest, w).0,
                        spec_row_cells_h(*table, i as int, j - 1, hc + rest, w).1,
                    ));
                    assert(row.deep_view() =~~= rdv0 + seq![tv]);
                    assert((rdv0 + seq![tv]) + spec_row_cells_h(
                        *table,
                        i as int,
                        j as int,
                        rest,
                        w,
                    ).0 =~~= rdv0 + (seq![tv] + spec_row_cells_h(
                        *table,
                        i as int,
                        j as int,
                        rest,
                        w,
                    ).0));
                }
            }
        }
        proof {
            assert forall|rest: Seq<Highlighted>|
                #[trigger] spec_row_cells_h(*table, i as int, 0, hs_r + rest, w) == (
                    row.deep_view(),
                    rest,
                ) by {
                assert(spec_row_cells_h(*table, i as int, nc as int, rest, w) == (
                    Seq::<Seq<char>>::empty(),
                    rest,
                ));
                assert(row.deep_view() + Seq::<Seq<char>>::empty() =~~= row.deep_view());
            }
        }
        let ghost rdv = row.deep_view();
        let ghost cdv0 = cells.deep_view();
        cells.push(row);
        i = i + 1;
        proof {
            if table_det(*table) {
                assert(rdv =~~= spec_table_cells(*table, w)[i - 1]);
                assert(cells.deep_view() =~~= spec_table_cells(*table, w).subrange(0, i as int));
            }
            let hs0 = hs;
            hs = hs0 + hs_r;
            assert forall|rest: Seq<Highlighted>|
                #[trigger] spec_table_rows_h(*table, 0, hs + rest, w) == (
                    cells.deep_view() + spec_table_rows_h(*table, i as int, rest, w).0,
                    spec_table_rows_h(*table, i as int, rest, w).1,
                ) by {
                assert(hs + rest =~= hs0 + (hs_r + rest));
                assert(spec_table_rows_h(*table, 0, hs0 + (hs_r + rest), w) == (
                    cdv0 + spec_table_rows_h(*table, i - 1, hs_r + rest, w).0,
                    spec_table_rows_h(*table, i - 1, hs_r + rest, w).1,
                ));
                assert(spec_row_cells_h(*table, i - 1, 0, hs_r + rest, w) == (rdv, rest));
                assert(cells.deep_view() =~~= cdv0 + seq![rdv]);
                assert((cdv0 + seq![rdv]) + spec_table_rows_h(*table, i as int, rest, w).0
                    =~~= cdv0 + (seq![rdv] + spec_table_rows_h(*table, i as int, rest, w).0));
            }
        }
    }
    let ghost cdv = cells.deep_view();
    proof {
        if table_det(*table) {
            assert(spec_table_cells(*table, w).subrange(0, nr as int) =~~= spec_table_cells(
                *table,
                w,
            ));
        }
        assert forall|rest: Seq<Highlighted>|
            #[trigger] spec_table_rows_h(*table, 0, hs + rest, w) == (cdv, rest) by {
            assert(spec_table_rows_h(*table, nr as int, rest, w) == (
                Seq::<Seq<Seq<char>>>::empty(),
                rest,
            ));
            assert(cdv + Seq::<Seq<Seq<char>>>::empty() =~~= cdv);
        }
    }
    let raw_table = render_grid(cells);

    let pss: [ParStatus; 1] = [ParStatus::New];
    proof {
        assert(pss@ =~= seq![ParStatus::New]);
    }
    newlines_unless(1, &pss, c, output);
    let r = ansi_reset();
    output.append(r.as_str());
    indent_table(raw_table.as_str(), c, output);
    output.append(c.fg_mod.as_str());
    c.ps = ParStatus::Element;
    proof {
        if table_det(*table) {
            assert(c@ =~= spec_table(*table, old(c)@, old(output)@).0);
            assert(output@ == spec_table(*table, old(c)@, old(output)@).1);
        }
        assert forall|rest: Seq<Highlighted>|
            #[trigger] spec_table_h(*table, hs + rest, old(c)@, old(output)@) == (
                c@,
                output@,
                rest,
            ) by {
            assert(spec_table_rows_h(*table, 0, hs + rest, w) == (cdv, rest));
            let t2 = spec_newlines_unless(1, seq![ParStatus::New], old(c)@, old(output)@);
            let t3 = spec_indent_table(grid_of(cdv), t2.0, t2.1 + reset_seq());
            assert(c@ =~= (RState { ps: ParStatus::Element, ..t3.0 }));
            assert(output@ == t3.1 + t3.0.fg);
        }
        assert(table_renders_with(*table, hs, old(c)@, old(output)@, c@, output@));
    }
}

/// Emit a blockquote: the heading (only when the quote is typed) and the
/// body are rendered aside and boxed as a one-cell grid, then spliced in.
#[verifier::rlimit(100)]
pub fn blockquote_to_ansi(section: &Section, conf: &Config, c: &mut Context, output: &mut String)
    ensures
        frame_ok(old(c)@, final(c)@),
        sec_det(*section) ==> (final(c)@, final(output)@) == spec_blockquote(
            *section,
            old(c)@,
            old(output)@,
        ),
        exists|hs: Seq<Highlighted>|
            blockquote_renders_with(*section, hs, old(c)@, old(output)@, final(c)@, final(output)@),
    decreases *section, 2int, 0int,
{
    let mut temp = String::new();
    if tags_contain(&section.tags, "blockquote-typed") {
        heading_to_ansi(&section.heading, conf, c, &mut temp);
        newline(c, &mut temp);
    }
    let ghost sm = c@;
    let ghost tm = temp@;
    section_body_to_ansi(section, conf, c, &mut temp);
    let ghost cb = c@;
    let ghost tb = temp@;
    let ghost hb = choose|hb: Seq<Highlighted>|
        #[trigger] section_body_renders_with(*section, hb, sm, tm, cb, tb);

    let mut row: Vec<String> = Vec::new();
    row.push(temp);
    let mut cells: Vec<Vec<String>> = Vec::new();
    cells.push(row);
    proof {
        if sec_det(*section) {
            let t0 = if tags_have(section.tags@, "blockquote-typed"@) {
                let a = spec_heading(section.heading, old(c)@, Seq::empty());
                spec_newline(a.0, a.1)
            } else {
                (old(c)@, Seq::<char>::empty())
            };
            let t1 = spec_section_body(*section, t0.0, t0.1);
            assert(cells.deep_view() =~~= seq![seq![t1.1]]);
        }
        assert(cells.deep_view() =~~= seq![seq![tb]]);
    }
    let raw_table = render_grid(cells);

    let pss: [ParStatus; 1] = [ParStatus::New];
    proof {
        assert(pss@ =~= seq![ParStatus::New]);
    }
    newlines_unless(1, &pss, c, output);
    let r = ansi_reset();
    output.append(r.as_str());
    indent_table(raw_table.as_str(), c, output);
    output.append(c.fg_mod.as_str());
    c.ps = ParStatus::Element;
    proof {
        if sec_det(*section) {
            assert(c@ =~= spec_blockquote(*section, old(c)@, old(output)@).0);
            assert(output@ == spec_blockquote(*section, old(c)@, old(output)@).1);
        }
        assert forall|rest: Seq<Highlighted>|
            #[trigger] spec_blockquote_h(*section, hb + rest, old(c)@, old(output)@) == (
                c@,
                output@,
                rest,
            ) by {
            let t0 = if tags_have(section.tags@, "blockquote-typed"@) {
                let a = spec_heading(section.heading, old(c)@, Seq::empty());
                spec_newline(a.0, a.1)
            } else {
                (old(c)@, Seq::<char>::empty())
            };
            assert(sm =~= t0.0);
            assert(tm == t0.1);
            assert(spec_section_body_h(*section, hb + rest, sm, tm) == (cb, tb, rest));
            let t2 = spec_newlines_unless(1, seq![ParStatus::New], cb, old(output)@);
            let t3 = spec_indent_table(grid_of(seq![seq![tb]]), t2.0, t2.1 + reset_seq());
            assert(c@ =~= (RState { ps: ParStatus::Element, ..t3.0 }));
            assert(output@ == t3.1 + t3.0.fg);
        }
        assert(blockquote_renders_with(*section, hb, old(c)@, old(output)@, c@, output@));
    }
}

/// Emit a section's child items, each indented one step and followed by a
/// line break, then trim the trailing break.
#[verifier::rlimit(100)]
pub fn section_body_to_ansi(section: &Section, conf: &Config, c: &mut Context, output: &mut String)
    ensures
        frame_ok(old(c)@, final(c)@),
        sec_det(*section) ==> (final(c)@, final(output)@) == spec_section_body(
            *section,
            old(c)@,
            old(output)@,
        ),
        exists|hs: Seq<Highlighted>|
            section_body_renders_with(
                *section,
                hs,
                old(c)@,
                old(output)@,
                final(c)@,
                final(output)@,
            ),
    decreases *section, 1int, 0int,
{
    let n = section.items.len();
    let mut i: usize = 0;
    let ghost mut hs: Seq<Highlighted> = Seq::empty();
    proof {
        assert forall|rest: Seq<Highlighted>|
            #[trigger] spec_section_items_h(*section, 0, hs + rest, old(c)@, old(output)@)
                == spec_section_items_h(*section, 0, rest, c@, output@) by {
            assert(hs + rest =~= rest);
        }
    }
    while i < n
        invariant
            i <= n,
            n == section.items@.len(),
            frame_ok(old(c)@, c@),
            sec_det(*section) ==> spec_section_items(*section, 0, old(c)@, old(output)@)
                == spec_section_items(*section, i as int, c@, output@),
            forall|rest: Seq<Highlighted>|
                #[trigger] spec_section_items_h(*section, 0, hs + rest, old(c)@, old(output)@)
                    == spec_section_items_h(*section, i as int, rest, c@, output@),
        decreases n - i,
    {
        let ghost s0 = c@;
        let ghost o0 = output@;
        let ghost mut sp = c@;
        let ghost mut op = output@;
        let ghost mut cp = c@;
        let ghost mut op2 = output@;
        match &section.items[i] {
            SectionItem::Paragraph(par) => {
                c.ps = ParStatus::New;
                c.push_indent(2, 0);
                proof {
                    sp = c@;
                    op = output@;
                }
                paragraph_to_ansi(par, conf, c, output);
                proof {
                    cp = c@;
                    op2 = output@;
                }
                c.pop_indent();
            },
            SectionItem::Section(sub) => {
                c.push_indent(2, 0);
                proof {
                    sp = c@;
                    op = output@;
                }
                section_to_ansi(sub, conf, c, output);
                proof {
                    cp = c@;
                    op2 = output@;
                }
                c.pop_indent();
            },
        }
        newline(c, output);
        i = i + 1;
        proof {
            assert(c@.ii_stack =~= s0.ii_stack);
            if sec_det(*section) {
                assert(sitem_det(section.items@[i - 1]));
                assert(spec_section_items(*section, i - 1, s0, o0) == spec_section_items(
                    *section,
                    i as int,
                    c@,
                    output@,
                ));
            }
            let hs0 = hs;
            let consumed: Seq<Highlighted> = match section.items@[i - 1] {
                SectionItem::Paragraph(par) => choose|hc: Seq<Highlighted>|
                    #[trigger] par_renders_with(par, hc, sp, op, cp, op2),
                SectionItem::Section(sub) => choose|hc: Seq<Highlighted>|
                    #[trigger] section_renders_with(sub, hc, sp, op, cp, op2),
            };
            assert forall|rest: Seq<Highlighted>|
                #[trigger] spec_section_items_h(*section, i - 1, consumed + rest, s0, o0)
                    == spec_section_items_h(*section, i as int, rest, c@, output@) by {
                match section.items@[i - 1] {
                    SectionItem::Paragraph(par) => {
                        let s1 = spec_push_indent(RState { ps: ParStatus::New, ..s0 }, 2, 0);
                        assert(sp =~= s1);
                        assert(op == o0);
                        assert(spec_paragraph_h(par, consumed + rest, sp, op) == (cp, op2, rest));
                    },
                    SectionItem::Section(sub) => {
                        let s1 = spec_push_indent(s0, 2, 0);
                        assert(sp =~= s1);
                        assert(op == o0);
                        assert(spec_section_h(sub, consumed + rest, sp, op) == (cp, op2, rest));
                    },
                }
            }
            hs = hs0 + consumed;
            assert forall|rest: Seq<Highlighted>|
                #[trigger] spec_section_items_h(*section, 0, hs + rest, old(c)@, old(output)@)
                    == spec_section_items_h(*section, i as int, rest, c@, output@) by {
                assert(hs + rest =~= hs0 + (consumed + rest));
                assert(spec_section_items_h(
                    *section,
                    0,
                    hs0 + (consumed + rest),
                    old(c)@,
                    old(output)@,
                ) == spec_section_items_h(*section, i - 1, consumed + rest, s0, o0));
            }
        }
    }
    let ghost ol = output@;
    crate::trusted::pop_char(output);
    proof {
        if sec_det(*section) {
            assert((c@, output@) == spec_section_body(*section, old(c)@, old(output)@));
        }
        assert forall|rest: Seq<Highlighted>|
            #[trigger] spec_section_body_h(*section, hs + rest, old(c)@, old(output)@) == (
                c@,
                output@,
                rest,
            ) by {
            assert(spec_section_items_h(*section, 0, hs + rest, old(c)@, old(output)@)
                == spec_section_items_h(*section, n as int, rest, c@, ol));
        }
        assert(section_body_renders_with(*section, hs, old(c)@, old(output)@, c@, output@));
    }
}

/// Emit a headed section: a separating break, the heading in bold, a line
/// break, then the body.
pub fn headed_section_to_ansi(
    section: &Section,
    conf: &Config,
    c: &mut Context,
    output: &mut String,
)
    ensures
        frame_ok(old(c)@, final(c)@),
        sec_det(*section) ==> (final(c)@, final(output)@) == spec_headed_section(
            *section,
            old(c)@,
            old(output)@,
        ),
        exists|hs: Seq<Highlighted>|
            headed_section_renders_with(
                *section,
                hs,
                old(c)@,
                old(output)@,
                final(c)@,
                final(output)@,
            ),
    decreases *section, 2int, 0int,
{
    c.ps = ParStatus::New;
    let e: [ParStatus; 0] = [];
    proof {
        assert(e@ =~= Seq::<ParStatus>::empty());
    }
    newlines_unless(1, &e, c, output);
    heading_to_ansi(&section.heading, conf, c, output);
    newline(c, output);
    let ghost sb = c@;
    let ghost ob = output@;
    section_body_to_ansi(section, conf, c, output);
    proof {
        let hb = choose|hb: Seq<Highlighted>|
            #[trigger] section_body_renders_with(*section, hb, sb, ob, c@, output@);
        assert forall|rest: Seq<Highlighted>|
            #[trigger] spec_headed_section_h(*section, hb + rest, old(c)@, old(output)@) == (
                c@,
                output@,
                rest,
            ) by {
            let s0x = RState { ps: ParStatus::New, ..old(c)@ };
            let t0 = spec_newlines_unless(1, Seq::empty(), s0x, old(output)@);
            let t1 = spec_heading(section.heading, t0.0, t0.1);
            let t2 = spec_newline(t1.0, t1.1);
            assert(sb =~= t2.0);
            assert(ob == t2.1);
            assert(spec_section_body_h(*section, hb + rest, sb, ob) == (c@, output@, rest));
        }
        assert(headed_section_renders_with(*section, hb, old(c)@, old(output)@, c@, output@));
    }
}

/// Emit a section: a quoted box when tagged as a blockquote, a headed
/// section otherwise.
pub fn section_to_ansi(section: &Section, conf: &Config, c: &mut Context, output: &mut String)
    ensures
        frame_ok(old(c)@, final(c)@),
        sec_det(*section) ==> (final(c)@, final(output)@) == spec_section(
            *section,
            old(c)@,
            old(output)@,
        ),
        exists|hs: Seq<Highlighted>|
            section_renders_with(*section, hs, old(c)@, old(output)@, final(c)@, final(output)@),
    decreases *section, 3int, 0int,
{
    if tags_contain(&section.tags, "blockquote") || tags_contain(&section.tags, "blockquote-typed") {
        blockquote_to_ansi(section, conf, c, output);
        proof {
            let hb = choose|hb: Seq<Highlighted>|
                #[trigger] blockquote_renders_with(
                    *section,
                    hb,
                    old(c)@,
                    old(output)@,
                    c@,
                    output@,
                );
            assert forall|rest: Seq<Highlighted>|
                #[trigger] spec_section_h(*section, hb + rest, old(c)@, old(output)@) == (
                    c@,
                    output@,
                    rest,
                ) by {
                assert(spec_blockquote_h(*section, hb + rest, old(c)@, old(output)@) == (
                    c@,
                    output@,
                    rest,
                ));
            }
            assert(section_renders_with(*section, hb, old(c)@, old(output)@, c@, output@));
        }
    } else {
        headed_section_to_ansi(section, conf, c, output);
        proof {
            let hb = choose|hb: Seq<Highlighted>|
                #[trigger] headed_section_renders_with(
                    *section,
                    hb,
                    old(c)@,
                    old(output)@,
                    c@,
                    output@,
                );
            assert forall|rest: Seq<Highlighted>|
                #[trigger] spec_section_h(*section, hb + rest, old(c)@, old(output)@) == (
                    c@,
                    output@,
                    rest,
                ) by {
                assert(spec_headed_section_h(*section, hb + rest, old(c)@, old(output)@) == (
                    c@,
                    output@,
                    rest,
                ));
            }
            assert(section_renders_with(*section, hb, old(c)@, old(output)@, c@, output@));
        }
    }
}

/// Walk the document's items in order, driving each node's renderer.
pub fn doc_to_ansi(doc: &Doc, conf: &Config, c: &mut Context, output: &mut String)
    ensures
        frame_ok(old(c)@, final(c)@),
        doc_det(*doc) ==> (final(c)@, final(output)@) == spec_doc(*doc, old(c)@, old(output)@),
        exists|hs: Seq<Highlighted>|
            doc_renders_with(*doc, hs, old(c)@, old(output)@, final(c)@, final(output)@),
{
    let n = doc.items.len();
    let mut i: usize = 0;
    let ghost mut hs: Seq<Highlighted> = Seq::empty();
    proof {
        assert forall|rest: Seq<Highlighted>|
            #[trigger] spec_doc_items_h(*doc, 0, hs + rest, old(c)@, old(output)@)
                == spec_doc_items_h(*doc, 0, rest, c@, output@) by {
            assert(hs + rest =~= rest);
        }
    }
    while i < n
        invariant
            i <= n,
            n == doc.items@.len(),
            frame_ok(old(c)@, c@),
            doc_det(*doc) ==> spec_doc_items(*doc, 0, old(c)@, old(output)@) == spec_doc_items(
                *doc,
                i as int,
                c@,
                output@,
            ),
            forall|rest: Seq<Highlighted>|
                #[trigger] spec_doc_items_h(*doc, 0, hs + rest, old(c)@, old(output)@)
                    == spec_doc_items_h(*doc, i as int, rest, c@, output@),
        decreases n - i,
    {
        let ghost s0 = c@;
        let ghost o0 = output@;
        let ghost mut sp = c@;
        match &doc.items[i] {
            DocItem::Nav(nav) => {
                nav_to_ansi(nav, conf, c, output);
            },
            DocItem::Paragraph(par) => {
                c.ps = ParStatus::New;
                proof {
                    sp = c@;
                }
                paragraph_to_ansi(par, conf, c, output);
            },
            DocItem::Section(section) => {
                section_to_ansi(section, conf, c, output);
            },
        }
        i = i + 1;
        proof {
            if doc_det(*doc) {
                assert(ditem_det(doc.items@[i - 1]));
                assert(spec_doc_items(*doc, i - 1, s0, o0) == spec_doc_items(
                    *doc,
                    i as int,
                    c@,
                    output@,
                ));
            }
            let hs0 = hs;
            let consumed: Seq<Highlighted> = match doc.items@[i - 1] {
                DocItem::Nav(_) => Seq::empty(),
                DocItem::Paragraph(par) => choose|hc: Seq<Highlighted>|
                    #[trigger] par_renders_with(par, hc, sp, o0, c@, output@),
                DocItem::Section(sec) => choose|hc: Seq<Highlighted>|
                    #[trigger] section_renders_with(sec, hc, s0, o0, c@, output@),
            };
            assert forall|rest: Seq<Highlighted>|
                #[trigger] spec_doc_items_h(*doc, i - 1, consumed + rest, s0, o0)
                    == spec_doc_items_h(*doc, i as int, rest, c@, output@) by {
                match doc.items@[i - 1] {
                    DocItem::Nav(_) => {
                        assert(consumed + rest =~= rest);
                    },
                    DocItem::Paragraph(par) => {
                        assert(sp =~= (RState { ps: ParStatus::New, ..s0 }));
                        assert(spec_paragraph_h(par, consumed + rest, sp, o0) == (
                            c@,
                            output@,
                            rest,
                        ));
                    },
                    DocItem::Section(sec) => {
                        assert(spec_section_h(sec, consumed + rest, s0, o0) == (
                            c@,
                            output@,
                            rest,
                        ));
                    },
                }
            }
            hs = hs0 + consumed;
            assert forall|rest: Seq<Highlighted>|
                #[trigger] spec_doc_items_h(*doc, 0, hs + rest, old(c)@, old(output)@)
                    == spec_doc_items_h(*doc, i as int, rest, c@, output@) by {
                assert(hs + rest =~= hs0 + (consumed + rest));
                assert(spec_doc_items_h(*doc, 0, hs0 + (consumed + rest), old(c)@, old(output)@)
                    == spec_doc_items_h(*doc, i - 1, consumed + rest, s0, o0));
            }
        }
    }
    proof {
        assert forall|rest: Seq<Highlighted>|
            #[trigger] spec_doc_h(*doc, hs + rest, old(c)@, old(output)@) == (c@, output@, rest)
            by {
            assert(spec_doc_items_h(*doc, 0, hs + rest, old(c)@, old(output)@)
                == spec_doc_items_h(*doc, n as int, rest, c@, output@));
        }
        assert(doc_renders_with(*doc, hs, old(c)@, old(output)@, c@, output@));
    }
}

/// Take a document and unparse it to ANSI terminal text.
/// Use just this function unless doing something fancy.
pub fn doc_to_ansi_string(doc: &Doc, conf: &Config) -> (res: String)
    ensures
        doc_det(*doc) ==> res@ == spec_doc(*doc, init_state(conf.width as nat), Seq::empty()).1,
        exists|hs: Seq<Highlighted>, post: RState|
            doc_renders_with(*doc, hs, init_state(conf.width as nat), Seq::empty(), post, res@),
{
    let mut res = String::new();
    let mut context = Context {
        ps: ParStatus::New,
        fg_mod: ansi_reset(),
        bg_mod: String::new(),
        fg_mod_stack: Vec::new(),
        bg_mod_stack: Vec::new(),
        ii_stack: Vec::new(),
        indentation: 0,
        indented: 0,
        width: conf.width,
        col: 0,
    };
    proof {
        assert(context@ =~= init_state(conf.width as nat));
    }
    let ghost iv = context@;
    doc_to_ansi(doc, conf, &mut context, &mut res);
    proof {
        let hs = choose|hs: Seq<Highlighted>|
            #[trigger] doc_renders_with(*doc, hs, iv, Seq::empty(), context@, res@);
        assert(doc_renders_with(*doc, hs, init_state(conf.width as nat), Seq::empty(), context@, res@));
    }
    res
}

} // verus!
