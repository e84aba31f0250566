//! The laws the engine obeys, stated over the spec mirror and proved.
//!
//! Scope balance is not here: it is the `frame_ok` clause carried by every
//! node renderer's contract, which says the style channels, both style
//! stacks, the indentation stack and the indentation itself return to their
//! pre-call values, and that the indentation credit is restored or consumed
//! to zero — a render entered with no outstanding credit ends with none.

use vstd::prelude::*;

use vstd::arithmetic::div_mod::lemma_div_is_ordered;

use crate::blocks::code_mid_text;
use crate::context::{ParStatus, RState};
use crate::doc::{CodeBlock, CodeIdentError};
use crate::numbers::{dec_seq, distinct_marker_seq, num_digits, pad_left};
use crate::ansi::reset_seq;
use crate::reflow::{is_ws, newline_run, pending_newlines, space_run, spec_append, spec_indent,
    spec_newlines_unless, spec_text_char, spec_text_main};
use crate::doc::{List, ListType};
use crate::render::{list_width, marker_of};
use crate::trusted::Highlighted;

verus! {

/// Whitespace collapsing, swallowing half: while the last emitted character
/// is already a collapsed space and the column budget is not spent, further
/// non-newline whitespace is swallowed entirely — state and output are
/// untouched.
pub proof fn lemma_whitespace_swallowed(run: Seq<char>, s: RState, out: Seq<char>)
    requires
        s.ps == ParStatus::Whitespace,
        s.col < s.width,
        forall|i: int| 0 <= i < run.len() ==> is_ws(#[trigger] run[i]) && run[i] != '\n',
    ensures
        spec_text_main(run, s, out) == (s, out),
    decreases run.len(),
{
    if run.len() > 0 {
        assert(spec_text_char(run[0], s, out) == (s, out));
        lemma_whitespace_swallowed(run.drop_first(), s, out);
    }
}

/// Whitespace collapsing: a maximal run of one or more non-newline
/// whitespace characters (carriage returns, which the engine drops, aside),
/// reached right after a visible character, a styled span or a closed block
/// element, with room left on the line, is emitted as exactly one space.
pub proof fn lemma_whitespace_collapses(run: Seq<char>, s: RState, out: Seq<char>)
    requires
        s.ps is Char || s.ps is Emphasis || s.ps is Element,
        s.col + 1 < s.width,
        s.width <= usize::MAX as nat,
        run.len() >= 1,
        forall|i: int|
            0 <= i < run.len() ==> is_ws(#[trigger] run[i]) && run[i] != '\n' && run[i] != '\r',
    ensures
        spec_text_main(run, s, out) == (
            RState { ps: ParStatus::Whitespace, col: s.col + 1, ..s },
            out.push(' '),
        ),
{
    let s1 = RState { ps: ParStatus::Whitespace, col: s.col + 1, ..s };
    assert(spec_text_char(run[0], s, out) == (s1, out.push(' ')));
    lemma_whitespace_swallowed(run.drop_first(), s1, out.push(' '));
}

/// Whitespace collapsing at a line boundary: while line breaks are pending,
/// a run of non-newline whitespace is dropped entirely — its first character
/// only triggers the one padding step the fresh line owes, and the run
/// contributes no space of its own.
pub proof fn lemma_whitespace_dropped_after_break(run: Seq<char>, s: RState, out: Seq<char>)
    requires
        s.ps is Newline,
        s.col < s.width,
        crate::context::sat_add(s.col, crate::reflow::spec_indent_pad(0, s)) < s.width,
        run.len() >= 1,
        forall|i: int|
            0 <= i < run.len() ==> is_ws(#[trigger] run[i]) && run[i] != '\n' && run[i] != '\r',
    ensures
        spec_text_main(run, s, out) == ({
            let t = spec_indent(0, s, out);
            (RState { ps: ParStatus::Whitespace, ..t.0 }, t.1)
        }),
{
    let t = spec_indent(0, s, out);
    let s1 = RState { ps: ParStatus::Whitespace, ..t.0 };
    assert(spec_text_char(run[0], s, out) == (s1, t.1));
    lemma_whitespace_swallowed(run.drop_first(), s1, t.1);
}

/// Whitespace collapsing at a node start reached mid-line: the line-start
/// padding is applied once, then the run is emitted as exactly one space.
pub proof fn lemma_whitespace_at_node_start(run: Seq<char>, s: RState, out: Seq<char>)
    requires
        s.ps is New,
        s.col < s.width,
        crate::context::sat_add(s.col, crate::reflow::spec_indent_pad(0, s)) + 1 < s.width,
        s.width <= usize::MAX as nat,
        run.len() >= 1,
        forall|i: int|
            0 <= i < run.len() ==> is_ws(#[trigger] run[i]) && run[i] != '\n' && run[i] != '\r',
    ensures
        spec_text_main(run, s, out) == ({
            let t = spec_indent(0, s, out);
            (RState { ps: ParStatus::Whitespace, col: t.0.col + 1, ..t.0 }, t.1.push(' '))
        }),
{
    let t = spec_indent(0, s, out);
    let s1 = RState { ps: ParStatus::Whitespace, col: t.0.col + 1, ..t.0 };
    assert(spec_text_char(run[0], s, out) == (s1, t.1.push(' ')));
    lemma_whitespace_swallowed(run.drop_first(), s1, t.1.push(' '));
}

/// States from which the column bound is kept: the column is within the
/// width, a pending line break means the line is empty, and the run is not
/// opening a fresh node mid-line.
pub open spec fn col_bounded(s: RState) -> bool {
    &&& s.col <= s.width
    &&& (s.ps is Newline ==> s.col == 0)
    &&& !(s.ps is New)
}

/// Column bound, one character: emitting any character other than an
/// embedded line or carriage return from a bounded state keeps the visible
/// column within the configured width, provided the indentation leaves at
/// least one column of room.
pub proof fn lemma_char_col_bound(ch: char, s: RState, out: Seq<char>)
    requires
        col_bounded(s),
        s.indentation + 1 <= s.width,
        ch != '\n',
        ch != '\r',
    ensures
        col_bounded(spec_text_char(ch, s, out).0),
{
}

/// Column bound: a text run free of embedded newlines, started from a
/// bounded state, never drives the column past the configured width — the
/// hard wrap fires first.
pub proof fn lemma_text_col_bound(text: Seq<char>, s: RState, out: Seq<char>)
    requires
        col_bounded(s),
        s.indentation + 1 <= s.width,
        forall|i: int| 0 <= i < text.len() ==> #[trigger] text[i] != '\n' && text[i] != '\r',
    ensures
        col_bounded(spec_text_main(text, s, out).0),
    decreases text.len(),
{
    if text.len() > 0 {
        let t = spec_text_char(text[0], s, out);
        lemma_char_col_bound(text[0], s, out);
        lemma_text_col_bound(text.drop_first(), t.0, t.1);
    }
}

/// Column bound for marker emission: the verbatim append wraps before any
/// character would pass the width.
pub proof fn lemma_append_col_bound(text: Seq<char>, s: RState, out: Seq<char>)
    requires
        s.col <= s.width,
        s.width >= 1,
    ensures
        spec_append(text, s, out).0.col <= s.width,
    decreases text.len(),
{
    if text.len() > 0 {
        let (s1, out1) = if s.col >= s.width {
            crate::reflow::spec_newline(s, out)
        } else {
            (s, out)
        };
        let s2 = RState { col: crate::context::sat_add(s1.col, 1), ..s1 };
        lemma_append_col_bound(text.drop_first(), s2, out1.push(text[0]));
    }
}

/// One step of the terminal's view of a character stream: `\u{1b}` opens an
/// escape sequence, which occupies no columns until its closing `m`; a line
/// break starts a fresh line; every other character takes one column.
pub open spec fn vis_step(a: (nat, bool), ch: char) -> (nat, bool) {
    if a.1 {
        (a.0, ch != 'm')
    } else if ch == '\u{1b}' {
        (a.0, true)
    } else if ch == '\n' {
        (0, false)
    } else {
        (a.0 + 1, false)
    }
}

/// The visible column count of the last line of `s`, and whether `s` ends
/// inside an escape sequence, starting the scan from `a`.
pub open spec fn vis_scan(s: Seq<char>, a: (nat, bool)) -> (nat, bool)
    decreases s.len(),
{
    if s.len() == 0 {
        a
    } else {
        vis_scan(s.drop_first(), vis_step(a, s[0]))
    }
}

/// The scan distributes over concatenation.
pub proof fn lemma_vis_scan_concat(a: Seq<char>, b: Seq<char>, st: (nat, bool))
    ensures
        vis_scan(a + b, st) == vis_scan(b, vis_scan(a, st)),
    decreases a.len(),
{
    if a.len() == 0 {
        assert(a + b =~= b);
    } else {
        assert((a + b)[0] == a[0]);
        assert((a + b).drop_first() =~= a.drop_first() + b);
        lemma_vis_scan_concat(a.drop_first(), b, vis_step(st, a[0]));
    }
}

/// A string of complete escape sequences: it contributes no visible columns
/// and leaves the scan where it was.
pub open spec fn esc_only(x: Seq<char>) -> bool {
    forall|st: (nat, bool)| !st.1 ==> #[trigger] vis_scan(x, st) == st
}

/// Every style code emitted by the renderer is one complete escape
/// sequence.
pub proof fn lemma_style_code_esc_only(x: Seq<char>, d1: char, d2: char)
    requires
        x =~= seq!['\u{1b}', '[', d1, d2, 'm'],
        d1 != 'm',
        d2 != 'm',
    ensures
        esc_only(x),
{
    assert forall|st: (nat, bool)| !st.1 implies #[trigger] vis_scan(x, st) == st by {
        let s1 = seq!['[', d1, d2, 'm'];
        let s2 = seq![d1, d2, 'm'];
        let s3 = seq![d2, 'm'];
        let s4 = seq!['m'];
        assert(x.drop_first() =~= s1);
        assert(s1.drop_first() =~= s2);
        assert(s2.drop_first() =~= s3);
        assert(s3.drop_first() =~= s4);
        assert(s4.drop_first() =~= Seq::<char>::empty());
        assert(vis_scan(x, st) == vis_scan(s1, (st.0, true)));
        assert(vis_scan(s1, (st.0, true)) == vis_scan(s2, (st.0, true)));
        assert(vis_scan(s2, (st.0, true)) == vis_scan(s3, (st.0, true)));
        assert(vis_scan(s3, (st.0, true)) == vis_scan(s4, (st.0, true)));
        assert(vis_scan(s4, (st.0, true)) == vis_scan(Seq::<char>::empty(), (st.0, false)));
    }
}

/// One character moves the scan one step.
pub proof fn lemma_vis_one(ch: char, st: (nat, bool))
    ensures
        vis_scan(seq![ch], st) == vis_step(st, ch),
{
    assert(seq![ch].drop_first() =~= Seq::<char>::empty());
    assert(vis_scan(seq![ch], st) == vis_scan(Seq::<char>::empty(), vis_step(st, ch)));
}

/// Padding spaces are all visible.
pub proof fn lemma_spaces_vis(p: nat, st: (nat, bool))
    requires
        !st.1,
    ensures
        vis_scan(space_run(p), st) == ((st.0 + p) as nat, false),
    decreases p,
{
    if p > 0 {
        assert(space_run(p)[0] == ' ');
        assert(space_run(p).drop_first() =~= space_run((p - 1) as nat));
        lemma_spaces_vis((p - 1) as nat, (st.0 + 1, false));
    } else {
        assert(space_run(0) =~= Seq::<char>::empty());
    }
}

/// The active styles are well-formed escape sequences.
pub open spec fn style_ok(s: RState) -> bool {
    esc_only(s.fg) && esc_only(s.bg)
}

/// Strings of complete escape sequences stay so under concatenation.
pub proof fn lemma_esc_only_concat(a: Seq<char>, b: Seq<char>)
    requires
        esc_only(a),
        esc_only(b),
    ensures
        esc_only(a + b),
{
    assert forall|st: (nat, bool)| !st.1 implies #[trigger] vis_scan(a + b, st) == st by {
        lemma_vis_scan_concat(a, b, st);
    }
}

/// Every style code the renderer emits — the reset, the empty default and
/// each mapped emphasis, link and inline-code code — is invisible to the
/// column scan.
pub proof fn lemma_ansi_codes_esc_only()
    ensures
        esc_only(Seq::<char>::empty()),
        esc_only(crate::ansi::reset_seq()),
        esc_only(crate::ansi::bold_seq()),
        esc_only(crate::ansi::faint_seq()),
        esc_only(crate::ansi::italic_seq()),
        esc_only(crate::ansi::hidden_seq()),
        esc_only(crate::ansi::crossed_seq()),
        esc_only(crate::ansi::magenta_seq()),
        esc_only(crate::ansi::bg_black_seq()),
{
    reveal_strlit("\u{1b}[00m");
    reveal_strlit("\u{1b}[01m");
    reveal_strlit("\u{1b}[02m");
    reveal_strlit("\u{1b}[03m");
    reveal_strlit("\u{1b}[08m");
    reveal_strlit("\u{1b}[09m");
    reveal_strlit("\u{1b}[35m");
    reveal_strlit("\u{1b}[40m");
    lemma_style_code_esc_only(crate::ansi::reset_seq(), '0', '0');
    lemma_style_code_esc_only(crate::ansi::bold_seq(), '0', '1');
    lemma_style_code_esc_only(crate::ansi::faint_seq(), '0', '2');
    lemma_style_code_esc_only(crate::ansi::italic_seq(), '0', '3');
    lemma_style_code_esc_only(crate::ansi::hidden_seq(), '0', '8');
    lemma_style_code_esc_only(crate::ansi::crossed_seq(), '0', '9');
    lemma_style_code_esc_only(crate::ansi::magenta_seq(), '3', '5');
    lemma_style_code_esc_only(crate::ansi::bg_black_seq(), '4', '0');
}

/// The column counter is honest: it equals the visible column count of the
/// output's last line, with no escape sequence left open.
pub open spec fn synced(s: RState, out: Seq<char>) -> bool {
    vis_scan(out, (0, false)) == (s.col, false)
}

/// Re-applying indentation keeps the counter honest: the reset and the
/// re-issued styles take no columns, the padding takes exactly its width.
pub proof fn lemma_indent_vis(extra: nat, s: RState, out: Seq<char>)
    requires
        synced(s, out),
        style_ok(s),
        s.col + crate::reflow::spec_indent_pad(extra, s) <= usize::MAX,
    ensures
        synced(spec_indent(extra, s, out).0, spec_indent(extra, s, out).1),
{
    let pad = crate::reflow::spec_indent_pad(extra, s);
    reveal_strlit("\u{1b}[00m");
    assert(reset_seq() =~= seq!['\u{1b}', '[', '0', '0', 'm']);
    lemma_style_code_esc_only(reset_seq(), '0', '0');
    lemma_vis_scan_concat(out, reset_seq(), (0, false));
    lemma_vis_scan_concat(out + reset_seq(), space_run(pad), (0, false));
    lemma_spaces_vis(pad, (s.col, false));
    lemma_vis_scan_concat(out + reset_seq() + space_run(pad), s.fg, (0, false));
    lemma_vis_scan_concat(out + reset_seq() + space_run(pad) + s.fg, s.bg, (0, false));
}

/// Column bound, visible form, one character: from an honest, bounded state
/// whose styles are escape sequences, emitting any ordinary character (no
/// line break, carriage return or raw escape) keeps the counter honest and
/// bounded — so the output's last line never shows more than the width.
pub proof fn lemma_char_vis_synced(ch: char, s: RState, out: Seq<char>)
    requires
        synced(s, out),
        style_ok(s),
        col_bounded(s),
        s.indentation + 1 <= s.width,
        s.width <= usize::MAX as nat,
        ch != '\n',
        ch != '\r',
        ch != '\u{1b}',
    ensures
        synced(spec_text_char(ch, s, out).0, spec_text_char(ch, s, out).1),
        col_bounded(spec_text_char(ch, s, out).0),
        style_ok(spec_text_char(ch, s, out).0),
    decreases 0int,
{
    lemma_char_col_bound(ch, s, out);
    let (s1, out1) = if s.col >= s.width {
        crate::reflow::spec_newline(s, out)
    } else {
        (s, out)
    };
    if s.col >= s.width {
        lemma_vis_scan_concat(out, seq!['\n'], (0, false));
        lemma_vis_one('\n', (s.col, false));
        assert(vis_scan(out1, (0, false)) == (0nat, false));
    }
    assert(synced(s1, out1));
    let (s2, out2) = if s1.ps is Newline || s1.ps is New {
        spec_indent(0, s1, out1)
    } else {
        (s1, out1)
    };
    if s1.ps is Newline || s1.ps is New {
        lemma_indent_vis(0, s1, out1);
    }
    assert(synced(s2, out2));
    if is_ws(ch) {
        if !(s2.ps is Whitespace) && !(s2.ps is Newline) {
            assert(out2.push(' ') =~= out2 + seq![' ']);
            lemma_vis_scan_concat(out2, seq![' '], (0, false));
            lemma_vis_one(' ', (s2.col, false));
            assert(vis_scan(out2.push(' '), (0, false)) == ((s2.col + 1) as nat, false));
        }
    } else {
        assert(out2.push(ch) =~= out2 + seq![ch]);
        lemma_vis_scan_concat(out2, seq![ch], (0, false));
        lemma_vis_one(ch, (s2.col, false));
        assert(vis_scan(out2.push(ch), (0, false)) == ((s2.col + 1) as nat, false));
    }
}

/// Column bound, visible form: over a text run free of line breaks,
/// carriage returns and raw escape characters, the reflow engine keeps the
/// column counter equal to the visible width of the output's last line and
/// within the configured width — wrapped lines never show more characters
/// than the width.
pub proof fn lemma_text_vis_synced(text: Seq<char>, s: RState, out: Seq<char>)
    requires
        synced(s, out),
        style_ok(s),
        col_bounded(s),
        s.indentation + 1 <= s.width,
        s.width <= usize::MAX as nat,
        forall|i: int|
            0 <= i < text.len() ==> #[trigger] text[i] != '\n' && text[i] != '\r' && text[i]
                != '\u{1b}',
    ensures
        synced(spec_text_main(text, s, out).0, spec_text_main(text, s, out).1),
        col_bounded(spec_text_main(text, s, out).0),
        spec_text_main(text, s, out).0.col <= s.width,
    decreases text.len(),
{
    if text.len() > 0 {
        let t = spec_text_char(text[0], s, out);
        lemma_char_vis_synced(text[0], s, out);
        lemma_text_vis_synced(text.drop_first(), t.0, t.1);
    }
}

/// States from which the flat column bound is kept: no active indentation
/// (so fresh lines are never padded), the column within the width, and an
/// empty line whenever breaks are pending.
pub open spec fn flat_bounded(s: RState) -> bool {
    &&& s.indentation == 0
    &&& s.col <= s.width
    &&& (s.ps is Newline ==> s.col == 0)
}

/// Column bound, visible form, flat: at zero indentation the bound holds
/// even across embedded line breaks — one character step keeps the counter
/// honest and within the width.
pub proof fn lemma_char_vis_flat(ch: char, s: RState, out: Seq<char>)
    requires
        flat_bounded(s),
        synced(s, out),
        style_ok(s),
        1 <= s.width <= usize::MAX as nat,
        ch != '\r',
        ch != '\u{1b}',
    ensures
        flat_bounded(spec_text_char(ch, s, out).0),
        synced(spec_text_char(ch, s, out).0, spec_text_char(ch, s, out).1),
        style_ok(spec_text_char(ch, s, out).0),
        spec_text_char(ch, s, out).0.width == s.width,
{
    let (s1, out1) = if s.col >= s.width {
        crate::reflow::spec_newline(s, out)
    } else {
        (s, out)
    };
    if s.col >= s.width {
        lemma_vis_scan_concat(out, seq!['\n'], (0, false));
        lemma_vis_one('\n', (s.col, false));
        assert(vis_scan(out1, (0, false)) == (0nat, false));
    }
    assert(synced(s1, out1));
    let (s2, out2) = if s1.ps is Newline || s1.ps is New {
        spec_indent(0, s1, out1)
    } else {
        (s1, out1)
    };
    if s1.ps is Newline || s1.ps is New {
        lemma_indent_vis(0, s1, out1);
    }
    assert(synced(s2, out2));
    if ch == '\n' {
        if s2.ps is Whitespace || s2.ps is Char {
            assert(out2.push('\n') =~= out2 + seq!['\n']);
            lemma_vis_scan_concat(out2, seq!['\n'], (0, false));
            lemma_vis_one('\n', (s2.col, false));
            assert(vis_scan(out2.push('\n'), (0, false)) == (0nat, false));
        }
    } else if is_ws(ch) {
        if !(s2.ps is Whitespace) && !(s2.ps is Newline) {
            assert(out2.push(' ') =~= out2 + seq![' ']);
            lemma_vis_scan_concat(out2, seq![' '], (0, false));
            lemma_vis_one(' ', (s2.col, false));
            assert(vis_scan(out2.push(' '), (0, false)) == ((s2.col + 1) as nat, false));
        }
    } else {
        assert(out2.push(ch) =~= out2 + seq![ch]);
        lemma_vis_scan_concat(out2, seq![ch], (0, false));
        lemma_vis_one(ch, (s2.col, false));
        assert(vis_scan(out2.push(ch), (0, false)) == ((s2.col + 1) as nat, false));
    }
}

/// Column bound, visible form, flat: at zero indentation, over any text run
/// free only of carriage returns and raw escape characters — embedded line
/// breaks included — the column counter stays equal to the visible width of
/// the output's last line and never passes the configured width.
pub proof fn lemma_text_vis_flat(text: Seq<char>, s: RState, out: Seq<char>)
    requires
        flat_bounded(s),
        synced(s, out),
        style_ok(s),
        1 <= s.width <= usize::MAX as nat,
        forall|i: int|
            0 <= i < text.len() ==> #[trigger] text[i] != '\r' && text[i] != '\u{1b}',
    ensures
        flat_bounded(spec_text_main(text, s, out).0),
        synced(spec_text_main(text, s, out).0, spec_text_main(text, s, out).1),
        spec_text_main(text, s, out).0.col <= s.width,
    decreases text.len(),
{
    if text.len() > 0 {
        let t = spec_text_char(text[0], s, out);
        lemma_char_vis_flat(text[0], s, out);
        lemma_text_vis_flat(text.drop_first(), t.0, t.1);
    }
}

/// Every number has at least one digit.
pub proof fn lemma_num_digits_pos(n: nat)
    ensures
        num_digits(n) >= 1,
    decreases n,
{
    if n >= 10 {
        lemma_num_digits_pos(n / 10);
    }
}

/// The digit count is monotone.
pub proof fn lemma_num_digits_mono(a: nat, b: nat)
    requires
        a <= b,
    ensures
        num_digits(a) <= num_digits(b),
    decreases b,
{
    if a < 10 {
        lemma_num_digits_pos(a);
        lemma_num_digits_pos(b);
        if b >= 10 {
            lemma_num_digits_pos(b / 10);
        }
    } else {
        lemma_div_is_ordered(a as int, b as int, 10);
        lemma_num_digits_mono(a / 10, b / 10);
    }
}

/// List marker alignment: for a `Distinct` list with `n` items, the marker
/// column width is the digit count of `n - 1`, and the marker of item `i`
/// is right-aligned to it — left-padding spaces, the digits of `i`, then
/// `". "`, together exactly `width + 2` columns.
pub proof fn lemma_distinct_marker_alignment(l: List, i: int)
    requires
        l.ltype == ListType::Distinct,
        l.items@.len() >= 1,
        0 <= i < l.items@.len(),
    ensures
        list_width(l) == num_digits((l.items@.len() - 1) as nat),
        num_digits(i as nat) <= list_width(l),
        marker_of(l, i) == space_run((list_width(l) - num_digits(i as nat)) as nat) + dec_seq(
            i as nat,
        ) + ". "@,
        marker_of(l, i).len() == list_width(l) + 2,
{
    lemma_num_digits_mono(i as nat, (l.items@.len() - 1) as nat);
    let w = list_width(l);
    let d = dec_seq(i as nat);
    reveal_strlit(". ");
    if d.len() >= w {
        assert(pad_left(d, w) =~= space_run((w - num_digits(i as nat)) as nat) + d);
    }
    assert(distinct_marker_seq(i as nat, w) == pad_left(d, w) + ". "@);
}

/// Blank-line budgeting: a request for `k` separating breaks in a
/// non-exempt state emits exactly the deficit — nothing when `k` breaks are
/// already pending, `k - pending` otherwise — and never doubles blank
/// lines.
pub proof fn lemma_separator_budget(k: nat, exempt: Seq<ParStatus>, s: RState, out: Seq<char>)
    requires
        !exempt.contains(s.ps),
    ensures
        pending_newlines(s.ps) >= k ==> spec_newlines_unless(k, exempt, s, out).1 == out,
        pending_newlines(s.ps) < k ==> spec_newlines_unless(k, exempt, s, out).1 == out
            + newline_run((k - pending_newlines(s.ps)) as nat),
        spec_newlines_unless(k, exempt, s, out).1.len() == out.len() + (if pending_newlines(s.ps)
            >= k {
            0
        } else {
            k - pending_newlines(s.ps)
        }),
{
    if pending_newlines(s.ps) >= k {
        assert(out + newline_run(0) =~= out);
    }
}

/// Degraded-but-total code rendering: the block text emitted for a code
/// block marked malformed by the producer is the literal error annotation,
/// whatever the highlighter outcome would have been; for a well-formed
/// block on which the highlighter declines or fails, it is an annotation
/// followed by the raw, unmodified code text. The renderer itself carries
/// no precondition, so neither case can abort a render.
pub proof fn lemma_code_degrades(code: Result<CodeBlock, CodeIdentError>, h: Highlighted)
    ensures
        code is Err ==> code_mid_text(code, h) == "error: incodoc code identation error"@,
        forall|t: String|
            code is Ok && h == Highlighted::Declined(t) ==> code_mid_text(code, h) == t@
                + "error: bat couldn't render code\n"@ + code->Ok_0.code@,
        forall|t: String, m: String|
            code is Ok && h == Highlighted::Failed(t, m) ==> code_mid_text(code, h) == t@
                + "error: bat error: "@ + m@ + "\n"@ + code->Ok_0.code@,
{
}

} // verus!
