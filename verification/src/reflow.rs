//! The text reflow engine: converts raw text runs into column-bounded,
//! whitespace-collapsed output.
//!
//! Three policies hold at once: any maximal run of non-newline whitespace is
//! emitted as one space (dropped right after a line break and swallowed while
//! breaks are pending); an embedded newline is honored only after a visible
//! character or a collapsed space; before any character is emitted, a column
//! at or past the width forces a line break, after which the indentation is
//! re-applied once, minus any outstanding credit.

use vstd::prelude::*;
use vstd::std_specs::iter::IteratorSpec;

use crate::ansi::ansi_reset;
use crate::ansi::reset_seq;
use crate::context::{sat_add, usize_sat_add};
use crate::context::{frame_ok, Context, ParStatus, RState};
use crate::trusted::push_char;

verus! {

/// The characters with the Unicode `White_Space` property.
pub open spec fn is_ws(ch: char) -> bool {
    let u = ch as u32;
    u == 0x9 || u == 0xa || u == 0xb || u == 0xc || u == 0xd || u == 0x20 || u == 0x85
        || u == 0xa0 || u == 0x1680 || (0x2000 <= u && u <= 0x200a) || u == 0x2028 || u == 0x2029
        || u == 0x202f || u == 0x205f || u == 0x3000
}

/// Whether `ch` is whitespace, by the Unicode `White_Space` property.
pub fn char_is_ws(ch: char) -> (r: bool)
    ensures
        r == is_ws(ch),
{
    let u = ch as u32;
    u == 0x9 || u == 0xa || u == 0xb || u == 0xc || u == 0xd || u == 0x20 || u == 0x85
        || u == 0xa0 || u == 0x1680 || (0x2000 <= u && u <= 0x200a) || u == 0x2028 || u == 0x2029
        || u == 0x202f || u == 0x205f || u == 0x3000
}

/// How many line breaks the status says are pending.
pub open spec fn pending_newlines(ps: ParStatus) -> nat {
    match ps {
        ParStatus::Newline(n) => n as nat,
        _ => 0,
    }
}

/// `n` line breaks.
pub open spec fn newline_run(n: nat) -> Seq<char> {
    Seq::new(n, |i: int| '\n')
}

/// `n` padding spaces.
pub open spec fn space_run(n: nat) -> Seq<char> {
    Seq::new(n, |i: int| ' ')
}

/// What [`newline`] does to the model: emit one line break, reset the column
/// and count the break as pending on top of those already pending.
pub open spec fn spec_newline(s: RState, out: Seq<char>) -> (RState, Seq<char>) {
    (
        RState {
            ps: ParStatus::Newline(sat_add(pending_newlines(s.ps), 1) as usize),
            col: 0,
            ..s
        },
        out + seq!['\n'],
    )
}

/// What [`indent`] does to the model: a style reset, then padding up to the
/// active indentation plus `extra`, minus the already-filled credit, then
/// both style channels re-issued. The credit is consumed.
pub open spec fn spec_indent(extra: nat, s: RState, out: Seq<char>) -> (RState, Seq<char>) {
    let ind = sat_add(s.indentation, extra);
    let pad = if s.indented >= ind {
        0
    } else {
        (ind - s.indented) as nat
    };
    (
        RState { col: sat_add(s.col, pad), indented: 0, ..s },
        out + reset_seq() + space_run(pad) + s.fg + s.bg,
    )
}

/// What [`newlines_unless`] does to the model: unless the status is exempt,
/// emit exactly the line breaks still owed on top of those already pending.
pub open spec fn spec_newlines_unless(
    k: nat,
    exempt: Seq<ParStatus>,
    s: RState,
    out: Seq<char>,
) -> (RState, Seq<char>) {
    if exempt.contains(s.ps) {
        (s, out)
    } else {
        let already = pending_newlines(s.ps);
        let owed = if already >= k {
            0
        } else {
            (k - already) as nat
        };
        (
            RState { ps: ParStatus::Newline((already + owed) as usize), col: 0, ..s },
            out + newline_run(owed),
        )
    }
}

/// What [`append`] does to the model, character by character: before each
/// character, a column at or past the width forces a line break; the
/// character is then emitted and the column advances.
pub open spec fn spec_append(text: Seq<char>, s: RState, out: Seq<char>) -> (RState, Seq<char>)
    decreases text.len(),
{
    if text.len() == 0 {
        (s, out)
    } else {
        let (s1, out1) = if s.col >= s.width {
            spec_newline(s, out)
        } else {
            (s, out)
        };
        spec_append(
            text.drop_first(),
            RState { col: sat_add(s1.col, 1), ..s1 },
            out1.push(text[0]),
        )
    }
}

/// Emit a line break and account for it in the status.
pub fn newline(c: &mut Context, output: &mut String)
    ensures
        final(c)@ == spec_newline(old(c)@, old(output)@).0,
        final(output)@ == spec_newline(old(c)@, old(output)@).1,
{
    output.append("\n");
    let already: usize = match c.ps {
        ParStatus::Newline(n) => n,
        _ => 0,
    };
    c.ps = ParStatus::Newline(usize_sat_add(already, 1));
    c.col = 0;
    proof {
        reveal_strlit("\n");
        assert(output@ =~= spec_newline(old(c)@, old(output)@).1);
        assert(c@ =~= spec_newline(old(c)@, old(output)@).0);
    }
}

/// Re-apply the active indentation (plus `extra` columns), honoring and
/// consuming any credit, bracketed by a reset and the re-issued styles.
pub fn indent(extra: usize, c: &mut Context, output: &mut String)
    ensures
        final(c)@ == spec_indent(extra as nat, old(c)@, old(output)@).0,
        final(output)@ == spec_indent(extra as nat, old(c)@, old(output)@).1,
{
    let r = ansi_reset();
    output.append(r.as_str());
    let indentation = usize_sat_add(c.indentation, extra);
    let pad: usize = if c.indented >= indentation {
        0
    } else {
        indentation - c.indented
    };
    let mut i: usize = 0;
    while i < pad
        invariant
            i <= pad,
            pad as nat == spec_indent_pad(extra as nat, old(c)@),
            output@ == old(output)@ + reset_seq() + space_run(i as nat),
            c.col as nat == sat_add(old(c)@.col, i as nat),
            *c == (Context { col: c.col, ..*old(c) }),
        decreases pad - i,
    {
        output.append(" ");
        c.col = usize_sat_add(c.col, 1);
        i += 1;
        proof {
            reveal_strlit(" ");
            assert(output@ =~= old(output)@ + reset_seq() + space_run(i as nat));
        }
    }
    c.indented = 0;
    output.append(c.fg_mod.as_str());
    output.append(c.bg_mod.as_str());
    proof {
        assert(c@ =~= spec_indent(extra as nat, old(c)@, old(output)@).0);
    }
}

/// The padding width [`indent`] owes: indentation plus `extra`, minus the
/// already-filled credit.
pub open spec fn spec_indent_pad(extra: nat, s: RState) -> nat {
    let ind = sat_add(s.indentation, extra);
    if s.indented >= ind {
        0
    } else {
        (ind - s.indented) as nat
    }
}

/// Request at least `newlines` pending line breaks before the next block,
/// unless the current status is one of `pss`; only the deficit is emitted.
pub fn newlines_unless(newlines: usize, pss: &[ParStatus], c: &mut Context, output: &mut String)
    ensures
        final(c)@ == spec_newlines_unless(newlines as nat, pss@, old(c)@, old(output)@).0,
        final(output)@ == spec_newlines_unless(newlines as nat, pss@, old(c)@, old(output)@).1,
{
    let n = pss.len();
    let mut j: usize = 0;
    while j < n
        invariant
            j <= n,
            n == pss@.len(),
            forall|k: int| 0 <= k < j ==> pss@[k] != c.ps,
            c == old(c),
            output == old(output),
        decreases n - j,
    {
        if pss[j] == c.ps {
            return ;
        }
        j += 1;
    }
    assert(!pss@.contains(c.ps));
    let already: usize = match c.ps {
        ParStatus::Newline(n2) => n2,
        _ => 0,
    };
    let owed: usize = if already >= newlines {
        0
    } else {
        newlines - already
    };
    let mut i: usize = 0;
    while i < owed
        invariant
            i <= owed,
            output@ == old(output)@ + newline_run(i as nat),
            c == old(c),
        decreases owed - i,
    {
        output.append("\n");
        i += 1;
        proof {
            reveal_strlit("\n");
            assert(output@ =~= old(output)@ + newline_run(i as nat));
        }
    }
    c.ps = ParStatus::Newline(already + owed);
    c.col = 0;
    proof {
        assert(c@ =~= spec_newlines_unless(newlines as nat, pss@, old(c)@, old(output)@).0);
    }
}

/// The characters of a string slice, in order.
pub fn str_chars(text: &str) -> (r: Vec<char>)
    ensures
        r@ == text@,
{
    let mut it = text.chars();
    let mut r: Vec<char> = Vec::new();
    loop
        invariant_except_break
            r@ + it.remaining() == text@,
            it.decrease() is Some,
        ensures
            r@ == text@,
        decreases it.decrease()->0,
    {
        match it.next() {
            Some(ch) => {
                r.push(ch);
                proof {
                    assert(r@ + it.remaining() =~= text@);
                }
            },
            None => {
                proof {
                    assert(r@ =~= text@);
                }
                break ;
            },
        }
    }
    r
}

/// Emit `text` verbatim but for the column bound: before each character a
/// column at or past the width forces a line break. Used for list markers.
pub fn append(text: &str, c: &mut Context, output: &mut String)
    ensures
        final(c)@ == spec_append(text@, old(c)@, old(output)@).0,
        final(output)@ == spec_append(text@, old(c)@, old(output)@).1,
{
    let chars = str_chars(text);
    let n = chars.len();
    let mut i: usize = 0;
    proof {
        assert(chars@.subrange(0, n as int) =~= chars@);
    }
    while i < n
        invariant
            i <= n,
            n == chars@.len(),
            chars@ == text@,
            spec_append(text@, old(c)@, old(output)@) == spec_append(
                chars@.subrange(i as int, n as int),
                c@,
                output@,
            ),
        decreases n - i,
    {
        let ghost s0 = c@;
        let ghost o0 = output@;
        let ch = chars[i];
        if c.col >= c.width {
            newline(c, output);
        }
        push_char(output, ch);
        c.col = usize_sat_add(c.col, 1);
        i += 1;
        proof {
            let rest = chars@.subrange(i - 1, n as int);
            assert(rest[0] == chars@[i - 1]);
            assert(rest.drop_first() =~= chars@.subrange(i as int, n as int));
            let (s1, out1) = if s0.col >= s0.width {
                spec_newline(s0, o0)
            } else {
                (s0, o0)
            };
            assert(c@ =~= (RState { col: sat_add(s1.col, 1), ..s1 }));
            assert(output@ == out1.push(rest[0]));
            assert(spec_append(rest, s0, o0) == spec_append(
                chars@.subrange(i as int, n as int),
                c@,
                output@,
            ));
        }
    }
    proof {
        assert(chars@.subrange(n as int, n as int) =~= Seq::<char>::empty());
    }
}

/// What [`format_text_pre`] does to the model: at or past the width it
/// breaks the line; otherwise after a visible character it inserts one
/// separating space, and after a closed block element it breaks the line.
pub open spec fn spec_text_pre(s: RState, out: Seq<char>) -> (RState, Seq<char>) {
    if s.col >= s.width {
        spec_newline(s, out)
    } else {
        match s.ps {
            ParStatus::Char => (
                RState { ps: ParStatus::Whitespace, col: s.col + 1, ..s },
                out.push(' '),
            ),
            ParStatus::Element => spec_newline(s, out),
            _ => (s, out),
        }
    }
}

/// What one character of [`format_text_main`] does to the model: wrap at the
/// width, re-apply indentation at a line start, then either honor a newline
/// (only after a visible character or a collapsed space), collapse
/// whitespace to at most one space (dropped at a line start), or emit the
/// visible character.
pub open spec fn spec_text_char(ch: char, s: RState, out: Seq<char>) -> (RState, Seq<char>) {
    let (s1, out1) = if s.col >= s.width {
        spec_newline(s, out)
    } else {
        (s, out)
    };
    let (s2, out2) = if s1.ps is Newline || s1.ps is New {
        spec_indent(0, s1, out1)
    } else {
        (s1, out1)
    };
    if ch == '\n' {
        if s2.ps is Whitespace || s2.ps is Char {
            (RState { ps: ParStatus::Newline(1), col: 0, ..s2 }, out2.push('\n'))
        } else {
            (s2, out2)
        }
    } else if ch == '\r' {
        (s2, out2)
    } else if is_ws(ch) {
        if !(s2.ps is Whitespace) {
            if !(s2.ps is Newline) {
                (
                    RState { ps: ParStatus::Whitespace, col: sat_add(s2.col, 1), ..s2 },
                    out2.push(' '),
                )
            } else {
                (RState { ps: ParStatus::Whitespace, ..s2 }, out2)
            }
        } else {
            (s2, out2)
        }
    } else {
        (RState { ps: ParStatus::Char, col: sat_add(s2.col, 1), ..s2 }, out2.push(ch))
    }
}

/// What [`format_text_main`] does to the model: [`spec_text_char`] over the
/// characters of the run, in order.
pub open spec fn spec_text_main(text: Seq<char>, s: RState, out: Seq<char>) -> (RState, Seq<char>)
    decreases text.len(),
{
    if text.len() == 0 {
        (s, out)
    } else {
        let (s1, out1) = spec_text_char(text[0], s, out);
        spec_text_main(text.drop_first(), s1, out1)
    }
}

/// What [`format_text`] does to the model: the separating step, then the
/// characters of the run.
pub open spec fn spec_format_text(text: Seq<char>, s: RState, out: Seq<char>) -> (RState, Seq<char>) {
    let (s1, out1) = spec_text_pre(s, out);
    spec_text_main(text, s1, out1)
}

/// The separating step before a text run: wrap if the column budget is
/// spent; else insert one space after a visible character, or force a line
/// break after a closed block element.
pub fn format_text_pre(c: &mut Context, output: &mut String)
    ensures
        final(c)@ == spec_text_pre(old(c)@, old(output)@).0,
        final(output)@ == spec_text_pre(old(c)@, old(output)@).1,
{
    if c.col >= c.width {
        newline(c, output);
        return ;
    }
    match c.ps {
        ParStatus::Char => {
            output.append(" ");
            c.ps = ParStatus::Whitespace;
            c.col = c.col + 1;
            proof {
                reveal_strlit(" ");
                assert(output@ =~= spec_text_pre(old(c)@, old(output)@).1);
                assert(c@ =~= spec_text_pre(old(c)@, old(output)@).0);
            }
        },
        ParStatus::Element => {
            newline(c, output);
        },
        _ => {},
    }
}

/// Emit one text run through the reflow state machine.
pub fn format_text_main(text: &str, c: &mut Context, output: &mut String)
    ensures
        final(c)@ == spec_text_main(text@, old(c)@, old(output)@).0,
        final(output)@ == spec_text_main(text@, old(c)@, old(output)@).1,
{
    let chars = str_chars(text);
    let n = chars.len();
    let mut i: usize = 0;
    proof {
        assert(chars@.subrange(0, n as int) =~= chars@);
    }
    while i < n
        invariant
            i <= n,
            n == chars@.len(),
            chars@ == text@,
            spec_text_main(text@, old(c)@, old(output)@) == spec_text_main(
                chars@.subrange(i as int, n as int),
                c@,
                output@,
            ),
        decreases n - i,
    {
        let ghost s0 = c@;
        let ghost o0 = output@;
        let ch = chars[i];
        if c.col >= c.width {
            newline(c, output);
        }
        if matches!(c.ps, ParStatus::Newline(_)) || c.ps == ParStatus::New {
            indent(0, c, output);
        }
        let ghost s2 = c@;
        let ghost o2 = output@;
        if ch == '\n' {
            if c.ps == ParStatus::Whitespace || c.ps == ParStatus::Char {
                c.ps = ParStatus::Newline(1);
                c.col = 0;
                output.append("\n");
                proof {
                    reveal_strlit("\n");
                    assert(output@ =~= o2.push('\n'));
                }
            }
        } else if ch == '\r' {
        } else if char_is_ws(ch) {
            if !matches!(c.ps, ParStatus::Whitespace) {
                if !matches!(c.ps, ParStatus::Newline(_)) {
                    output.append(" ");
                    c.col = usize_sat_add(c.col, 1);
                    proof {
                        reveal_strlit(" ");
                        assert(output@ =~= o2.push(' '));
                    }
                }
                c.ps = ParStatus::Whitespace;
            }
        } else {
            c.ps = ParStatus::Char;
            c.col = usize_sat_add(c.col, 1);
            push_char(output, ch);
        }
        i += 1;
        proof {
            let rest = chars@.subrange(i - 1, n as int);
            assert(rest[0] == chars@[i - 1]);
            assert(rest.drop_first() =~= chars@.subrange(i as int, n as int));
            assert(c@ =~= spec_text_char(rest[0], s0, o0).0);
            assert(output@ == spec_text_char(rest[0], s0, o0).1);
            assert(spec_text_main(rest, s0, o0) == spec_text_main(
                chars@.subrange(i as int, n as int),
                c@,
                output@,
            ));
        }
    }
    proof {
        assert(chars@.subrange(n as int, n as int) =~= Seq::<char>::empty());
    }
}

/// Emit a text run: the separating step, then the run itself.
pub fn format_text(text: &str, c: &mut Context, output: &mut String)
    ensures
        final(c)@ == spec_format_text(text@, old(c)@, old(output)@).0,
        final(output)@ == spec_format_text(text@, old(c)@, old(output)@).1,
{
    format_text_pre(c, output);
    format_text_main(text, c, output);
}

/// The reflow engine never touches the style channels, their stacks, the
/// indentation scope stack, the active indentation or the width: character
/// emission only moves the cursor.
pub proof fn lemma_text_main_frame(text: Seq<char>, s: RState, out: Seq<char>)
    ensures
        frame_ok(s, spec_text_main(text, s, out).0),
    decreases text.len(),
{
    if text.len() > 0 {
        let t = spec_text_char(text[0], s, out);
        lemma_text_main_frame(text.drop_first(), t.0, t.1);
    }
}

/// See [`lemma_text_main_frame`]; the separating step keeps the frame too.
pub proof fn lemma_format_text_frame(text: Seq<char>, s: RState, out: Seq<char>)
    ensures
        frame_ok(s, spec_format_text(text, s, out).0),
{
    let t = spec_text_pre(s, out);
    lemma_text_main_frame(text, t.0, t.1);
}

/// See [`lemma_text_main_frame`]; marker emission keeps the frame too.
pub proof fn lemma_append_frame(text: Seq<char>, s: RState, out: Seq<char>)
    ensures
        frame_ok(s, spec_append(text, s, out).0),
    decreases text.len(),
{
    if text.len() > 0 {
        let (s1, out1) = if s.col >= s.width {
            spec_newline(s, out)
        } else {
            (s, out)
        };
        lemma_append_frame(
            text.drop_first(),
            RState { col: sat_add(s1.col, 1), ..s1 },
            out1.push(text[0]),
        );
    }
}

/// Emit plain document text.
pub fn text_to_ansi(text: &str, c: &mut Context, output: &mut String)
    ensures
        final(c)@ == spec_format_text(text@, old(c)@, old(output)@).0,
        final(output)@ == spec_format_text(text@, old(c)@, old(output)@).1,
{
    format_text(text, c, output);
}

} // verus!
