//! Splicing of delegated blocks into the surrounding layout: every interior
//! line break of a pre-rendered block (a bordered grid or highlighted code)
//! is replaced by a line break plus the current indentation's worth of
//! padding, and the code-block renderer degrades to an annotated raw listing
//! when the block is malformed or the highlighter does not deliver.

use vstd::prelude::*;

use crate::ansi::ansi_reset;
use crate::ansi::reset_seq;
use crate::context::{frame_ok, Context, ParStatus, RState};
use crate::context::usize_sat_sub;
use crate::doc::{CodeBlock, CodeIdentError};
use crate::reflow::{indent, is_ws, newlines_unless, char_is_ws, str_chars, spec_indent,
    spec_newlines_unless};
use crate::trusted::{highlight_code, pop_char, push_char, Highlighted};

verus! {

/// `s` with every line break replaced by `repl`.
pub open spec fn replace_nl(s: Seq<char>, repl: Seq<char>) -> Seq<char>
    decreases s.len(),
{
    if s.len() == 0 {
        s
    } else if s[0] == '\n' {
        repl + replace_nl(s.drop_first(), repl)
    } else {
        seq![s[0]] + replace_nl(s.drop_first(), repl)
    }
}

/// `s` with trailing whitespace removed.
pub open spec fn trim_end_ws(s: Seq<char>) -> Seq<char>
    decreases s.len(),
{
    if s.len() == 0 {
        s
    } else if is_ws(s.last()) {
        trim_end_ws(s.drop_last())
    } else {
        s
    }
}

/// `s` with its last `n` characters removed (empty when `s` is shorter).
pub open spec fn chop(s: Seq<char>, n: nat) -> Seq<char> {
    if s.len() >= n {
        s.subrange(0, s.len() - n)
    } else {
        Seq::empty()
    }
}

/// Build `s` with every line break replaced by `repl`.
pub fn replace_newlines(s: &str, repl: &str) -> (r: String)
    ensures
        r@ == replace_nl(s@, repl@),
{
    let cs = str_chars(s);
    let n = cs.len();
    let mut r = String::new();
    let mut i: usize = 0;
    proof {
        assert(cs@.subrange(0, n as int) =~= cs@);
    }
    while i < n
        invariant
            i <= n,
            n == cs@.len(),
            cs@ == s@,
            replace_nl(s@, repl@) == r@ + replace_nl(cs@.subrange(i as int, n as int), repl@),
        decreases n - i,
    {
        let ghost r0 = r@;
        let ch = cs[i];
        if ch == '\n' {
            r.append(repl);
        } else {
            push_char(&mut r, ch);
        }
        i = i + 1;
        proof {
            let rest = cs@.subrange(i - 1, n as int);
            assert(rest[0] == cs@[i - 1]);
            assert(rest.drop_first() =~= cs@.subrange(i as int, n as int));
            assert(r0 + replace_nl(rest, repl@) =~= r@ + replace_nl(rest.drop_first(), repl@));
        }
    }
    proof {
        assert(replace_nl(cs@.subrange(n as int, n as int), repl@) =~= Seq::<char>::empty());
        assert(r@ =~= replace_nl(s@, repl@));
    }
    r
}

/// Remove trailing whitespace in place.
pub fn trim_end_string(s: &mut String)
    ensures
        final(s)@ == trim_end_ws(old(s)@),
{
    loop
        invariant_except_break
            trim_end_ws(s@) == trim_end_ws(old(s)@),
        ensures
            s@ == trim_end_ws(old(s)@),
        decreases s@.len(),
    {
        let ghost pre = s@;
        match pop_char(s) {
            None => {
                break ;
            },
            Some(ch) => {
                if char_is_ws(ch) {
                } else {
                    push_char(s, ch);
                    proof {
                        assert(s@ =~= pre);
                    }
                    break ;
                }
            },
        }
    }
}

/// Remove the last `n` characters in place.
pub fn pop_n_chars(s: &mut String, n: usize)
    ensures
        final(s)@ == chop(old(s)@, n as nat),
{
    let mut i: usize = 0;
    while i < n
        invariant
            i <= n,
            s@ == chop(old(s)@, i as nat),
        decreases n - i,
    {
        pop_char(s);
        i = i + 1;
        proof {
            assert(s@ =~= chop(old(s)@, i as nat));
        }
    }
}

/// What [`indent_table`] does to the model: the block's first line is put
/// after the current line's remaining indentation, every interior line break
/// is replaced by a break plus full indentation, and the block's trailing
/// break is dropped. The two padding steps both advance the model's column
/// and consume the credit.
pub open spec fn spec_indent_table(raw: Seq<char>, s: RState, out: Seq<char>) -> (RState, Seq<char>) {
    let t0 = spec_indent(0, s, seq!['\n']);
    let t1 = spec_indent(0, t0.0, seq!['\n']);
    let res = chop(replace_nl(t0.1.drop_first() + raw, t1.1), t1.1.len());
    (t1.0, out + res)
}

/// Re-indent every line of a pre-rendered block to the current indentation
/// and emit it.
pub fn indent_table(raw_table: &str, c: &mut Context, output: &mut String)
    ensures
        final(c)@ == spec_indent_table(raw_table@, old(c)@, old(output)@).0,
        final(output)@ == spec_indent_table(raw_table@, old(c)@, old(output)@).1,
{
    let mut chunk0 = String::new();
    indent(0, c, &mut chunk0);
    let mut is1 = String::new();
    is1.append("\n");
    indent(0, c, &mut is1);
    proof {
        reveal_strlit("\n");
        assert(chunk0@ =~= spec_indent(0, old(c)@, seq!['\n']).1.drop_first());
        assert(is1@ =~= spec_indent(0, spec_indent(0, old(c)@, seq!['\n']).0, seq!['\n']).1);
    }
    let is1_chars = str_chars(is1.as_str()).len();
    let mut res0 = chunk0;
    res0.append(raw_table);
    let mut res = replace_newlines(res0.as_str(), is1.as_str());
    pop_n_chars(&mut res, is1_chars);
    output.append(res.as_str());
    proof {
        assert(output@ =~= spec_indent_table(raw_table@, old(c)@, old(output)@).1);
    }
}

/// What [`emit_code_body`] does to the model: the block text behind the
/// current line's remaining indentation plus two columns, every line break
/// re-indented likewise, trailing whitespace trimmed, all emitted behind the
/// owed separating break, bracketed by a reset and the re-issued foreground.
pub open spec fn spec_emit_code_body(mid: Seq<char>, s: RState, out: Seq<char>) -> (RState, Seq<char>) {
    let t0 = spec_indent(2, s, seq!['\n']);
    let t1 = spec_indent(2, t0.0, seq!['\n']);
    let temp = trim_end_ws(replace_nl(t0.1.drop_first() + mid, t1.1));
    let t2 = spec_newlines_unless(1, seq![ParStatus::New], t1.0, out);
    (RState { ps: ParStatus::Element, ..t2.0 }, t2.1 + reset_seq() + temp + t2.0.fg)
}

/// Emit a code block's body text, re-indented two columns past the active
/// indentation.
pub fn emit_code_body(mid: &str, c: &mut Context, output: &mut String)
    ensures
        final(c)@ == spec_emit_code_body(mid@, old(c)@, old(output)@).0,
        final(output)@ == spec_emit_code_body(mid@, old(c)@, old(output)@).1,
{
    let mut chunk0 = String::new();
    indent(2, c, &mut chunk0);
    let mut is1 = String::new();
    is1.append("\n");
    indent(2, c, &mut is1);
    proof {
        reveal_strlit("\n");
        assert(chunk0@ =~= spec_indent(2, old(c)@, seq!['\n']).1.drop_first());
        assert(is1@ =~= spec_indent(2, spec_indent(2, old(c)@, seq!['\n']).0, seq!['\n']).1);
    }
    let mut temp = chunk0;
    temp.append(mid);
    let mut temp2 = replace_newlines(temp.as_str(), is1.as_str());
    trim_end_string(&mut temp2);
    let pss: [ParStatus; 1] = [ParStatus::New];
    proof {
        assert(pss@.len() == 1);
        assert(pss@[0] == ParStatus::New);
        assert(pss@ =~= seq![ParStatus::New]);
    }
    newlines_unless(1, &pss, c, output);
    let r = ansi_reset();
    output.append(r.as_str());
    output.append(temp2.as_str());
    output.append(c.fg_mod.as_str());
    c.ps = ParStatus::Element;
    proof {
        assert(c@ =~= spec_emit_code_body(mid@, old(c)@, old(output)@).0);
        assert(output@ =~= spec_emit_code_body(mid@, old(c)@, old(output)@).1);
    }
}

/// The annotation emitted for a code block the producer marked malformed.
pub open spec fn err_code_annotation() -> Seq<char> {
    "error: incodoc code identation error"@
}

/// The block text a code block contributes, given the highlighter's outcome:
/// the styled text on success, or an annotation plus the raw, un-highlighted
/// code when the highlighter declined or failed.
pub open spec fn code_mid_text(code: Result<CodeBlock, CodeIdentError>, h: Highlighted) -> Seq<
    char,
> {
    match code {
        Ok(cb) => match h {
            Highlighted::Rendered(txt) => txt@,
            Highlighted::Declined(txt) => txt@ + "error: bat couldn't render code\n"@ + cb.code@,
            Highlighted::Failed(txt, msg) => txt@ + "error: bat error: "@ + msg@ + "\n"@
                + cb.code@,
        },
        Err(_) => "error: incodoc code identation error"@,
    }
}

/// What [`code_to_ansi`] does to the model, given the highlighter's outcome.
pub open spec fn spec_code_with(
    code: Result<CodeBlock, CodeIdentError>,
    h: Highlighted,
    s: RState,
    out: Seq<char>,
) -> (RState, Seq<char>) {
    spec_emit_code_body(code_mid_text(code, h), s, out)
}

/// Emit a successfully highlighted (or degraded) code block, given the
/// highlighter's outcome for this block.
pub fn highlighted_code_to_ansi(
    code: &CodeBlock,
    h: &Highlighted,
    conf: &crate::context::Config,
    c: &mut Context,
    output: &mut String,
)
    ensures
        final(c)@ == spec_code_with(Ok(*code), *h, old(c)@, old(output)@).0,
        final(output)@ == spec_code_with(Ok(*code), *h, old(c)@, old(output)@).1,
{
    let mut mid = String::new();
    match h {
        Highlighted::Rendered(t) => {
            mid.append(t.as_str());
        },
        Highlighted::Declined(t) => {
            mid.append(t.as_str());
            mid.append("error: bat couldn't render code\n");
            mid.append(code.code.as_str());
        },
        Highlighted::Failed(t, msg) => {
            mid.append(t.as_str());
            mid.append("error: bat error: ");
            mid.append(msg.as_str());
            mid.append("\n");
            mid.append(code.code.as_str());
        },
    }
    proof {
        assert(mid@ =~= code_mid_text(Ok(*code), *h));
    }
    emit_code_body(mid.as_str(), c, output);
}

/// Render a code block. On success the highlighter's styled lines are
/// spliced in re-indented; a malformed block or a failing highlighter
/// degrades to an annotation plus the raw code text, and never aborts the
/// surrounding render.
pub fn code_to_ansi(
    code: &Result<CodeBlock, CodeIdentError>,
    conf: &crate::context::Config,
    c: &mut Context,
    output: &mut String,
)
    ensures
        frame_ok(old(c)@, final(c)@),
        code is Err ==> (final(c)@, final(output)@) == spec_emit_code_body(
            err_code_annotation(),
            old(c)@,
            old(output)@,
        ),
        code is Ok ==> exists|h: Highlighted|
            (final(c)@, final(output)@) == #[trigger] spec_code_with(
                *code,
                h,
                old(c)@,
                old(output)@,
            ),
{
    match code {
        Ok(cb) => {
            let w = usize_sat_sub(usize_sat_sub(c.width, c.indentation), 2);
            let h = highlight_code(cb.code.as_str(), cb.language.as_str(), w);
            highlighted_code_to_ansi(cb, &h, conf, c, output);
            proof {
                assert((c@, output@) == spec_code_with(*code, h, old(c)@, old(output)@));
                assert(exists|hh: Highlighted|
                    (c@, output@) == #[trigger] spec_code_with(*code, hh, old(c)@, old(output)@));
            }
        },
        Err(_) => {
            let mut mid = String::new();
            mid.append("error: incodoc code identation error");
            proof {
                assert(mid@ =~= err_code_annotation());
            }
            emit_code_body(mid.as_str(), c, output);
        },
    }
}

} // verus!
