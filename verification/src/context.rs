//! The mutable render state threaded through the whole traversal, with its
//! mathematical model and the scope-stack operations.
//!
//! Every scope-opening operation (style push, indent push) must be matched by
//! exactly one scope-closing operation before the surrounding node renderer
//! returns; the contracts of the renderers state that the stacks return to
//! their pre-call value.

use vstd::prelude::*;

use crate::ansi::ansi_reset;
use crate::ansi::reset_seq;

verus! {

/// Engine configuration: the column budget for wrapped text.
#[derive(Clone, Copy, Default, Hash, Debug, Eq, PartialEq, Ord, PartialOrd, Structural)]
pub struct Config {
    pub width: usize,
}

/// The cursor status driving text reflow.
#[derive(Clone, Copy, Default, Hash, Debug, Eq, PartialEq, Ord, PartialOrd, Structural)]
pub enum ParStatus {
    /// A new paragraph has started.
    #[default]
    New,
    /// This many consecutive line breaks are pending.
    Newline(usize),
    /// The last emitted character was whitespace other than a line break.
    Whitespace,
    /// The last emitted character was a regular visible character.
    Char,
    /// A non-text element (code, list, table) just closed.
    Element,
    /// The last content was an emphasised span.
    Emphasis,
}

/// The render state: cursor position, active styles, style-restore stacks,
/// indentation scope and the terminal width.
#[derive(Clone, Default, Debug, Eq, PartialEq)]
pub struct Context {
    pub ps: ParStatus,
    pub fg_mod: String,
    pub bg_mod: String,
    pub fg_mod_stack: Vec<String>,
    pub bg_mod_stack: Vec<String>,
    pub ii_stack: Vec<(usize, usize)>,
    pub indentation: usize,
    pub indented: usize,
    pub width: usize,
    pub col: usize,
}

/// Mathematical model of [`Context`].
#[verifier::ext_equal]
pub struct RState {
    pub ps: ParStatus,
    pub fg: Seq<char>,
    pub bg: Seq<char>,
    pub fg_stack: Seq<Seq<char>>,
    pub bg_stack: Seq<Seq<char>>,
    pub ii_stack: Seq<(nat, nat)>,
    pub indentation: nat,
    pub indented: nat,
    pub width: nat,
    pub col: nat,
}

/// The views of a sequence of style strings.
pub open spec fn views_of(v: Seq<String>) -> Seq<Seq<char>> {
    Seq::new(v.len(), |i: int| v[i]@)
}

/// A sequence of machine-word pairs as a sequence of pairs of naturals.
pub open spec fn nats_of(v: Seq<(usize, usize)>) -> Seq<(nat, nat)> {
    Seq::new(v.len(), |i: int| (v[i].0 as nat, v[i].1 as nat))
}

impl View for Context {
    type V = RState;

    open spec fn view(&self) -> RState {
        RState {
            ps: self.ps,
            fg: self.fg_mod@,
            bg: self.bg_mod@,
            fg_stack: views_of(self.fg_mod_stack@),
            bg_stack: views_of(self.bg_mod_stack@),
            ii_stack: nats_of(self.ii_stack@),
            indentation: self.indentation as nat,
            indented: self.indented as nat,
            width: self.width as nat,
            col: self.col as nat,
        }
    }
}

/// Addition capped at the machine word; keeps the scope operations total.
pub open spec fn sat_add(a: nat, b: nat) -> nat {
    if a + b > usize::MAX as nat {
        usize::MAX as nat
    } else {
        a + b
    }
}

/// A node renderer leaves the shared scopes exactly as it found them: both
/// style channels and their stacks, the indentation scope stack, the active
/// indentation and the width all return to their pre-call values, and the
/// indentation credit is either restored or consumed to zero (so a call
/// entered with no outstanding credit returns with none).
pub open spec fn frame_ok(pre: RState, post: RState) -> bool {
    &&& post.fg == pre.fg
    &&& post.bg == pre.bg
    &&& post.fg_stack == pre.fg_stack
    &&& post.bg_stack == pre.bg_stack
    &&& post.ii_stack == pre.ii_stack
    &&& post.indentation == pre.indentation
    &&& post.width == pre.width
    &&& (post.indented == pre.indented || post.indented == 0)
}

/// Subtraction floored at zero; keeps the width arithmetic total.
pub open spec fn sat_sub(a: nat, b: nat) -> nat {
    if a >= b {
        (a - b) as nat
    } else {
        0
    }
}

/// Saturating subtraction on machine words.
pub fn usize_sat_sub(a: usize, b: usize) -> (r: usize)
    ensures
        r as nat == sat_sub(a as nat, b as nat),
{
    if a >= b {
        a - b
    } else {
        0
    }
}

/// Saturating addition on machine words.
pub fn usize_sat_add(a: usize, b: usize) -> (r: usize)
    ensures
        r as nat == sat_add(a as nat, b as nat),
{
    if a > usize::MAX - b {
        usize::MAX
    } else {
        a + b
    }
}

/// What [`Context::push_fg_mod`] does to the model: the active foreground is
/// saved, `code` becomes active and is emitted.
pub open spec fn spec_push_fg(s: RState, code: Seq<char>, out: Seq<char>) -> (RState, Seq<char>) {
    (RState { fg: code, fg_stack: s.fg_stack.push(s.fg), ..s }, out + code)
}

/// What [`Context::pop_fg_mod`] does to the model: a full reset is emitted,
/// the saved foreground becomes active again and both channels are re-issued.
pub open spec fn spec_pop_fg(s: RState, out: Seq<char>) -> (RState, Seq<char>) {
    let fg2 = if s.fg_stack.len() == 0 {
        Seq::<char>::empty()
    } else {
        s.fg_stack.last()
    };
    let stack2 = if s.fg_stack.len() == 0 {
        s.fg_stack
    } else {
        s.fg_stack.drop_last()
    };
    (RState { fg: fg2, fg_stack: stack2, ..s }, out + reset_seq() + fg2 + s.bg)
}

/// What [`Context::push_bg_mod`] does to the model.
pub open spec fn spec_push_bg(s: RState, code: Seq<char>, out: Seq<char>) -> (RState, Seq<char>) {
    (RState { bg: code, bg_stack: s.bg_stack.push(s.bg), ..s }, out + code)
}

/// What [`Context::pop_bg_mod`] does to the model.
pub open spec fn spec_pop_bg(s: RState, out: Seq<char>) -> (RState, Seq<char>) {
    let bg2 = if s.bg_stack.len() == 0 {
        Seq::<char>::empty()
    } else {
        s.bg_stack.last()
    };
    let stack2 = if s.bg_stack.len() == 0 {
        s.bg_stack
    } else {
        s.bg_stack.drop_last()
    };
    (RState { bg: bg2, bg_stack: stack2, ..s }, out + reset_seq() + bg2 + s.fg)
}

/// What [`Context::push_indent`] does to the model: the active pair is saved,
/// a credit (if any) records columns of the current line as already filled,
/// and the indentation grows by `add`.
pub open spec fn spec_push_indent(s: RState, add: nat, credited: nat) -> RState {
    let s1 = RState { ii_stack: s.ii_stack.push((s.indentation, s.indented)), ..s };
    let s2 = if credited > 0 {
        RState { indented: sat_add(credited, s.indentation), ..s1 }
    } else {
        s1
    };
    RState { indentation: sat_add(s.indentation, add), ..s2 }
}

/// What [`Context::pop_indent`] does to the model: the exact saved pair is
/// restored in LIFO order.
pub open spec fn spec_pop_indent(s: RState) -> RState {
    RState {
        indentation: s.ii_stack.last().0,
        indented: s.ii_stack.last().1,
        ii_stack: s.ii_stack.drop_last(),
        ..s
    }
}

impl Context {
    /// Save the active foreground style, install `new` and emit it.
    pub fn push_fg_mod(&mut self, new: &str, output: &mut String)
        ensures
            final(self)@ == spec_push_fg(old(self)@, new@, old(output)@).0,
            final(output)@ == spec_push_fg(old(self)@, new@, old(output)@).1,
    {
        self.fg_mod_stack.push(self.fg_mod.clone());
        self.fg_mod = new.to_owned();
        output.append(new);
        proof {
            assert(self@.fg_stack =~= old(self)@.fg_stack.push(old(self)@.fg));
            assert(self@ =~= spec_push_fg(old(self)@, new@, old(output)@).0);
        }
    }

    /// Emit a full style reset, restore the saved foreground and re-emit both
    /// channels. Popping an empty stack restores the default (empty) style.
    pub fn pop_fg_mod(&mut self, output: &mut String)
        ensures
            final(self)@ == spec_pop_fg(old(self)@, old(output)@).0,
            final(output)@ == spec_pop_fg(old(self)@, old(output)@).1,
    {
        let r = ansi_reset();
        output.append(r.as_str());
        self.fg_mod = match self.fg_mod_stack.pop() {
            Some(s) => s,
            None => String::new(),
        };
        output.append(self.fg_mod.as_str());
        output.append(self.bg_mod.as_str());
        proof {
            if old(self)@.fg_stack.len() > 0 {
                assert(self@.fg_stack =~= old(self)@.fg_stack.drop_last());
            } else {
                assert(self@.fg_stack =~= old(self)@.fg_stack);
            }
            assert(self@ =~= spec_pop_fg(old(self)@, old(output)@).0);
        }
    }

    /// Save the active background style, install `new` and emit it.
    pub fn push_bg_mod(&mut self, new: &str, output: &mut String)
        ensures
            final(self)@ == spec_push_bg(old(self)@, new@, old(output)@).0,
            final(output)@ == spec_push_bg(old(self)@, new@, old(output)@).1,
    {
        self.bg_mod_stack.push(self.bg_mod.clone());
        self.bg_mod = new.to_owned();
        output.append(new);
        proof {
            assert(self@.bg_stack =~= old(self)@.bg_stack.push(old(self)@.bg));
            assert(self@ =~= spec_push_bg(old(self)@, new@, old(output)@).0);
        }
    }

    /// Emit a full style reset, restore the saved background and re-emit both
    /// channels. Popping an empty stack restores the default (empty) style.
    pub fn pop_bg_mod(&mut self, output: &mut String)
        ensures
            final(self)@ == spec_pop_bg(old(self)@, old(output)@).0,
            final(output)@ == spec_pop_bg(old(self)@, old(output)@).1,
    {
        let r = ansi_reset();
        output.append(r.as_str());
        self.bg_mod = match self.bg_mod_stack.pop() {
            Some(s) => s,
            None => String::new(),
        };
        output.append(self.bg_mod.as_str());
        output.append(self.fg_mod.as_str());
        proof {
            if old(self)@.bg_stack.len() > 0 {
                assert(self@.bg_stack =~= old(self)@.bg_stack.drop_last());
            } else {
                assert(self@.bg_stack =~= old(self)@.bg_stack);
            }
            assert(self@ =~= spec_pop_bg(old(self)@, old(output)@).0);
        }
    }

    /// Open an indentation scope: grow the indentation by
    /// `indentation_addition` columns; a positive `indented` records that many
    /// columns of the current line (beyond the old indentation) as already
    /// visually filled, so the next padding step skips them.
    pub fn push_indent(&mut self, indentation_addition: usize, indented: usize)
        ensures
            final(self)@ == spec_push_indent(
                old(self)@,
                indentation_addition as nat,
                indented as nat,
            ),
    {
        self.ii_stack.push((self.indentation, self.indented));
        if indented > 0 {
            self.indented = usize_sat_add(indented, self.indentation);
        }
        self.indentation = usize_sat_add(self.indentation, indentation_addition);
        proof {
            assert(self@.ii_stack =~= old(self)@.ii_stack.push((
                old(self)@.indentation,
                old(self)@.indented,
            )));
            assert(self@ =~= spec_push_indent(
                old(self)@,
                indentation_addition as nat,
                indented as nat,
            ));
        }
    }

    /// Close an indentation scope, restoring the exact saved pair. Popping
    /// with no matching push is a programming error, excluded by contract.
    pub fn pop_indent(&mut self)
        requires
            old(self)@.ii_stack.len() > 0,
        ensures
            final(self)@ == spec_pop_indent(old(self)@),
    {
        let popped: (usize, usize) = match self.ii_stack.pop() {
            Some(p) => p,
            None => (0, 0),
        };
        self.indentation = popped.0;
        self.indented = popped.1;
        proof {
            assert(self@.ii_stack =~= old(self)@.ii_stack.drop_last());
            assert(self@ =~= spec_pop_indent(old(self)@));
        }
    }
}

} // verus!
