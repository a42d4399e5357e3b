//! The intermediary buffer: an append-mostly sequence of concrete line
//! tokens with targeted rewrites over a bounded tail window.  The five
//! peephole rules the writer applies after every push are modelled here as
//! spec functions over the buffer's view.

use crate::line_tokens::ConcreteLineToken;
use crate::line_tokens::TokenShape;
use crate::line_tokens::is_breakable_garbage;
use crate::line_tokens::is_visibility_modifier;
use crate::line_tokens::needs_trailing_blankline;
use vstd::prelude::*;

verus! {

/// Why a blank line was inserted.  Observability only: it plays no role in
/// layout beyond suppressing a duplicate insertion.
#[derive(PartialEq, Eq, Structural, Clone, Copy, Debug)]
pub enum BlanklineReason {
    ComesAfterEnd,
}

/// The view of a token buffer: each token abstracted to its shape.
pub open spec fn shapes_of(s: Seq<ConcreteLineToken>) -> Seq<TokenShape> {
    s.map_values(|t: ConcreteLineToken| t@)
}

/// Heredoc tail de-duplication: the producer emits an extra newline that
/// duplicates the one implicit after a heredoc close.
pub open spec fn r1_matches(buf: Seq<TokenShape>) -> bool {
    let n = buf.len() as int;
    &&& n >= 4
    &&& buf[n - 4] is HeredocClose
    &&& buf[n - 3] is HardNewLine
    &&& buf[n - 2] is Indent
    &&& buf[n - 1] is HardNewLine
}

/// Blank line after `end`: the token just pushed opens a construct that
/// wants a blank line after the preceding `end`.
pub open spec fn r2_matches(buf: Seq<TokenShape>) -> bool {
    let n = buf.len() as int;
    &&& n >= 4
    &&& buf[n - 4] is End
    &&& buf[n - 3] is HardNewLine
    &&& buf[n - 2] is Indent
    &&& needs_trailing_blankline(buf[n - 1])
}

/// Blank line after `end` through a call chain, except for `def` headers and
/// visibility modifiers.
pub open spec fn r3_matches(buf: Seq<TokenShape>) -> bool {
    let n = buf.len() as int;
    &&& n >= 5
    &&& buf[n - 5] is End
    &&& buf[n - 4] is AfterCallChain
    &&& buf[n - 3] is HardNewLine
    &&& buf[n - 2] is Indent
    &&& !(buf[n - 1] is DefKeyword)
    &&& needs_trailing_blankline(buf[n - 1])
    &&& !is_visibility_modifier(buf[n - 1])
}

/// Heredoc indent correction: the producer emits two consecutive indents
/// when a heredoc appears as an argument to a bracketed call.
pub open spec fn r4_matches(buf: Seq<TokenShape>) -> bool {
    let n = buf.len() as int;
    &&& n >= 5
    &&& buf[n - 5] is HeredocClose
    &&& buf[n - 4] is HardNewLine
    &&& buf[n - 3] is Indent
    &&& buf[n - 2] is Indent
    &&& buf[n - 1] is Delim
}

/// Heredoc argument newline correction: a duplicate trailing newline after a
/// heredoc argument's closing delimiter.
pub open spec fn r5_matches(buf: Seq<TokenShape>) -> bool {
    let n = buf.len() as int;
    &&& n >= 7
    &&& buf[n - 7] is HeredocClose
    &&& buf[n - 6] is HardNewLine
    &&& buf[n - 5] is Indent
    &&& buf[n - 4] is Delim
    &&& buf[n - 3] is Comma
    &&& buf[n - 2] is HardNewLine
    &&& buf[n - 1] is HardNewLine
}

/// A blank line spliced in immediately before the indent that precedes the
/// last token.
pub open spec fn insert_blank(buf: Seq<TokenShape>) -> Seq<TokenShape> {
    buf.insert(buf.len() - 2, TokenShape::HardNewLine)
}

/// One pass of the peephole rules, in their fixed order.  Each rule is
/// keyed on a suffix of the buffer and rewrites only that window.
pub open spec fn correct(buf: Seq<TokenShape>) -> Seq<TokenShape> {
    let b1 = if r1_matches(buf) {
        buf.drop_last()
    } else {
        buf
    };
    let b2 = if r2_matches(b1) {
        insert_blank(b1)
    } else {
        b1
    };
    let b3 = if r3_matches(b2) {
        insert_blank(b2)
    } else {
        b2
    };
    let b4 = if r4_matches(b3) {
        b3.remove(b3.len() - 2)
    } else {
        b3
    };
    if r5_matches(b4) {
        b4.drop_last()
    } else {
        b4
    }
}

/// What stripping single-line expansion artifacts leaves: tokens at the
/// second-to-last position are removed while they are garbage.
pub open spec fn clear_garbage_spec(buf: Seq<TokenShape>) -> Seq<TokenShape>
    decreases buf.len(),
{
    if buf.len() >= 2 && is_breakable_garbage(buf[buf.len() - 2]) {
        clear_garbage_spec(buf.remove(buf.len() - 2))
    } else {
        buf
    }
}

/// An append-mostly output buffer of concrete line tokens, supporting the
/// targeted rewrites of the peephole rules.
pub struct Intermediary {
    tokens: Vec<ConcreteLineToken>,
    /// Why the most recent blank line was inserted, if any.
    last_blankline_reason: Option<BlanklineReason>,
}

impl View for Intermediary {
    type V = Seq<TokenShape>;

    closed spec fn view(&self) -> Seq<TokenShape> {
        shapes_of(self.tokens@)
    }
}

impl Intermediary {
    /// An empty buffer.
    pub fn new() -> (r: Intermediary)
        ensures
            r@ == Seq::<TokenShape>::empty(),
    {
        let r = Intermediary { tokens: Vec::new(), last_blankline_reason: None };
        proof {
            assert(r@ =~= Seq::<TokenShape>::empty());
        }
        r
    }

    /// How many tokens the buffer holds.
    pub fn len(&self) -> (r: usize)
        ensures
            r == self@.len(),
    {
        self.tokens.len()
    }

    /// The token at position `i`.
    pub fn token_at(&self, i: usize) -> (r: &ConcreteLineToken)
        requires
            i < self@.len(),
        ensures
            r@ == self@[i as int],
    {
        &self.tokens[i]
    }

    /// Append a token.
    pub fn push(&mut self, tok: ConcreteLineToken)
        ensures
            final(self)@ == old(self)@.push(tok@),
    {
        let ghost prev = self.tokens@;
        self.tokens.push(tok);
        proof {
            assert(shapes_of(prev.push(tok)) =~= shapes_of(prev).push(tok@));
        }
    }

    /// Drop the trailing newline that duplicates the one implicit after a
    /// heredoc close.
    pub fn pop_heredoc_mistake(&mut self)
        requires
            r1_matches(old(self)@),
        ensures
            final(self)@ == old(self)@.drop_last(),
    {
        let ghost prev = self.tokens@;
        let _ = self.tokens.pop();
        proof {
            assert(shapes_of(prev.drop_last()) =~= shapes_of(prev).drop_last());
        }
    }

    /// Splice a blank line in before the indent that precedes the last
    /// token.  A second insertion at the same position is a no-op: the blank
    /// line already present suppresses it.
    pub fn insert_trailing_blankline(&mut self, reason: BlanklineReason)
        requires
            old(self)@.len() >= 3,
            old(self)@[old(self)@.len() - 3] is HardNewLine,
            old(self)@[old(self)@.len() - 2] is Indent,
        ensures
            (old(self)@.len() >= 4 && old(self)@[old(self)@.len() - 4] is HardNewLine)
                ==> final(self)@ == old(self)@,
            !(old(self)@.len() >= 4 && old(self)@[old(self)@.len() - 4] is HardNewLine)
                ==> final(self)@ == insert_blank(old(self)@),
    {
        let n = self.tokens.len();
        if n >= 4 && matches!(self.tokens[n - 4], ConcreteLineToken::HardNewLine) {
            return ;
        }
        let ghost prev = self.tokens@;
        self.tokens.insert(n - 2, ConcreteLineToken::HardNewLine);
        self.last_blankline_reason = Some(reason);
        proof {
            assert(shapes_of(prev.insert(prev.len() - 2, ConcreteLineToken::HardNewLine))
                =~= shapes_of(prev).insert(prev.len() - 2, TokenShape::HardNewLine));
        }
    }

    /// Collapse the two consecutive indents the producer emits when a
    /// heredoc stands as an argument to a bracketed call.
    pub fn fix_heredoc_indent_mistake(&mut self)
        requires
            r4_matches(old(self)@),
        ensures
            final(self)@ == old(self)@.remove(old(self)@.len() - 2),
    {
        let n = self.tokens.len();
        let ghost prev = self.tokens@;
        let _ = self.tokens.remove(n - 2);
        proof {
            assert(shapes_of(prev.remove(prev.len() - 2)) =~= shapes_of(prev).remove(
                prev.len() - 2,
            ));
        }
    }

    /// Remove the duplicate trailing newline after a heredoc argument's
    /// closing delimiter.
    pub fn fix_heredoc_arg_newline_mistake(&mut self)
        requires
            r5_matches(old(self)@),
        ensures
            final(self)@ == old(self)@.drop_last(),
    {
        let ghost prev = self.tokens@;
        let _ = self.tokens.pop();
        proof {
            assert(shapes_of(prev.drop_last()) =~= shapes_of(prev).drop_last());
        }
    }

    /// Strip the artifacts single-line expansion can leave just before the
    /// close delimiter, until the second-to-last token is not garbage.
    pub fn clear_breakable_garbage(&mut self)
        ensures
            final(self)@ == clear_garbage_spec(old(self)@),
    {
        loop
            invariant
                clear_garbage_spec(self@) == clear_garbage_spec(old(self)@),
            decreases self.tokens@.len(),
        {
            let n = self.tokens.len();
            if n < 2 {
                return ;
            }
            if !self.tokens[n - 2].is_single_line_breakable_garbage() {
                return ;
            }
            let ghost prev = self.tokens@;
            let _ = self.tokens.remove(n - 2);
            proof {
                assert(shapes_of(prev.remove(prev.len() - 2)) =~= shapes_of(prev).remove(
                    prev.len() - 2,
                ));
            }
        }
    }

    /// Surrender the buffer's tokens.
    pub fn into_tokens(self) -> (r: Vec<ConcreteLineToken>)
        ensures
            shapes_of(r@) == self@,
    {
        self.tokens
    }
}

} // verus!
