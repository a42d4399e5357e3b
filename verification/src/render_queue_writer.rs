//! The render queue writer: expands breakable entries, applies the peephole
//! corrections after every push, and serializes the final token sequence to
//! text.

use crate::intermediary::Intermediary;
use crate::intermediary::clear_garbage_spec;
use crate::intermediary::correct;
use crate::intermediary::shapes_of;
use crate::intermediary::BlanklineReason;
use crate::line_tokens::token_text;
use crate::line_tokens::ConcreteLineToken;
use crate::line_tokens::TokenShape;
use crate::render_targets::convert_shape;
use crate::render_targets::AbstractLineToken;
use crate::render_targets::BreakableEntry;
use crate::render_targets::ConvertType;
use crate::render_targets::FormattingContext;
use vstd::prelude::*;

verus! {

broadcast use vstd::std_specs::vec::group_vec_axioms;

/// The column budget: a breakable entry whose measured single-line width
/// exceeds it is expanded to its multi-line form.
pub const MAX_LINE_LENGTH: usize = 120;

/// An item of the render queue: a concrete token, or a breakable entry still
/// to be expanded.
pub enum ConcreteLineTokenAndTargets {
    ConcreteLineToken(ConcreteLineToken),
    BreakableEntry(BreakableEntry),
}

/// When a breakable entry expands to its multi-line form: it does not fit
/// the column budget or the producer forced it open, and the enclosing
/// context is not a string interpolation (where a break would change the
/// string's runtime value).
pub open spec fn expands_multiline(be: BreakableEntry) -> bool {
    (be.single_line_string_length > MAX_LINE_LENGTH || be.forced_multiline)
        && be.formatting_context != FormattingContext::StringInterpolation
}

/// The buffer after one queue item has been fed in and the peephole rules
/// have run once.
pub open spec fn render_step(buf: Seq<TokenShape>, item: ConcreteLineTokenAndTargets) -> Seq<
    TokenShape,
>
    decreases item,
{
    match item {
        ConcreteLineTokenAndTargets::ConcreteLineToken(t) => correct(buf.push(t@)),
        ConcreteLineTokenAndTargets::BreakableEntry(be) => correct(render_breakable(buf, be)),
    }
}

/// The buffer after a whole render queue has been fed in.
pub open spec fn render_queue(buf: Seq<TokenShape>, items: Seq<ConcreteLineTokenAndTargets>) -> Seq<
    TokenShape,
>
    decreases items,
{
    if items.len() == 0 {
        buf
    } else {
        render_queue(render_step(buf, items[0]), items.subrange(1, items.len() as int))
    }
}

/// The buffer after a breakable entry has been expanded: the multi-line form
/// when it must break, otherwise the single-line form followed by the
/// stripping of expansion artifacts.
pub open spec fn render_breakable(buf: Seq<TokenShape>, be: BreakableEntry) -> Seq<TokenShape>
    decreases be,
{
    if expands_multiline(be) {
        render_abstract_seq(buf, be.multi_line_tokens@, ConvertType::MultiLine)
    } else {
        clear_garbage_spec(
            render_abstract_seq(buf, be.single_line_tokens@, ConvertType::SingleLine),
        )
    }
}

/// The buffer after one abstract token has been fed in under the chosen
/// conversion and the peephole rules have run once.  A nested breakable
/// entry chooses its own form, independently of the enclosing one.
pub open spec fn render_abstract_step(
    buf: Seq<TokenShape>,
    t: AbstractLineToken,
    ct: ConvertType,
) -> Seq<TokenShape>
    decreases t,
{
    match t {
        AbstractLineToken::BreakableEntry(be) => correct(render_breakable(buf, be)),
        _ => correct(buf.push(convert_shape(t, ct))),
    }
}

/// The buffer after a breakable alternative's token sequence has been fed in.
pub open spec fn render_abstract_seq(
    buf: Seq<TokenShape>,
    toks: Seq<AbstractLineToken>,
    ct: ConvertType,
) -> Seq<TokenShape>
    decreases toks,
{
    if toks.len() == 0 {
        buf
    } else {
        render_abstract_seq(
            render_abstract_step(buf, toks[0], ct),
            toks.subrange(1, toks.len() as int),
            ct,
        )
    }
}

/// The final strip: a token sequence ending in two hard newlines loses one,
/// so that the output ends in exactly one newline.
pub open spec fn strip_final(s: Seq<TokenShape>) -> Seq<TokenShape> {
    let n = s.len() as int;
    if n >= 2 && s[n - 1] is HardNewLine && s[n - 2] is HardNewLine {
        s.drop_last()
    } else {
        s
    }
}

/// The text a token sequence serializes to.
pub open spec fn text_of(s: Seq<TokenShape>) -> Seq<char>
    decreases s.len(),
{
    if s.len() == 0 {
        Seq::<char>::empty()
    } else {
        text_of(s.drop_last()) + token_text(s.last())
    }
}

/// The text a whole render queue formats to.
pub open spec fn rendered_text(items: Seq<ConcreteLineTokenAndTargets>) -> Seq<char> {
    text_of(strip_final(render_queue(Seq::<TokenShape>::empty(), items)))
}

/// Consumes a render queue and produces the formatted text.
pub struct RenderQueueWriter {
    tokens: Vec<ConcreteLineTokenAndTargets>,
}

impl RenderQueueWriter {
    /// The render queue this writer will serialize.
    pub closed spec fn queue(&self) -> Seq<ConcreteLineTokenAndTargets> {
        self.tokens@
    }

    /// A writer over the given render queue.
    pub fn new(tokens: Vec<ConcreteLineTokenAndTargets>) -> (r: RenderQueueWriter)
        ensures
            r.queue() == tokens@,
    {
        RenderQueueWriter { tokens }
    }

    /// Consume the queue and produce the formatted text.
    pub fn write(self) -> (out: String)
        ensures
            out@ == rendered_text(self.queue()),
    {
        let mut accum = Intermediary::new();
        Self::render_as(&mut accum, &self.tokens);
        Self::write_final_tokens(accum.into_tokens())
    }

    /// Feed every queue item into the buffer, running the peephole rules
    /// after each one.
    pub fn render_as(accum: &mut Intermediary, tokens: &Vec<ConcreteLineTokenAndTargets>)
        ensures
            final(accum)@ == render_queue(old(accum)@, tokens@),
    {
        let ghost orig = accum@;
        proof {
            assert(tokens@.skip(0) =~= tokens@);
        }
        let mut i: usize = 0;
        while i < tokens.len()
            invariant
                i <= tokens@.len(),
                render_queue(orig, tokens@) == render_queue(accum@, tokens@.skip(i as int)),
            decreases tokens@.len() - i,
        {
            let ghost prev = accum@;
            match &tokens[i] {
                ConcreteLineTokenAndTargets::ConcreteLineToken(t) => {
                    accum.push(t.duplicate());
                    Self::apply_corrections(accum);
                },
                ConcreteLineTokenAndTargets::BreakableEntry(be) => {
                    Self::format_breakable_entry(accum, be);
                    Self::apply_corrections(accum);
                },
            }
            proof {
                let rest = tokens@.skip(i as int);
                assert(accum@ == render_step(prev, tokens@[i as int]));
                assert(rest[0] == tokens@[i as int]);
                assert(rest.subrange(1, rest.len() as int) =~= tokens@.skip(i as int + 1));
            }
            i = i + 1;
        }
        proof {
            assert(tokens@.skip(tokens@.len() as int) =~= Seq::<
                ConcreteLineTokenAndTargets,
            >::empty());
        }
    }

    /// Expand a breakable entry: the multi-line form when it overflows the
    /// budget or was forced open, unless the context is a string
    /// interpolation; otherwise the single-line form, followed by the
    /// stripping of expansion artifacts.
    pub fn format_breakable_entry(accum: &mut Intermediary, be: &BreakableEntry)
        ensures
            final(accum)@ == render_breakable(old(accum)@, *be),
        decreases be,
    {
        let length = be.single_line_string_length();
        if (length > MAX_LINE_LENGTH || be.is_multiline()) && be.entry_formatting_context()
            != FormattingContext::StringInterpolation {
            Self::render_abstract(accum, &be.multi_line_tokens, ConvertType::MultiLine);
        } else {
            Self::render_abstract(accum, &be.single_line_tokens, ConvertType::SingleLine);
            accum.clear_breakable_garbage();
        }
    }

    /// Feed a breakable alternative's tokens into the buffer under the
    /// chosen conversion, running the peephole rules after each one.
    fn render_abstract(accum: &mut Intermediary, tokens: &Vec<AbstractLineToken>, ct: ConvertType)
        ensures
            final(accum)@ == render_abstract_seq(old(accum)@, tokens@, ct),
        decreases tokens,
    {
        let ghost orig = accum@;
        proof {
            assert(tokens@.skip(0) =~= tokens@);
        }
        let mut i: usize = 0;
        while i < tokens.len()
            invariant
                i <= tokens@.len(),
                render_abstract_seq(orig, tokens@, ct) == render_abstract_seq(
                    accum@,
                    tokens@.skip(i as int),
                    ct,
                ),
            decreases tokens@.len() - i,
        {
            let ghost prev = accum@;
            match &tokens[i] {
                AbstractLineToken::BreakableEntry(be) => {
                    proof {
                        assert(decreases_to!(tokens => tokens@));
                        assert(decreases_to!(tokens@ => tokens@[i as int]));
                        assert(decreases_to!(tokens@[i as int] => *be));
                    }
                    Self::format_breakable_entry(accum, be);
                    Self::apply_corrections(accum);
                },
                t => {
                    accum.push(t.convert(ct));
                    Self::apply_corrections(accum);
                },
            }
            proof {
                let rest = tokens@.skip(i as int);
                assert(accum@ == render_abstract_step(prev, tokens@[i as int], ct));
                assert(rest[0] == tokens@[i as int]);
                assert(rest.subrange(1, rest.len() as int) =~= tokens@.skip(i as int + 1));
            }
            i = i + 1;
        }
        proof {
            assert(tokens@.skip(tokens@.len() as int) =~= Seq::<AbstractLineToken>::empty());
        }
    }

    /// Evaluate the peephole rules against the buffer's tail window, in
    /// their fixed order.
    #[verifier::rlimit(100)]
    fn apply_corrections(accum: &mut Intermediary)
        ensures
            final(accum)@ == correct(old(accum)@),
    {
        let n = accum.len();
        if n >= 4 && matches!(accum.token_at(n - 4), ConcreteLineToken::HeredocClose { .. })
            && matches!(accum.token_at(n - 3), ConcreteLineToken::HardNewLine)
            && matches!(accum.token_at(n - 2), ConcreteLineToken::Indent { .. })
            && matches!(accum.token_at(n - 1), ConcreteLineToken::HardNewLine) {
            accum.pop_heredoc_mistake();
        }
        let n = accum.len();
        if n >= 4 && matches!(accum.token_at(n - 4), ConcreteLineToken::End)
            && matches!(accum.token_at(n - 3), ConcreteLineToken::HardNewLine)
            && matches!(accum.token_at(n - 2), ConcreteLineToken::Indent { .. })
            && accum.token_at(n - 1).is_in_need_of_a_trailing_blankline() {
            accum.insert_trailing_blankline(BlanklineReason::ComesAfterEnd);
        }
        let n = accum.len();
        if n >= 5 && matches!(accum.token_at(n - 5), ConcreteLineToken::End)
            && matches!(accum.token_at(n - 4), ConcreteLineToken::AfterCallChain)
            && matches!(accum.token_at(n - 3), ConcreteLineToken::HardNewLine)
            && matches!(accum.token_at(n - 2), ConcreteLineToken::Indent { .. })
            && !matches!(accum.token_at(n - 1), ConcreteLineToken::DefKeyword)
            && accum.token_at(n - 1).is_in_need_of_a_trailing_blankline()
            && !accum.token_at(n - 1).is_method_visibility_modifier() {
            accum.insert_trailing_blankline(BlanklineReason::ComesAfterEnd);
        }
        let n = accum.len();
        if n >= 5 && matches!(accum.token_at(n - 5), ConcreteLineToken::HeredocClose { .. })
            && matches!(accum.token_at(n - 4), ConcreteLineToken::HardNewLine)
            && matches!(accum.token_at(n - 3), ConcreteLineToken::Indent { .. })
            && matches!(accum.token_at(n - 2), ConcreteLineToken::Indent { .. })
            && matches!(accum.token_at(n - 1), ConcreteLineToken::Delim { .. }) {
            accum.fix_heredoc_indent_mistake();
        }
        let n = accum.len();
        if n >= 7 && matches!(accum.token_at(n - 7), ConcreteLineToken::HeredocClose { .. })
            && matches!(accum.token_at(n - 6), ConcreteLineToken::HardNewLine)
            && matches!(accum.token_at(n - 5), ConcreteLineToken::Indent { .. })
            && matches!(accum.token_at(n - 4), ConcreteLineToken::Delim { .. })
            && matches!(accum.token_at(n - 3), ConcreteLineToken::Comma)
            && matches!(accum.token_at(n - 2), ConcreteLineToken::HardNewLine)
            && matches!(accum.token_at(n - 1), ConcreteLineToken::HardNewLine) {
            accum.fix_heredoc_arg_newline_mistake();
        }
    }

    /// Strip a duplicate trailing newline, then serialize every token to
    /// text.
    pub fn write_final_tokens(tokens: Vec<ConcreteLineToken>) -> (out: String)
        ensures
            out@ == text_of(strip_final(shapes_of(tokens@))),
    {
        let mut tokens = tokens;
        let ghost orig = tokens@;
        let len = tokens.len();
        if len >= 2 {
            let delete = matches!(tokens[len - 2], ConcreteLineToken::HardNewLine) && matches!(
                tokens[len - 1],
                ConcreteLineToken::HardNewLine,
            );
            if delete {
                let _ = tokens.pop();
                proof {
                    assert(shapes_of(orig.drop_last()) =~= shapes_of(orig).drop_last());
                }
            }
        }
        proof {
            assert(shapes_of(tokens@) =~= strip_final(shapes_of(orig)));
        }
        let ghost stripped = shapes_of(tokens@);
        let mut out = String::new();
        let mut i: usize = 0;
        while i < tokens.len()
            invariant
                i <= tokens@.len(),
                stripped == shapes_of(tokens@),
                out@ == text_of(stripped.subrange(0, i as int)),
            decreases tokens@.len() - i,
        {
            let s = tokens[i].into_ruby();
            out.append(s.as_str());
            proof {
                let sub = stripped.subrange(0, i as int + 1);
                assert(sub.drop_last() =~= stripped.subrange(0, i as int));
                assert(sub.last() == stripped[i as int]);
            }
            i = i + 1;
        }
        proof {
            assert(stripped.subrange(0, stripped.len() as int) =~= stripped);
        }
        out
    }
}

} // verus!
