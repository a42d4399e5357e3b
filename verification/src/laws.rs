//! Properties of the layout engine, stated and proved over the buffer model:
//! the peephole rules are mutually exclusive and converge in one step, the
//! corrections preserve the newline–indent discipline, a correction never
//! places two blank lines next to each other, the final strip leaves
//! exactly one trailing newline, and the engine is idempotent — the token
//! sequence a run serializes is a fixed point of the render loop, so a
//! second run over it reproduces the same bytes.

use crate::intermediary::clear_garbage_spec;
use crate::intermediary::correct;
use crate::intermediary::r1_matches;
use crate::intermediary::r2_matches;
use crate::intermediary::r3_matches;
use crate::intermediary::r4_matches;
use crate::intermediary::r5_matches;
use crate::line_tokens::is_breakable_garbage;
use crate::line_tokens::TokenShape;
use crate::render_queue_writer::expands_multiline;
use crate::render_queue_writer::render_abstract_seq;
use crate::render_queue_writer::render_abstract_step;
use crate::render_queue_writer::render_breakable;
use crate::render_queue_writer::render_queue;
use crate::render_queue_writer::render_step;
use crate::render_queue_writer::strip_final;
use crate::render_queue_writer::text_of;
use crate::render_queue_writer::ConcreteLineTokenAndTargets;
use crate::render_targets::convert_shape;
use crate::render_targets::AbstractLineToken;
use crate::render_targets::BreakableEntry;
use crate::render_targets::ConvertType;
use vstd::prelude::*;

verus! {

/// Every hard newline that is not the last token is followed by an indent,
/// or by another hard newline when the line it ends is left blank.
pub open spec fn newline_indent_paired(buf: Seq<TokenShape>) -> bool {
    forall|i: int|
        0 <= i && i + 1 < buf.len() && (#[trigger] buf[i]) is HardNewLine ==> (buf[i
            + 1] is Indent || buf[i + 1] is HardNewLine)
}

/// No three consecutive hard newlines: two blank lines never stand next to
/// each other.
pub open spec fn no_adjacent_blanklines(buf: Seq<TokenShape>) -> bool {
    forall|i: int|
        0 <= i && i + 2 < buf.len() ==> !((#[trigger] buf[i]) is HardNewLine && buf[i
            + 1] is HardNewLine && buf[i + 2] is HardNewLine)
}

/// At most one peephole rule applies to any buffer: the five suffix
/// patterns are pairwise incompatible.
pub proof fn lemma_peephole_rules_exclusive(buf: Seq<TokenShape>)
    ensures
        r1_matches(buf) ==> !r2_matches(buf) && !r3_matches(buf) && !r4_matches(buf) && !r5_matches(
            buf,
        ),
        r2_matches(buf) ==> !r3_matches(buf) && !r4_matches(buf) && !r5_matches(buf),
        r3_matches(buf) ==> !r4_matches(buf) && !r5_matches(buf),
        r4_matches(buf) ==> !r5_matches(buf),
{
}

/// One pass of the peephole rules reaches a fixed point: no rule matches a
/// corrected buffer, so iterating rule evaluation terminates after a single
/// step.
pub proof fn lemma_peephole_convergence(buf: Seq<TokenShape>)
    ensures
        !r1_matches(correct(buf)),
        !r2_matches(correct(buf)),
        !r3_matches(correct(buf)),
        !r4_matches(correct(buf)),
        !r5_matches(correct(buf)),
        correct(correct(buf)) == correct(buf),
{
    let c = correct(buf);
    if r1_matches(buf) {
        assert(c =~= buf.drop_last());
    } else if r2_matches(buf) {
        let n = buf.len() as int;
        assert(c[c.len() - 1] == buf[n - 1]);
        assert(c[c.len() - 2] == buf[n - 2]);
        assert(c[c.len() - 3] == TokenShape::HardNewLine);
        assert(c[c.len() - 4] == buf[n - 3]);
        assert(c[c.len() - 5] == buf[n - 4]);
    } else if r3_matches(buf) {
        let n = buf.len() as int;
        assert(c[c.len() - 1] == buf[n - 1]);
        assert(c[c.len() - 2] == buf[n - 2]);
        assert(c[c.len() - 3] == TokenShape::HardNewLine);
        assert(c[c.len() - 4] == buf[n - 3]);
        assert(c[c.len() - 5] == buf[n - 4]);
    } else if r4_matches(buf) {
        let n = buf.len() as int;
        assert(c.len() == n - 1);
        assert(c[c.len() - 1] == buf[n - 1]);
        assert(c[c.len() - 2] == buf[n - 3]);
        assert(c[c.len() - 3] == buf[n - 4]);
        assert(c[c.len() - 4] == buf[n - 5]);
    } else if r5_matches(buf) {
        assert(c =~= buf.drop_last());
    } else {
        assert(c == buf);
    }
}

/// The peephole corrections preserve the newline–indent discipline: when
/// every newline of the buffer is followed by an indent or another newline,
/// the same holds after a correction pass.
pub proof fn lemma_corrections_preserve_newline_pairing(buf: Seq<TokenShape>)
    requires
        newline_indent_paired(buf),
    ensures
        newline_indent_paired(correct(buf)),
{
    let c = correct(buf);
    let n = buf.len() as int;
    if r1_matches(buf) || r5_matches(buf) {
        assert(c =~= buf.drop_last());
        assert forall|i: int|
            0 <= i && i + 1 < c.len() && (#[trigger] c[i]) is HardNewLine implies (c[i + 1] is Indent || c[i
            + 1] is HardNewLine) by {
            assert(c[i] == buf[i]);
            assert(c[i + 1] == buf[i + 1]);
        }
    } else if r2_matches(buf) || r3_matches(buf) {
        assert forall|i: int|
            0 <= i && i + 1 < c.len() && (#[trigger] c[i]) is HardNewLine implies (c[i + 1] is Indent || c[i
            + 1] is HardNewLine) by {
            if i + 1 < n - 2 {
                assert(c[i] == buf[i]);
                assert(c[i + 1] == buf[i + 1]);
            } else if i + 1 == n - 2 {
                assert(c[i] == buf[i]);
                assert(c[i + 1] == TokenShape::HardNewLine);
            } else if i + 1 == n - 1 {
                assert(c[i] == TokenShape::HardNewLine);
                assert(c[i + 1] == buf[n - 2]);
            } else {
                assert(c[i] == buf[i - 1]);
                assert(c[i + 1] == buf[i]);
            }
        }
    } else if r4_matches(buf) {
        assert forall|i: int|
            0 <= i && i + 1 < c.len() && (#[trigger] c[i]) is HardNewLine implies (c[i + 1] is Indent || c[i
            + 1] is HardNewLine) by {
            if i + 1 < n - 2 {
                assert(c[i] == buf[i]);
                assert(c[i + 1] == buf[i + 1]);
            } else if i + 1 == n - 2 {
                assert(c[i] == buf[i]);
                assert(c[i + 1] == buf[i + 2]);
            } else {
                assert(c[i] == buf[i + 1]);
                assert(c[i + 1] == buf[i + 2]);
            }
        }
    } else {
        assert(c == buf);
    }
}

/// A correction pass never places two blank lines next to each other: the
/// blank line a rule inserts after `end` always has the `end` on one side
/// and the indented header on the other.
pub proof fn lemma_corrections_no_adjacent_blanklines(buf: Seq<TokenShape>)
    requires
        no_adjacent_blanklines(buf),
    ensures
        no_adjacent_blanklines(correct(buf)),
{
    let c = correct(buf);
    let n = buf.len() as int;
    if r1_matches(buf) || r5_matches(buf) {
        assert(c =~= buf.drop_last());
        assert forall|i: int| 0 <= i && i + 2 < c.len() implies !((#[trigger] c[i]) is HardNewLine && c[i
            + 1] is HardNewLine && c[i + 2] is HardNewLine) by {
            assert(c[i] == buf[i]);
            assert(c[i + 1] == buf[i + 1]);
            assert(c[i + 2] == buf[i + 2]);
        }
    } else if r2_matches(buf) || r3_matches(buf) {
        assert forall|i: int| 0 <= i && i + 2 < c.len() implies !((#[trigger] c[i]) is HardNewLine && c[i
            + 1] is HardNewLine && c[i + 2] is HardNewLine) by {
            if i + 2 < n - 2 {
                assert(c[i] == buf[i]);
                assert(c[i + 1] == buf[i + 1]);
                assert(c[i + 2] == buf[i + 2]);
            } else if i + 2 == n - 2 {
                assert(c[i] == buf[i]);
                assert(c[i + 1] == buf[i + 1]);
                assert(c[i + 2] == TokenShape::HardNewLine);
                assert(buf[i + 1] == buf[n - 3]);
                assert(buf[i] == buf[n - 4]);
            } else if i + 2 == n - 1 {
                assert(c[i] == buf[i]);
                assert(c[i + 1] == TokenShape::HardNewLine);
                assert(c[i + 2] == buf[n - 2]);
            } else if i + 2 == n {
                assert(c[i] == TokenShape::HardNewLine);
                assert(c[i + 1] == buf[n - 2]);
                assert(c[i + 2] == buf[n - 1]);
            } else {
                assert(c[i] == buf[i - 1]);
                assert(c[i + 1] == buf[i]);
                assert(c[i + 2] == buf[i + 1]);
            }
        }
    } else if r4_matches(buf) {
        assert forall|i: int| 0 <= i && i + 2 < c.len() implies !((#[trigger] c[i]) is HardNewLine && c[i
            + 1] is HardNewLine && c[i + 2] is HardNewLine) by {
            if i + 2 < n - 2 {
                assert(c[i] == buf[i]);
                assert(c[i + 1] == buf[i + 1]);
                assert(c[i + 2] == buf[i + 2]);
            } else if i + 2 == n - 2 {
                assert(c[i] == buf[i]);
                assert(c[i + 1] == buf[i + 1]);
                assert(c[i + 2] == buf[i + 3]);
            } else {
                assert(c[i + 2] == buf[i + 3]);
                assert(buf[i + 3] == buf[n - 1]);
            }
        }
    } else {
        assert(c == buf);
    }
}

/// The final strip leaves exactly one trailing newline: a buffer that does
/// not end in three newlines, once stripped, ends in at most one, still ends
/// in a newline if it did before, and stripping again changes nothing.
pub proof fn lemma_single_trailing_newline(s: Seq<TokenShape>)
    requires
        !(s.len() >= 3 && s[s.len() - 1] is HardNewLine && s[s.len() - 2] is HardNewLine && s[s.len()
            - 3] is HardNewLine),
    ensures
        !(strip_final(s).len() >= 2 && strip_final(s)[strip_final(s).len() - 1] is HardNewLine
            && strip_final(s)[strip_final(s).len() - 2] is HardNewLine),
        s.len() >= 1 && s[s.len() - 1] is HardNewLine ==> strip_final(s)[strip_final(s).len()
            - 1] is HardNewLine,
        strip_final(strip_final(s)) == strip_final(s),
{
}


/// No peephole rule matches the buffer.
pub open spec fn rules_quiet(s: Seq<TokenShape>) -> bool {
    &&& !r1_matches(s)
    &&& !r2_matches(s)
    &&& !r3_matches(s)
    &&& !r4_matches(s)
    &&& !r5_matches(s)
}

/// Every prefix of the buffer, the whole buffer included, is rule-quiet.
pub open spec fn prefix_stable(s: Seq<TokenShape>) -> bool {
    forall|k: int| 0 <= k <= s.len() ==> rules_quiet(#[trigger] s.subrange(0, k))
}

/// Every proper prefix of the buffer is rule-quiet; the buffer itself may
/// still match a rule.
pub open spec fn proper_prefixes_stable(s: Seq<TokenShape>) -> bool {
    forall|k: int| 0 <= k < s.len() ==> rules_quiet(#[trigger] s.subrange(0, k))
}

/// A rule-quiet buffer is a fixed point of the correction pass.
pub proof fn lemma_quiet_fixed_point(s: Seq<TokenShape>)
    requires
        rules_quiet(s),
    ensures
        correct(s) == s,
{
}

/// One correction pass restores full stability: a buffer whose proper
/// prefixes are all rule-quiet is, after the pass, rule-quiet together with
/// every one of its prefixes.
pub proof fn lemma_correct_restores_stability(s: Seq<TokenShape>)
    requires
        proper_prefixes_stable(s),
    ensures
        prefix_stable(correct(s)),
{
    let c = correct(s);
    let n = s.len() as int;
    if rules_quiet(s) {
        assert(c == s);
        assert forall|k: int| 0 <= k <= c.len() implies rules_quiet(#[trigger] c.subrange(0, k)) by {
            if k == n {
                assert(c.subrange(0, k) =~= s);
            }
        }
    } else if r1_matches(s) || r5_matches(s) {
        assert(c =~= s.subrange(0, n - 1));
        assert forall|k: int| 0 <= k <= c.len() implies rules_quiet(#[trigger] c.subrange(0, k)) by {
            assert(c.subrange(0, k) =~= s.subrange(0, k));
        }
    } else if r2_matches(s) || r3_matches(s) {
        assert forall|k: int| 0 <= k <= c.len() implies rules_quiet(#[trigger] c.subrange(0, k)) by {
            let p = c.subrange(0, k);
            if k <= n - 2 {
                assert(p =~= s.subrange(0, k));
            } else if k == n - 1 {
                assert(p =~= s.subrange(0, n - 2).push(TokenShape::HardNewLine));
                assert(p[k - 1] == TokenShape::HardNewLine);
                assert(p[k - 2] == s[n - 3]);
                assert(p[k - 3] == s[n - 4]);
                if k >= 4 {
                    assert(p[k - 4] == s[n - 5]);
                }
            } else if k == n {
                assert(p[k - 1] == s[n - 2]);
            } else {
                assert(p =~= c);
                assert(c[k - 1] == s[n - 1]);
                assert(c[k - 2] == s[n - 2]);
                assert(c[k - 3] == TokenShape::HardNewLine);
                assert(c[k - 4] == s[n - 3]);
                assert(c[k - 5] == s[n - 4]);
                if k >= 6 {
                    assert(c[k - 6] == s[n - 5]);
                }
            }
        }
    } else {
        assert(r4_matches(s));
        assert forall|k: int| 0 <= k <= c.len() implies rules_quiet(#[trigger] c.subrange(0, k)) by {
            let p = c.subrange(0, k);
            if k <= n - 2 {
                assert(p =~= s.subrange(0, k));
            } else {
                assert(p =~= c);
                assert(c[k - 1] == s[n - 1]);
                assert(c[k - 2] == s[n - 3]);
                assert(c[k - 3] == s[n - 4]);
                assert(c[k - 4] == s[n - 5]);
            }
        }
    }
}


/// Appending a token to a fully stable buffer leaves every proper prefix
/// rule-quiet.
pub proof fn lemma_push_keeps_proper_prefixes(s: Seq<TokenShape>, t: TokenShape)
    requires
        prefix_stable(s),
    ensures
        proper_prefixes_stable(s.push(t)),
{
    assert forall|k: int| 0 <= k < s.push(t).len() implies rules_quiet(
        #[trigger] s.push(t).subrange(0, k),
    ) by {
        assert(s.push(t).subrange(0, k) =~= s.subrange(0, k));
    }
}

/// Stripping single-line expansion artifacts removes tokens only next to
/// the buffer's end, so every proper prefix stays rule-quiet.
pub proof fn lemma_clear_garbage_keeps_proper_prefixes(s: Seq<TokenShape>)
    requires
        proper_prefixes_stable(s),
    ensures
        proper_prefixes_stable(clear_garbage_spec(s)),
    decreases s.len(),
{
    let n = s.len() as int;
    if n >= 2 && is_breakable_garbage(s[n - 2]) {
        let s1 = s.remove(n - 2);
        assert forall|k: int| 0 <= k < s1.len() implies rules_quiet(
            #[trigger] s1.subrange(0, k),
        ) by {
            assert(s1.subrange(0, k) =~= s.subrange(0, k));
        }
        lemma_clear_garbage_keeps_proper_prefixes(s1);
    }
}

/// The final strip keeps full stability: it only shortens the buffer.
pub proof fn lemma_strip_keeps_stability(s: Seq<TokenShape>)
    requires
        prefix_stable(s),
    ensures
        prefix_stable(strip_final(s)),
{
    let c = strip_final(s);
    assert forall|k: int| 0 <= k <= c.len() implies rules_quiet(#[trigger] c.subrange(0, k)) by {
        assert(c.subrange(0, k) =~= s.subrange(0, k));
    }
}

/// A buffer fed back into the writer, one concrete token at a time: each
/// push is followed by one correction pass, exactly as the render loop runs.
pub open spec fn feed(acc: Seq<TokenShape>, s: Seq<TokenShape>) -> Seq<TokenShape>
    decreases s.len(),
{
    if s.len() == 0 {
        acc
    } else {
        feed(correct(acc.push(s[0])), s.subrange(1, s.len() as int))
    }
}

/// Re-feeding the remainder of a fully stable buffer on top of its own
/// prefix reproduces the buffer: no correction fires a second time.
pub proof fn lemma_feed_prefix(s: Seq<TokenShape>, i: int)
    requires
        prefix_stable(s),
        0 <= i <= s.len(),
    ensures
        feed(s.subrange(0, i), s.subrange(i, s.len() as int)) == s,
    decreases s.len() - i,
{
    let n = s.len() as int;
    let rest = s.subrange(i, n);
    if i == n {
        assert(s.subrange(0, n) =~= s);
    } else {
        assert(rest[0] == s[i]);
        assert(s.subrange(0, i).push(s[i]) =~= s.subrange(0, i + 1));
        lemma_quiet_fixed_point(s.subrange(0, i + 1));
        assert(rest.subrange(1, rest.len() as int) =~= s.subrange(i + 1, n));
        lemma_feed_prefix(s, i + 1);
    }
}

/// A fully stable buffer is a fixed point of the whole feed.
pub proof fn lemma_replay_identity(s: Seq<TokenShape>)
    requires
        prefix_stable(s),
    ensures
        feed(Seq::<TokenShape>::empty(), s) == s,
{
    assert(Seq::<TokenShape>::empty() =~= s.subrange(0, 0));
    assert(s.subrange(0, s.len() as int) =~= s);
    lemma_feed_prefix(s, 0);
}


/// Every buffer the render loop produces is fully stable: each push and
/// each expansion ends in a correction pass, and the pass restores
/// stability.
pub proof fn lemma_render_queue_stable(
    buf: Seq<TokenShape>,
    items: Seq<ConcreteLineTokenAndTargets>,
)
    requires
        prefix_stable(buf),
    ensures
        prefix_stable(render_queue(buf, items)),
    decreases items,
{
    if items.len() > 0 {
        lemma_render_step_stable(buf, items[0]);
        lemma_render_queue_stable(render_step(buf, items[0]), items.subrange(1, items.len() as int));
    }
}

proof fn lemma_render_step_stable(buf: Seq<TokenShape>, item: ConcreteLineTokenAndTargets)
    requires
        prefix_stable(buf),
    ensures
        prefix_stable(render_step(buf, item)),
    decreases item,
{
    match item {
        ConcreteLineTokenAndTargets::ConcreteLineToken(t) => {
            lemma_push_keeps_proper_prefixes(buf, t@);
            lemma_correct_restores_stability(buf.push(t@));
        },
        ConcreteLineTokenAndTargets::BreakableEntry(be) => {
            lemma_render_breakable_almost_stable(buf, be);
            lemma_correct_restores_stability(render_breakable(buf, be));
        },
    }
}

proof fn lemma_render_breakable_almost_stable(buf: Seq<TokenShape>, be: BreakableEntry)
    requires
        prefix_stable(buf),
    ensures
        proper_prefixes_stable(render_breakable(buf, be)),
    decreases be,
{
    if expands_multiline(be) {
        lemma_render_abstract_seq_stable(buf, be.multi_line_tokens@, ConvertType::MultiLine);
    } else {
        lemma_render_abstract_seq_stable(buf, be.single_line_tokens@, ConvertType::SingleLine);
        lemma_clear_garbage_keeps_proper_prefixes(
            render_abstract_seq(buf, be.single_line_tokens@, ConvertType::SingleLine),
        );
    }
}

proof fn lemma_render_abstract_seq_stable(
    buf: Seq<TokenShape>,
    toks: Seq<AbstractLineToken>,
    ct: ConvertType,
)
    requires
        prefix_stable(buf),
    ensures
        prefix_stable(render_abstract_seq(buf, toks, ct)),
    decreases toks,
{
    if toks.len() > 0 {
        lemma_render_abstract_step_stable(buf, toks[0], ct);
        lemma_render_abstract_seq_stable(
            render_abstract_step(buf, toks[0], ct),
            toks.subrange(1, toks.len() as int),
            ct,
        );
    }
}

proof fn lemma_render_abstract_step_stable(
    buf: Seq<TokenShape>,
    t: AbstractLineToken,
    ct: ConvertType,
)
    requires
        prefix_stable(buf),
    ensures
        prefix_stable(render_abstract_step(buf, t, ct)),
    decreases t,
{
    match t {
        AbstractLineToken::BreakableEntry(be) => {
            lemma_render_breakable_almost_stable(buf, be);
            lemma_correct_restores_stability(render_breakable(buf, be));
        },
        _ => {
            lemma_push_keeps_proper_prefixes(buf, convert_shape(t, ct));
            lemma_correct_restores_stability(buf.push(convert_shape(t, ct)));
        },
    }
}

/// The empty buffer is fully stable: no rule matches fewer than four
/// tokens.
pub proof fn lemma_empty_stable()
    ensures
        prefix_stable(Seq::<TokenShape>::empty()),
{
    assert forall|k: int| 0 <= k <= 0 implies rules_quiet(
        #[trigger] Seq::<TokenShape>::empty().subrange(0, k),
    ) by {
        assert(Seq::<TokenShape>::empty().subrange(0, k).len() == 0);
    }
}

/// Idempotence of the layout engine: the token sequence a run serializes is
/// a fixed point.  Feeding it back through the writer, one token at a time
/// with the correction pass after each, reproduces it unchanged.
pub proof fn lemma_format_idempotent(items: Seq<ConcreteLineTokenAndTargets>)
    ensures
        ({
            let out = strip_final(render_queue(Seq::<TokenShape>::empty(), items));
            feed(Seq::<TokenShape>::empty(), out) == out
        }),
{
    lemma_empty_stable();
    lemma_render_queue_stable(Seq::<TokenShape>::empty(), items);
    lemma_strip_keeps_stability(render_queue(Seq::<TokenShape>::empty(), items));
    lemma_replay_identity(strip_final(render_queue(Seq::<TokenShape>::empty(), items)));
}

/// Byte-level idempotence: when the rendered buffer does not end in three
/// newlines, a second run over the serialized tokens emits the same text,
/// byte for byte.
pub proof fn lemma_format_idempotent_text(items: Seq<ConcreteLineTokenAndTargets>)
    requires
        ({
            let r = render_queue(Seq::<TokenShape>::empty(), items);
            !(r.len() >= 3 && r[r.len() - 1] is HardNewLine && r[r.len() - 2] is HardNewLine
                && r[r.len() - 3] is HardNewLine)
        }),
    ensures
        ({
            let out = strip_final(render_queue(Seq::<TokenShape>::empty(), items));
            text_of(strip_final(feed(Seq::<TokenShape>::empty(), out))) == text_of(out)
        }),
{
    let r = render_queue(Seq::<TokenShape>::empty(), items);
    lemma_format_idempotent(items);
    lemma_single_trailing_newline(r);
}


/// Newline–indent pairing through one step of the render loop: when the
/// producer honours its obligation — a token pushed onto a buffer that ends
/// in a hard newline is an indent or another hard newline — the pairing of
/// the buffer survives the push and the correction pass that follows it.
pub proof fn lemma_step_preserves_newline_pairing(buf: Seq<TokenShape>, t: TokenShape)
    requires
        newline_indent_paired(buf),
        buf.len() > 0 && buf[buf.len() - 1] is HardNewLine ==> (t is Indent || t is HardNewLine),
    ensures
        newline_indent_paired(correct(buf.push(t))),
{
    let p = buf.push(t);
    assert forall|i: int|
        0 <= i && i + 1 < p.len() && (#[trigger] p[i]) is HardNewLine implies (p[i + 1] is Indent
        || p[i + 1] is HardNewLine) by {
        if i + 1 < buf.len() {
            assert(p[i] == buf[i]);
            assert(p[i + 1] == buf[i + 1]);
        } else {
            assert(p[i] == buf[buf.len() - 1]);
            assert(p[i + 1] == t);
        }
    }
    lemma_corrections_preserve_newline_pairing(p);
}


/// A render queue with no breakable entries left: every item is a concrete
/// token, as in a queue built from a previous run's serialized output.
pub open spec fn all_concrete(items: Seq<ConcreteLineTokenAndTargets>) -> bool {
    forall|i: int| 0 <= i < items.len() ==> (#[trigger] items[i]) is ConcreteLineToken
}

/// The shapes of a queue of concrete tokens.
pub open spec fn queue_shapes(items: Seq<ConcreteLineTokenAndTargets>) -> Seq<TokenShape> {
    Seq::new(items.len(), |i: int| items[i]->ConcreteLineToken_0@)
}

/// On a queue of concrete tokens the render loop is exactly the feed: one
/// push and one correction pass per item.
pub proof fn lemma_render_of_concrete_is_feed(
    buf: Seq<TokenShape>,
    items: Seq<ConcreteLineTokenAndTargets>,
)
    requires
        all_concrete(items),
    ensures
        render_queue(buf, items) == feed(buf, queue_shapes(items)),
    decreases items.len(),
{
    if items.len() > 0 {
        let rest = items.subrange(1, items.len() as int);
        assert(queue_shapes(items)[0] == items[0]->ConcreteLineToken_0@);
        assert(queue_shapes(items).subrange(1, queue_shapes(items).len() as int) =~= queue_shapes(
            rest,
        ));
        lemma_render_of_concrete_is_feed(render_step(buf, items[0]), rest);
    }
}

/// Idempotence of the writer itself: run the writer on any queue, take the
/// token sequence it serializes, and hand that sequence back as a queue of
/// concrete tokens — the second run serializes the very same sequence.
pub proof fn lemma_second_run_reproduces_tokens(
    items: Seq<ConcreteLineTokenAndTargets>,
    replay: Seq<ConcreteLineTokenAndTargets>,
)
    requires
        all_concrete(replay),
        queue_shapes(replay) == strip_final(render_queue(Seq::<TokenShape>::empty(), items)),
    ensures
        render_queue(Seq::<TokenShape>::empty(), replay) == strip_final(
            render_queue(Seq::<TokenShape>::empty(), items),
        ),
{
    lemma_render_of_concrete_is_feed(Seq::<TokenShape>::empty(), replay);
    lemma_format_idempotent(items);
}

/// Byte-level idempotence of the writer: when the first run's buffer does
/// not end in three newlines, the second run writes the same text.
pub proof fn lemma_second_run_reproduces_text(
    items: Seq<ConcreteLineTokenAndTargets>,
    replay: Seq<ConcreteLineTokenAndTargets>,
)
    requires
        all_concrete(replay),
        queue_shapes(replay) == strip_final(render_queue(Seq::<TokenShape>::empty(), items)),
        ({
            let r = render_queue(Seq::<TokenShape>::empty(), items);
            !(r.len() >= 3 && r[r.len() - 1] is HardNewLine && r[r.len() - 2] is HardNewLine
                && r[r.len() - 3] is HardNewLine)
        }),
    ensures
        text_of(strip_final(render_queue(Seq::<TokenShape>::empty(), replay))) == text_of(
            strip_final(render_queue(Seq::<TokenShape>::empty(), items)),
        ),
{
    let r = render_queue(Seq::<TokenShape>::empty(), items);
    lemma_second_run_reproduces_tokens(items, replay);
    lemma_single_trailing_newline(r);
}

} // verus!
