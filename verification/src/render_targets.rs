//! Breakable entries: nested regions holding two equivalent token sequences,
//! a compact single-line form and an expanded multi-line form, together with
//! the metadata the writer consults when choosing between them.

use crate::line_tokens::ConcreteLineToken;
use crate::line_tokens::TokenShape;
use vstd::prelude::*;

verus! {

/// The enclosing syntactic context of a breakable entry.  Only
/// `StringInterpolation` bears on layout: breaking a line inside an
/// interpolation would change the string's runtime value, so the writer
/// refuses to expand there.
#[derive(PartialEq, Eq, Structural, Clone, Copy, Debug)]
pub enum FormattingContext {
    TopLevel,
    ClassOrModule,
    Def,
    ArgsList,
    CurlyBlock,
    DoBlock,
    StringInterpolation,
}

/// Which of a breakable entry's two forms is being expanded.
#[derive(PartialEq, Eq, Structural, Clone, Copy, Debug)]
pub enum ConvertType {
    SingleLine,
    MultiLine,
}

/// A token as the tree walker emits it inside a breakable entry: either a
/// concrete token, a break-or-space decision resolved at expansion time, or a
/// nested breakable entry.
pub enum AbstractLineToken {
    ConcreteLineToken(ConcreteLineToken),
    /// A newline that disappears entirely in the single-line form.
    CollapsingNewLine,
    /// A newline that becomes a space in the single-line form.
    SoftNewline,
    /// An indent that disappears entirely in the single-line form.
    SoftIndent { depth: u32 },
    BreakableEntry(BreakableEntry),
}

/// A breakable region with two pre-built rendering alternatives.
pub struct BreakableEntry {
    /// Tokens of the compact form, used when the region fits on one line.
    pub single_line_tokens: Vec<AbstractLineToken>,
    /// Tokens of the expanded form, used when the region must break.
    pub multi_line_tokens: Vec<AbstractLineToken>,
    /// Column width of the single-line form, measured by the producer at
    /// construction time, ignoring the column at which expansion begins.
    pub single_line_string_length: usize,
    /// Set by the producer when the region must break regardless of width,
    /// for instance because it contains a user comment.
    pub forced_multiline: bool,
    /// The enclosing syntactic context.
    pub formatting_context: FormattingContext,
}

/// What a non-nested abstract token becomes under the given conversion.
/// Soft decisions vanish into empty text or a space when the region stays on
/// one line, and become hard breaks or indents when it expands.
pub open spec fn convert_shape(t: AbstractLineToken, ct: ConvertType) -> TokenShape
    recommends
        !(t is BreakableEntry),
{
    match t {
        AbstractLineToken::ConcreteLineToken(x) => x@,
        AbstractLineToken::CollapsingNewLine => if ct is SingleLine {
            TokenShape::DirectPart { part: Seq::<char>::empty() }
        } else {
            TokenShape::HardNewLine
        },
        AbstractLineToken::SoftNewline => if ct is SingleLine {
            TokenShape::Space
        } else {
            TokenShape::HardNewLine
        },
        AbstractLineToken::SoftIndent { depth } => if ct is SingleLine {
            TokenShape::DirectPart { part: Seq::<char>::empty() }
        } else {
            TokenShape::Indent { depth: depth as nat }
        },
        AbstractLineToken::BreakableEntry(_) => TokenShape::HardNewLine,
    }
}

impl AbstractLineToken {
    /// The concrete token this abstract token becomes under `ct`.
    pub fn convert(&self, ct: ConvertType) -> (r: ConcreteLineToken)
        requires
            !(*self is BreakableEntry),
        ensures
            r@ == convert_shape(*self, ct),
    {
        match self {
            AbstractLineToken::ConcreteLineToken(x) => x.duplicate(),
            AbstractLineToken::CollapsingNewLine => {
                if matches!(ct, ConvertType::SingleLine) {
                    ConcreteLineToken::DirectPart { part: String::new() }
                } else {
                    ConcreteLineToken::HardNewLine
                }
            },
            AbstractLineToken::SoftNewline => {
                if matches!(ct, ConvertType::SingleLine) {
                    ConcreteLineToken::Space
                } else {
                    ConcreteLineToken::HardNewLine
                }
            },
            AbstractLineToken::SoftIndent { depth } => {
                if matches!(ct, ConvertType::SingleLine) {
                    ConcreteLineToken::DirectPart { part: String::new() }
                } else {
                    ConcreteLineToken::Indent { depth: *depth }
                }
            },
            AbstractLineToken::BreakableEntry(_) => ConcreteLineToken::HardNewLine,
        }
    }
}

impl BreakableEntry {
    /// A breakable entry over the two alternatives and their metadata.
    pub fn new(
        single_line_tokens: Vec<AbstractLineToken>,
        multi_line_tokens: Vec<AbstractLineToken>,
        single_line_string_length: usize,
        forced_multiline: bool,
        formatting_context: FormattingContext,
    ) -> (r: BreakableEntry)
        ensures
            r.single_line_tokens == single_line_tokens,
            r.multi_line_tokens == multi_line_tokens,
            r.single_line_string_length == single_line_string_length,
            r.forced_multiline == forced_multiline,
            r.formatting_context == formatting_context,
    {
        BreakableEntry {
            single_line_tokens,
            multi_line_tokens,
            single_line_string_length,
            forced_multiline,
            formatting_context,
        }
    }

    /// The measured column width of the single-line form.
    pub fn single_line_string_length(&self) -> (r: usize)
        ensures
            r == self.single_line_string_length,
    {
        self.single_line_string_length
    }

    /// True when the producer forced the region open.
    pub fn is_multiline(&self) -> (r: bool)
        ensures
            r == self.forced_multiline,
    {
        self.forced_multiline
    }

    /// The enclosing syntactic context.
    pub fn entry_formatting_context(&self) -> (r: FormattingContext)
        ensures
            r == self.formatting_context,
    {
        self.formatting_context
    }
}

} // verus!
