//! The alphabet of concrete line tokens that the renderer emits, together
//! with its mathematical model: every token maps to a fixed character
//! sequence, and a handful of predicates drive the peephole corrections.

use vstd::prelude::*;
use vstd::string::StringExecFns;

verus! {

/// Spec-level shape of a concrete line token: each `String` payload is
/// abstracted to its character sequence and each depth to a `nat`.
pub enum TokenShape {
    HardNewLine,
    Indent { depth: nat },
    DirectPart { part: Seq<char> },
    Delim { contents: Seq<char> },
    Comma,
    Space,
    Dot,
    LonelyOperator,
    DefKeyword,
    ClassKeyword,
    ModuleKeyword,
    End,
    AfterCallChain,
    HeredocClose { indent: nat, symbol: Seq<char> },
}

/// A concrete line token: the renderer's output alphabet.  Soft newline
/// decisions never appear here; they live only inside breakable entries and
/// are resolved before a token reaches the intermediary buffer.
pub enum ConcreteLineToken {
    /// Whitespace prefix of a line, measured in indent units (one unit is two
    /// spaces).
    Indent { depth: u32 },
    /// An unconditional line break.
    HardNewLine,
    /// Opaque literal text with no structural meaning.
    DirectPart { part: String },
    /// An opening or closing bracket, brace, paren, or similar.
    Delim { contents: String },
    Comma,
    Space,
    Dot,
    LonelyOperator,
    DefKeyword,
    ClassKeyword,
    ModuleKeyword,
    End,
    /// Marker emitted after the last element of a call chain; renders as
    /// nothing.
    AfterCallChain,
    /// The terminator line of a here-document body.
    HeredocClose { indent: u32, symbol: String },
}

impl View for ConcreteLineToken {
    type V = TokenShape;

    open spec fn view(&self) -> TokenShape {
        match self {
            ConcreteLineToken::Indent { depth } => TokenShape::Indent { depth: *depth as nat },
            ConcreteLineToken::HardNewLine => TokenShape::HardNewLine,
            ConcreteLineToken::DirectPart { part } => TokenShape::DirectPart { part: part@ },
            ConcreteLineToken::Delim { contents } => TokenShape::Delim { contents: contents@ },
            ConcreteLineToken::Comma => TokenShape::Comma,
            ConcreteLineToken::Space => TokenShape::Space,
            ConcreteLineToken::Dot => TokenShape::Dot,
            ConcreteLineToken::LonelyOperator => TokenShape::LonelyOperator,
            ConcreteLineToken::DefKeyword => TokenShape::DefKeyword,
            ConcreteLineToken::ClassKeyword => TokenShape::ClassKeyword,
            ConcreteLineToken::ModuleKeyword => TokenShape::ModuleKeyword,
            ConcreteLineToken::End => TokenShape::End,
            ConcreteLineToken::AfterCallChain => TokenShape::AfterCallChain,
            ConcreteLineToken::HeredocClose { indent, symbol } => TokenShape::HeredocClose {
                indent: *indent as nat,
                symbol: symbol@,
            },
        }
    }
}

/// `n` space characters.
pub open spec fn spaces(n: nat) -> Seq<char>
    decreases n,
{
    if n == 0 {
        Seq::<char>::empty()
    } else {
        spaces((n - 1) as nat).push(' ')
    }
}

/// The text a token renders to.  The mapping is total and deterministic.
pub open spec fn token_text(t: TokenShape) -> Seq<char> {
    match t {
        TokenShape::Indent { depth } => spaces(2 * depth),
        TokenShape::HardNewLine => seq!['\n'],
        TokenShape::DirectPart { part } => part,
        TokenShape::Delim { contents } => contents,
        TokenShape::Comma => seq![','],
        TokenShape::Space => seq![' '],
        TokenShape::Dot => seq!['.'],
        TokenShape::LonelyOperator => seq!['&', '.'],
        TokenShape::DefKeyword => seq!['d', 'e', 'f'],
        TokenShape::ClassKeyword => seq!['c', 'l', 'a', 's', 's'],
        TokenShape::ModuleKeyword => seq!['m', 'o', 'd', 'u', 'l', 'e'],
        TokenShape::End => seq!['e', 'n', 'd'],
        TokenShape::AfterCallChain => Seq::<char>::empty(),
        TokenShape::HeredocClose { indent, symbol } => spaces(2 * indent) + symbol,
    }
}

/// Tokens that spell a method visibility modifier.
pub open spec fn is_visibility_modifier(t: TokenShape) -> bool {
    match t {
        TokenShape::DirectPart { part } => part == "private"@ || part == "public"@
            || part == "protected"@,
        _ => false,
    }
}

/// Tokens that open a construct wanting a blank line after a preceding
/// `end`: class, module and method headers, and the visibility modifiers
/// that open a new section of a class body.
pub open spec fn needs_trailing_blankline(t: TokenShape) -> bool {
    t is ClassKeyword || t is ModuleKeyword || t is DefKeyword || is_visibility_modifier(t)
}

/// Artifacts that single-line expansion of a breakable can leave just before
/// its close delimiter: a trailing comma, a space, or an empty direct part.
pub open spec fn is_breakable_garbage(t: TokenShape) -> bool {
    match t {
        TokenShape::DirectPart { part } => part.len() == 0,
        TokenShape::Comma => true,
        TokenShape::Space => true,
        _ => false,
    }
}

impl ConcreteLineToken {
    /// True for tokens that want a blank line after a preceding `end`.
    pub fn is_in_need_of_a_trailing_blankline(&self) -> (r: bool)
        ensures
            r == needs_trailing_blankline(self@),
    {
        matches!(
            self,
            ConcreteLineToken::ClassKeyword
                | ConcreteLineToken::ModuleKeyword
                | ConcreteLineToken::DefKeyword
        ) || self.is_method_visibility_modifier()
    }

    /// True for tokens such as `private`, `public`, `protected`.
    pub fn is_method_visibility_modifier(&self) -> (r: bool)
        ensures
            r == is_visibility_modifier(self@),
    {
        match self {
            ConcreteLineToken::DirectPart { part } => {
                let pr = String::from_str("private");
                let pu = String::from_str("public");
                let po = String::from_str("protected");
                part.eq(&pr) || part.eq(&pu) || part.eq(&po)
            },
            _ => false,
        }
    }

    /// True for the artifacts that `clear_breakable_garbage` strips.
    pub fn is_single_line_breakable_garbage(&self) -> (r: bool)
        ensures
            r == is_breakable_garbage(self@),
    {
        match self {
            ConcreteLineToken::DirectPart { part } => part.as_str().is_empty(),
            ConcreteLineToken::Comma => true,
            ConcreteLineToken::Space => true,
            _ => false,
        }
    }

    /// A copy of the token, equal to the original in every field.
    pub fn duplicate(&self) -> (r: ConcreteLineToken)
        ensures
            r@ == self@,
    {
        match self {
            ConcreteLineToken::Indent { depth } => ConcreteLineToken::Indent { depth: *depth },
            ConcreteLineToken::HardNewLine => ConcreteLineToken::HardNewLine,
            ConcreteLineToken::DirectPart { part } => ConcreteLineToken::DirectPart {
                part: part.clone(),
            },
            ConcreteLineToken::Delim { contents } => ConcreteLineToken::Delim {
                contents: contents.clone(),
            },
            ConcreteLineToken::Comma => ConcreteLineToken::Comma,
            ConcreteLineToken::Space => ConcreteLineToken::Space,
            ConcreteLineToken::Dot => ConcreteLineToken::Dot,
            ConcreteLineToken::LonelyOperator => ConcreteLineToken::LonelyOperator,
            ConcreteLineToken::DefKeyword => ConcreteLineToken::DefKeyword,
            ConcreteLineToken::ClassKeyword => ConcreteLineToken::ClassKeyword,
            ConcreteLineToken::ModuleKeyword => ConcreteLineToken::ModuleKeyword,
            ConcreteLineToken::End => ConcreteLineToken::End,
            ConcreteLineToken::AfterCallChain => ConcreteLineToken::AfterCallChain,
            ConcreteLineToken::HeredocClose { indent, symbol } => ConcreteLineToken::HeredocClose {
                indent: *indent,
                symbol: symbol.clone(),
            },
        }
    }

    /// The token's text rendering.
    pub fn into_ruby(&self) -> (r: String)
        ensures
            r@ == token_text(self@),
    {
        match self {
            ConcreteLineToken::Indent { depth } => indent_spaces(*depth),
            ConcreteLineToken::HardNewLine => {
                let s = String::from_str("\n");
                proof {
                    reveal_strlit("\n");
                    assert(s@ =~= seq!['\n']);
                }
                s
            },
            ConcreteLineToken::DirectPart { part } => part.clone(),
            ConcreteLineToken::Delim { contents } => contents.clone(),
            ConcreteLineToken::Comma => {
                let s = String::from_str(",");
                proof {
                    reveal_strlit(",");
                    assert(s@ =~= seq![',']);
                }
                s
            },
            ConcreteLineToken::Space => {
                let s = String::from_str(" ");
                proof {
                    reveal_strlit(" ");
                    assert(s@ =~= seq![' ']);
                }
                s
            },
            ConcreteLineToken::Dot => {
                let s = String::from_str(".");
                proof {
                    reveal_strlit(".");
                    assert(s@ =~= seq!['.']);
                }
                s
            },
            ConcreteLineToken::LonelyOperator => {
                let s = String::from_str("&.");
                proof {
                    reveal_strlit("&.");
                    assert(s@ =~= seq!['&', '.']);
                }
                s
            },
            ConcreteLineToken::DefKeyword => {
                let s = String::from_str("def");
                proof {
                    reveal_strlit("def");
                    assert(s@ =~= seq!['d', 'e', 'f']);
                }
                s
            },
            ConcreteLineToken::ClassKeyword => {
                let s = String::from_str("class");
                proof {
                    reveal_strlit("class");
                    assert(s@ =~= seq!['c', 'l', 'a', 's', 's']);
                }
                s
            },
            ConcreteLineToken::ModuleKeyword => {
                let s = String::from_str("module");
                proof {
                    reveal_strlit("module");
                    assert(s@ =~= seq!['m', 'o', 'd', 'u', 'l', 'e']);
                }
                s
            },
            ConcreteLineToken::End => {
                let s = String::from_str("end");
                proof {
                    reveal_strlit("end");
                    assert(s@ =~= seq!['e', 'n', 'd']);
                }
                s
            },
            ConcreteLineToken::AfterCallChain => String::new(),
            ConcreteLineToken::HeredocClose { indent, symbol } => {
                let mut s = indent_spaces(*indent);
                s.append(symbol.as_str());
                s
            },
        }
    }
}

/// `depth` indent units rendered as spaces, two per unit.
fn indent_spaces(depth: u32) -> (r: String)
    ensures
        r@ == spaces(2 * depth as nat),
{
    let mut s = String::new();
    let mut i: u32 = 0;
    while i < depth
        invariant
            i <= depth,
            s@ == spaces(2 * i as nat),
        decreases depth - i,
    {
        s.append("  ");
        proof {
            reveal_strlit("  ");
            assert(spaces(2 * (i + 1) as nat) =~= spaces(2 * i as nat) + "  "@) by {
                assert("  "@.len() == 2);
                assert(spaces(2 * (i + 1) as nat) == spaces((2 * i + 1) as nat).push(' '));
                assert(spaces((2 * i + 1) as nat) == spaces((2 * i) as nat).push(' '));
                assert("  "@[0] == ' ');
                assert("  "@[1] == ' ');
            }
        }
        i = i + 1;
    }
    s
}

} // verus!
