use rubyfmt_core::intermediary::BlanklineReason;
use rubyfmt_core::intermediary::Intermediary;
use rubyfmt_core::line_tokens::ConcreteLineToken;

#[test]
fn token_text_renderings() {
    assert_eq!(ConcreteLineToken::HardNewLine.into_ruby(), "\n");
    assert_eq!(ConcreteLineToken::Indent { depth: 0 }.into_ruby(), "");
    assert_eq!(ConcreteLineToken::Indent { depth: 2 }.into_ruby(), "    ");
    assert_eq!(ConcreteLineToken::Comma.into_ruby(), ",");
    assert_eq!(ConcreteLineToken::Space.into_ruby(), " ");
    assert_eq!(ConcreteLineToken::Dot.into_ruby(), ".");
    assert_eq!(ConcreteLineToken::LonelyOperator.into_ruby(), "&.");
    assert_eq!(ConcreteLineToken::DefKeyword.into_ruby(), "def");
    assert_eq!(ConcreteLineToken::ClassKeyword.into_ruby(), "class");
    assert_eq!(ConcreteLineToken::ModuleKeyword.into_ruby(), "module");
    assert_eq!(ConcreteLineToken::End.into_ruby(), "end");
    assert_eq!(ConcreteLineToken::AfterCallChain.into_ruby(), "");
    assert_eq!(
        ConcreteLineToken::DirectPart { part: "foo".to_string() }.into_ruby(),
        "foo"
    );
    assert_eq!(ConcreteLineToken::Delim { contents: "]".to_string() }.into_ruby(), "]");
    assert_eq!(
        ConcreteLineToken::HeredocClose { indent: 1, symbol: "EOT".to_string() }.into_ruby(),
        "  EOT"
    );
}

#[test]
fn token_predicates() {
    assert!(ConcreteLineToken::DefKeyword.is_in_need_of_a_trailing_blankline());
    assert!(ConcreteLineToken::ClassKeyword.is_in_need_of_a_trailing_blankline());
    assert!(ConcreteLineToken::ModuleKeyword.is_in_need_of_a_trailing_blankline());
    let private = ConcreteLineToken::DirectPart { part: "private".to_string() };
    assert!(private.is_in_need_of_a_trailing_blankline());
    assert!(private.is_method_visibility_modifier());
    let other = ConcreteLineToken::DirectPart { part: "puts".to_string() };
    assert!(!other.is_in_need_of_a_trailing_blankline());
    assert!(!other.is_method_visibility_modifier());
    assert!(!ConcreteLineToken::End.is_in_need_of_a_trailing_blankline());

    assert!(ConcreteLineToken::Comma.is_single_line_breakable_garbage());
    assert!(ConcreteLineToken::Space.is_single_line_breakable_garbage());
    assert!(
        ConcreteLineToken::DirectPart { part: String::new() }.is_single_line_breakable_garbage()
    );
    assert!(
        !ConcreteLineToken::DirectPart { part: "x".to_string() }.is_single_line_breakable_garbage()
    );
    assert!(!ConcreteLineToken::Dot.is_single_line_breakable_garbage());
}

fn texts(tokens: Vec<ConcreteLineToken>) -> String {
    let mut out = String::new();
    for t in &tokens {
        out.push_str(&t.into_ruby());
    }
    out
}

#[test]
fn blankline_insertion_splices_before_indent() {
    let mut buf = Intermediary::new();
    buf.push(ConcreteLineToken::End);
    buf.push(ConcreteLineToken::HardNewLine);
    buf.push(ConcreteLineToken::Indent { depth: 0 });
    buf.push(ConcreteLineToken::DefKeyword);
    buf.insert_trailing_blankline(BlanklineReason::ComesAfterEnd);
    assert_eq!(buf.len(), 5);
    assert_eq!(texts(buf.into_tokens()), "end\n\ndef");
}

#[test]
fn blankline_insertion_suppresses_duplicate() {
    // A blank line already present before the indent suppresses a second
    // insertion at the same position.
    let mut buf = Intermediary::new();
    buf.push(ConcreteLineToken::HardNewLine);
    buf.push(ConcreteLineToken::HardNewLine);
    buf.push(ConcreteLineToken::Indent { depth: 0 });
    buf.push(ConcreteLineToken::DefKeyword);
    buf.insert_trailing_blankline(BlanklineReason::ComesAfterEnd);
    assert_eq!(buf.len(), 4);
    assert_eq!(texts(buf.into_tokens()), "\n\ndef");
}

#[test]
fn clear_breakable_garbage_stops_at_content() {
    let mut buf = Intermediary::new();
    buf.push(ConcreteLineToken::Delim { contents: "(".to_string() });
    buf.push(ConcreteLineToken::DirectPart { part: "a".to_string() });
    buf.push(ConcreteLineToken::Comma);
    buf.push(ConcreteLineToken::Space);
    buf.push(ConcreteLineToken::DirectPart { part: String::new() });
    buf.push(ConcreteLineToken::Delim { contents: ")".to_string() });
    buf.clear_breakable_garbage();
    assert_eq!(texts(buf.into_tokens()), "(a)");
}

#[test]
fn final_tokens_survive_round_trip() {
    let mut buf = Intermediary::new();
    buf.push(ConcreteLineToken::DefKeyword);
    buf.push(ConcreteLineToken::Space);
    buf.push(ConcreteLineToken::DirectPart { part: "foo".to_string() });
    buf.push(ConcreteLineToken::HardNewLine);
    let tokens = buf.into_tokens();
    assert_eq!(tokens.len(), 4);
    assert_eq!(texts(tokens), "def foo\n");
}
