use rubyfmt_core::line_tokens::ConcreteLineToken;
use rubyfmt_core::render_queue_writer::ConcreteLineTokenAndTargets;
use rubyfmt_core::render_queue_writer::RenderQueueWriter;
use rubyfmt_core::render_targets::AbstractLineToken;
use rubyfmt_core::render_targets::BreakableEntry;
use rubyfmt_core::render_targets::FormattingContext;

fn tok(t: ConcreteLineToken) -> ConcreteLineTokenAndTargets {
    ConcreteLineTokenAndTargets::ConcreteLineToken(t)
}

fn part(s: &str) -> ConcreteLineToken {
    ConcreteLineToken::DirectPart { part: s.to_string() }
}

fn delim(s: &str) -> ConcreteLineToken {
    ConcreteLineToken::Delim { contents: s.to_string() }
}

fn render(queue: Vec<ConcreteLineTokenAndTargets>) -> String {
    RenderQueueWriter::new(queue).write()
}

/// The abstract tokens of the breakable the fit scenarios share: the call
/// `f(a, b)` either on one line or across three.
fn call_breakable(width: usize, ctx: FormattingContext) -> BreakableEntry {
    let single = vec![
        AbstractLineToken::ConcreteLineToken(part("f(")),
        AbstractLineToken::ConcreteLineToken(part("a")),
        AbstractLineToken::ConcreteLineToken(ConcreteLineToken::Comma),
        AbstractLineToken::ConcreteLineToken(ConcreteLineToken::Space),
        AbstractLineToken::ConcreteLineToken(part("b")),
        AbstractLineToken::ConcreteLineToken(delim(")")),
    ];
    let multi = vec![
        AbstractLineToken::ConcreteLineToken(part("f(")),
        AbstractLineToken::ConcreteLineToken(ConcreteLineToken::HardNewLine),
        AbstractLineToken::ConcreteLineToken(ConcreteLineToken::Indent { depth: 1 }),
        AbstractLineToken::ConcreteLineToken(part("a")),
        AbstractLineToken::ConcreteLineToken(ConcreteLineToken::Comma),
        AbstractLineToken::ConcreteLineToken(ConcreteLineToken::HardNewLine),
        AbstractLineToken::ConcreteLineToken(ConcreteLineToken::Indent { depth: 1 }),
        AbstractLineToken::ConcreteLineToken(part("b")),
        AbstractLineToken::ConcreteLineToken(ConcreteLineToken::Comma),
        AbstractLineToken::ConcreteLineToken(ConcreteLineToken::HardNewLine),
        AbstractLineToken::ConcreteLineToken(ConcreteLineToken::Indent { depth: 0 }),
        AbstractLineToken::ConcreteLineToken(delim(")")),
    ];
    BreakableEntry::new(single, multi, width, false, ctx)
}

#[test]
fn trivial_pass_through() {
    let out = render(vec![tok(part("x")), tok(ConcreteLineToken::HardNewLine)]);
    assert_eq!(out, "x\n");
}

#[test]
fn trailing_newline_collapse() {
    let out = render(vec![
        tok(part("x")),
        tok(ConcreteLineToken::HardNewLine),
        tok(ConcreteLineToken::HardNewLine),
    ]);
    assert_eq!(out, "x\n");
}

#[test]
fn fit_chooses_single_line() {
    let be = call_breakable(7, FormattingContext::ArgsList);
    let out = render(vec![ConcreteLineTokenAndTargets::BreakableEntry(be)]);
    assert_eq!(out, "f(a, b)");
}

#[test]
fn overflow_chooses_multi_line() {
    let be = call_breakable(130, FormattingContext::ArgsList);
    let out = render(vec![ConcreteLineTokenAndTargets::BreakableEntry(be)]);
    assert_eq!(out, "f(\n  a,\n  b,\n)");
}

#[test]
fn forced_multiline_breaks_despite_fitting() {
    let mut be = call_breakable(7, FormattingContext::ArgsList);
    be.forced_multiline = true;
    let out = render(vec![ConcreteLineTokenAndTargets::BreakableEntry(be)]);
    assert_eq!(out, "f(\n  a,\n  b,\n)");
}

#[test]
fn interpolation_refuses_to_break() {
    let be = call_breakable(130, FormattingContext::StringInterpolation);
    let out = render(vec![ConcreteLineTokenAndTargets::BreakableEntry(be)]);
    assert_eq!(out, "f(a, b)");
}

#[test]
fn exact_budget_width_stays_single_line() {
    let be = call_breakable(120, FormattingContext::ArgsList);
    let out = render(vec![ConcreteLineTokenAndTargets::BreakableEntry(be)]);
    assert_eq!(out, "f(a, b)");
}

#[test]
fn blank_line_after_end() {
    let out = render(vec![
        tok(ConcreteLineToken::End),
        tok(ConcreteLineToken::HardNewLine),
        tok(ConcreteLineToken::Indent { depth: 0 }),
        tok(ConcreteLineToken::DefKeyword),
    ]);
    assert_eq!(out, "end\n\ndef");
}

#[test]
fn blank_line_after_end_before_visibility_modifier() {
    let out = render(vec![
        tok(ConcreteLineToken::End),
        tok(ConcreteLineToken::HardNewLine),
        tok(ConcreteLineToken::Indent { depth: 0 }),
        tok(part("private")),
    ]);
    assert_eq!(out, "end\n\nprivate");
}

#[test]
fn no_blank_line_after_end_before_plain_text() {
    let out = render(vec![
        tok(ConcreteLineToken::End),
        tok(ConcreteLineToken::HardNewLine),
        tok(ConcreteLineToken::Indent { depth: 0 }),
        tok(part("foo")),
    ]);
    assert_eq!(out, "end\nfoo");
}

#[test]
fn blank_line_after_end_through_call_chain() {
    let out = render(vec![
        tok(ConcreteLineToken::End),
        tok(ConcreteLineToken::AfterCallChain),
        tok(ConcreteLineToken::HardNewLine),
        tok(ConcreteLineToken::Indent { depth: 0 }),
        tok(ConcreteLineToken::ClassKeyword),
    ]);
    assert_eq!(out, "end\n\nclass");
}

#[test]
fn call_chain_rule_skips_def_keyword() {
    let out = render(vec![
        tok(ConcreteLineToken::End),
        tok(ConcreteLineToken::AfterCallChain),
        tok(ConcreteLineToken::HardNewLine),
        tok(ConcreteLineToken::Indent { depth: 0 }),
        tok(ConcreteLineToken::DefKeyword),
    ]);
    assert_eq!(out, "end\ndef");
}

#[test]
fn call_chain_rule_skips_visibility_modifier() {
    let out = render(vec![
        tok(ConcreteLineToken::End),
        tok(ConcreteLineToken::AfterCallChain),
        tok(ConcreteLineToken::HardNewLine),
        tok(ConcreteLineToken::Indent { depth: 0 }),
        tok(part("private")),
    ]);
    assert_eq!(out, "end\nprivate");
}

#[test]
fn heredoc_tail_deduplication() {
    let out = render(vec![
        tok(ConcreteLineToken::HeredocClose { indent: 0, symbol: "EOD".to_string() }),
        tok(ConcreteLineToken::HardNewLine),
        tok(ConcreteLineToken::Indent { depth: 0 }),
        tok(ConcreteLineToken::HardNewLine),
    ]);
    assert_eq!(out, "EOD\n");
}

#[test]
fn heredoc_indent_fix() {
    let out = render(vec![
        tok(ConcreteLineToken::HeredocClose { indent: 0, symbol: "EOD".to_string() }),
        tok(ConcreteLineToken::HardNewLine),
        tok(ConcreteLineToken::Indent { depth: 1 }),
        tok(ConcreteLineToken::Indent { depth: 1 }),
        tok(delim("]")),
    ]);
    assert_eq!(out, "EOD\n  ]");
}

#[test]
fn heredoc_arg_newline_fix() {
    let out = render(vec![
        tok(ConcreteLineToken::HeredocClose { indent: 0, symbol: "EOD".to_string() }),
        tok(ConcreteLineToken::HardNewLine),
        tok(ConcreteLineToken::Indent { depth: 1 }),
        tok(delim(")")),
        tok(ConcreteLineToken::Comma),
        tok(ConcreteLineToken::HardNewLine),
        tok(ConcreteLineToken::HardNewLine),
    ]);
    assert_eq!(out, "EOD\n  ),\n");
}

#[test]
fn single_line_expansion_strips_garbage() {
    let single = vec![
        AbstractLineToken::ConcreteLineToken(delim("[")),
        AbstractLineToken::ConcreteLineToken(part("a")),
        AbstractLineToken::ConcreteLineToken(ConcreteLineToken::Comma),
        AbstractLineToken::SoftNewline,
        AbstractLineToken::ConcreteLineToken(part("b")),
        AbstractLineToken::ConcreteLineToken(ConcreteLineToken::Comma),
        AbstractLineToken::CollapsingNewLine,
        AbstractLineToken::ConcreteLineToken(delim("]")),
    ];
    let multi = vec![
        AbstractLineToken::ConcreteLineToken(delim("[")),
        AbstractLineToken::CollapsingNewLine,
        AbstractLineToken::SoftIndent { depth: 1 },
        AbstractLineToken::ConcreteLineToken(part("a")),
        AbstractLineToken::ConcreteLineToken(ConcreteLineToken::Comma),
        AbstractLineToken::SoftNewline,
        AbstractLineToken::SoftIndent { depth: 1 },
        AbstractLineToken::ConcreteLineToken(part("b")),
        AbstractLineToken::ConcreteLineToken(ConcreteLineToken::Comma),
        AbstractLineToken::CollapsingNewLine,
        AbstractLineToken::SoftIndent { depth: 0 },
        AbstractLineToken::ConcreteLineToken(delim("]")),
    ];
    let be = BreakableEntry::new(single, multi, 8, false, FormattingContext::ArgsList);
    let out = render(vec![ConcreteLineTokenAndTargets::BreakableEntry(be)]);
    assert_eq!(out, "[a, b]");
}

#[test]
fn multi_line_expansion_resolves_soft_tokens() {
    let single = vec![
        AbstractLineToken::ConcreteLineToken(delim("[")),
        AbstractLineToken::ConcreteLineToken(part("a")),
        AbstractLineToken::ConcreteLineToken(ConcreteLineToken::Comma),
        AbstractLineToken::SoftNewline,
        AbstractLineToken::ConcreteLineToken(part("b")),
        AbstractLineToken::ConcreteLineToken(delim("]")),
    ];
    let multi = vec![
        AbstractLineToken::ConcreteLineToken(delim("[")),
        AbstractLineToken::CollapsingNewLine,
        AbstractLineToken::SoftIndent { depth: 1 },
        AbstractLineToken::ConcreteLineToken(part("a")),
        AbstractLineToken::ConcreteLineToken(ConcreteLineToken::Comma),
        AbstractLineToken::SoftNewline,
        AbstractLineToken::SoftIndent { depth: 1 },
        AbstractLineToken::ConcreteLineToken(part("b")),
        AbstractLineToken::CollapsingNewLine,
        AbstractLineToken::SoftIndent { depth: 0 },
        AbstractLineToken::ConcreteLineToken(delim("]")),
    ];
    let be = BreakableEntry::new(single, multi, 6, true, FormattingContext::ArgsList);
    let out = render(vec![ConcreteLineTokenAndTargets::BreakableEntry(be)]);
    assert_eq!(out, "[\n  a,\n  b\n]");
}

#[test]
fn nested_breakable_decides_independently() {
    // An inner call that fits stays on one line even when the outer
    // breakable was forced open.
    let inner = call_breakable(7, FormattingContext::ArgsList);
    let single = vec![
        AbstractLineToken::ConcreteLineToken(part("g(")),
        AbstractLineToken::BreakableEntry(call_breakable(7, FormattingContext::ArgsList)),
        AbstractLineToken::ConcreteLineToken(delim(")")),
    ];
    let multi = vec![
        AbstractLineToken::ConcreteLineToken(part("g(")),
        AbstractLineToken::ConcreteLineToken(ConcreteLineToken::HardNewLine),
        AbstractLineToken::ConcreteLineToken(ConcreteLineToken::Indent { depth: 1 }),
        AbstractLineToken::BreakableEntry(inner),
        AbstractLineToken::ConcreteLineToken(ConcreteLineToken::HardNewLine),
        AbstractLineToken::ConcreteLineToken(ConcreteLineToken::Indent { depth: 0 }),
        AbstractLineToken::ConcreteLineToken(delim(")")),
    ];
    let be = BreakableEntry::new(single, multi, 10, true, FormattingContext::ArgsList);
    let out = render(vec![ConcreteLineTokenAndTargets::BreakableEntry(be)]);
    assert_eq!(out, "g(\n  f(a, b)\n)");
}

#[test]
fn corrected_output_renders_unchanged_when_fed_back() {
    // Re-feeding the final token sequence of a run through the writer
    // reproduces it byte for byte: no rule fires a second time.
    let queue = vec![
        tok(ConcreteLineToken::End),
        tok(ConcreteLineToken::HardNewLine),
        tok(ConcreteLineToken::Indent { depth: 0 }),
        tok(ConcreteLineToken::DefKeyword),
        tok(ConcreteLineToken::Space),
        tok(part("foo")),
        tok(ConcreteLineToken::HardNewLine),
        tok(ConcreteLineToken::Indent { depth: 0 }),
        tok(ConcreteLineToken::End),
        tok(ConcreteLineToken::HardNewLine),
    ];
    let mut accum = rubyfmt_core::intermediary::Intermediary::new();
    RenderQueueWriter::render_as(&mut accum, &queue);
    let first = accum.into_tokens();
    let replay: Vec<ConcreteLineTokenAndTargets> =
        first.iter().map(|t| tok(t.duplicate())).collect();
    let first_text = RenderQueueWriter::write_final_tokens(first);
    let second_text = render(replay);
    assert_eq!(first_text, second_text);
    assert_eq!(first_text, "end\n\ndef foo\nend\n");
}

#[test]
fn no_two_blank_lines_ever_touch() {
    let queue = vec![
        tok(ConcreteLineToken::End),
        tok(ConcreteLineToken::HardNewLine),
        tok(ConcreteLineToken::Indent { depth: 0 }),
        tok(ConcreteLineToken::ClassKeyword),
        tok(ConcreteLineToken::Space),
        tok(part("C")),
        tok(ConcreteLineToken::HardNewLine),
        tok(ConcreteLineToken::Indent { depth: 0 }),
        tok(ConcreteLineToken::End),
        tok(ConcreteLineToken::AfterCallChain),
        tok(ConcreteLineToken::HardNewLine),
        tok(ConcreteLineToken::Indent { depth: 0 }),
        tok(ConcreteLineToken::ModuleKeyword),
        tok(ConcreteLineToken::HardNewLine),
    ];
    let out = render(queue);
    assert!(!out.contains("\n\n\n"));
    assert_eq!(out, "end\n\nclass C\nend\n\nmodule\n");
}
