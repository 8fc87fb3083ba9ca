use zhlint::config::Config;
use zhlint::errors::{Span, ZhlintError};
use zhlint::nodes::{OffsetValue, Space};
use zhlint::rules::punctuation_width::{to_fullwidth, to_halfwidth};
use zhlint::{run, Report};

#[test]
fn second_pass_is_quiet() {
    // a full-width bracket pair that width conversion turns half-width is not
    // a fixed point: the next pass spaces the now-half-width pair, so such
    // inputs stay out of this list
    let inputs = [
        "你好,再见.",
        "2019年06月26号 2019-06-26 12:00",
        "老師說：「你們要記住國父說的『青年要立志做大事，不要做大官』這句話。」",
        "中文foo 中文 foo中foo文",
        "3 minite(s) left",
        "中文, 中文.中； 文。中文",
    ];
    for text in inputs {
        let first = run(text, &Config::default());
        let second = run(&first.text, &Config::default());
        assert_eq!(second.text, first.text);
        assert!(second.errors.is_empty());
    }
}

#[test]
fn unclosed_quotation_isolates_paragraph() {
    let text = "「你好\n\n中文foo";
    let report = run(text, &Config::default());
    let parse_errors: Vec<&ZhlintError> = report
        .errors
        .iter()
        .filter(|e| matches!(e, ZhlintError::UnexpectedEnd))
        .collect();
    assert_eq!(parse_errors.len(), 1);
    // the malformed paragraph is untouched; the following one is still
    // processed (a space appears between the full-width and half-width runs)
    assert_eq!(report.text, "「你好\n\n中文 foo");
}

#[test]
fn stray_right_quote_is_reported() {
    let report = run("foo」bar", &Config::default());
    assert!(report
        .errors
        .iter()
        .any(|e| matches!(e, ZhlintError::UnclosedQuotationMark { value: '」', .. })));
    assert_eq!(report.text, "foo」bar");
}

#[test]
fn plain_text_gets_only_space_diagnostics() {
    let inputs = ["abc  中文 def", "中文 中文 中 文", "foo bar"];
    for text in inputs {
        let report = run(text, &Config::default());
        for e in &report.errors {
            assert!(matches!(e, ZhlintError::SpaceError { .. }));
        }
    }
}

#[test]
fn width_conversion_reports_char_errors() {
    let report = run("你好,再见.", &Config::default());
    assert_eq!(report.text, "你好，再见。");
    let char_errors: Vec<&ZhlintError> = report
        .errors
        .iter()
        .filter(|e| matches!(e, ZhlintError::CharError { .. }))
        .collect();
    assert_eq!(char_errors.len(), 2);
    assert!(char_errors.iter().any(|e| matches!(
        e,
        ZhlintError::CharError { value: ',', modified: '，', .. }
    )));
    assert!(char_errors.iter().any(|e| matches!(
        e,
        ZhlintError::CharError { value: '.', modified: '。', .. }
    )));
}

#[test]
fn width_tables_are_exact() {
    assert_eq!(to_halfwidth('，'), ',');
    assert_eq!(to_halfwidth('。'), '.');
    assert_eq!(to_halfwidth('（'), '(');
    assert_eq!(to_halfwidth('“'), '"');
    assert_eq!(to_halfwidth('’'), '\'');
    assert_eq!(to_halfwidth('中'), '中');
    assert_eq!(to_fullwidth(','), '，');
    assert_eq!(to_fullwidth('.'), '。');
    assert_eq!(to_fullwidth('('), '（');
    assert_eq!(to_fullwidth('"'), '"');
    assert_eq!(to_fullwidth('a'), 'a');
}

#[test]
fn offset_value_operations() {
    let mut v = OffsetValue::new('a', Span::new(0, 1));
    assert_eq!(v.original, 'a');
    assert!(v.modified.is_none());
    assert_eq!(*v.modified(), 'a');
    v.to_be('b');
    assert_eq!(v.modified, Some('b'));
    assert_eq!(*v.modified(), 'b');
    v.to_be('a');
    assert!(v.modified.is_none());
    v.to_be('c');
    v.revert_modified();
    assert!(v.modified.is_none());
    assert_eq!(v.original, 'a');
}

#[test]
fn space_operations() {
    assert!(Space::Empty.is_empty());
    assert!(!Space::One.is_empty());
    assert!(!Space::Literal("  ".to_string()).is_empty());
    let mut v = OffsetValue::new(Space::One, Span::at(3));
    v.to_be(Space::Empty);
    assert!(matches!(v.modified, Some(Space::Empty)));
    v.to_be(Space::Literal(" ".to_string()));
    // one literal space is the same whitespace text as the plain one-space run
    assert!(v.modified.is_none());
}

#[test]
fn report_single_modifications() {
    let mut report = Report { text: "你好,再见".to_string(), errors: Vec::new() };
    let mut comma = OffsetValue::new(',', Span::new(6, 7));
    comma.to_be('，');
    report.report_char(&comma);
    assert_eq!(report.text, "你好，再见");
    assert_eq!(report.errors.len(), 1);
    assert!(matches!(
        report.errors[0],
        ZhlintError::CharError { value: ',', modified: '，', .. }
    ));

    let mut report = Report { text: "a b".to_string(), errors: Vec::new() };
    let mut gap = OffsetValue::new(Space::One, Span::new(1, 2));
    gap.to_be(Space::Empty);
    report.report_space(&gap);
    assert_eq!(report.text, "ab");
    assert_eq!(report.errors.len(), 1);
    assert!(matches!(report.errors[0], ZhlintError::SpaceError { .. }));
}

#[test]
fn config_presets() {
    let empty = Config::empty();
    assert!(empty.halfwidth_punctuation.is_empty());
    assert!(empty.skip_abbrs.is_empty());
    assert!(empty.unified_punctuation.is_none());
    let def = Config::default();
    assert_eq!(def.halfwidth_punctuation, "()");
    assert_eq!(def.fullwidth_punctuation, "，。：；？！“”‘’");
    assert!(def.skip_abbrs.iter().any(|a| a == "vs."));
    assert!(def.skip_zh_units.iter().any(|u| u == "年"));
    assert!(def.trim_space);
}

#[test]
fn unit_exception_needs_digits() {
    // the unit exception protects digit runs only: letters before a unit
    // character still get the mixed-width spacing
    let report = run("abc年def", &Config::default());
    assert_eq!(report.text, "abc 年 def");
    let report = run("2019年", &Config::default());
    assert_eq!(report.text, "2019年");
}

#[test]
fn entity_expansion_is_harmless() {
    // an entity reference can expand to a text payload holding more bytes
    // than the source range it came from; with every rewrite switched off the
    // engine must pass such input through untouched
    let report = run("&nGt;", &Config::empty());
    assert_eq!(report.text, "&nGt;");
    assert!(report.errors.is_empty());
    let report = run("a &nGt; b 中文", &Config::default());
    println!("{}", report.text);
}

#[test]
fn markup_events_come_through() {
    let items = zhlint::lexer::markdown_source("a *b* `c`");
    println!("{:?}", items);
    assert!(items.len() >= 5);
    assert!(matches!(
        items[0],
        zhlint::lexer::SourceItem::Markup { kind: zhlint::lexer::MarkupKind::ParagraphStart, .. }
    ));
    let has_wrapper = items.iter().any(|i| {
        matches!(
            i,
            zhlint::lexer::SourceItem::Markup { kind: zhlint::lexer::MarkupKind::WrapperStart, .. }
        )
    });
    let has_code = items.iter().any(|i| {
        matches!(
            i,
            zhlint::lexer::SourceItem::Markup { kind: zhlint::lexer::MarkupKind::Code, .. }
        )
    });
    assert!(has_wrapper && has_code);
}
