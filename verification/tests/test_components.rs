use zhlint::char_kind::{kind, CharKind};
use zhlint::config::Config;
use zhlint::errors::{Span, ZhlintError};
use zhlint::lexer::{lex, markdown_source, MarkupKind};
use zhlint::nodes::{Node, OffsetValue, ParagraphNodes, Space};
use zhlint::parser::Parser;
use zhlint::run;

#[test]
fn char_kind_test() {
    let chars = [
        '。', '．', '，', '、', '：', '；', '！', '‼', '？', '⁇', '「', '『', '“', '‘', '」',
        '』', '”', '’', '（', '《', '〈', '【', '〖', '〔', '［', '｛', '）', '》', '〉', '】',
        '〗', '〕', '］', '｝', '⸺', '—', '…', '⋯', '～', '-', '–', '·', '・', '‧', '／', '.',
        ',', ':', ';', '!', '?', '"', '\'', '(', '[', '{', ')', ']', '}',
    ];
    for c in chars {
        println!("{c} {:?}", kind(c));
    }
    assert_eq!(kind('。'), CharKind::PunctuationChinesePauseStop);
    assert_eq!(kind('「'), CharKind::PunctuationChineseLeftQuotation);
    assert_eq!(kind('」'), CharKind::PunctuationChineseRightQuotation);
    assert_eq!(kind('（'), CharKind::PunctuationChineseLeftBracket);
    assert_eq!(kind('）'), CharKind::PunctuationChineseRightBracket);
    assert_eq!(kind('—'), CharKind::PunctuationChineseOther);
    assert_eq!(kind('.'), CharKind::PunctuationWesternPauseStop);
    assert_eq!(kind('"'), CharKind::PunctuationWesternQuotation);
    assert_eq!(kind('('), CharKind::PunctuationWesternLeftBracket);
    assert_eq!(kind(')'), CharKind::PunctuationWesternRightBracket);
    assert_eq!(kind('中'), CharKind::LetterFull);
    assert_eq!(kind('a'), CharKind::LetterHalf);
    assert_eq!(kind('7'), CharKind::LetterHalf);
    assert_eq!(kind(' '), CharKind::Space);
}

#[test]
fn lexer_test() {
    let md = "- xxx\n- xxx\n  abc\n";
    for token in lex(md) {
        println!("{:?}", token);
    }
}

#[test]
fn lib_test() {
    let md = "A:\" it *abc*\" end a b c\n老師說：「你們要記住國父說的『青年要立志做大事，不要做大官』這句話。」";
    let report = run(md, &Config::default());
    println!("{}", report.text);
}

#[test]
fn nodes_test() {
    let md = "\n<code></code>\n\n<b>123</b>  345*789* `2123`\n<abc>\n\n<br/>\n\n";
    for item in markdown_source(md) {
        println!("{:?}", item);
    }
}

fn sp(orig: Space, start: usize, end: usize) -> OffsetValue<Space> {
    OffsetValue { original: orig, modified: None, offset: Span { start, end } }
}

fn ch(c: char, start: usize, end: usize) -> OffsetValue<char> {
    OffsetValue { original: c, modified: None, offset: Span { start, end } }
}

#[test]
fn parser_test() {
    let parsed = Parser::new(lex(r#"foo:" bar *baz*" xxx"#)).parse();
    let expected: Vec<Result<ParagraphNodes, ZhlintError>> = vec![Ok(ParagraphNodes(vec![
        Node::Event {
            value: MarkupKind::ParagraphStart,
            offset: Span { start: 0, end: 20 },
            space_after: sp(Space::Empty, 20, 20),
        },
        Node::HalfwidthContent {
            value: "foo".to_string(),
            offset: Span { start: 0, end: 3 },
            space_after: sp(Space::Empty, 3, 3),
        },
        Node::Char { value: ch(':', 3, 4), space_after: sp(Space::Empty, 4, 4) },
        Node::Group {
            start: ch('"', 4, 5),
            inner_space_before: sp(Space::One, 5, 6),
            nodes: vec![
                Node::HalfwidthContent {
                    value: "bar".to_string(),
                    offset: Span { start: 6, end: 9 },
                    space_after: sp(Space::One, 9, 10),
                },
                Node::Event {
                    value: MarkupKind::WrapperStart,
                    offset: Span { start: 10, end: 15 },
                    space_after: sp(Space::Empty, 15, 15),
                },
                Node::HalfwidthContent {
                    value: "baz".to_string(),
                    offset: Span { start: 11, end: 14 },
                    space_after: sp(Space::Empty, 14, 14),
                },
                Node::Event {
                    value: MarkupKind::WrapperEnd,
                    offset: Span { start: 10, end: 15 },
                    space_after: sp(Space::Empty, 15, 15),
                },
            ],
            end: ch('"', 15, 16),
            space_after: sp(Space::One, 16, 17),
        },
        Node::HalfwidthContent {
            value: "xxx".to_string(),
            offset: Span { start: 17, end: 20 },
            space_after: sp(Space::Empty, 20, 20),
        },
    ]))];
    assert_eq!(format!("{:?}", parsed), format!("{:?}", expected));
}
