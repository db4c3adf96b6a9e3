use vsml::ast::{Rule, VSSItem, VSSSelector, VSSSelectorTree};
use vsml::vss_parser::{parse, VSSParseError};

#[test]
fn test_parse() {
    assert_eq!(
        parse(
            "
            seq {
              duration: 1s;
            }
            .subtitles-container txt {
              font-size: 20px;
              font-border-color: red;
            }
            #main-frame {
              width: 100rh;
            }",
        ),
        Ok(vec![
            VSSItem {
                selectors: vec![VSSSelectorTree::Selectors(vec![VSSSelector::Tag(
                    "seq".to_string()
                )])],
                rules: vec![Rule {
                    property: "duration".to_string(),
                    value: "1s".to_string()
                },]
            },
            VSSItem {
                selectors: vec![VSSSelectorTree::Descendant(
                    vec![VSSSelector::Class("subtitles-container".to_string())],
                    Box::new(VSSSelectorTree::Selectors(vec![VSSSelector::Tag(
                        "txt".to_string()
                    )])),
                )],
                rules: vec![
                    Rule {
                        property: "font-size".to_string(),
                        value: "20px".to_string()
                    },
                    Rule {
                        property: "font-border-color".to_string(),
                        value: "red".to_string()
                    },
                ]
            },
            VSSItem {
                selectors: vec![VSSSelectorTree::Selectors(vec![VSSSelector::Id(
                    "main-frame".to_string()
                )])],
                rules: vec![Rule {
                    property: "width".to_string(),
                    value: "100rh".to_string()
                },]
            }
        ])
    );
}

#[test]
fn parse_combinators_lists_and_comments() {
    let items = parse(
        "/* top */ .a > .b, prl ~ *:first  { background-color : rgba(100,150,200,128) ; order: parallel }",
    )
    .unwrap();
    assert_eq!(
        items,
        vec![VSSItem {
            selectors: vec![
                VSSSelectorTree::Child(
                    vec![VSSSelector::Class("a".to_string())],
                    Box::new(VSSSelectorTree::Selectors(vec![VSSSelector::Class(
                        "b".to_string()
                    )])),
                ),
                VSSSelectorTree::AdjSibling(
                    vec![VSSSelector::Tag("prl".to_string())],
                    Box::new(VSSSelectorTree::Selectors(vec![
                        VSSSelector::All,
                        VSSSelector::PseudoClass("first".to_string())
                    ])),
                ),
            ],
            rules: vec![
                Rule {
                    property: "background-color".to_string(),
                    value: "rgba(100,150,200,128)".to_string()
                },
                Rule {
                    property: "order".to_string(),
                    value: "parallel".to_string()
                },
            ],
        }]
    );
}

#[test]
fn parse_empty_sheet() {
    assert_eq!(parse(""), Ok(vec![]));
    assert_eq!(parse("  \n /* nothing */ \t"), Ok(vec![]));
    assert_eq!(parse("a {}"), Ok(vec![VSSItem {
        selectors: vec![VSSSelectorTree::Selectors(vec![VSSSelector::Tag("a".to_string())])],
        rules: vec![],
    }]));
}

#[test]
fn parse_refuses_broken_sheets() {
    assert!(matches!(parse("seq { duration: 1s;"), Err(VSSParseError::UnexpectedInput(_))));
    assert!(matches!(parse("{ duration: 1s; }"), Err(VSSParseError::UnexpectedInput(_))));
    assert!(matches!(parse("seq { : 1s; }"), Err(VSSParseError::UnexpectedInput(_))));
    assert!(matches!(parse("seq { duration 1s; }"), Err(VSSParseError::UnexpectedInput(_))));
    assert!(matches!(parse("/* open"), Err(VSSParseError::UnexpectedInput(_))));
}

fn skip(text: &str) -> String {
    let cs: Vec<char> = text.chars().collect();
    let at = vsml::vss_parser::skip_trivia_at(&cs, 0);
    cs[at..].iter().collect()
}

// Unlike a reader of comments alone, skip_trivia_at also passes over whitespace, so an input
// that starts with a space is skipped through too.
#[test]
fn test_skip_comment() {
    assert_eq!(skip("/* comment */"), "");
    assert_eq!(skip("/* comment */hoge"), "hoge");
    assert_eq!(skip("/* comment *//* comment */"), "");
    assert_eq!(skip("/* 10 * 2 = 20 */hoge"), "hoge");
    assert_eq!(skip(" /* 10 * 2 = 20 */"), "");
    assert_eq!(skip("/* 10 * 2 = 20"), "/* 10 * 2 = 20");
}
