use vsml::ast::{Content, Element, Meta, Rule, VSSItem, VSSSelector, VSSSelectorTree, VSML};
use vsml::number::parse_u32;
use vsml::vsml::{parse, parse_resolution, VSMLParseError, VSSLoader};

struct FixedLoader;

impl VSSLoader for FixedLoader {
    type Err = std::convert::Infallible;

    fn load(&self, _path: &str) -> Result<String, Self::Err> {
        Ok(".styled { font-color: red; }".to_owned())
    }
}

struct FailingLoader;

impl VSSLoader for FailingLoader {
    type Err = String;

    fn load(&self, path: &str) -> Result<String, Self::Err> {
        Err(format!("cannot read {path}"))
    }
}

#[test]
fn test_parse_vsml() {
    let vsml = r#"<vsml>
  <meta>
    <style src="hoge.vss" />
    <style>
      prl {
        height: 100rh;
      }
    </style>
  </meta>
  <cont resolution="1920x1080" fps="30">
    <prl>
      <img src="yellow.jpg" />
      <layer>
        <txt class="styled">これは文章です</txt>
        <txt class="styled">これもまた文章です</txt>
      </layer>
    </prl>
  </cont>
</vsml>"#;
    let mock_vss_loader = FixedLoader;
    assert_eq!(
        parse(vsml, &mock_vss_loader),
        Ok(VSML {
            meta: Meta {
                vss_items: vec![
                    VSSItem {
                        selectors: vec![VSSSelectorTree::Selectors(vec![VSSSelector::Class(
                            "styled".to_owned()
                        )])],
                        rules: vec![Rule {
                            property: "font-color".to_owned(),
                            value: "red".to_owned(),
                        },],
                    },
                    VSSItem {
                        selectors: vec![VSSSelectorTree::Selectors(vec![VSSSelector::Tag(
                            "prl".to_owned()
                        )])],
                        rules: vec![Rule {
                            property: "height".to_owned(),
                            value: "100rh".to_owned(),
                        }],
                    },
                ],
            },
            content: Content {
                width: 1920,
                height: 1080,
                fps: Some(30),
                sampling_rate: None,
                elements: vec![Element::Tag {
                    name: "prl".to_owned(),
                    attributes: vec![],
                    children: vec![
                        Element::Tag {
                            name: "img".to_owned(),
                            attributes: vec![("src".to_owned(), "yellow.jpg".to_owned())],
                            children: vec![],
                        },
                        Element::Tag {
                            name: "layer".to_owned(),
                            attributes: vec![],
                            children: vec![
                                Element::Tag {
                                    name: "txt".to_owned(),
                                    attributes: vec![("class".to_owned(), "styled".to_owned())],
                                    children: vec![Element::Text("これは文章です".to_owned()),],
                                },
                                Element::Tag {
                                    name: "txt".to_owned(),
                                    attributes: vec![("class".to_owned(), "styled".to_owned())],
                                    children: vec![Element::Text(
                                        "これもまた文章です".to_owned()
                                    ),],
                                },
                            ],
                        },
                    ],
                },],
            },
        })
    );
}

#[test]
fn test_parse_vsml_ecsaping() {
    let vsml = r#"<vsml>
<meta></meta>
<cont resolution="1920x1080" fps="30">
    <!-- space, line feed, tab, < > & " ' and a circled katakana -->
    <txt attribute="&#x20;&#x0A;&#x09;&lt;&gt;&amp;&quot;&apos;&#x32D0;">
        <!-- the same, with more whitespace -->
        &#x20;&#x0A;&#x09;&lt;&#x20;  &#x0A;&#x09;
&gt;&amp;&quot;&apos;&#x32D0;
    </txt>
</cont>
</vsml>"#;
    let mock_vss_loader = FixedLoader;
    assert_eq!(
        parse(vsml, &mock_vss_loader),
        Ok(VSML {
            meta: Meta { vss_items: vec![] },
            content: Content {
                width: 1920,
                height: 1080,
                fps: Some(30),
                sampling_rate: None,
                elements: vec![Element::Tag {
                    name: "txt".to_owned(),
                    attributes: vec![(
                        "attribute".to_owned(),
                        " \n\t<>&\"'㋐".to_owned()
                    )],
                    children: vec![Element::Text("<   \n\t\n>&\"'㋐".to_owned())]
                }],
            },
        })
    );
}

fn parse_doc(text: &str) -> Result<VSML, VSMLParseError<std::convert::Infallible>> {
    parse(text, &FixedLoader)
}

#[test]
fn document_structure_errors() {
    assert!(matches!(parse_doc("<vsml>"), Err(VSMLParseError::XMLParseError(_))));
    assert_eq!(parse_doc("<root/>"), Err(VSMLParseError::RootNodeNameError));
    assert_eq!(parse_doc("<!-- c --><vsml/>"), Err(VSMLParseError::MultipleRootNodesError));
    assert_eq!(parse_doc("<vsml></vsml>"), Err(VSMLParseError::ContentElementNotFoundError));
    assert_eq!(
        parse_doc(r#"<vsml><cont resolution="1x1"/><cont resolution="1x1"/></vsml>"#),
        Err(VSMLParseError::MultipleContentElementsError)
    );
    assert_eq!(
        parse_doc(r#"<vsml><meta/><meta/><cont resolution="1x1"/></vsml>"#),
        Err(VSMLParseError::MultipleMetaElementsError)
    );
    assert_eq!(
        parse_doc(r#"<vsml>text<cont resolution="1x1"/></vsml>"#),
        Err(VSMLParseError::InvalidElementInVSMLError)
    );
    assert_eq!(
        parse_doc(r#"<vsml><meta><script/></meta><cont resolution="1x1"/></vsml>"#),
        Err(VSMLParseError::InvalidElementInMetaError)
    );
    assert_eq!(
        parse_doc(r#"<vsml><meta><style/></meta><cont resolution="1x1"/></vsml>"#),
        Err(VSMLParseError::NoSrcAndTextInStyleError)
    );
    assert_eq!(
        parse_doc(r#"<vsml><meta><style src="a.vss">a {}</style></meta><cont resolution="1x1"/></vsml>"#),
        Err(VSMLParseError::BothSrcAndTextInStyleError)
    );
    assert!(matches!(
        parse_doc(r#"<vsml><meta><style>a {</style></meta><cont resolution="1x1"/></vsml>"#),
        Err(VSMLParseError::VSSParseError(_))
    ));
}

#[test]
fn style_loader_failure_is_reported() {
    let result = parse(
        r#"<vsml><meta><style src="a.vss"/></meta><cont resolution="1x1"/></vsml>"#,
        &FailingLoader,
    );
    assert_eq!(
        result,
        Err(VSMLParseError::VSSLoadError("cannot read a.vss".to_string()))
    );
}

#[test]
fn content_attribute_errors() {
    assert_eq!(parse_doc("<vsml><cont/></vsml>"), Err(VSMLParseError::ResolutionNotFound));
    assert_eq!(
        parse_doc(r#"<vsml><cont resolution="1920"/></vsml>"#),
        Err(VSMLParseError::InvalidResolutionValue("1920".to_string()))
    );
    assert_eq!(
        parse_doc(r#"<vsml><cont resolution="1920x1080" fps="sixty"/></vsml>"#),
        Err(VSMLParseError::InvalidFPSValue("sixty".to_string()))
    );
    assert_eq!(
        parse_doc(r#"<vsml><cont resolution="1920x1080" sample-rate="-1"/></vsml>"#),
        Err(VSMLParseError::InvalidSampleRateValue("-1".to_string()))
    );
    let doc = parse_doc(r#"<vsml><cont resolution="640x480" fps="24" sample-rate="44100"><seq/></cont></vsml>"#).unwrap();
    assert_eq!(doc.content.width, 640);
    assert_eq!(doc.content.height, 480);
    assert_eq!(doc.content.fps, Some(24));
    assert_eq!(doc.content.sampling_rate, Some(44100));
    assert_eq!(doc.content.elements.len(), 1);
}

#[test]
fn numbers_and_resolutions() {
    assert_eq!(parse_u32("0"), Some(0));
    assert_eq!(parse_u32("+30"), Some(30));
    assert_eq!(parse_u32("4294967295"), Some(u32::MAX));
    assert_eq!(parse_u32("4294967296"), None);
    assert_eq!(parse_u32(""), None);
    assert_eq!(parse_u32("+"), None);
    assert_eq!(parse_u32("1 "), None);
    assert_eq!(parse_resolution("1920x1080"), Some((1920, 1080)));
    assert_eq!(parse_resolution("1920x1080x2"), None);
    assert_eq!(parse_resolution("x1080"), None);
}
