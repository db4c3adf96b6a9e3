use vsml::ast::{Element, Rule, VSSItem, VSSSelector, VSSSelectorTree};
use vsml::selector::VssScanner;

fn create_element(name: &str, class: Option<&str>, id: Option<&str>) -> Element {
    let mut attributes = Vec::new();
    if let Some(class_name) = class {
        attributes.push(("class".to_string(), class_name.to_string()));
    }
    if let Some(id_name) = id {
        attributes.push(("id".to_string(), id_name.to_string()));
    }
    Element::Tag {
        name: name.to_string(),
        attributes,
        children: vec![],
    }
}

fn create_rule(property: &str, value: &str) -> Rule {
    Rule {
        property: property.to_string(),
        value: value.to_string(),
    }
}

fn create_descendant_selector(parent_class: &str, child_class: &str) -> VSSSelectorTree {
    VSSSelectorTree::Descendant(
        vec![VSSSelector::Class(parent_class.to_string())],
        Box::new(VSSSelectorTree::Selectors(vec![VSSSelector::Class(
            child_class.to_string(),
        )])),
    )
}

#[test]
fn matches_simple_descendant_selector() {
    let parent = create_element("div", Some("parent"), None);
    let child = create_element("div", Some("child"), None);
    let elements = vec![parent];
    let child_elements = vec![child];

    let rule = create_rule("color", "red");
    let vss_items = vec![VSSItem {
        selectors: vec![create_descendant_selector("parent", "child")],
        rules: vec![rule],
    }];

    let mut scanner = VssScanner::new(&vss_items);
    scanner.traverse_stack = vec![&elements, &child_elements];

    assert_eq!(scanner.scan().unwrap().len(), 1);
}

#[test]
fn no_match_for_non_existent_class() {
    let parent = create_element("div", Some("parent"), None);
    let child = create_element("div", Some("other"), None);
    let elements = vec![parent];
    let child_elements = vec![child];

    let rule = create_rule("color", "red");
    let vss_items = vec![VSSItem {
        selectors: vec![create_descendant_selector("parent", "child")],
        rules: vec![rule],
    }];

    let mut scanner = VssScanner::new(&vss_items);
    scanner.traverse_stack = vec![&elements, &child_elements];

    assert_eq!(scanner.scan().unwrap().len(), 0);
}

#[test]
fn matches_multiple_rules() {
    let parent = create_element("div", Some("parent"), None);
    let child = create_element("div", Some("child"), None);
    let elements = vec![parent];
    let child_elements = vec![child];

    let vss_items = vec![VSSItem {
        selectors: vec![create_descendant_selector("parent", "child")],
        rules: vec![
            create_rule("color", "red"),
            create_rule("background", "blue"),
        ],
    }];

    let mut scanner = VssScanner::new(&vss_items);
    scanner.traverse_stack = vec![&elements, &child_elements];

    assert_eq!(scanner.scan().unwrap().len(), 2);
}

#[test]
fn no_match_for_incorrect_hierarchy() {
    let root = create_element("tag", Some("a"), None);
    let middle = create_element("tag", Some("b"), None);
    let leaf = create_element("tag", Some("c"), None);

    let root_elements = vec![root];
    let middle_elements = vec![middle];
    let leaf_elements = vec![leaf];

    let vss_items = vec![VSSItem {
        selectors: vec![VSSSelectorTree::Descendant(
            vec![VSSSelector::Class("b".to_string())],
            Box::new(VSSSelectorTree::Descendant(
                vec![VSSSelector::Class("a".to_string())],
                Box::new(VSSSelectorTree::Selectors(vec![VSSSelector::Class(
                    "c".to_string(),
                )])),
            )),
        )],
        rules: vec![create_rule("color", "red")],
    }];

    let mut scanner = VssScanner::new(&vss_items);
    scanner.traverse_stack = vec![&root_elements, &middle_elements, &leaf_elements];

    assert_eq!(scanner.scan().unwrap().len(), 0);
}

#[test]
fn matches_direct_child() {
    let parent = create_element("div", Some("parent"), None);
    let child = create_element("div", Some("child"), None);
    let parent_elements = vec![parent];
    let child_elements = vec![child];

    let vss_items = vec![VSSItem {
        selectors: vec![VSSSelectorTree::Child(
            vec![VSSSelector::Class("parent".to_string())],
            Box::new(VSSSelectorTree::Selectors(vec![VSSSelector::Class(
                "child".to_string(),
            )])),
        )],
        rules: vec![create_rule("color", "red")],
    }];

    let mut scanner = VssScanner::new(&vss_items);
    scanner.traverse_stack = vec![&parent_elements, &child_elements];

    assert_eq!(scanner.scan().unwrap().len(), 1);
}

#[test]
fn no_match_for_indirect_child() {
    let root = create_element("div", Some("parent"), None);
    let middle = create_element("div", Some("middle"), None);
    let leaf = create_element("div", Some("child"), None);
    let root_elements = vec![root];
    let middle_elements = vec![middle];
    let leaf_elements = vec![leaf];

    let vss_items = vec![VSSItem {
        selectors: vec![VSSSelectorTree::Child(
            vec![VSSSelector::Class("parent".to_string())],
            Box::new(VSSSelectorTree::Selectors(vec![VSSSelector::Class(
                "child".to_string(),
            )])),
        )],
        rules: vec![create_rule("color", "red")],
    }];

    let mut scanner = VssScanner::new(&vss_items);
    scanner.traverse_stack = vec![&root_elements, &middle_elements, &leaf_elements];

    assert_eq!(scanner.scan().unwrap().len(), 0);
}

#[test]
fn matches_nested_child_selectors() {
    let root = create_element("div", Some("parent"), None);
    let middle = create_element("div", Some("middle"), None);
    let leaf = create_element("div", Some("child"), None);
    let root_elements = vec![root];
    let middle_elements = vec![middle];
    let leaf_elements = vec![leaf];

    let vss_items = vec![VSSItem {
        selectors: vec![VSSSelectorTree::Child(
            vec![VSSSelector::Class("parent".to_string())],
            Box::new(VSSSelectorTree::Child(
                vec![VSSSelector::Class("middle".to_string())],
                Box::new(VSSSelectorTree::Selectors(vec![VSSSelector::Class(
                    "child".to_string(),
                )])),
            )),
        )],
        rules: vec![create_rule("color", "red")],
    }];

    let mut scanner = VssScanner::new(&vss_items);
    scanner.traverse_stack = vec![&root_elements, &middle_elements, &leaf_elements];

    assert_eq!(scanner.scan().unwrap().len(), 1);
}

#[test]
fn no_match_for_wrong_child_order() {
    let root = create_element("div", Some("parent"), None);
    let middle = create_element("div", Some("child"), None);
    let leaf = create_element("div", Some("middle"), None);
    let root_elements = vec![root];
    let middle_elements = vec![middle];
    let leaf_elements = vec![leaf];

    let vss_items = vec![VSSItem {
        selectors: vec![VSSSelectorTree::Child(
            vec![VSSSelector::Class("parent".to_string())],
            Box::new(VSSSelectorTree::Child(
                vec![VSSSelector::Class("middle".to_string())],
                Box::new(VSSSelectorTree::Selectors(vec![VSSSelector::Class(
                    "child".to_string(),
                )])),
            )),
        )],
        rules: vec![create_rule("color", "red")],
    }];

    let mut scanner = VssScanner::new(&vss_items);
    scanner.traverse_stack = vec![&root_elements, &middle_elements, &leaf_elements];

    assert_eq!(scanner.scan().unwrap().len(), 0);
}

#[test]
fn mixed_child_and_descendant() {
    let root = create_element("div", Some("parent"), None);
    let middle = create_element("div", Some("middle"), None);
    let other = create_element("div", Some("other"), None);
    let child = create_element("div", Some("child"), None);
    let root_elements = vec![root];
    let middle_elements = vec![middle];
    let other_elements = vec![other];
    let child_elements = vec![child];

    let vss_items = vec![VSSItem {
        selectors: vec![VSSSelectorTree::Child(
            vec![VSSSelector::Class("parent".to_string())],
            Box::new(VSSSelectorTree::Descendant(
                vec![VSSSelector::Class("middle".to_string())],
                Box::new(VSSSelectorTree::Selectors(vec![VSSSelector::Class(
                    "child".to_string(),
                )])),
            )),
        )],
        rules: vec![create_rule("color", "red")],
    }];

    let mut scanner = VssScanner::new(&vss_items);
    scanner.traverse_stack = vec![
        &root_elements,
        &middle_elements,
        &other_elements,
        &child_elements,
    ];

    assert_eq!(scanner.scan().unwrap().len(), 1);
}

#[test]
fn matches_simple_selector() {
    let element = create_element("div", Some("test"), None);
    let elements = vec![element];

    let rule = create_rule("color", "red");
    let vss_items = vec![VSSItem {
        selectors: vec![VSSSelectorTree::Selectors(vec![VSSSelector::Class(
            "test".to_string(),
        )])],
        rules: vec![rule],
    }];

    let mut scanner = VssScanner::new(&vss_items);
    scanner.traverse_stack = vec![&elements];

    assert_eq!(scanner.scan().unwrap().len(), 1);
}

#[test]
fn unsupported_selector_is_refused() {
    let element = create_element("div", Some("test"), None);
    let elements = vec![element];
    let vss_items = vec![
        VSSItem {
            selectors: vec![VSSSelectorTree::Selectors(vec![VSSSelector::Class(
                "test".to_string(),
            )])],
            rules: vec![create_rule("color", "red")],
        },
        VSSItem {
            selectors: vec![VSSSelectorTree::Selectors(vec![VSSSelector::PseudoClass(
                "hover".to_string(),
            )])],
            rules: vec![create_rule("color", "blue")],
        },
    ];
    let mut scanner = VssScanner::new(&vss_items);
    scanner.traverse_stack = vec![&elements];
    assert_eq!(
        scanner.scan().err(),
        Some(vsml::selector::SelectorError::Unsupported)
    );

    let sibling_items = vec![VSSItem {
        selectors: vec![VSSSelectorTree::Sibling(
            vec![VSSSelector::Tag("div".to_string())],
            Box::new(VSSSelectorTree::Selectors(vec![VSSSelector::All])),
        )],
        rules: vec![create_rule("color", "red")],
    }];
    let mut scanner = VssScanner::new(&sibling_items);
    scanner.traverse_stack = vec![&elements];
    assert!(scanner.scan().is_err());
}

#[test]
fn rules_come_in_written_order() {
    let element = create_element("seq", Some("x y"), Some("main"));
    let elements = vec![element];
    let vss_items = vec![
        VSSItem {
            selectors: vec![VSSSelectorTree::Selectors(vec![VSSSelector::Id(
                "main".to_string(),
            )])],
            rules: vec![create_rule("order", "parallel")],
        },
        VSSItem {
            selectors: vec![VSSSelectorTree::Selectors(vec![VSSSelector::Tag(
                "prl".to_string(),
            )])],
            rules: vec![create_rule("order", "sequence")],
        },
        VSSItem {
            selectors: vec![
                VSSSelectorTree::Selectors(vec![VSSSelector::Class("z".to_string())]),
                VSSSelectorTree::Selectors(vec![
                    VSSSelector::Tag("seq".to_string()),
                    VSSSelector::Class("y".to_string()),
                ]),
            ],
            rules: vec![
                create_rule("layer-mode", "single"),
                create_rule("background-color", "rgba(100,150,200,128)"),
            ],
        },
    ];
    let mut scanner = VssScanner::new(&vss_items);
    scanner.traverse_stack = vec![&elements];
    let rules = scanner.scan().unwrap();
    let names: Vec<&str> = rules.iter().map(|r| r.property.as_str()).collect();
    assert_eq!(names, vec!["order", "layer-mode", "background-color"]);
}

#[test]
fn traverse_pushes_and_pops_a_level() {
    let parent = create_element("div", Some("b"), None);
    let child = create_element("div", Some("a"), None);
    let parents = vec![parent];
    let children = vec![child];
    let vss_items = vec![VSSItem {
        selectors: vec![create_descendant_selector("b", "a")],
        rules: vec![create_rule("color", "red")],
    }];
    let scanner = VssScanner::new(&vss_items);
    let count = scanner.traverse(&parents, |s| {
        s.traverse(&children, |s| s.scan().unwrap().len())
    });
    assert_eq!(count, 1);
    assert!(scanner.traverse_stack.is_empty());
}

#[test]
fn text_never_matches() {
    let text = vec![Element::Text("hello".to_string())];
    let vss_items = vec![VSSItem {
        selectors: vec![VSSSelectorTree::Selectors(vec![VSSSelector::All])],
        rules: vec![create_rule("color", "red")],
    }];
    let mut scanner = VssScanner::new(&vss_items);
    scanner.traverse_stack = vec![&text];
    assert_eq!(scanner.scan().unwrap().len(), 0);
}
