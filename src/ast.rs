use vstd::prelude::*;

verus! {

/// What an attribute selector asks of the attribute's value.
#[derive(Debug, PartialEq)]
pub enum VSSSelectorAttributeValue {
    /// `[src]`: only that the attribute is there.
    Exists,
    /// `[src="video.mp4"]`: the whole value.
    Equal(String),
    /// `[class~="hoge"]`: one of the whitespace-separated words of the value.
    Contain(String),
    /// `[src^="video"]`: a prefix of the value.
    StartWith(String),
    /// `[src$=".mp4"]`: a suffix of the value.
    EndWith(String),
    /// `[class*="ho"]`: a part of the value.
    Include(String),
}

/// A simple selector: one condition on one element.
#[derive(Debug, PartialEq)]
pub enum VSSSelector {
    /// `*`
    All,
    /// `seq`: the tag name.
    Tag(String),
    /// `.name`: one of the classes.
    Class(String),
    /// `#name`: the id.
    Id(String),
    /// `:after`: a pseudo-class.
    PseudoClass(String),
    /// `[src="video.mp4"]`: an attribute.
    Attribute(String, VSSSelectorAttributeValue),
}

/// A selector: a compound of simple selectors on one element, or a combinator whose left
/// side is the compound on the outer element and whose right side is the rest.
#[derive(Debug, PartialEq)]
pub enum VSSSelectorTree {
    /// `.a.b`: all of them on one element.
    Selectors(Vec<VSSSelector>),
    /// `.a .b`: a descendant.
    Descendant(Vec<VSSSelector>, Box<VSSSelectorTree>),
    /// `.a > .b`: a direct child.
    Child(Vec<VSSSelector>, Box<VSSSelectorTree>),
    /// `.a + .b`: the next sibling.
    Sibling(Vec<VSSSelector>, Box<VSSSelectorTree>),
    /// `.a ~ .b`: a later sibling.
    AdjSibling(Vec<VSSSelector>, Box<VSSSelectorTree>),
}

/// One declaration: `background-color: red`.
#[derive(Debug, PartialEq)]
pub struct Rule {
    pub property: String,
    pub value: String,
}

/// A style block: selectors separated by commas, and the declarations they select.
#[derive(Debug, PartialEq)]
pub struct VSSItem {
    pub selectors: Vec<VSSSelectorTree>,
    pub rules: Vec<Rule>,
}

/// A node of a document: a tag with its attributes (names unique, in document order) and
/// children, or a piece of text.
#[derive(Debug, PartialEq)]
pub enum Element {
    Tag { name: String, attributes: Vec<(String, String)>, children: Vec<Element> },
    Text(String),
}

/// A whole document.
#[derive(Debug, PartialEq)]
pub struct VSML {
    pub meta: Meta,
    pub content: Content,
}

/// What the `meta` element holds: the style blocks, in order.
#[derive(Debug, PartialEq)]
pub struct Meta {
    pub vss_items: Vec<VSSItem>,
}

/// What the `cont` element holds.
#[derive(Debug, PartialEq)]
pub struct Content {
    /// Width of the video, in pixels.
    pub width: u32,
    /// Height of the video, in pixels.
    pub height: u32,
    /// Frames per second, where given.
    pub fps: Option<u32>,
    /// Audio samples per second, where given.
    pub sampling_rate: Option<u32>,
    /// The children of `cont`.
    pub elements: Vec<Element>,
}

} // verus!
