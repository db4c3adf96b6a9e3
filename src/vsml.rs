use crate::ast::{Content, Element, Meta, VSSItem, VSML};
use crate::selector::attr_value;
use crate::number::{parse_u32, u32_of};
use crate::text::{chars_of, str_is, string_of, trim, trimmed};
use crate::vss_parser::VSSParseError;
use roxmltree::NodeType;
use roxmltree::NodeType::{Comment, Root, Text, PI};
use vstd::prelude::*;

verus! {

/// What kind of node an XML record is.
#[derive(Clone, Copy, Debug, PartialEq, Eq, Hash, Structural)]
pub enum XmlKind {
    Root,
    Element,
    Text,
    Instruction,
    Comment,
}

/// One node of a parsed XML document, below the root. Nodes are numbered in document order
/// from 1 (the root is 0); the record of node `i + 1` stands at index `i`.
pub struct XmlRecord {
    /// The number of the parent node.
    pub parent: usize,
    pub kind: XmlKind,
    /// The tag name of an element; empty for other nodes.
    pub name: String,
    /// The attributes of an element, in document order.
    pub attributes: Vec<(String, String)>,
    /// The text of a text node or a comment; for an element, the text of its first child
    /// where that is a text node.
    pub text: String,
}

/// The nodes of the XML document `text`, or `None` where it is not well-formed XML.
pub uninterp spec fn xml_records_of(text: Seq<char>) -> Option<Seq<XmlRecord>>;

/// Relies on `roxmltree::Document::parse`, and on its node store: `descendants` of the root
/// walks the nodes in the order of their ids, and every node was appended after its parent.
#[verifier::external_body]
fn read_xml(text: &str) -> (r: Result<Vec<XmlRecord>, String>)
    ensures
        match xml_records_of(text@) {
            Some(v) => r matches Ok(w) && w@ == v,
            None => r is Err,
        },
        r matches Ok(w) ==> forall|i: int| 0 <= i < w@.len() ==> #[trigger] w@[i].parent <= i,
{
    let doc = roxmltree::Document::parse(text).map_err(|e| e.to_string())?;
    Ok(doc.descendants().skip(1).map(|n| XmlRecord {
        parent: n.parent().map_or(0, |p| p.id().get_usize()),
        kind: match n.node_type() {
            Root => XmlKind::Root,
            NodeType::Element => XmlKind::Element,
            Text => XmlKind::Text,
            PI => XmlKind::Instruction,
            Comment => XmlKind::Comment,
        },
        name: n.tag_name().name().to_string(),
        attributes: n.attributes().map(|a| (a.name().to_string(), a.value().to_string())).collect(),
        text: n.text().unwrap_or_default().to_string(),
    }).collect())
}

/// Loads the style sheet that a `style` element names by its `src` attribute.
pub trait VSSLoader {
    type Err;

    fn load(&self, path: &str) -> Result<String, Self::Err>;
}

/// Why a document was refused.
#[derive(Debug, PartialEq)]
pub enum VSMLParseError<VSSError> {
    /// Not well-formed XML; the message of the XML reader.
    XMLParseError(String),
    /// A style sheet named by `src` could not be loaded.
    VSSLoadError(VSSError),
    /// A style sheet could not be read.
    VSSParseError(VSSParseError),
    /// A `style` element has both `src` and text.
    BothSrcAndTextInStyleError,
    /// A `style` element has neither `src` nor text.
    NoSrcAndTextInStyleError,
    /// The document has more than one top-level node.
    MultipleRootNodesError,
    /// The top-level element is not `vsml`.
    RootNodeNameError,
    /// `vsml` holds more than one `meta`.
    MultipleMetaElementsError,
    /// `vsml` holds more than one `cont`.
    MultipleContentElementsError,
    /// `vsml` holds something other than `meta`, `cont`, comments and whitespace.
    InvalidElementInVSMLError,
    /// `meta` holds something other than `style`, comments and whitespace.
    InvalidElementInMetaError,
    /// `vsml` holds no `cont`.
    ContentElementNotFoundError,
    /// The `resolution` attribute is not `<width>x<height>`.
    InvalidResolutionValue(String),
    /// The `fps` attribute is not a number.
    InvalidFPSValue(String),
    /// The `sample-rate` attribute is not a number.
    InvalidSampleRateValue(String),
    /// `cont` has no `resolution` attribute.
    ResolutionNotFound,
}

/// The width and height that a `resolution` value gives: the text before and after its
/// first `x`, each a `u32`.
pub open spec fn resolution_of(s: Seq<char>) -> Option<(u32, u32)> {
    if exists|k: int| 0 <= k < s.len() && s[k] == 'x' {
        let k = choose|k: int|
            0 <= k < s.len() && s[k] == 'x' && forall|j: int| 0 <= j < k ==> s[j] != 'x';
        match (u32_of(s.subrange(0, k)), u32_of(s.subrange(k + 1, s.len() as int))) {
            (Some(w), Some(h)) => Some((w, h)),
            _ => None,
        }
    } else {
        None
    }
}

/// Reads a `resolution` value: `<width>x<height>`.
pub fn parse_resolution(s: &str) -> (r: Option<(u32, u32)>)
    ensures
        r == resolution_of(s@),
{
    let cs = chars_of(s);
    let mut k: usize = 0;
    while k < cs.len() && cs[k] != 'x'
        invariant
            k <= cs@.len(),
            cs@ == s@,
            forall|j: int| 0 <= j < k ==> cs@[j] != 'x',
        decreases cs@.len() - k,
    {
        k = k + 1;
    }
    if k == cs.len() {
        return None;
    }
    let w = string_of(cs.as_slice().split_at(k).0);
    let h = string_of(cs.as_slice().split_at(k + 1).1);
    assert(w@ =~= s@.subrange(0, k as int));
    assert(h@ =~= s@.subrange(k + 1, s@.len() as int));
    proof {
        let kk = choose|kk: int|
            0 <= kk < s@.len() && s@[kk] == 'x' && forall|j: int| 0 <= j < kk ==> s@[j] != 'x';
        assert(kk == k) by {
            if kk < k {
                assert(cs@[kk] != 'x');
            } else if kk > k {
                assert(s@[k as int] != 'x');
            }
        }
    }
    match (parse_u32(w.as_str()), parse_u32(h.as_str())) {
        (Some(width), Some(height)) => Some((width, height)),
        _ => None,
    }
}

/// The indices of the records whose parent is node `p`, among the first `n`, in order.
pub open spec fn child_records(recs: Seq<XmlRecord>, p: int, n: int) -> Seq<int>
    decreases n,
{
    if n <= 0 {
        Seq::empty()
    } else if recs[n - 1].parent == p {
        child_records(recs, p, n - 1).push(n - 1)
    } else {
        child_records(recs, p, n - 1)
    }
}

/// Whether every node comes after its parent.
pub open spec fn parents_before(recs: Seq<XmlRecord>) -> bool {
    forall|i: int| 0 <= i < recs.len() ==> #[trigger] recs[i].parent <= i
}

/// The indices of the records whose parent is node `p`, in order.
fn children_of(recs: &Vec<XmlRecord>, p: usize) -> (r: Vec<usize>)
    ensures
        r@.map_values(|i: usize| i as int) == child_records(recs@, p as int, recs@.len() as int),
        forall|k: int| 0 <= k < r@.len() ==> #[trigger] r@[k] < recs@.len() && recs@[r@[k] as int].parent == p,
{
    let mut out: Vec<usize> = Vec::new();
    let mut i: usize = 0;
    while i < recs.len()
        invariant
            i <= recs@.len(),
            out@.map_values(|i: usize| i as int) == child_records(recs@, p as int, i as int),
            forall|k: int| 0 <= k < out@.len() ==> #[trigger] out@[k] < i && recs@[out@[k] as int].parent == p,
        decreases recs@.len() - i,
    {
        if recs[i].parent == p {
            let ghost before = out@;
            out.push(i);
            assert(out@.map_values(|i: usize| i as int) =~= before.map_values(|i: usize| i as int).push(i as int));
        }
        i = i + 1;
    }
    out
}

/// The value of the attribute `key` of a record.
fn record_attribute(rec: &XmlRecord, key: &str) -> (r: Option<String>)
    ensures
        match attr_value(rec.attributes@, key@) {
            Some(v) => r matches Some(s) && s@ == v,
            None => r is None,
        },
{
    match crate::selector::attribute(&rec.attributes, key) {
        Some(v) => Some(string_of(chars_of(v.as_str()).as_slice())),
        None => None,
    }
}

/// Whether a text record holds only whitespace.
fn blank_text(rec: &XmlRecord) -> (r: bool)
    ensures
        r == (trim(rec.text@).len() == 0),
{
    let cs = chars_of(rec.text.as_str());
    trimmed(cs.as_slice()).len() == 0
}

/// Whether record `j` becomes an element: an element, or a text with something left after
/// trimming. Comments and processing instructions become nothing.
pub open spec fn kept(recs: Seq<XmlRecord>, j: int) -> bool {
    recs[j].kind == XmlKind::Element || (recs[j].kind == XmlKind::Text && trim(recs[j].text@).len()
        > 0)
}

/// The records among `ids` that become elements, in order.
pub open spec fn kept_ids(recs: Seq<XmlRecord>, ids: Seq<int>) -> Seq<int>
    decreases ids.len(),
{
    if ids.len() == 0 {
        Seq::empty()
    } else {
        let before = kept_ids(recs, ids.drop_last());
        if kept(recs, ids.last()) {
            before.push(ids.last())
        } else {
            before
        }
    }
}

/// Whether `es` are the elements that the children of record `i` become, in order.
pub open spec fn children_from(recs: Seq<XmlRecord>, i: int, es: Seq<Element>) -> bool
    decreases recs.len() - i, 0int,
{
    let ks = kept_ids(recs, child_records(recs, i + 1, recs.len() as int));
    &&& es.len() == ks.len()
    &&& forall|k: int|
        0 <= k < ks.len() ==> i < #[trigger] ks[k] < recs.len() && element_from(recs, ks[k], es[k])
}

/// Whether `e` is the element that record `i` becomes: an element keeps its name and
/// attributes and holds what its children become; a text becomes its trimmed text.
pub open spec fn element_from(recs: Seq<XmlRecord>, i: int, e: Element) -> bool
    decreases recs.len() - i, 1int,
{
    if !(0 <= i < recs.len()) {
        false
    } else {
        match e {
            Element::Tag { name, attributes, children } => {
                &&& recs[i].kind == XmlKind::Element
                &&& name@ == recs[i].name@
                &&& attr_views(attributes@) == attr_views(recs[i].attributes@)
                &&& children_from(recs, i, children@)
            },
            Element::Text(t) => recs[i].kind == XmlKind::Text && t@ == trim(recs[i].text@) && t@.len()
                > 0,
        }
    }
}

/// The elements that the children of record `i` become, in order.
fn convert_children(recs: &Vec<XmlRecord>, i: usize) -> (r: Vec<Element>)
    requires
        i < recs@.len() < usize::MAX,
        parents_before(recs@),
    ensures
        children_from(recs@, i as int, r@),
    decreases recs@.len() - i, 0int,
{
    let ids = children_of(recs, i + 1);
    let ghost all = ids@.map_values(|x: usize| x as int);
    let mut children: Vec<Element> = Vec::new();
    let mut k: usize = 0;
    while k < ids.len()
        invariant
            i < recs@.len() < usize::MAX,
            parents_before(recs@),
            k <= ids@.len(),
            all == ids@.map_values(|x: usize| x as int),
            all == child_records(recs@, i + 1, recs@.len() as int),
            forall|j: int| 0 <= j < ids@.len() ==> #[trigger] ids@[j] < recs@.len() && recs@[ids@[j] as int].parent == i + 1,
            children@.len() == kept_ids(recs@, all.subrange(0, k as int)).len(),
            forall|m: int|
                0 <= m < children@.len() ==> i < #[trigger] kept_ids(recs@, all.subrange(0, k as int))[m]
                    < recs@.len() && element_from(
                    recs@,
                    kept_ids(recs@, all.subrange(0, k as int))[m],
                    children@[m],
                ),
        decreases ids@.len() - k,
    {
        let j = ids[k];
        assert(recs@[j as int].parent <= j);
        let ghost pre = all.subrange(0, k as int);
        let ghost next = all.subrange(0, k + 1);
        assert(next.drop_last() =~= pre);
        assert(next.last() == j as int);
        let ghost before = children@;
        match convert_record(recs, j) {
            Some(e) => {
                children.push(e);
                assert forall|m: int| 0 <= m < children@.len() implies i < #[trigger] kept_ids(
                    recs@,
                    next,
                )[m] < recs@.len() && element_from(recs@, kept_ids(recs@, next)[m], children@[m]) by {
                    if m < before.len() {
                        assert(kept_ids(recs@, next)[m] == kept_ids(recs@, pre)[m]);
                        assert(children@[m] == before[m]);
                    }
                }
            },
            None => {},
        }
        k = k + 1;
    }
    assert(all.subrange(0, k as int) =~= all);
    children
}

/// The element that record `i` becomes, where it becomes one.
fn convert_record(recs: &Vec<XmlRecord>, i: usize) -> (r: Option<Element>)
    requires
        i < recs@.len() < usize::MAX,
        parents_before(recs@),
    ensures
        match r {
            Some(e) => kept(recs@, i as int) && element_from(recs@, i as int, e),
            None => !kept(recs@, i as int),
        },
    decreases recs@.len() - i, 1int,
{
    let rec = &recs[i];
    match rec.kind {
        XmlKind::Element => {
            let children = convert_children(recs, i);
            let name = string_of(chars_of(rec.name.as_str()).as_slice());
            let attributes = copy_attributes(&rec.attributes);
            Some(Element::Tag { name, attributes, children })
        },
        XmlKind::Text => {
            let t = trimmed(chars_of(rec.text.as_str()).as_slice());
            if t.len() == 0 {
                None
            } else {
                Some(Element::Text(string_of(t.as_slice())))
            }
        },
        _ => None,
    }
}

/// The names and values of a list of attributes.
pub open spec fn attr_views(attrs: Seq<(String, String)>) -> Seq<(Seq<char>, Seq<char>)> {
    attrs.map_values(|a: (String, String)| (a.0@, a.1@))
}

/// A copy of a list of attributes.
fn copy_attributes(attrs: &Vec<(String, String)>) -> (r: Vec<(String, String)>)
    ensures
        attr_views(r@) == attr_views(attrs@),
{
    let mut out: Vec<(String, String)> = Vec::new();
    let mut k: usize = 0;
    while k < attrs.len()
        invariant
            k <= attrs@.len(),
            attr_views(out@) == attr_views(attrs@.subrange(0, k as int)),
        decreases attrs@.len() - k,
    {
        let key = string_of(chars_of(attrs[k].0.as_str()).as_slice());
        let value = string_of(chars_of(attrs[k].1.as_str()).as_slice());
        let ghost before = out@;
        out.push((key, value));
        assert(attrs@.subrange(0, k + 1) =~= attrs@.subrange(0, k as int).push(attrs@[k as int]));
        assert(attr_views(out@) =~= attr_views(before).push((key@, value@)));
        assert(attr_views(attrs@.subrange(0, k + 1)) =~= attr_views(attrs@.subrange(0, k as int)).push(
            (attrs@[k as int].0@, attrs@[k as int].1@),
        ));
        k = k + 1;
    }
    assert(attrs@.subrange(0, k as int) =~= attrs@);
    out
}

/// The text of the first child of record `i`, where that child is a text node.
pub open spec fn first_child_text(recs: Seq<XmlRecord>, i: int) -> Option<Seq<char>> {
    let ids = child_records(recs, i + 1, recs.len() as int);
    if ids.len() > 0 && 0 <= ids[0] < recs.len() && recs[ids[0]].kind == XmlKind::Text {
        Some(recs[ids[0]].text@)
    } else {
        None
    }
}

/// The text of the first child of record `i`, where that child is a text node.
fn first_text(recs: &Vec<XmlRecord>, i: usize) -> (r: Option<String>)
    requires
        i < recs@.len() < usize::MAX,
    ensures
        match first_child_text(recs@, i as int) {
            Some(t) => r matches Some(x) && x@ == t,
            None => r is None,
        },
{
    let ids = children_of(recs, i + 1);
    if ids.len() > 0 && recs[ids[0]].kind == XmlKind::Text {
        Some(string_of(chars_of(recs[ids[0]].text.as_str()).as_slice()))
    } else {
        None
    }
}

/// Whether a record is a text node that holds only whitespace, a comment or a processing
/// instruction: what may stand between the elements of `vsml` and `meta`.
pub open spec fn ignorable_rec(rec: XmlRecord) -> bool {
    rec.kind == XmlKind::Comment || rec.kind == XmlKind::Instruction || (rec.kind == XmlKind::Text
        && trim(rec.text@).len() == 0)
}

/// Whether record `j` is an element with this name.
pub open spec fn is_element_named(recs: Seq<XmlRecord>, j: int, name: Seq<char>) -> bool {
    0 <= j < recs.len() && recs[j].kind == XmlKind::Element && recs[j].name@ == name
}

/// Whether record `j` is a `style` element that holds its style sheet as text that can be
/// read, and names no file.
pub open spec fn inline_style_ok(recs: Seq<XmlRecord>, j: int) -> bool {
    &&& is_element_named(recs, j, "style"@)
    &&& attr_value(recs[j].attributes@, "src"@) is None
    &&& first_child_text(recs, j) matches Some(t) && exists|items: Seq<VSSItem>|
        crate::vss_parser::sheet_rel(t, items)
}

/// Whether the `meta` element at record `j` holds only inline style sheets that can be read,
/// besides comments and whitespace.
pub open spec fn meta_ok(recs: Seq<XmlRecord>, j: int) -> bool {
    let ids = child_records(recs, j + 1, recs.len() as int);
    forall|k: int|
        0 <= k < ids.len() ==> ignorable_rec(recs[#[trigger] ids[k]]) || inline_style_ok(
            recs,
            ids[k],
        )
}

/// Whether a document reads without asking for any file: one top-level `vsml` element,
/// holding besides comments and whitespace at most one `meta` as `meta_ok` says, and exactly
/// one `cont` whose attributes can be read.
pub open spec fn document_ok(recs: Seq<XmlRecord>) -> bool {
    let top = child_records(recs, 0, recs.len() as int);
    let kids = child_records(recs, top[0] + 1, recs.len() as int);
    &&& recs.len() < usize::MAX
    &&& top.len() == 1
    &&& is_element_named(recs, top[0], "vsml"@)
    &&& forall|k: int|
        0 <= k < kids.len() ==> ignorable_rec(recs[#[trigger] kids[k]]) || (is_element_named(
            recs,
            kids[k],
            "meta"@,
        ) && meta_ok(recs, kids[k])) || (is_element_named(recs, kids[k], "cont"@)
            && content_attrs_ok(recs[kids[k]].attributes@))
    &&& exists|k: int| 0 <= k < kids.len() && is_element_named(recs, #[trigger] kids[k], "cont"@)
    &&& forall|a: int, b: int|
        0 <= a < b < kids.len() ==> !(is_element_named(recs, #[trigger] kids[a], "cont"@)
            && is_element_named(recs, #[trigger] kids[b], "cont"@))
    &&& forall|a: int, b: int|
        0 <= a < b < kids.len() ==> !(is_element_named(recs, #[trigger] kids[a], "meta"@)
            && is_element_named(recs, #[trigger] kids[b], "meta"@))
}

fn ignorable(rec: &XmlRecord) -> (r: bool)
    ensures
        r == ignorable_rec(*rec),
{
    match rec.kind {
        XmlKind::Comment | XmlKind::Instruction => true,
        XmlKind::Text => blank_text(rec),
        _ => false,
    }
}

/// Whether `sheet` is what the `style` element at record `j` gives: the reading of its text,
/// or, where its `src` attribute names a file, the reading of some text (the loaded one).
pub open spec fn sheet_from(recs: Seq<XmlRecord>, j: int, sheet: Seq<VSSItem>) -> bool {
    match attr_value(recs[j].attributes@, "src"@) {
        None => first_child_text(recs, j) matches Some(t) && crate::vss_parser::sheet_rel(t, sheet),
        Some(_) => exists|t: Seq<char>| crate::vss_parser::sheet_rel(t, sheet),
    }
}

/// Whether `items` are the style blocks of the records `ids` (the children of a `meta`
/// element): the sheets of its `style` elements one after another, in order.
pub open spec fn styles_read(recs: Seq<XmlRecord>, ids: Seq<int>, items: Seq<VSSItem>) -> bool
    decreases ids.len(),
{
    if ids.len() == 0 {
        items.len() == 0
    } else if 0 <= ids.last() < recs.len() && ignorable_rec(recs[ids.last()]) {
        styles_read(recs, ids.drop_last(), items)
    } else {
        exists|n: int|
            0 <= n <= items.len() && styles_read(recs, ids.drop_last(), #[trigger] items.subrange(0, n))
                && sheet_from(recs, ids.last(), items.subrange(n, items.len() as int))
    }
}

/// Whether record `j` is a `meta` element directly inside a top-level `vsml` element.
pub open spec fn is_meta_record(recs: Seq<XmlRecord>, j: int) -> bool {
    &&& 0 <= j < recs.len()
    &&& recs[j].kind == XmlKind::Element
    &&& recs[j].name@ == "meta"@
    &&& 1 <= recs[j].parent <= recs.len()
    &&& recs[recs[j].parent - 1].kind == XmlKind::Element
    &&& recs[recs[j].parent - 1].name@ == "vsml"@
    &&& recs[recs[j].parent - 1].parent == 0
}

proof fn lemma_child_member(recs: Seq<XmlRecord>, p: int, x: int, n: int)
    requires
        0 <= x < n <= recs.len(),
        recs[x].parent == p,
    ensures
        exists|k: int|
            0 <= k < child_records(recs, p, n).len() && #[trigger] child_records(recs, p, n)[k]
                == x,
    decreases n,
{
    if x < n - 1 {
        lemma_child_member(recs, p, x, n - 1);
        let k = choose|k: int|
            0 <= k < child_records(recs, p, n - 1).len() && #[trigger] child_records(recs, p, n - 1)[k]
                == x;
        assert(child_records(recs, p, n)[k] == x);
    } else {
        let c = child_records(recs, p, n);
        assert(c[c.len() - 1] == x);
    }
}

/// Reads the style sheets of the `meta` element at record `i`, in order: each `style` element
/// gives the sheet its `src` attribute names, loaded by `loader`, or its own text.
fn parse_meta<L: VSSLoader>(recs: &Vec<XmlRecord>, i: usize, loader: &L) -> (r: Result<
    Meta,
    VSMLParseError<L::Err>,
>)
    requires
        i < recs@.len() < usize::MAX,
    ensures
        meta_ok(recs@, i as int) ==> r is Ok,
        r matches Ok(m) ==> styles_read(
            recs@,
            child_records(recs@, i + 1, recs@.len() as int),
            m.vss_items@,
        ),
{
    let ids = children_of(recs, i + 1);
    let ghost kids = ids@.map_values(|x: usize| x as int);
    let mut vss_items: Vec<VSSItem> = Vec::new();
    let mut k: usize = 0;
    while k < ids.len()
        invariant
            i < recs@.len() < usize::MAX,
            k <= ids@.len(),
            forall|j: int| 0 <= j < ids@.len() ==> #[trigger] ids@[j] < recs@.len(),
            kids == ids@.map_values(|x: usize| x as int),
            kids == child_records(recs@, i + 1, recs@.len() as int),
            styles_read(recs@, kids.subrange(0, k as int), vss_items@),
        decreases ids@.len() - k,
    {
        let c = ids[k];
        let rec = &recs[c];
        assert(kids[k as int] == c as int);
        let ghost next = kids.subrange(0, k + 1);
        assert(next.drop_last() =~= kids.subrange(0, k as int));
        assert(next.last() == c as int);
        if !ignorable(rec) {
            if rec.kind != XmlKind::Element || !str_is(rec.name.as_str(), "style") {
                assert(!inline_style_ok(recs@, kids[k as int]));
                return Err(VSMLParseError::InvalidElementInMetaError);
            }
            let text = first_text(recs, c);
            let sheet = match record_attribute(rec, "src") {
                Some(src) => {
                    assert(!inline_style_ok(recs@, kids[k as int]));
                    if text.is_some() {
                        return Err(VSMLParseError::BothSrcAndTextInStyleError);
                    }
                    match loader.load(src.as_str()) {
                        Ok(loaded) => crate::vss_parser::parse(loaded.as_str()),
                        Err(e) => {
                            return Err(VSMLParseError::VSSLoadError(e));
                        },
                    }
                },
                None => match text {
                    Some(t) => {
                        let parsed = crate::vss_parser::parse(t.as_str());
                        proof {
                            if parsed is Err {
                                assert(!inline_style_ok(recs@, kids[k as int]));
                            }
                        }
                        parsed
                    },
                    None => {
                        assert(!inline_style_ok(recs@, kids[k as int]));
                        return Err(VSMLParseError::NoSrcAndTextInStyleError);
                    },
                },
            };
            proof {
                if sheet is Ok {
                    let t = sheet->Ok_0@;
                    if attr_value(rec.attributes@, "src"@) is None {
                        assert(sheet_from(recs@, c as int, t));
                    } else {
                        assert(sheet_from(recs@, c as int, t));
                    }
                }
            }
            match sheet {
                Ok(mut items) => {
                    let ghost before = vss_items@;
                    let ghost added = items@;
                    vss_items.append(&mut items);
                    assert(vss_items@.subrange(0, before.len() as int) =~= before);
                    assert(vss_items@.subrange(before.len() as int, vss_items@.len() as int) =~= added);
                    assert(styles_read(recs@, next, vss_items@));
                },
                Err(e) => {
                    assert(!inline_style_ok(recs@, kids[k as int]));
                    return Err(VSMLParseError::VSSParseError(e));
                },
            }
        }
        k = k + 1;
    }
    assert(kids.subrange(0, k as int) =~= kids);
    Ok(Meta { vss_items })
}

/// Whether the optional numeric attribute `key` of `attrs` is absent or a `u32`.
pub open spec fn number_attr_ok(attrs: Seq<(String, String)>, key: Seq<char>) -> bool {
    match attr_value(attrs, key) {
        Some(v) => u32_of(v) is Some,
        None => true,
    }
}

/// The value of the optional numeric attribute `key` of `attrs`.
pub open spec fn number_attr(attrs: Seq<(String, String)>, key: Seq<char>) -> Option<u32> {
    match attr_value(attrs, key) {
        Some(v) => u32_of(v),
        None => None,
    }
}

/// Whether the attributes of `cont` can be read: a `resolution` of the form
/// `<width>x<height>`, and `fps` and `sample-rate`, where given, numbers.
pub open spec fn content_attrs_ok(attrs: Seq<(String, String)>) -> bool {
    &&& attr_value(attrs, "resolution"@) matches Some(res) && resolution_of(res) is Some
    &&& number_attr_ok(attrs, "fps"@)
    &&& number_attr_ok(attrs, "sample-rate"@)
}

/// Whether `c` holds the size, frame rate and sampling rate that the attributes of `cont`
/// give.
pub open spec fn content_from(attrs: Seq<(String, String)>, c: Content) -> bool {
    &&& attr_value(attrs, "resolution"@) matches Some(res) && resolution_of(res) == Some(
        (c.width, c.height),
    )
    &&& c.fps == number_attr(attrs, "fps"@)
    &&& c.sampling_rate == number_attr(attrs, "sample-rate"@)
}

/// Whether record `j` is a `cont` element directly inside a top-level `vsml` element.
pub open spec fn is_cont_record(recs: Seq<XmlRecord>, j: int) -> bool {
    &&& 0 <= j < recs.len()
    &&& recs[j].kind == XmlKind::Element
    &&& recs[j].name@ == "cont"@
    &&& 1 <= recs[j].parent <= recs.len()
    &&& recs[recs[j].parent - 1].kind == XmlKind::Element
    &&& recs[recs[j].parent - 1].name@ == "vsml"@
    &&& recs[recs[j].parent - 1].parent == 0
}

fn number_attribute<E>(rec: &XmlRecord, key: &str, fps: bool) -> (r: Result<
    Option<u32>,
    VSMLParseError<E>,
>)
    ensures
        r is Ok <==> number_attr_ok(rec.attributes@, key@),
        r matches Ok(v) ==> v == number_attr(rec.attributes@, key@),
{
    match record_attribute(rec, key) {
        None => Ok(None),
        Some(v) => match parse_u32(v.as_str()) {
            Some(n) => Ok(Some(n)),
            None => if fps {
                Err(VSMLParseError::InvalidFPSValue(v))
            } else {
                Err(VSMLParseError::InvalidSampleRateValue(v))
            },
        },
    }
}

/// Reads the `cont` element at record `i`: its size, frame rate and sampling rate, and the
/// elements its children become.
fn parse_content<E>(recs: &Vec<XmlRecord>, i: usize) -> (r: Result<Content, VSMLParseError<E>>)
    requires
        i < recs@.len() < usize::MAX,
        parents_before(recs@),
    ensures
        r is Ok <==> content_attrs_ok(recs@[i as int].attributes@),
        r matches Ok(c) ==> content_from(recs@[i as int].attributes@, c) && children_from(
            recs@,
            i as int,
            c.elements@,
        ),
{
    let rec = &recs[i];
    let resolution = match record_attribute(rec, "resolution") {
        Some(v) => v,
        None => {
            return Err(VSMLParseError::ResolutionNotFound);
        },
    };
    let (width, height) = match parse_resolution(resolution.as_str()) {
        Some(x) => x,
        None => {
            return Err(VSMLParseError::InvalidResolutionValue(resolution));
        },
    };
    let fps = match number_attribute(rec, "fps", true) {
        Ok(v) => v,
        Err(e) => {
            return Err(e);
        },
    };
    let sampling_rate = match number_attribute(rec, "sample-rate", false) {
        Ok(v) => v,
        Err(e) => {
            return Err(e);
        },
    };
    let elements = convert_children(recs, i);
    Ok(Content { width, height, fps, sampling_rate, elements })
}

/// Reads a document: XML whose single top-level element is `vsml`, holding at most one
/// `meta` (its `style` elements give the style sheets, a `src` attribute naming a sheet for
/// `loader`) and exactly one `cont` (`resolution`, `fps`, `sample-rate` and the content).
pub fn parse<L: VSSLoader>(vsml_string: &str, vss_loader: &L) -> (r: Result<
    VSML,
    VSMLParseError<L::Err>,
>)
    ensures
        xml_records_of(vsml_string@) is None ==> r matches Err(VSMLParseError::XMLParseError(_)),
        r matches Ok(v) ==> (xml_records_of(vsml_string@) matches Some(recs) && exists|j: int|
            is_cont_record(recs, j) && content_from(#[trigger] recs[j].attributes@, v.content)
                && children_from(recs, j, v.content.elements@)),
        xml_records_of(vsml_string@) matches Some(recs) && document_ok(recs) ==> r is Ok,
        r matches Ok(v) ==> (xml_records_of(vsml_string@) matches Some(recs) && ((exists|j: int|
            #[trigger] is_meta_record(recs, j) && styles_read(
                recs,
                child_records(recs, j + 1, recs.len() as int),
                v.meta.vss_items@,
            )) || (v.meta.vss_items@.len() == 0 && forall|j: int|
            !#[trigger] is_meta_record(recs, j)))),
{
    let recs = match read_xml(vsml_string) {
        Ok(v) => v,
        Err(message) => {
            return Err(VSMLParseError::XMLParseError(message));
        },
    };
    if recs.len() == usize::MAX {
        return Err(VSMLParseError::MultipleRootNodesError);
    }
    let top = children_of(&recs, 0);
    let ghost top_s = top@.map_values(|x: usize| x as int);
    assert(top_s.len() == top@.len());
    if top.len() == 0 {
        return Err(VSMLParseError::RootNodeNameError);
    }
    if top.len() > 1 {
        return Err(VSMLParseError::MultipleRootNodesError);
    }
    let root = top[0];
    assert(top_s[0] == root as int);
    if recs[root].kind != XmlKind::Element || !str_is(recs[root].name.as_str(), "vsml") {
        return Err(VSMLParseError::RootNodeNameError);
    }
    let ids = children_of(&recs, root + 1);
    let ghost kids = ids@.map_values(|x: usize| x as int);
    proof {
        reveal_strlit("meta");
        reveal_strlit("cont");
        assert("meta"@[0] != "cont"@[0]);
    }
    let mut meta: Option<Meta> = None;
    let mut content: Option<Content> = None;
    let mut k: usize = 0;
    while k < ids.len()
        invariant
            xml_records_of(vsml_string@) == Some(recs@),
            child_records(recs@, 0, recs@.len() as int).len() == 1,
            child_records(recs@, 0, recs@.len() as int)[0] == root as int,
            kids == ids@.map_values(|x: usize| x as int),
            kids == child_records(recs@, root + 1, recs@.len() as int),
            "meta"@ != "cont"@,
            meta is Some ==> exists|a: int|
                0 <= a < k && is_element_named(recs@, #[trigger] kids[a], "meta"@),
            meta matches Some(m) ==> exists|a: int|
                0 <= a < k && is_meta_record(recs@, #[trigger] kids[a]) && styles_read(
                    recs@,
                    child_records(recs@, kids[a] + 1, recs@.len() as int),
                    m.vss_items@,
                ),
            meta is None ==> forall|a: int|
                0 <= a < k ==> !is_element_named(recs@, #[trigger] kids[a], "meta"@),
            content is Some ==> exists|a: int|
                0 <= a < k && is_element_named(recs@, #[trigger] kids[a], "cont"@),
            content is None ==> forall|a: int|
                0 <= a < k ==> !is_element_named(recs@, #[trigger] kids[a], "cont"@),
            recs@.len() < usize::MAX,
            parents_before(recs@),
            k <= ids@.len(),
            forall|j: int| 0 <= j < ids@.len() ==> #[trigger] ids@[j] < recs@.len(),
            root < recs@.len(),
            recs@[root as int].kind == XmlKind::Element,
            recs@[root as int].name@ == "vsml"@,
            recs@[root as int].parent == 0,
            forall|j: int| 0 <= j < ids@.len() ==> #[trigger] recs@[ids@[j] as int].parent == root + 1,
            content matches Some(cv) ==> exists|j: int|
                is_cont_record(recs@, j) && content_from(#[trigger] recs@[j].attributes@, cv)
                    && children_from(recs@, j, cv.elements@),
        decreases ids@.len() - k,
    {
        let c = ids[k];
        let rec = &recs[c];
        assert(kids[k as int] == c as int);
        if !ignorable(rec) {
            if rec.kind != XmlKind::Element {
                assert(!document_ok(recs@));
                return Err(VSMLParseError::InvalidElementInVSMLError);
            }
            if str_is(rec.name.as_str(), "meta") {
                if meta.is_some() {
                    proof {
                        let a = choose|a: int|
                            0 <= a < k && is_element_named(recs@, #[trigger] kids[a], "meta"@);
                        assert(is_element_named(recs@, kids[k as int], "meta"@));
                        assert(!document_ok(recs@));
                    }
                    return Err(VSMLParseError::MultipleMetaElementsError);
                }
                match parse_meta(&recs, c, vss_loader) {
                    Ok(m) => {
                        assert(is_meta_record(recs@, kids[k as int]));
                        meta = Some(m);
                        assert(is_element_named(recs@, kids[k as int], "meta"@));
                    },
                    Err(e) => {
                        assert(!document_ok(recs@));
                        return Err(e);
                    },
                }
            } else if str_is(rec.name.as_str(), "cont") {
                if content.is_some() {
                    proof {
                        let a = choose|a: int|
                            0 <= a < k && is_element_named(recs@, #[trigger] kids[a], "cont"@);
                        assert(is_element_named(recs@, kids[k as int], "cont"@));
                        assert(!document_ok(recs@));
                    }
                    return Err(VSMLParseError::MultipleContentElementsError);
                }
                match parse_content(&recs, c) {
                    Ok(v) => {
                        assert(is_cont_record(recs@, c as int));
                        content = Some(v);
                        assert(is_element_named(recs@, kids[k as int], "cont"@));
                    },
                    Err(e) => {
                        assert(!document_ok(recs@));
                        return Err(e);
                    },
                }
            } else {
                assert(!document_ok(recs@));
                return Err(VSMLParseError::InvalidElementInVSMLError);
            }
        } else {
            assert(!is_element_named(recs@, kids[k as int], "cont"@));
        }
        k = k + 1;
    }
    let content = match content {
        Some(v) => v,
        None => {
            assert(!document_ok(recs@));
            return Err(VSMLParseError::ContentElementNotFoundError);
        },
    };
    let meta = match meta {
        Some(m) => m,
        None => {
            proof {
                assert forall|j: int| !is_meta_record(recs@, j) by {
                    if is_meta_record(recs@, j) {
                        let q = recs@[j].parent - 1;
                        lemma_child_member(recs@, 0, q, recs@.len() as int);
                        lemma_child_member(recs@, root + 1, j, recs@.len() as int);
                        let a = choose|a: int|
                            0 <= a < kids.len() && #[trigger] kids[a] == j;
                        assert(!is_element_named(recs@, kids[a], "meta"@));
                    }
                }
            }
            Meta { vss_items: Vec::new() }
        },
    };
    Ok(VSML { meta, content })
}

} // verus!
