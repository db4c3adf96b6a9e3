use crate::ast::{Element, Rule, VSSItem, VSSSelector, VSSSelectorTree};
use crate::text::{chars_of, split_words, str_is, same_chars, vecs_view, words};
use vstd::prelude::*;

verus! {

/// Why a selector could not be matched.
#[derive(Clone, Copy, Debug, PartialEq, Eq, Hash, Structural)]
pub enum SelectorError {
    /// A pseudo-class, an attribute selector or a sibling combinator: parsed, never matched.
    Unsupported,
}

/// The value of the first attribute named `key`.
pub open spec fn attr_value(attrs: Seq<(String, String)>, key: Seq<char>) -> Option<Seq<char>>
    decreases attrs.len(),
{
    if attrs.len() == 0 {
        None
    } else if attrs[0].0@ == key {
        Some(attrs[0].1@)
    } else {
        attr_value(attrs.drop_first(), key)
    }
}

/// Whether a simple selector can be matched at all.
pub open spec fn simple_supported(sel: VSSSelector) -> bool {
    !(sel is PseudoClass) && !(sel is Attribute)
}

pub open spec fn compound_supported(sels: Seq<VSSSelector>) -> bool {
    forall|i: int| 0 <= i < sels.len() ==> simple_supported(#[trigger] sels[i])
}

/// Whether a selector tree holds only what can be matched: compounds of `*`, tags, classes
/// and ids, joined by descendant and child combinators.
pub open spec fn tree_supported(t: VSSSelectorTree) -> bool
    decreases t,
{
    match t {
        VSSSelectorTree::Selectors(s) => compound_supported(s@),
        VSSSelectorTree::Descendant(p, c) => compound_supported(p@) && tree_supported(*c),
        VSSSelectorTree::Child(p, c) => compound_supported(p@) && tree_supported(*c),
        _ => false,
    }
}

/// Whether a simple selector holds of a tag with this name and these attributes.
pub open spec fn simple_matches(
    sel: VSSSelector,
    name: Seq<char>,
    attrs: Seq<(String, String)>,
) -> bool {
    match sel {
        VSSSelector::All => true,
        VSSSelector::Tag(t) => t@ == name,
        VSSSelector::Class(c) => match attr_value(attrs, "class"@) {
            Some(v) => words(v).contains(c@),
            None => false,
        },
        VSSSelector::Id(i) => attr_value(attrs, "id"@) == Some(i@),
        _ => false,
    }
}

/// Whether every simple selector of a compound holds of an element. Text never matches.
pub open spec fn compound_matches(sels: Seq<VSSSelector>, e: Element) -> bool {
    match e {
        Element::Tag { name, attributes, .. } => forall|i: int|
            0 <= i < sels.len() ==> simple_matches(#[trigger] sels[i], name@, attributes@),
        Element::Text(_) => false,
    }
}

/// The nearest of the first `m` elements of `chain`, from the end, that `p` matches: its
/// position, which is also how many elements stay in front of it.
pub open spec fn nearest_match(p: Seq<VSSSelector>, chain: Seq<Element>, m: nat) -> Option<nat>
    decreases m,
{
    if m == 0 {
        None
    } else if compound_matches(p, chain[m - 1]) {
        Some((m - 1) as nat)
    } else {
        nearest_match(p, chain, (m - 1) as nat)
    }
}

/// Matches a selector tree against the first `n` elements of `chain` (root first), from its
/// innermost compound outwards: the innermost compound takes the last element, a descendant
/// combinator the nearest matching element in front, a child combinator the element right in
/// front. Gives how many elements stay in front of what was taken, or `None` for no match.
pub open spec fn tree_match(t: VSSSelectorTree, chain: Seq<Element>, n: nat) -> Option<nat>
    decreases t,
{
    match t {
        VSSSelectorTree::Selectors(s) => if n > 0 && compound_matches(s@, chain[n - 1]) {
            Some((n - 1) as nat)
        } else {
            None
        },
        VSSSelectorTree::Descendant(p, c) => match tree_match(*c, chain, n) {
            Some(m) => nearest_match(p@, chain, m),
            None => None,
        },
        VSSSelectorTree::Child(p, c) => match tree_match(*c, chain, n) {
            Some(m) => if m > 0 && compound_matches(p@, chain[m - 1]) {
                Some((m - 1) as nat)
            } else {
                None
            },
            None => None,
        },
        _ => None,
    }
}

/// Whether a selector tree matches the last element of `chain`.
pub open spec fn selects(t: VSSSelectorTree, chain: Seq<Element>) -> bool {
    tree_match(t, chain, chain.len()) is Some
}

/// The element each level of a traversal stack stands for: the last of its slice.
pub open spec fn chain_of(stack: Seq<&[Element]>) -> Seq<Element> {
    stack.map_values(|level: &[Element]| level@.last())
}

pub open spec fn levels_nonempty(stack: Seq<&[Element]>) -> bool {
    forall|i: int| 0 <= i < stack.len() ==> (#[trigger] stack[i])@.len() > 0
}

/// Whether one of the item's selectors matches the last element of `chain`.
pub open spec fn item_selects(item: VSSItem, chain: Seq<Element>) -> bool {
    exists|j: int| 0 <= j < item.selectors@.len() && selects(#[trigger] item.selectors@[j], chain)
}

pub open spec fn items_supported(items: Seq<VSSItem>) -> bool {
    forall|i: int, j: int|
        0 <= i < items.len() && 0 <= j < items[i].selectors@.len() ==> tree_supported(
            #[trigger] items[i].selectors@[j],
        )
}

/// The declarations that apply to the last element of `chain`, in the order they were
/// written: those of every item one of whose selectors matches.
pub open spec fn applicable_rules(items: Seq<VSSItem>, chain: Seq<Element>) -> Seq<Rule>
    decreases items.len(),
{
    if items.len() == 0 {
        Seq::empty()
    } else {
        let before = applicable_rules(items.drop_last(), chain);
        if item_selects(items.last(), chain) {
            before + items.last().rules@
        } else {
            before
        }
    }
}

/// The declarations that a list of references points to.
pub open spec fn derefs(v: Seq<&Rule>) -> Seq<Rule> {
    v.map_values(|r: &Rule| *r)
}

/// The value of the first attribute named `key`.
pub fn attribute<'e>(attrs: &'e Vec<(String, String)>, key: &str) -> (r: Option<&'e String>)
    ensures
        match attr_value(attrs@, key@) {
            Some(v) => r is Some && r->0@ == v,
            None => r is None,
        },
{
    let mut i: usize = 0;
    assert(attrs@.subrange(0, attrs@.len() as int) =~= attrs@);
    while i < attrs.len()
        invariant
            i <= attrs@.len(),
            attr_value(attrs@, key@) == attr_value(attrs@.subrange(i as int, attrs@.len() as int), key@),
        decreases attrs@.len() - i,
    {
        let ghost rest = attrs@.subrange(i as int, attrs@.len() as int);
        assert(rest.drop_first() =~= attrs@.subrange(i + 1, attrs@.len() as int));
        if str_is(attrs[i].0.as_str(), key) {
            return Some(&attrs[i].1);
        }
        i = i + 1;
    }
    None
}

fn has_word(value: &String, word: &String) -> (r: bool)
    ensures
        r == words(value@).contains(word@),
{
    let cs = chars_of(value.as_str());
    let w = chars_of(word.as_str());
    let list = split_words(cs.as_slice());
    let mut i: usize = 0;
    while i < list.len()
        invariant
            i <= list@.len(),
            vecs_view(list@) == words(value@),
            cs@ == value@,
            w@ == word@,
            forall|k: int| 0 <= k < i ==> vecs_view(list@)[k] != w@,
        decreases list@.len() - i,
    {
        if same_chars(list[i].as_slice(), w.as_slice()) {
            assert(vecs_view(list@)[i as int] == w@);
            assert(words(value@)[i as int] == word@);
            return true;
        }
        i = i + 1;
    }
    assert forall|x: Seq<char>| words(value@).contains(x) implies x != w@ by {
        let k = choose|k: int| 0 <= k < words(value@).len() && words(value@)[k] == x;
        assert(vecs_view(list@)[k] == x);
    }
    false
}

fn simple_is_match(sel: &VSSSelector, name: &String, attrs: &Vec<(String, String)>) -> (r: bool)
    requires
        simple_supported(*sel),
    ensures
        r == simple_matches(*sel, name@, attrs@),
{
    match sel {
        VSSSelector::All => true,
        VSSSelector::Tag(t) => str_is(t.as_str(), name.as_str()),
        VSSSelector::Class(c) => match attribute(attrs, "class") {
            Some(v) => has_word(v, c),
            None => false,
        },
        VSSSelector::Id(i) => match attribute(attrs, "id") {
            Some(v) => str_is(v.as_str(), i.as_str()),
            None => false,
        },
        _ => false,
    }
}

/// Whether every simple selector of the compound holds of the last element of `element`.
pub fn selector_is_match(selectors: &[VSSSelector], element: &[Element]) -> (r: bool)
    requires
        element@.len() > 0,
        compound_supported(selectors@),
    ensures
        r == compound_matches(selectors@, element@.last()),
{
    let last = &element[element.len() - 1];
    assert(*last == element@.last());
    match last {
        Element::Tag { name, attributes, children } => {
            let mut i: usize = 0;
            while i < selectors.len()
                invariant
                    element@.len() > 0,
                    *last == element@.last(),
                    *last == (Element::Tag {
                        name: *name,
                        attributes: *attributes,
                        children: *children,
                    }),
                    i <= selectors@.len(),
                    compound_supported(selectors@),
                    forall|k: int|
                        0 <= k < i ==> simple_matches(#[trigger] selectors@[k], name@, attributes@),
                decreases selectors@.len() - i,
            {
                if !simple_is_match(&selectors[i], name, attributes) {
                    assert(!simple_matches(selectors@[i as int], name@, attributes@));
                    return false;
                }
                i = i + 1;
            }
            true
        },
        Element::Text(_) => false,
    }
}

fn nearest_match_at(p: &Vec<VSSSelector>, stack: &[&[Element]], m: usize) -> (r: Option<usize>)
    requires
        m <= stack@.len(),
        levels_nonempty(stack@),
        compound_supported(p@),
    ensures
        match nearest_match(p@, chain_of(stack@), m as nat) {
            Some(k) => r == Some(k as usize) && k < m,
            None => r is None,
        },
{
    let mut k = m;
    while k > 0
        invariant
            k <= m <= stack@.len(),
            levels_nonempty(stack@),
            compound_supported(p@),
            nearest_match(p@, chain_of(stack@), m as nat) == nearest_match(
                p@,
                chain_of(stack@),
                k as nat,
            ),
        decreases k,
    {
        assert(stack@[k - 1]@.len() > 0);
        if selector_is_match(p.as_slice(), stack[k - 1]) {
            return Some(k - 1);
        }
        k = k - 1;
    }
    None
}

fn tree_match_at(t: &VSSSelectorTree, stack: &[&[Element]], n: usize) -> (r: Option<usize>)
    requires
        n <= stack@.len(),
        levels_nonempty(stack@),
        tree_supported(*t),
    ensures
        match tree_match(*t, chain_of(stack@), n as nat) {
            Some(k) => r == Some(k as usize) && k < n,
            None => r is None,
        },
    decreases t,
{
    match t {
        VSSSelectorTree::Selectors(s) => {
            if n > 0 && selector_is_match(s.as_slice(), stack[n - 1]) {
                Some(n - 1)
            } else {
                None
            }
        },
        VSSSelectorTree::Descendant(p, c) => match tree_match_at(c, stack, n) {
            Some(m) => nearest_match_at(p, stack, m),
            None => None,
        },
        VSSSelectorTree::Child(p, c) => match tree_match_at(c, stack, n) {
            Some(m) => {
                if m > 0 && selector_is_match(p.as_slice(), stack[m - 1]) {
                    Some(m - 1)
                } else {
                    None
                }
            },
            None => None,
        },
        _ => None,
    }
}

fn check_supported(t: &VSSSelectorTree) -> (r: bool)
    ensures
        r == tree_supported(*t),
    decreases t,
{
    let (p, rest) = match t {
        VSSSelectorTree::Selectors(s) => {
            return compound_is_supported(s);
        },
        VSSSelectorTree::Descendant(p, c) => (p, c),
        VSSSelectorTree::Child(p, c) => (p, c),
        _ => {
            return false;
        },
    };
    compound_is_supported(p) && check_supported(rest)
}

fn compound_is_supported(sels: &Vec<VSSSelector>) -> (r: bool)
    ensures
        r == compound_supported(sels@),
{
    let mut i: usize = 0;
    while i < sels.len()
        invariant
            i <= sels@.len(),
            forall|k: int| 0 <= k < i ==> simple_supported(#[trigger] sels@[k]),
        decreases sels@.len() - i,
    {
        match &sels[i] {
            VSSSelector::PseudoClass(_) | VSSSelector::Attribute(_, _) => {
                return false;
            },
            _ => {},
        }
        i = i + 1;
    }
    true
}

/// Finds the declarations that apply to the element at the top of a traversal.
pub struct VssScanner<'a> {
    pub vss_items: &'a [VSSItem],
    /// One level per element from the root down to the current one: the children of its
    /// parent, up to and including it.
    pub traverse_stack: Vec<&'a [Element]>,
}

impl<'a> VssScanner<'a> {
    /// A scanner over these style blocks, at no element yet.
    pub fn new(vss_items: &'a [VSSItem]) -> (r: VssScanner<'a>)
        ensures
            r.vss_items == vss_items,
            r.traverse_stack@ == Seq::<&'a [Element]>::empty(),
    {
        VssScanner { vss_items, traverse_stack: Vec::new() }
    }

    /// The declarations that apply to the current element, in the order they were written.
    /// Refused when a style block holds a selector that cannot be matched.
    pub fn scan(&self) -> (r: Result<Vec<&'a Rule>, SelectorError>)
        requires
            levels_nonempty(self.traverse_stack@),
        ensures
            match r {
                Ok(v) => items_supported(self.vss_items@) && derefs(v@) == applicable_rules(
                    self.vss_items@,
                    chain_of(self.traverse_stack@),
                ),
                Err(e) => !items_supported(self.vss_items@) && e == SelectorError::Unsupported,
            },
    {
        let items = self.vss_items;
        let stack = self.traverse_stack.as_slice();
        let ghost chain = chain_of(stack@);
        let mut i: usize = 0;
        while i < items.len()
            invariant
                items == self.vss_items,
                i <= items@.len(),
                forall|a: int, b: int|
                    0 <= a < i && 0 <= b < items@[a].selectors@.len() ==> tree_supported(
                        #[trigger] items@[a].selectors@[b],
                    ),
            decreases items@.len() - i,
        {
            let sels = &items[i].selectors;
            let mut j: usize = 0;
            while j < sels.len()
                invariant
                    items == self.vss_items,
                    i < items@.len(),
                    sels == items@[i as int].selectors,
                    j <= sels@.len(),
                    forall|a: int, b: int|
                        0 <= a < i && 0 <= b < items@[a].selectors@.len() ==> tree_supported(
                            #[trigger] items@[a].selectors@[b],
                        ),
                    forall|b: int| 0 <= b < j ==> tree_supported(#[trigger] sels@[b]),
                decreases sels@.len() - j,
            {
                if !check_supported(&sels[j]) {
                    assert(!tree_supported(items@[i as int].selectors@[j as int]));
                    assert(!items_supported(self.vss_items@));
                    return Err(SelectorError::Unsupported);
                }
                j = j + 1;
            }
            i = i + 1;
        }
        let mut out: Vec<&'a Rule> = Vec::new();
        let mut i: usize = 0;
        while i < items.len()
            invariant
                items == self.vss_items,
                i <= items@.len(),
                items_supported(items@),
                levels_nonempty(stack@),
                chain == chain_of(stack@),
                derefs(out@) == applicable_rules(items@.subrange(0, i as int), chain),
            decreases items@.len() - i,
        {
            let item = &items[i];
            let ghost pre = items@.subrange(0, i + 1);
            assert(pre.drop_last() =~= items@.subrange(0, i as int));
            assert(pre.last() == *item);
            let mut hit = false;
            let mut j: usize = 0;
            while j < item.selectors.len() && !hit
                invariant
                    i < items@.len(),
                    *item == items@[i as int],
                    items_supported(items@),
                    levels_nonempty(stack@),
                    chain == chain_of(stack@),
                    j <= item.selectors@.len(),
                    hit ==> item_selects(*item, chain),
                    !hit ==> forall|b: int|
                        0 <= b < j ==> !selects(#[trigger] item.selectors@[b], chain),
                decreases item.selectors@.len() - j,
            {
                assert(tree_supported(items@[i as int].selectors@[j as int]));
                if tree_match_at(&item.selectors[j], stack, stack.len()).is_some() {
                    assert(selects(item.selectors@[j as int], chain));
                    hit = true;
                }
                j = j + 1;
            }
            if hit {
                let ghost before = derefs(out@);
                let mut k: usize = 0;
                while k < item.rules.len()
                    invariant
                        k <= item.rules@.len(),
                        derefs(out@) == before + item.rules@.subrange(0, k as int),
                    decreases item.rules@.len() - k,
                {
                    let ghost prev = out@;
                    out.push(&item.rules[k]);
                    assert(derefs(out@) =~= derefs(prev).push(item.rules@[k as int]));
                    assert(item.rules@.subrange(0, k + 1) =~= item.rules@.subrange(0, k as int).push(
                        item.rules@[k as int],
                    ));
                    assert(before + item.rules@.subrange(0, k + 1) =~= (before + item.rules@.subrange(0, k as int)).push(item.rules@[k as int]));
                    k = k + 1;
                }
                assert(item.rules@.subrange(0, k as int) =~= item.rules@);
            }
            i = i + 1;
        }
        assert(items@.subrange(0, i as int) =~= items@);
        Ok(out)
    }

    /// Enters an element: runs `f` on a scanner whose traversal is this one with the
    /// element's level pushed, and gives back what `f` returned. This scanner is left as it
    /// is, so leaving the element needs nothing more.
    pub fn traverse<R, F: FnOnce(&VssScanner<'a>) -> R>(&self, element: &'a [Element], f: F) -> (r: R)
        requires
            forall|s: &VssScanner<'a>| f.requires((s,)),
        ensures
            exists|s: VssScanner<'a>|
                s.traverse_stack@ == self.traverse_stack@.push(element) && s.vss_items
                    == self.vss_items && f.ensures((&s,), r),
    {
        let mut levels = copy_levels(&self.traverse_stack);
        levels.push(element);
        let inner = VssScanner { vss_items: self.vss_items, traverse_stack: levels };
        let r = f(&inner);
        assert(inner.traverse_stack@ == self.traverse_stack@.push(element));
        assert(inner.traverse_stack@ == self.traverse_stack@.push(element) && inner.vss_items
            == self.vss_items && f.ensures((&inner,), r));
        r
    }
}

/// A copy of a traversal stack.
fn copy_levels<'a>(levels: &Vec<&'a [Element]>) -> (r: Vec<&'a [Element]>)
    ensures
        r@ == levels@,
{
    let mut out: Vec<&'a [Element]> = Vec::new();
    let mut i: usize = 0;
    while i < levels.len()
        invariant
            i <= levels@.len(),
            out@ == levels@.subrange(0, i as int),
        decreases levels@.len() - i,
    {
        out.push(levels[i]);
        assert(out@ =~= levels@.subrange(0, i + 1));
        i = i + 1;
    }
    assert(levels@.subrange(0, i as int) =~= levels@);
    out
}

/// Whether two elements look the same to a selector: both text, or tags with the same name
/// and the same attributes, whatever their children.
pub open spec fn same_face(a: Element, b: Element) -> bool {
    match (a, b) {
        (Element::Text(_), Element::Text(_)) => true,
        (
            Element::Tag { name: n1, attributes: a1, .. },
            Element::Tag { name: n2, attributes: a2, .. },
        ) => n1@ == n2@ && a1@ == a2@,
        _ => false,
    }
}

pub open spec fn same_faces(c1: Seq<Element>, c2: Seq<Element>) -> bool {
    c1.len() == c2.len() && forall|k: int| 0 <= k < c1.len() ==> same_face(#[trigger] c1[k], c2[k])
}

proof fn lemma_nearest_match_faces(p: Seq<VSSSelector>, c1: Seq<Element>, c2: Seq<Element>, m: nat)
    requires
        same_faces(c1, c2),
        m <= c1.len(),
    ensures
        nearest_match(p, c1, m) == nearest_match(p, c2, m),
    decreases m,
{
    if m > 0 {
        assert(same_face(c1[m - 1], c2[m - 1]));
        assert(compound_matches(p, c1[m - 1]) == compound_matches(p, c2[m - 1]));
        lemma_nearest_match_faces(p, c1, c2, (m - 1) as nat);
    }
}

proof fn lemma_tree_match_bounded(t: VSSSelectorTree, chain: Seq<Element>, n: nat)
    ensures
        tree_match(t, chain, n) matches Some(k) ==> k < n,
    decreases t,
{
    match t {
        VSSSelectorTree::Descendant(p, c) => {
            lemma_tree_match_bounded(*c, chain, n);
            if let Some(m) = tree_match(*c, chain, n) {
                lemma_nearest_match_bounded(p@, chain, m);
            }
        },
        VSSSelectorTree::Child(p, c) => {
            lemma_tree_match_bounded(*c, chain, n);
        },
        _ => {},
    }
}

proof fn lemma_nearest_match_bounded(p: Seq<VSSSelector>, chain: Seq<Element>, m: nat)
    ensures
        nearest_match(p, chain, m) matches Some(k) ==> k < m,
    decreases m,
{
    if m > 0 {
        lemma_nearest_match_bounded(p, chain, (m - 1) as nat);
    }
}

proof fn lemma_tree_match_faces(t: VSSSelectorTree, c1: Seq<Element>, c2: Seq<Element>, n: nat)
    requires
        same_faces(c1, c2),
        n <= c1.len(),
    ensures
        tree_match(t, c1, n) == tree_match(t, c2, n),
    decreases t,
{
    match t {
        VSSSelectorTree::Selectors(s) => {
            if n > 0 {
                assert(same_face(c1[n - 1], c2[n - 1]));
            }
        },
        VSSSelectorTree::Descendant(p, c) => {
            lemma_tree_match_faces(*c, c1, c2, n);
            lemma_tree_match_bounded(*c, c1, n);
            if let Some(m) = tree_match(*c, c1, n) {
                lemma_nearest_match_faces(p@, c1, c2, m);
            }
        },
        VSSSelectorTree::Child(p, c) => {
            lemma_tree_match_faces(*c, c1, c2, n);
            lemma_tree_match_bounded(*c, c1, n);
            if let Some(m) = tree_match(*c, c1, n) {
                if m > 0 {
                    assert(same_face(c1[m - 1], c2[m - 1]));
                }
            }
        },
        _ => {},
    }
}

/// Matching looks at each element of the chain only through its name and attributes: two
/// traversals whose levels end in elements that look the same (the children of an element,
/// and the siblings before it on its level, may differ) get the same declarations.
pub proof fn lemma_scan_ignores_children_and_siblings(
    items: Seq<VSSItem>,
    s1: Seq<&[Element]>,
    s2: Seq<&[Element]>,
)
    requires
        same_faces(chain_of(s1), chain_of(s2)),
    ensures
        applicable_rules(items, chain_of(s1)) == applicable_rules(items, chain_of(s2)),
    decreases items.len(),
{
    let c1 = chain_of(s1);
    let c2 = chain_of(s2);
    if items.len() > 0 {
        lemma_scan_ignores_children_and_siblings(items.drop_last(), s1, s2);
        let item = items.last();
        assert forall|j: int| 0 <= j < item.selectors@.len() implies selects(
            #[trigger] item.selectors@[j],
            c1,
        ) == selects(item.selectors@[j], c2) by {
            lemma_tree_match_faces(item.selectors@[j], c1, c2, c1.len());
        }
        assert(item_selects(item, c1) == item_selects(item, c2));
    }
}

} // verus!
