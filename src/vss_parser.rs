use crate::ast::{Rule, VSSItem, VSSSelector, VSSSelectorTree};
use crate::text::{chars_of, string_of, trim, trim_bounds};
use vstd::prelude::*;

verus! {

/// Why a style sheet was refused: the position, in characters, where reading stopped.
#[derive(Clone, Copy, Debug, PartialEq, Eq, Hash, Structural)]
pub enum VSSParseError {
    UnexpectedInput(usize),
}

pub open spec fn is_alpha(c: char) -> bool {
    ('a' <= c && c <= 'z') || ('A' <= c && c <= 'Z')
}

pub open spec fn is_name_start(c: char) -> bool {
    c == '_' || is_alpha(c)
}

pub open spec fn is_name_char(c: char) -> bool {
    c == '-' || c == '_' || is_alpha(c) || ('0' <= c && c <= '9')
}

/// Whitespace between tokens: space, tab, line feed, carriage return.
pub open spec fn is_blank(c: char) -> bool {
    c == ' ' || c == '\t' || c == '\n' || c == '\r'
}

/// The position right after the first `*/` at or after `k`.
pub open spec fn comment_close(s: Seq<char>, k: int) -> Option<int>
    decreases s.len() - k,
{
    if k < 0 || k + 1 >= s.len() {
        None
    } else if s[k] == '*' && s[k + 1] == '/' {
        Some(k + 2)
    } else {
        comment_close(s, k + 1)
    }
}

/// The first position at or after `i` that starts neither whitespace nor a closed
/// `/* ... */` comment.
pub open spec fn skip_trivia(s: Seq<char>, i: int) -> int
    decreases s.len() - i,
{
    if 0 <= i < s.len() && is_blank(s[i]) {
        skip_trivia(s, i + 1)
    } else if 0 <= i && i + 1 < s.len() && s[i] == '/' && s[i + 1] == '*' {
        match comment_close(s, i + 2) {
            Some(e) => if i < e <= s.len() {
                skip_trivia(s, e)
            } else {
                i
            },
            None => i,
        }
    } else {
        i
    }
}

proof fn lemma_comment_close(s: Seq<char>, k: int)
    requires
        0 <= k,
    ensures
        comment_close(s, k) is Some ==> k + 2 <= comment_close(s, k)->0 <= s.len(),
    decreases s.len() - k,
{
    if k + 1 < s.len() && !(s[k] == '*' && s[k + 1] == '/') {
        lemma_comment_close(s, k + 1);
    }
}

fn comment_close_at(s: &[char], k: usize) -> (r: Option<usize>)
    requires
        k <= s@.len(),
    ensures
        match comment_close(s@, k as int) {
            Some(e) => r == Some(e as usize) && k + 2 <= e <= s@.len(),
            None => r is None,
        },
{
    proof {
        lemma_comment_close(s@, k as int);
    }
    let mut j = k;
    while j < s.len() && j + 1 < s.len()
        invariant
            k <= j <= s@.len(),
            comment_close(s@, k as int) == comment_close(s@, j as int),
        decreases s@.len() - j,
    {
        if s[j] == '*' && s[j + 1] == '/' {
            return Some(j + 2);
        }
        j = j + 1;
    }
    None
}

/// The first position at or after `i` that starts neither whitespace nor a comment.
pub fn skip_trivia_at(s: &[char], i: usize) -> (r: usize)
    requires
        i <= s@.len(),
    ensures
        r as int == skip_trivia(s@, i as int),
        i <= r <= s@.len(),
{
    let mut k = i;
    loop
        invariant
            i <= k <= s@.len(),
            skip_trivia(s@, i as int) == skip_trivia(s@, k as int),
        decreases s@.len() - k,
    {
        if k < s.len() && (s[k] == ' ' || s[k] == '\t' || s[k] == '\n' || s[k] == '\r') {
            k = k + 1;
        } else if k < s.len() && k + 1 < s.len() && s[k] == '/' && s[k + 1] == '*' {
            match comment_close_at(s, k + 2) {
                Some(e) => {
                    k = e;
                },
                None => {
                    return k;
                },
            }
        } else {
            return k;
        }
    }
}

fn name_start(c: char) -> (r: bool)
    ensures
        r == is_name_start(c),
{
    c == '_' || ('a' <= c && c <= 'z') || ('A' <= c && c <= 'Z')
}

fn name_char(c: char) -> (r: bool)
    ensures
        r == is_name_char(c),
{
    c == '-' || c == '_' || ('a' <= c && c <= 'z') || ('A' <= c && c <= 'Z') || ('0' <= c && c
        <= '9')
}

fn slice_string(s: &[char], a: usize, b: usize) -> (r: String)
    requires
        a <= b <= s@.len(),
    ensures
        r@ == s@.subrange(a as int, b as int),
{
    let part = s.split_at(b).0.split_at(a).1;
    assert(part@ =~= s@.subrange(a as int, b as int));
    string_of(part)
}


/// How many characters open an identifier at `i`: a letter or `_` (one), or `-` and then a
/// letter, `_` or `-` (two); zero where no identifier starts.
pub open spec fn ident_head(s: Seq<char>, i: int) -> int {
    if 0 <= i < s.len() && is_name_start(s[i]) {
        1
    } else if 0 <= i && i + 1 < s.len() && s[i] == '-' && (is_name_start(s[i + 1]) || s[i + 1]
        == '-') {
        2
    } else {
        0
    }
}

/// The first position at or after `j` that holds no letter, digit, `_` or `-`.
pub open spec fn name_run_end(s: Seq<char>, j: int) -> int
    decreases s.len() - j,
{
    if 0 <= j < s.len() && is_name_char(s[j]) {
        name_run_end(s, j + 1)
    } else {
        j
    }
}

/// The end of the longest identifier at `i`, or `i` where none starts.
pub open spec fn ident_end(s: Seq<char>, i: int) -> int {
    if ident_head(s, i) == 0 {
        i
    } else {
        name_run_end(s, i + ident_head(s, i))
    }
}

/// The simple selector at `i`: its kind (0 `*`, 1 tag, 2 class, 3 id, 4 pseudo-class), where
/// its name starts and where it ends. A pseudo-class may start with `::`, and then its name
/// keeps the second `:`.
pub open spec fn simple_at(s: Seq<char>, i: int) -> Option<(int, int, int)> {
    if !(0 <= i < s.len()) {
        None
    } else if s[i] == '*' {
        Some((0, i + 1, i + 1))
    } else if s[i] == '.' || s[i] == '#' {
        let e = ident_end(s, i + 1);
        if e > i + 1 {
            Some((if s[i] == '.' { 2int } else { 3int }, i + 1, e))
        } else {
            None
        }
    } else if s[i] == ':' {
        let st = if i + 1 < s.len() && s[i + 1] == ':' {
            i + 1
        } else {
            i
        };
        let e = ident_end(s, st + 1);
        if e > st + 1 {
            Some((4, i + 1, e))
        } else {
            None
        }
    } else {
        let e = ident_end(s, i);
        if e > i {
            Some((1, i, e))
        } else {
            None
        }
    }
}

/// Whether `sel` is the simple selector that token `tok` of `s` writes.
pub open spec fn simple_is(sel: VSSSelector, s: Seq<char>, tok: (int, int, int)) -> bool {
    let name = s.subrange(tok.1, tok.2);
    match sel {
        VSSSelector::All => tok.0 == 0,
        VSSSelector::Tag(n) => tok.0 == 1 && n@ == name,
        VSSSelector::Class(n) => tok.0 == 2 && n@ == name,
        VSSSelector::Id(n) => tok.0 == 3 && n@ == name,
        VSSSelector::PseudoClass(n) => tok.0 == 4 && n@ == name,
        VSSSelector::Attribute(_, _) => false,
    }
}

/// Where the compound `v` that `s` writes from `i` on ends: simple selectors with nothing
/// between them, as many as follow one another.
pub open spec fn compound_rel(s: Seq<char>, i: int, v: Seq<VSSSelector>) -> Option<int>
    decreases v.len(),
{
    if v.len() == 0 {
        None
    } else {
        match simple_at(s, i) {
            None => None,
            Some(tok) => if !simple_is(v[0], s, tok) {
                None
            } else if v.len() == 1 {
                if simple_at(s, tok.2) is None {
                    Some(tok.2)
                } else {
                    None
                }
            } else {
                compound_rel(s, tok.2, v.drop_first())
            },
        }
    }
}

pub open spec fn is_selector_stop(c: char) -> bool {
    c == '>' || c == '+' || c == '~' || c == ',' || c == '{'
}

/// Where the selector `t` that `s` writes from `i` on ends: the position of the `,` or `{`
/// after it. Its first compound comes first; whitespace alone joins it to the rest as a
/// descendant, `>` as a child, `+` as the next sibling, `~` as a later sibling.
pub open spec fn tree_rel(s: Seq<char>, i: int, t: VSSSelectorTree) -> Option<int>
    decreases t, 1int,
{
    match t {
        VSSSelectorTree::Selectors(c) => match compound_rel(s, i, c@) {
            Some(e) => {
                let j = skip_trivia(s, e);
                if 0 <= j < s.len() && (s[j] == ',' || s[j] == '{') {
                    Some(j)
                } else {
                    None
                }
            },
            None => None,
        },
        VSSSelectorTree::Descendant(c, r) => match compound_rel(s, i, c@) {
            Some(e) => {
                let j = skip_trivia(s, e);
                if e < j < s.len() && !is_selector_stop(s[j]) {
                    tree_rel(s, j, *r)
                } else {
                    None
                }
            },
            None => None,
        },
        VSSSelectorTree::Child(c, r) => joined_rel(s, i, c@, '>', *r),
        VSSSelectorTree::Sibling(c, r) => joined_rel(s, i, c@, '+', *r),
        VSSSelectorTree::AdjSibling(c, r) => joined_rel(s, i, c@, '~', *r),
    }
}

/// Where a selector ends whose first compound `c` is joined to the rest `r` by `joint`.
pub open spec fn joined_rel(
    s: Seq<char>,
    i: int,
    c: Seq<VSSSelector>,
    joint: char,
    r: VSSSelectorTree,
) -> Option<int>
    decreases r, 2int,
{
    match compound_rel(s, i, c) {
        Some(e) => {
            let j = skip_trivia(s, e);
            if 0 <= j < s.len() && s[j] == joint {
                tree_rel(s, skip_trivia(s, j + 1), r)
            } else {
                None
            }
        },
        None => None,
    }
}

/// The first position at or after `j` that holds no letter and no `-`.
pub open spec fn property_end(s: Seq<char>, j: int) -> int
    decreases s.len() - j,
{
    if 0 <= j < s.len() && (is_alpha(s[j]) || s[j] == '-') {
        property_end(s, j + 1)
    } else {
        j
    }
}

/// The first position at or after `j` that holds `;` or `}`, or the end of `s`.
pub open spec fn value_end(s: Seq<char>, j: int) -> int
    decreases s.len() - j,
{
    if 0 <= j < s.len() && s[j] != ';' && s[j] != '}' {
        value_end(s, j + 1)
    } else {
        j
    }
}

/// Where the declaration `rule` that `s` writes from `k` on ends: the position of the `;`
/// or `}` after its value. The property is letters and `-`; the value is what stands
/// between the `:` and that character, trimmed, and is not empty.
pub open spec fn rule_rel(s: Seq<char>, k: int, rule: Rule) -> Option<int> {
    let p = property_end(s, k);
    let c = skip_trivia(s, p);
    let v = skip_trivia(s, c + 1);
    let w = value_end(s, v);
    if 0 <= k < p && rule.property@ == s.subrange(k, p) && c < s.len() && s[c] == ':' && w
        < s.len() && trim(s.subrange(v, w)).len() > 0 && rule.value@ == trim(s.subrange(v, w)) {
        Some(w)
    } else {
        None
    }
}

/// Where the selectors `sels` of a style block that `s` writes from `i` on end: the
/// position of the `,` or `{` after the last. Commas separate them.
pub open spec fn selectors_rel(s: Seq<char>, i: int, sels: Seq<VSSSelectorTree>) -> Option<int>
    decreases sels.len(),
{
    if sels.len() == 0 {
        None
    } else if sels.len() == 1 {
        tree_rel(s, i, sels[0])
    } else {
        match selectors_rel(s, i, sels.drop_last()) {
            Some(p) => if s[p] == ',' {
                tree_rel(s, skip_trivia(s, p + 1), sels.last())
            } else {
                None
            },
            None => None,
        }
    }
}

/// Where the text after the declarations `rules` of a block, read from `k` on, starts:
/// each declaration is followed by `;` and whitespace, or by the closing `}`.
pub open spec fn rules_rel(s: Seq<char>, k: int, rules: Seq<Rule>) -> Option<int>
    decreases rules.len(),
{
    if rules.len() == 0 {
        Some(k)
    } else {
        match rules_rel(s, k, rules.drop_last()) {
            Some(q) => if 0 <= q < s.len() && s[q] != '}' {
                match rule_rel(s, q, rules.last()) {
                    Some(w) => if s[w] == ';' {
                        Some(skip_trivia(s, w + 1))
                    } else {
                        Some(w)
                    },
                    None => None,
                }
            } else {
                None
            },
            None => None,
        }
    }
}

/// Where the style block `item` that `s` writes from `k` on ends: right after its `}`.
pub open spec fn item_rel(s: Seq<char>, k: int, item: VSSItem) -> Option<int> {
    match selectors_rel(s, k, item.selectors@) {
        Some(p) => if s[p] == '{' {
            match rules_rel(s, skip_trivia(s, p + 1), item.rules@) {
                Some(q) => if 0 <= q < s.len() && s[q] == '}' {
                    Some(q + 1)
                } else {
                    None
                },
                None => None,
            }
        } else {
            None
        },
        None => None,
    }
}

/// Where the text after the style blocks `items`, read from the start of `s`, starts; with
/// whitespace and comments skipped before each block and after the last.
pub open spec fn items_rel(s: Seq<char>, items: Seq<VSSItem>) -> Option<int>
    decreases items.len(),
{
    if items.len() == 0 {
        Some(skip_trivia(s, 0))
    } else {
        match items_rel(s, items.drop_last()) {
            Some(k) => if 0 <= k < s.len() {
                match item_rel(s, k, items.last()) {
                    Some(e) => Some(skip_trivia(s, e)),
                    None => None,
                }
            } else {
                None
            },
            None => None,
        }
    }
}

/// Whether `items` are the style blocks that the whole of `s` writes.
pub open spec fn sheet_rel(s: Seq<char>, items: Seq<VSSItem>) -> bool {
    items_rel(s, items) == Some(s.len() as int)
}

/// The end of the longest run of simple selectors at `i`; `i` itself where none starts.
pub open spec fn compound_end(s: Seq<char>, i: int) -> int
    decreases s.len() - i,
{
    match simple_at(s, i) {
        Some(tok) => if i < tok.2 <= s.len() {
            compound_end(s, tok.2)
        } else {
            i
        },
        None => i,
    }
}

proof fn lemma_name_run_end(s: Seq<char>, j: int)
    requires
        0 <= j <= s.len(),
    ensures
        j <= name_run_end(s, j) <= s.len(),
    decreases s.len() - j,
{
    if j < s.len() && is_name_char(s[j]) {
        lemma_name_run_end(s, j + 1);
    }
}

proof fn lemma_simple_at_bounds(s: Seq<char>, i: int)
    requires
        0 <= i,
    ensures
        simple_at(s, i) matches Some(tok) ==> i < tok.2 <= s.len(),
{
    if 0 <= i < s.len() {
        lemma_name_run_end(s, i + 1 + ident_head(s, i + 1));
        lemma_name_run_end(s, i + ident_head(s, i));
        if i + 1 < s.len() {
            lemma_name_run_end(s, i + 2 + ident_head(s, i + 2));
        }
    }
}

/// Every compound at `i` ends at the same place.
proof fn lemma_compound_end(s: Seq<char>, i: int, v: Seq<VSSSelector>)
    requires
        0 <= i,
        compound_rel(s, i, v) is Some,
    ensures
        compound_rel(s, i, v) == Some(compound_end(s, i)),
        i < compound_end(s, i) <= s.len(),
    decreases v.len(),
{
    lemma_simple_at_bounds(s, i);
    let tok = simple_at(s, i)->0;
    assert(compound_end(s, i) == compound_end(s, tok.2));
    if v.len() > 1 {
        lemma_compound_end(s, tok.2, v.drop_first());
    } else {
        assert(compound_end(s, tok.2) == tok.2);
    }
}

proof fn lemma_skip_trivia_bounds(s: Seq<char>, i: int)
    requires
        0 <= i <= s.len(),
    ensures
        i <= skip_trivia(s, i) <= s.len(),
    decreases s.len() - i,
{
    if i < s.len() && is_blank(s[i]) {
        lemma_skip_trivia_bounds(s, i + 1);
    } else if i + 1 < s.len() && s[i] == '/' && s[i + 1] == '*' {
        if let Some(e) = comment_close(s, i + 2) {
            if i < e <= s.len() {
                lemma_skip_trivia_bounds(s, e);
            }
        }
    }
}

/// No selector is read at `i` unless a compound starts there.
proof fn lemma_no_compound_no_tree(s: Seq<char>, i: int, t: VSSSelectorTree)
    requires
        simple_at(s, i) is None,
    ensures
        tree_rel(s, i, t) is None,
{
    reveal_with_fuel(tree_rel, 2);
    match t {
        VSSSelectorTree::Selectors(c) => assert(compound_rel(s, i, c@) is None),
        VSSSelectorTree::Descendant(c, _) => assert(compound_rel(s, i, c@) is None),
        VSSSelectorTree::Child(c, _) => assert(compound_rel(s, i, c@) is None),
        VSSSelectorTree::Sibling(c, _) => assert(compound_rel(s, i, c@) is None),
        VSSSelectorTree::AdjSibling(c, _) => assert(compound_rel(s, i, c@) is None),
    }
}

/// Reads the longest identifier at `i`; gives `i` itself where none starts there.
pub fn lex_ident(s: &[char], i: usize) -> (r: usize)
    requires
        i <= s@.len(),
    ensures
        r as int == ident_end(s@, i as int),
        i <= r <= s@.len(),
{
    let head: usize = if i < s.len() && name_start(s[i]) {
        1
    } else if i < s.len() && i + 1 < s.len() && s[i] == '-' && (name_start(s[i + 1]) || s[i + 1]
        == '-') {
        2
    } else {
        0
    };
    if head == 0 {
        return i;
    }
    let mut e = i + head;
    while e < s.len() && name_char(s[e])
        invariant
            i + head <= e <= s@.len(),
            head as int == ident_head(s@, i as int),
            ident_end(s@, i as int) == name_run_end(s@, e as int),
        decreases s@.len() - e,
    {
        e = e + 1;
    }
    e
}

/// Reads the simple selector at `i`.
fn parse_simple(s: &[char], i: usize) -> (r: Option<(VSSSelector, usize)>)
    requires
        i <= s@.len(),
    ensures
        match simple_at(s@, i as int) {
            Some(tok) => r matches Some((sel, e)) && simple_is(sel, s@, tok) && e == tok.2 && i
                < e <= s@.len(),
            None => r is None,
        },
{
    if i >= s.len() {
        return None;
    }
    let c = s[i];
    if c == '*' {
        return Some((VSSSelector::All, i + 1));
    }
    if c == '.' || c == '#' {
        let e = lex_ident(s, i + 1);
        if e == i + 1 {
            return None;
        }
        let name = slice_string(s, i + 1, e);
        if c == '.' {
            return Some((VSSSelector::Class(name), e));
        } else {
            return Some((VSSSelector::Id(name), e));
        }
    }
    if c == ':' {
        let start = if i + 1 < s.len() && s[i + 1] == ':' {
            i + 1
        } else {
            i
        };
        let e = lex_ident(s, start + 1);
        if e == start + 1 {
            return None;
        }
        let name = slice_string(s, i + 1, e);
        return Some((VSSSelector::PseudoClass(name), e));
    }
    let e = lex_ident(s, i);
    if e == i {
        return None;
    }
    Some((VSSSelector::Tag(slice_string(s, i, e)), e))
}

/// Reads the compound at `i`: as many simple selectors as follow one another.
fn parse_compound(s: &[char], i: usize) -> (r: Option<(Vec<VSSSelector>, usize)>)
    requires
        i <= s@.len(),
    ensures
        match r {
            Some((v, e)) => compound_rel(s@, i as int, v@) == Some(e as int) && i < e <= s@.len(),
            None => simple_at(s@, i as int) is None,
        },
    decreases s@.len() - i,
{
    let (sel, e) = match parse_simple(s, i) {
        Some(x) => x,
        None => {
            return None;
        },
    };
    let ghost tok = simple_at(s@, i as int)->0;
    match parse_compound(s, e) {
        None => {
            let mut v: Vec<VSSSelector> = Vec::new();
            v.push(sel);
            Some((v, e))
        },
        Some((mut rest, end)) => {
            let ghost tail = rest@;
            rest.insert(0, sel);
            assert(rest@.drop_first() =~= tail);
            Some((rest, end))
        },
    }
}

/// How a selector at `i` goes on after its first compound: read as `t`, it is read as the
/// part of `t` after that compound, from the place the joint leaves.
proof fn lemma_other_trees(s: Seq<char>, i: int, t: VSSSelectorTree)
    requires
        0 <= i,
    ensures
        tree_rel(s, i, t) is Some ==> {
            let e = compound_end(s, i);
            let j = skip_trivia(s, e);
            0 <= j < s.len() && match t {
                VSSSelectorTree::Selectors(_) => (s[j] == ',' || s[j] == '{') && tree_rel(s, i, t)
                    == Some(j),
                VSSSelectorTree::Descendant(_, r) => e < j && !is_selector_stop(s[j]) && tree_rel(
                    s,
                    i,
                    t,
                ) == tree_rel(s, j, *r),
                VSSSelectorTree::Child(_, r) => s[j] == '>' && tree_rel(s, i, t) == tree_rel(
                    s,
                    skip_trivia(s, j + 1),
                    *r,
                ),
                VSSSelectorTree::Sibling(_, r) => s[j] == '+' && tree_rel(s, i, t) == tree_rel(
                    s,
                    skip_trivia(s, j + 1),
                    *r,
                ),
                VSSSelectorTree::AdjSibling(_, r) => s[j] == '~' && tree_rel(s, i, t) == tree_rel(
                    s,
                    skip_trivia(s, j + 1),
                    *r,
                ),
            }
        },
{
    reveal_with_fuel(tree_rel, 2);
    if tree_rel(s, i, t) is Some {
        let c = match t {
            VSSSelectorTree::Selectors(c) => c,
            VSSSelectorTree::Descendant(c, _) => c,
            VSSSelectorTree::Child(c, _) => c,
            VSSSelectorTree::Sibling(c, _) => c,
            VSSSelectorTree::AdjSibling(c, _) => c,
        };
        assert(compound_rel(s, i, c@) is Some);
        lemma_compound_end(s, i, c@);
        lemma_skip_trivia_bounds(s, compound_end(s, i));
    }
    match t {
        VSSSelectorTree::Selectors(c) => {
            if compound_rel(s, i, c@) is Some {
                lemma_compound_end(s, i, c@);
            }
        },
        VSSSelectorTree::Descendant(c, _) => {
            if compound_rel(s, i, c@) is Some {
                lemma_compound_end(s, i, c@);
            }
        },
        VSSSelectorTree::Child(c, _) => {
            if compound_rel(s, i, c@) is Some {
                lemma_compound_end(s, i, c@);
            }
        },
        VSSSelectorTree::Sibling(c, _) => {
            if compound_rel(s, i, c@) is Some {
                lemma_compound_end(s, i, c@);
            }
        },
        VSSSelectorTree::AdjSibling(c, _) => {
            if compound_rel(s, i, c@) is Some {
                lemma_compound_end(s, i, c@);
            }
        },
    }
}

proof fn lemma_tree_bounds(s: Seq<char>, i: int, t: VSSSelectorTree)
    requires
        0 <= i,
    ensures
        tree_rel(s, i, t) matches Some(e) ==> 0 <= e < s.len(),
    decreases t,
{
    lemma_other_trees(s, i, t);
    if tree_rel(s, i, t) is Some {
        let j = skip_trivia(s, compound_end(s, i));
        match t {
            VSSSelectorTree::Selectors(_) => {},
            VSSSelectorTree::Descendant(_, r) => lemma_tree_bounds(s, j, *r),
            VSSSelectorTree::Child(_, r) => {
                lemma_skip_trivia_bounds(s, j + 1);
                lemma_tree_bounds(s, skip_trivia(s, j + 1), *r);
            },
            VSSSelectorTree::Sibling(_, r) => {
                lemma_skip_trivia_bounds(s, j + 1);
                lemma_tree_bounds(s, skip_trivia(s, j + 1), *r);
            },
            VSSSelectorTree::AdjSibling(_, r) => {
                lemma_skip_trivia_bounds(s, j + 1);
                lemma_tree_bounds(s, skip_trivia(s, j + 1), *r);
            },
        }
    }
}

/// Every selector read at `i` ends at the same place.
proof fn lemma_tree_unique(s: Seq<char>, i: int, t1: VSSSelectorTree, t2: VSSSelectorTree)
    requires
        0 <= i,
        tree_rel(s, i, t1) is Some,
        tree_rel(s, i, t2) is Some,
    ensures
        tree_rel(s, i, t1) == tree_rel(s, i, t2),
    decreases t1,
{
    lemma_other_trees(s, i, t1);
    lemma_other_trees(s, i, t2);
    let j = skip_trivia(s, compound_end(s, i));
    let k = skip_trivia(s, j + 1);
    lemma_skip_trivia_bounds(s, j + 1);
    match (t1, t2) {
        (VSSSelectorTree::Descendant(_, r1), VSSSelectorTree::Descendant(_, r2)) => {
            lemma_tree_unique(s, j, *r1, *r2);
        },
        (VSSSelectorTree::Child(_, r1), VSSSelectorTree::Child(_, r2)) => {
            lemma_tree_unique(s, k, *r1, *r2);
        },
        (VSSSelectorTree::Sibling(_, r1), VSSSelectorTree::Sibling(_, r2)) => {
            lemma_tree_unique(s, k, *r1, *r2);
        },
        (VSSSelectorTree::AdjSibling(_, r1), VSSSelectorTree::AdjSibling(_, r2)) => {
            lemma_tree_unique(s, k, *r1, *r2);
        },
        _ => {},
    }
}

proof fn lemma_selectors_bounds(s: Seq<char>, k: int, a: Seq<VSSSelectorTree>)
    requires
        0 <= k <= s.len(),
    ensures
        selectors_rel(s, k, a) matches Some(p) ==> 0 <= p < s.len(),
    decreases a.len(),
{
    if a.len() == 1 {
        lemma_tree_bounds(s, k, a[0]);
    } else if a.len() > 1 {
        lemma_selectors_bounds(s, k, a.drop_last());
        if let Some(p) = selectors_rel(s, k, a.drop_last()) {
            lemma_skip_trivia_bounds(s, p + 1);
            lemma_tree_bounds(s, skip_trivia(s, p + 1), a.last());
        }
    }
}

/// The first `m` selectors of a list that is read are read too, each but the last of the
/// whole list followed by a comma.
proof fn lemma_selectors_prefix(s: Seq<char>, k: int, a: Seq<VSSSelectorTree>, m: int)
    requires
        0 <= k <= s.len(),
        selectors_rel(s, k, a) is Some,
        1 <= m <= a.len(),
    ensures
        selectors_rel(s, k, a.subrange(0, m)) is Some,
        m < a.len() ==> s[selectors_rel(s, k, a.subrange(0, m))->0] == ',',
    decreases a.len(),
{
    if m == a.len() {
        assert(a.subrange(0, m) =~= a);
    } else {
        lemma_selectors_prefix(s, k, a.drop_last(), m);
        assert(a.drop_last().subrange(0, m) =~= a.subrange(0, m));
        if m == a.len() - 1 {
            assert(a.drop_last() =~= a.subrange(0, m));
        }
    }
}

/// Two lists of as many selectors read from `k` end at the same place.
proof fn lemma_selectors_unique(
    s: Seq<char>,
    k: int,
    a: Seq<VSSSelectorTree>,
    b: Seq<VSSSelectorTree>,
)
    requires
        0 <= k <= s.len(),
        a.len() == b.len(),
        selectors_rel(s, k, a) is Some,
        selectors_rel(s, k, b) is Some,
    ensures
        selectors_rel(s, k, a) == selectors_rel(s, k, b),
    decreases a.len(),
{
    if a.len() == 1 {
        lemma_tree_unique(s, k, a[0], b[0]);
    } else {
        lemma_selectors_unique(s, k, a.drop_last(), b.drop_last());
        lemma_selectors_bounds(s, k, a.drop_last());
        let p = selectors_rel(s, k, a.drop_last())->0;
        lemma_skip_trivia_bounds(s, p + 1);
        lemma_tree_unique(s, skip_trivia(s, p + 1), a.last(), b.last());
    }
}

/// Two lists of selectors read from `k` that both end at `{` are equally long.
proof fn lemma_selectors_same_length(
    s: Seq<char>,
    k: int,
    a: Seq<VSSSelectorTree>,
    b: Seq<VSSSelectorTree>,
)
    requires
        0 <= k <= s.len(),
        selectors_rel(s, k, a) matches Some(p) && s[p] == '{',
        selectors_rel(s, k, b) matches Some(p) && s[p] == '{',
    ensures
        a.len() == b.len(),
{
    if a.len() < b.len() {
        lemma_selectors_prefix(s, k, b, a.len() as int);
        lemma_selectors_unique(s, k, a, b.subrange(0, a.len() as int));
    } else if b.len() < a.len() {
        lemma_selectors_prefix(s, k, a, b.len() as int);
        lemma_selectors_unique(s, k, b, a.subrange(0, b.len() as int));
    }
}

/// The first `m` declarations of a list that is read are read too; each of them but the
/// last of the whole list leaves a place where the next declaration is read.
proof fn lemma_rules_prefix(s: Seq<char>, k: int, a: Seq<Rule>, m: int)
    requires
        rules_rel(s, k, a) is Some,
        0 <= m <= a.len(),
    ensures
        rules_rel(s, k, a.subrange(0, m)) is Some,
        m < a.len() ==> {
            let q = rules_rel(s, k, a.subrange(0, m))->0;
            0 <= q < s.len() && s[q] != '}' && rule_rel(s, q, a[m]) is Some
        },
    decreases a.len(),
{
    if m == a.len() {
        assert(a.subrange(0, m) =~= a);
    } else {
        lemma_rules_prefix(s, k, a.drop_last(), m);
        assert(a.drop_last().subrange(0, m) =~= a.subrange(0, m));
        if m == a.len() - 1 {
            assert(a.drop_last() =~= a.subrange(0, m));
        }
    }
}

/// Two lists of as many declarations read from `k` end at the same place.
proof fn lemma_rules_unique(s: Seq<char>, k: int, a: Seq<Rule>, b: Seq<Rule>)
    requires
        a.len() == b.len(),
        rules_rel(s, k, a) is Some,
        rules_rel(s, k, b) is Some,
    ensures
        rules_rel(s, k, a) == rules_rel(s, k, b),
    decreases a.len(),
{
    if a.len() > 0 {
        lemma_rules_unique(s, k, a.drop_last(), b.drop_last());
    }
}

/// Two lists of declarations read from `k` that both end at `}` are equally long.
proof fn lemma_rules_same_length(s: Seq<char>, k: int, a: Seq<Rule>, b: Seq<Rule>)
    requires
        rules_rel(s, k, a) matches Some(q) && 0 <= q < s.len() && s[q] == '}',
        rules_rel(s, k, b) matches Some(q) && 0 <= q < s.len() && s[q] == '}',
    ensures
        a.len() == b.len(),
{
    if a.len() < b.len() {
        lemma_rules_prefix(s, k, b, a.len() as int);
        lemma_rules_unique(s, k, a, b.subrange(0, a.len() as int));
    } else if b.len() < a.len() {
        lemma_rules_prefix(s, k, a, b.len() as int);
        lemma_rules_unique(s, k, b, a.subrange(0, b.len() as int));
    }
}

/// Every style block read at `k` ends at the same place.
proof fn lemma_item_unique(s: Seq<char>, k: int, a: VSSItem, b: VSSItem)
    requires
        0 <= k <= s.len(),
        item_rel(s, k, a) is Some,
        item_rel(s, k, b) is Some,
    ensures
        item_rel(s, k, a) == item_rel(s, k, b),
{
    lemma_selectors_same_length(s, k, a.selectors@, b.selectors@);
    lemma_selectors_unique(s, k, a.selectors@, b.selectors@);
    lemma_selectors_bounds(s, k, a.selectors@);
    let p = selectors_rel(s, k, a.selectors@)->0;
    let start = skip_trivia(s, p + 1);
    lemma_rules_same_length(s, start, a.rules@, b.rules@);
    lemma_rules_unique(s, start, a.rules@, b.rules@);
}

/// Where no selector can be read after the selectors `done`, no style block is read at `k`.
proof fn lemma_item_fails_at_selector(s: Seq<char>, k: int, done: Seq<VSSSelectorTree>, i: int)
    requires
        0 <= k <= i <= s.len(),
        done.len() == 0 ==> i == k,
        done.len() > 0 ==> (selectors_rel(s, k, done) matches Some(p) && 0 <= p < s.len() && s[p]
            == ',' && i == skip_trivia(s, p + 1)),
        forall|t: VSSSelectorTree| #[trigger] tree_rel(s, i, t) is None,
    ensures
        forall|item: VSSItem| #[trigger] item_rel(s, k, item) is None,
{
    assert forall|item: VSSItem| #[trigger] item_rel(s, k, item) is None by {
        if item_rel(s, k, item) is Some {
            let sels = item.selectors@;
            let n = done.len() as int;
            if sels.len() <= n {
                lemma_selectors_prefix(s, k, done, sels.len() as int);
                lemma_selectors_unique(s, k, sels, done.subrange(0, sels.len() as int));
                if sels.len() == n {
                    assert(done.subrange(0, n) =~= done);
                }
            } else {
                lemma_selectors_prefix(s, k, sels, n + 1);
                let x = sels.subrange(0, n + 1);
                if n == 0 {
                    assert(x[0] == sels[0]);
                    assert(tree_rel(s, k, sels[0]) is None);
                } else {
                    lemma_selectors_prefix(s, k, sels, n);
                    lemma_selectors_unique(s, k, sels.subrange(0, n), done);
                    assert(x.drop_last() =~= sels.subrange(0, n));
                    assert(x.last() == sels[n]);
                    assert(tree_rel(s, i, sels[n]) is None);
                }
            }
        }
    }
}

/// Where the declarations after the selectors `done` stop at `q` without a closing brace,
/// and nothing more can be read there, no style block is read at `k`.
proof fn lemma_item_fails_in_rules(
    s: Seq<char>,
    k: int,
    done: Seq<VSSSelectorTree>,
    sep: int,
    rules: Seq<Rule>,
    q: int,
)
    requires
        0 <= k <= s.len(),
        selectors_rel(s, k, done) == Some(sep),
        0 <= sep < s.len(),
        s[sep] == '{',
        rules_rel(s, skip_trivia(s, sep + 1), rules) == Some(q),
        q >= s.len() || (0 <= q < s.len() && s[q] != '}' && forall|rule: Rule|
            #[trigger] rule_rel(s, q, rule) is None),
    ensures
        forall|item: VSSItem| #[trigger] item_rel(s, k, item) is None,
{
    let start = skip_trivia(s, sep + 1);
    assert forall|item: VSSItem| #[trigger] item_rel(s, k, item) is None by {
        if item_rel(s, k, item) is Some {
            lemma_selectors_same_length(s, k, item.selectors@, done);
            lemma_selectors_unique(s, k, item.selectors@, done);
            let r = item.rules@;
            let n = rules.len() as int;
            if r.len() <= n {
                lemma_rules_prefix(s, start, rules, r.len() as int);
                lemma_rules_unique(s, start, r, rules.subrange(0, r.len() as int));
                if r.len() == n {
                    assert(rules.subrange(0, n) =~= rules);
                }
            } else {
                lemma_rules_prefix(s, start, r, n);
                lemma_rules_unique(s, start, r.subrange(0, n), rules);
                assert(rule_rel(s, q, r[n]) is None);
            }
        }
    }
}

proof fn lemma_items_bounds(s: Seq<char>, a: Seq<VSSItem>)
    ensures
        items_rel(s, a) matches Some(k) ==> 0 <= k <= s.len(),
    decreases a.len(),
{
    lemma_skip_trivia_bounds(s, 0);
    if a.len() > 0 {
        lemma_items_bounds(s, a.drop_last());
        if let Some(k) = items_rel(s, a.drop_last()) {
            if let Some(e) = item_rel(s, k, a.last()) {
                lemma_skip_trivia_bounds(s, e);
            }
        }
    }
}

/// The first `m` style blocks of a list that is read are read too; each of them but the
/// last of the whole list leaves a place where the next block is read.
proof fn lemma_items_prefix(s: Seq<char>, a: Seq<VSSItem>, m: int)
    requires
        items_rel(s, a) is Some,
        0 <= m <= a.len(),
    ensures
        items_rel(s, a.subrange(0, m)) is Some,
        m < a.len() ==> {
            let k = items_rel(s, a.subrange(0, m))->0;
            0 <= k < s.len() && item_rel(s, k, a[m]) is Some
        },
    decreases a.len(),
{
    if m == a.len() {
        assert(a.subrange(0, m) =~= a);
    } else {
        lemma_items_prefix(s, a.drop_last(), m);
        assert(a.drop_last().subrange(0, m) =~= a.subrange(0, m));
        if m == a.len() - 1 {
            assert(a.drop_last() =~= a.subrange(0, m));
        }
    }
}

/// Two lists of as many style blocks read from the start end at the same place.
proof fn lemma_items_unique(s: Seq<char>, a: Seq<VSSItem>, b: Seq<VSSItem>)
    requires
        a.len() == b.len(),
        items_rel(s, a) is Some,
        items_rel(s, b) is Some,
    ensures
        items_rel(s, a) == items_rel(s, b),
    decreases a.len(),
{
    if a.len() > 0 {
        lemma_items_unique(s, a.drop_last(), b.drop_last());
        lemma_items_bounds(s, a.drop_last());
        let k = items_rel(s, a.drop_last())->0;
        lemma_item_unique(s, k, a.last(), b.last());
    }
}

/// Where no style block can be read at `k`, after the blocks `done`, the sheet cannot be
/// read.
proof fn lemma_sheet_fails(s: Seq<char>, done: Seq<VSSItem>, k: int)
    requires
        items_rel(s, done) == Some(k),
        k < s.len(),
        forall|item: VSSItem| #[trigger] item_rel(s, k, item) is None,
    ensures
        forall|items: Seq<VSSItem>| !#[trigger] sheet_rel(s, items),
{
    assert forall|items: Seq<VSSItem>| !#[trigger] sheet_rel(s, items) by {
        if sheet_rel(s, items) {
            let n = done.len() as int;
            if items.len() <= n {
                lemma_items_prefix(s, done, items.len() as int);
                lemma_items_unique(s, items, done.subrange(0, items.len() as int));
                if items.len() == n {
                    assert(done.subrange(0, n) =~= done);
                }
            } else {
                lemma_items_prefix(s, items, n);
                lemma_items_unique(s, items.subrange(0, n), done);
                assert(item_rel(s, k, items[n]) is None);
            }
        }
    }
}

/// Reads one selector at `i`, up to the `,` or `{` that ends it; gives the position of
/// that character.
fn parse_selector(s: &[char], i: usize) -> (r: Result<(VSSSelectorTree, usize), usize>)
    requires
        i <= s@.len(),
    ensures
        r matches Ok((t, e)) ==> tree_rel(s@, i as int, t) == Some(e as int) && i < e < s@.len()
            && (s@[e as int] == ',' || s@[e as int] == '{'),
        r matches Err(p) ==> p <= s@.len() && forall|t: VSSSelectorTree|
            #[trigger] tree_rel(s@, i as int, t) is None,
    decreases s@.len() - i,
{
    let (comp, e) = match parse_compound(s, i) {
        Some(x) => x,
        None => {
            assert forall|t: VSSSelectorTree| #[trigger] tree_rel(s@, i as int, t) is None by {
                lemma_no_compound_no_tree(s@, i as int, t);
            }
            return Err(i);
        },
    };
    proof {
        lemma_compound_end(s@, i as int, comp@);
    }
    let j = skip_trivia_at(s, e);
    if j < s.len() && (s[j] == '>' || s[j] == '+' || s[j] == '~') {
        let k = skip_trivia_at(s, j + 1);
        let (rest, end) = match parse_selector(s, k) {
            Ok(x) => x,
            Err(p) => {
                assert forall|t: VSSSelectorTree| #[trigger] tree_rel(s@, i as int, t) is None by {
                    lemma_other_trees(s@, i as int, t);
                }
                return Err(p);
            },
        };
        let ghost joint = s@[j as int];
        assert(joined_rel(s@, i as int, comp@, joint, rest) == Some(end as int));
        let tree = if s[j] == '>' {
            VSSSelectorTree::Child(comp, Box::new(rest))
        } else if s[j] == '+' {
            VSSSelectorTree::Sibling(comp, Box::new(rest))
        } else {
            VSSSelectorTree::AdjSibling(comp, Box::new(rest))
        };
        Ok((tree, end))
    } else if j < s.len() && (s[j] == ',' || s[j] == '{') {
        Ok((VSSSelectorTree::Selectors(comp), j))
    } else if j > e && j < s.len() {
        let (rest, end) = match parse_selector(s, j) {
            Ok(x) => x,
            Err(p) => {
                assert forall|t: VSSSelectorTree| #[trigger] tree_rel(s@, i as int, t) is None by {
                    lemma_other_trees(s@, i as int, t);
                }
                return Err(p);
            },
        };
        Ok((VSSSelectorTree::Descendant(comp, Box::new(rest)), end))
    } else {
        assert forall|t: VSSSelectorTree| #[trigger] tree_rel(s@, i as int, t) is None by {
            lemma_other_trees(s@, i as int, t);
        }
        Err(j)
    }
}

/// Reads one declaration at `k`: a property name, `:`, and the value up to the next `;` or
/// `}`, trimmed.
fn parse_rule(s: &[char], k: usize) -> (r: Result<(Rule, usize), usize>)
    requires
        k <= s@.len(),
    ensures
        r matches Ok((rule, w)) ==> rule_rel(s@, k as int, rule) == Some(w as int) && k < w
            < s@.len(),
        r matches Err(p) ==> p <= s@.len() && forall|rule: Rule|
            #[trigger] rule_rel(s@, k as int, rule) is None,
{
    let mut p = k;
    while p < s.len() && (('a' <= s[p] && s[p] <= 'z') || ('A' <= s[p] && s[p] <= 'Z') || s[p]
        == '-')
        invariant
            k <= p <= s@.len(),
            property_end(s@, k as int) == property_end(s@, p as int),
        decreases s@.len() - p,
    {
        p = p + 1;
    }
    if p == k {
        return Err(k);
    }
    let property = slice_string(s, k, p);
    let c = skip_trivia_at(s, p);
    if c >= s.len() || s[c] != ':' {
        return Err(c);
    }
    let v = skip_trivia_at(s, c + 1);
    let mut w = v;
    while w < s.len() && s[w] != ';' && s[w] != '}'
        invariant
            v <= w <= s@.len(),
            value_end(s@, v as int) == value_end(s@, w as int),
        decreases s@.len() - w,
    {
        w = w + 1;
    }
    if w >= s.len() {
        return Err(w);
    }
    let raw = s.split_at(w).0.split_at(v).1;
    assert(raw@ =~= s@.subrange(v as int, w as int));
    let (lo, hi) = trim_bounds(raw);
    if lo == hi {
        return Err(v);
    }
    let value = slice_string(raw, lo, hi);
    Ok((Rule { property, value }, w))
}

/// Reads one style block at `k`: selectors separated by commas, then the declarations in
/// braces. Gives the position after the closing brace.
fn parse_item(s: &[char], k: usize) -> (r: Result<(VSSItem, usize), usize>)
    requires
        k <= s@.len(),
    ensures
        r matches Ok((item, e)) ==> item_rel(s@, k as int, item) == Some(e as int) && k < e
            <= s@.len(),
        r matches Err(p) ==> p <= s@.len() && forall|item: VSSItem|
            #[trigger] item_rel(s@, k as int, item) is None,
{
    let mut selectors: Vec<VSSSelectorTree> = Vec::new();
    let mut i = k;
    let mut sep: usize = 0;
    loop
        invariant_except_break
            k <= i <= s@.len(),
            selectors@.len() > 0 ==> (selectors_rel(s@, k as int, selectors@) matches Some(p)
                && 0 <= p < s@.len() && s@[p] == ',' && i as int == skip_trivia(s@, p + 1) && p
                < i),
            selectors@.len() == 0 ==> i == k,
        ensures
            selectors@.len() > 0,
            selectors_rel(s@, k as int, selectors@) == Some(sep as int),
            k <= sep < s@.len(),
            s@[sep as int] == '{',
        decreases s@.len() - i,
    {
        let (t, e) = match parse_selector(s, i) {
            Ok(x) => x,
            Err(p) => {
                proof {
                    lemma_item_fails_at_selector(s@, k as int, selectors@, i as int);
                }
                return Err(p);
            },
        };
        let ghost before = selectors@;
        selectors.push(t);
        proof {
            if before.len() > 0 {
                assert(selectors@.drop_last() =~= before);
            }
        }
        if s[e] == ',' {
            i = skip_trivia_at(s, e + 1);
        } else {
            sep = e;
            break ;
        }
    }
    let mut rules: Vec<Rule> = Vec::new();
    let n = s.len();
    assert(sep < n);
    let start = skip_trivia_at(s, sep + 1);
    let mut q = start;
    loop
        invariant
            start <= q <= s@.len(),
            k <= sep < start,
            start as int == skip_trivia(s@, sep + 1),
            selectors_rel(s@, k as int, selectors@) == Some(sep as int),
            s@[sep as int] == '{',
            rules_rel(s@, start as int, rules@) == Some(q as int),
        decreases s@.len() - q,
    {
        if q < s.len() && s[q] == '}' {
            return Ok((VSSItem { selectors, rules }, q + 1));
        }
        if q >= s.len() {
            proof {
                lemma_item_fails_in_rules(s@, k as int, selectors@, sep as int, rules@, q as int);
            }
            return Err(q);
        }
        let (rule, w) = match parse_rule(s, q) {
            Ok(x) => x,
            Err(p) => {
                proof {
                    lemma_item_fails_in_rules(s@, k as int, selectors@, sep as int, rules@, q as int);
                }
                return Err(p);
            },
        };
        let ghost before = rules@;
        rules.push(rule);
        assert(rules@.drop_last() =~= before);
        if s[w] == ';' {
            q = skip_trivia_at(s, w + 1);
        } else {
            q = w;
        }
    }
}

/// Reads a style sheet: style blocks, with whitespace and `/* ... */` comments between
/// tokens. A block is selectors separated by commas, then declarations `property: value`
/// in braces, separated by `;` (the last `;` may be left out). A selector is compounds of
/// `*`, tags, `.class`, `#id` and `:pseudo`, joined by whitespace, `>`, `+` or `~`.
/// The text is refused exactly when it is no such sheet.
pub fn parse(vss: &str) -> (r: Result<Vec<VSSItem>, VSSParseError>)
    ensures
        r matches Ok(items) ==> sheet_rel(vss@, items@),
        r is Err ==> forall|items: Seq<VSSItem>| !#[trigger] sheet_rel(vss@, items),
        skip_trivia(vss@, 0) == vss@.len() ==> (r matches Ok(items) && items@.len() == 0),
        r matches Err(VSSParseError::UnexpectedInput(p)) ==> p <= vss@.len(),
{
    let cs = chars_of(vss);
    let s = cs.as_slice();
    let mut items: Vec<VSSItem> = Vec::new();
    let mut k = skip_trivia_at(s, 0);
    while k < s.len()
        invariant
            s@ == vss@,
            k <= s@.len(),
            items_rel(vss@, items@) == Some(k as int),
            skip_trivia(vss@, 0) == vss@.len() ==> k == vss@.len() && items@.len() == 0,
        decreases s@.len() - k,
    {
        let (item, e) = match parse_item(s, k) {
            Ok(x) => x,
            Err(p) => {
                proof {
                    lemma_sheet_fails(vss@, items@, k as int);
                }
                return Err(VSSParseError::UnexpectedInput(p));
            },
        };
        let ghost before = items@;
        items.push(item);
        assert(items@.drop_last() =~= before);
        k = skip_trivia_at(s, e);
    }
    Ok(items)
}

} // verus!
