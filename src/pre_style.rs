use crate::text::{chars_of, same_chars};
use vstd::prelude::*;

verus! {

/// How a part of a selector outline is joined to the part after it.
#[derive(Clone, Copy, Debug, PartialEq, Eq, Hash, Structural)]
pub enum Combinator {
    Descendant,
    Child,
    NextSibling,
    SubsequentSibling,
}

impl Combinator {
    /// Reads `+`, `>` or `~`.
    pub fn from_str(combinator: &str) -> (r: Combinator)
        requires
            combinator@ == "+"@ || combinator@ == ">"@ || combinator@ == "~"@,
        ensures
            r == combinator_of(combinator@),
    {
        let cs = chars_of(combinator);
        proof {
            reveal_strlit("+");
            reveal_strlit(">");
            reveal_strlit("~");
        }
        if cs[0] == '+' {
            Combinator::NextSibling
        } else if cs[0] == '>' {
            Combinator::Child
        } else {
            Combinator::SubsequentSibling
        }
    }
}

/// The combinator that `+`, `>` or `~` writes.
pub open spec fn combinator_of(s: Seq<char>) -> Combinator {
    if s == "+"@ {
        Combinator::NextSibling
    } else if s == ">"@ {
        Combinator::Child
    } else {
        Combinator::SubsequentSibling
    }
}

/// One part of a selector outline.
pub struct SelectorPart {
    pub tag_name: Option<String>,
    pub class_names: Vec<String>,
    pub id_name: Option<String>,
    pub combinator: Combinator,
}

/// The outline of a selector: its space-separated parts and how they are joined.
pub struct Selector {
    pub selector_list: Vec<SelectorPart>,
}

/// The pieces of `s` between single spaces, empty pieces dropped, scanned left to right:
/// the pieces finished so far and the piece being read.
pub open spec fn piece_scan(s: Seq<char>) -> (Seq<Seq<char>>, Seq<char>)
    decreases s.len(),
{
    if s.len() == 0 {
        (Seq::empty(), Seq::empty())
    } else {
        let st = piece_scan(s.drop_last());
        if s.last() == ' ' {
            if st.1.len() > 0 {
                (st.0.push(st.1), Seq::empty())
            } else {
                st
            }
        } else {
            (st.0, st.1.push(s.last()))
        }
    }
}

/// The non-empty pieces of `s` between single spaces.
pub open spec fn pieces(s: Seq<char>) -> Seq<Seq<char>> {
    let st = piece_scan(s);
    if st.1.len() > 0 {
        st.0.push(st.1)
    } else {
        st.0
    }
}

pub open spec fn is_combinator_text(p: Seq<char>) -> bool {
    p == "+"@ || p == ">"@ || p == "~"@
}

/// The combinators of the outline of the first `n` pieces: every piece but a combinator
/// adds a part joined by `Descendant`; a combinator replaces the join of the part before it,
/// which must exist and still be `Descendant`.
pub open spec fn outline(ps: Seq<Seq<char>>, n: int) -> Option<Seq<Combinator>>
    decreases n,
{
    if n <= 0 {
        Some(Seq::empty())
    } else {
        match outline(ps, n - 1) {
            None => None,
            Some(cs) => if is_combinator_text(ps[n - 1]) {
                if cs.len() > 0 && cs.last() == Combinator::Descendant {
                    Some(cs.drop_last().push(combinator_of(ps[n - 1])))
                } else {
                    None
                }
            } else {
                Some(cs.push(Combinator::Descendant))
            },
        }
    }
}

pub open spec fn joins(parts: Seq<SelectorPart>) -> Seq<Combinator> {
    parts.map_values(|p: SelectorPart| p.combinator)
}

pub open spec fn parts_blank(parts: Seq<SelectorPart>) -> bool {
    forall|k: int|
        0 <= k < parts.len() ==> (#[trigger] parts[k]).tag_name is None && parts[k].class_names@.len()
            == 0 && parts[k].id_name is None
}

fn split_pieces(cs: &[char]) -> (r: Vec<Vec<char>>)
    ensures
        crate::text::vecs_view(r@) == pieces(cs@),
{
    let mut done: Vec<Vec<char>> = Vec::new();
    let mut current: Vec<char> = Vec::new();
    let mut i: usize = 0;
    while i < cs.len()
        invariant
            i <= cs@.len(),
            (crate::text::vecs_view(done@), current@) == piece_scan(cs@.subrange(0, i as int)),
        decreases cs@.len() - i,
    {
        let c = cs[i];
        assert(cs@.subrange(0, i + 1).drop_last() =~= cs@.subrange(0, i as int));
        if c == ' ' {
            if current.len() > 0 {
                let ghost old_done = done@;
                let w = current;
                done.push(w);
                current = Vec::new();
                assert(crate::text::vecs_view(done@) =~= crate::text::vecs_view(old_done).push(w@));
            }
        } else {
            current.push(c);
        }
        i = i + 1;
    }
    assert(cs@.subrange(0, i as int) =~= cs@);
    if current.len() > 0 {
        let ghost old_done = done@;
        let w = current;
        done.push(w);
        assert(crate::text::vecs_view(done@) =~= crate::text::vecs_view(old_done).push(w@));
    }
    done
}

proof fn lemma_outline_stays_none(ps: Seq<Seq<char>>, n: int, m: int)
    requires
        n <= m,
        outline(ps, n) is None,
    ensures
        outline(ps, m) is None,
    decreases m - n,
{
    if n < m {
        lemma_outline_stays_none(ps, n, m - 1);
    }
}

fn blank_part(combinator: Combinator) -> (r: SelectorPart)
    ensures
        r.tag_name is None && r.class_names@.len() == 0 && r.id_name is None,
        r.combinator == combinator,
{
    SelectorPart { tag_name: None, class_names: Vec::new(), id_name: None, combinator }
}

impl Selector {
    /// Reads the outline of a selector: its space-separated parts, where `+`, `>` and `~`
    /// set how the part before them is joined to the next.
    pub fn from_str(selector_str: &str) -> (r: Result<Selector, &'static str>)
        ensures
            match outline(pieces(selector_str@), pieces(selector_str@).len() as int) {
                Some(cs) => r matches Ok(sel) && joins(sel.selector_list@) == cs && parts_blank(
                    sel.selector_list@,
                ),
                None => r is Err,
            },
    {
        let cs = chars_of(selector_str);
        let ps = split_pieces(cs.as_slice());
        let ghost pv = pieces(selector_str@);
        let plus = chars_of("+");
        let gt = chars_of(">");
        let tilde = chars_of("~");
        let mut selector_list: Vec<SelectorPart> = Vec::new();
        let mut i: usize = 0;
        while i < ps.len()
            invariant
                i <= ps@.len(),
                pv == crate::text::vecs_view(ps@),
                pv == pieces(selector_str@),
                plus@ == "+"@,
                gt@ == ">"@,
                tilde@ == "~"@,
                outline(pv, i as int) == Some(joins(selector_list@)),
                parts_blank(selector_list@),
            decreases ps@.len() - i,
        {
            let p = ps[i].as_slice();
            assert(p@ == pv[i as int]);
            let is_plus = same_chars(p, plus.as_slice());
            let is_gt = same_chars(p, gt.as_slice());
            let is_tilde = same_chars(p, tilde.as_slice());
            if is_plus || is_gt || is_tilde {
                let ghost full = selector_list@;
                let last = match selector_list.pop() {
                    Some(s) => s,
                    None => {
                        proof {
                            lemma_outline_stays_none(pv, i + 1, pv.len() as int);
                        }
                        return Err("invalid selector");
                    },
                };
                assert(joins(full).last() == last.combinator);
                assert(joins(selector_list@) =~= joins(full).drop_last());
                if last.combinator != Combinator::Descendant {
                    proof {
                        lemma_outline_stays_none(pv, i + 1, pv.len() as int);
                    }
                    return Err("invalid selector");
                }
                let joint = if is_plus {
                    Combinator::NextSibling
                } else if is_gt {
                    Combinator::Child
                } else {
                    Combinator::SubsequentSibling
                };
                let ghost before = selector_list@;
                selector_list.push(blank_part(joint));
                assert(joins(selector_list@) =~= joins(before).push(joint));
            } else {
                let ghost before = selector_list@;
                selector_list.push(blank_part(Combinator::Descendant));
                assert(joins(selector_list@) =~= joins(before).push(Combinator::Descendant));
            }
            i = i + 1;
        }
        Ok(Selector { selector_list })
    }
}

} // verus!
