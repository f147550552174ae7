//! Tag lists: the comma-separated text a user gives, and the ordered,
//! duplicate-free list of tags a task keeps.

use vstd::prelude::*;
use vstd::string::StrSliceExecFns;
use crate::text::{
    chars_of, lemma_text_less_total, lemma_text_less_transitive, same_text, text_before,
    text_less, trim_bounds, trimmed,
};

verus! {

/// The comma-separated fields of `s`, in order; text without a comma is one field.
pub open spec fn fields(s: Seq<char>) -> Seq<Seq<char>>
    decreases s.len(),
{
    if s.len() == 0 {
        seq![Seq::empty()]
    } else {
        let f = fields(s.drop_last());
        if s.last() == ',' {
            f.push(Seq::empty())
        } else {
            f.update(f.len() - 1, f.last().push(s.last()))
        }
    }
}

/// The tags that the text `s` names: its fields, trimmed, except the empty ones.
pub open spec fn named_tags(s: Seq<char>) -> Set<Seq<char>> {
    Set::new(
        |t: Seq<char>|
            t.len() > 0 && exists|k: int| 0 <= k < fields(s).len() && trimmed(#[trigger] fields(s)[k]) == t,
    )
}

/// Each tag of `r` comes strictly before the ones after it.
pub open spec fn strictly_sorted(r: Seq<Seq<char>>) -> bool {
    forall|i: int, j: int| 0 <= i < j < r.len() ==> text_less(#[trigger] r[i], #[trigger] r[j])
}

/// The tag a task carries when it is given none.
pub open spec fn default_tag() -> Seq<char> {
    seq!['n', 'o', 'n', 'e']
}

/// The tags that the optional tag text `raw` names.
pub open spec fn raw_tags(raw: Option<Seq<char>>) -> Set<Seq<char>> {
    match raw {
        Some(s) => named_tags(s),
        None => Set::empty(),
    }
}

/// `r` is the tag list for the optional tag text `raw`: the tags it names in
/// ascending order, each once, or the default tag alone where it names none.
pub open spec fn normal_tags(raw: Option<Seq<char>>, r: Seq<Seq<char>>) -> bool {
    if raw_tags(raw) == Set::<Seq<char>>::empty() {
        r == seq![default_tag()]
    } else {
        strictly_sorted(r) && forall|t: Seq<char>| r.contains(t) <==> raw_tags(raw).contains(t)
    }
}

/// Puts `tag` into the strictly sorted `out`, unless it is there already.
fn insert_sorted(out: &mut Vec<String>, tag: String)
    requires
        strictly_sorted(old(out).deep_view()),
    ensures
        strictly_sorted(final(out).deep_view()),
        forall|t: Seq<char>|
            final(out).deep_view().contains(t) <==> (old(out).deep_view().contains(t) || t
                == tag@),
{
    let ghost before = out.deep_view();
    let key = chars_of(tag.as_str());
    let mut k: usize = 0;
    while k < out.len() && text_before(&chars_of(out[k].as_str()), &key)
        invariant
            k <= out.len(),
            out.deep_view() == before,
            key@ == tag@,
            forall|j: int| 0 <= j < k ==> text_less(#[trigger] before[j], tag@),
        decreases out.len() - k,
    {
        k = k + 1;
    }
    if k < out.len() && same_text(out[k].as_str(), tag.as_str()) {
        assert(before[k as int] == tag@);
        return;
    }
    proof {
        if k < before.len() {
            lemma_text_less_total(before[k as int], tag@);
        }
    }
    out.insert(k, tag);
    let ghost after = out.deep_view();
    assert(after =~= before.insert(k as int, tag@));
    assert forall|i: int, j: int| 0 <= i < j < after.len() implies text_less(
        #[trigger] after[i],
        #[trigger] after[j],
    ) by {
        if j == k {
            assert(after[i] == before[i]);
        } else if i == k {
            assert(after[j] == before[j - 1]);
            if j - 1 > k {
                assert(text_less(before[k as int], before[j - 1]));
                lemma_text_less_transitive(tag@, before[k as int], before[j - 1]);
            }
        } else if i < k && j > k {
            assert(after[j] == before[j - 1]);
            assert(text_less(before[i], before[j - 1]));
        } else if j < k {
            assert(text_less(before[i], before[j]));
        } else {
            assert(after[i] == before[i - 1]);
            assert(after[j] == before[j - 1]);
            assert(text_less(before[i - 1], before[j - 1]));
        }
    }
    assert forall|t: Seq<char>| after.contains(t) <==> (before.contains(t) || t == tag@) by {
        if after.contains(t) {
            let i = choose|i: int| 0 <= i < after.len() && after[i] == t;
            if i < k {
                assert(before[i] == t);
            } else if i > k {
                assert(before[i - 1] == t);
            }
        }
        if before.contains(t) {
            let i = choose|i: int| 0 <= i < before.len() && before[i] == t;
            if i < k {
                assert(after[i] == t);
            } else {
                assert(after[i + 1] == t);
            }
        }
        if t == tag@ {
            assert(after[k as int] == t);
        }
    }
}

/// Adds the field `cs[from..to]` of `s`, trimmed, to the sorted `out`,
/// unless it is empty once trimmed.
fn add_field(out: &mut Vec<String>, s: &str, cs: &Vec<char>, from: usize, to: usize)
    requires
        cs@ == s@,
        from <= to <= cs.len(),
        strictly_sorted(old(out).deep_view()),
    ensures
        strictly_sorted(final(out).deep_view()),
        forall|t: Seq<char>|
            final(out).deep_view().contains(t) <==> (old(out).deep_view().contains(t) || (t.len()
                > 0 && t == trimmed(cs@.subrange(from as int, to as int)))),
{
    let (lo, hi) = trim_bounds(cs, from, to);
    if lo < hi {
        let tag = s.substring_char(lo, hi).to_owned();
        insert_sorted(out, tag);
    }
}

/// The tag list for the optional tag text `raw`: the tags it names, trimmed,
/// in ascending order, each once; the default tag `none` where it names none.
pub fn normalize_tags(raw: &Option<String>) -> (r: Vec<String>)
    ensures
        normal_tags(
            match raw {
                Some(s) => Some(s@),
                None => None,
            },
            r.deep_view(),
        ),
{
    let ghost view_raw = match raw {
        Some(s) => Some(s@),
        None => None,
    };
    let mut out: Vec<String> = Vec::new();
    match raw {
        Some(text) => {
            let s = text.as_str();
            let cs = chars_of(s);
            let mut start: usize = 0;
            let mut i: usize = 0;
            let ghost mut done: Seq<Seq<char>> = seq![];
            assert(cs@.subrange(0, 0) =~= Seq::<char>::empty());
            while i < cs.len()
                invariant
                    cs@ == s@,
                    start <= i <= cs.len(),
                    fields(cs@.subrange(0, i as int)) == done.push(cs@.subrange(start as int, i as int)),
                    strictly_sorted(out.deep_view()),
                    forall|t: Seq<char>|
                        out.deep_view().contains(t) <==> (t.len() > 0 && exists|k: int|
                            0 <= k < done.len() && trimmed(#[trigger] done[k]) == t),
                decreases cs.len() - i,
            {
                let ghost cur = cs@.subrange(start as int, i as int);
                assert(cs@.subrange(0, i + 1).drop_last() =~= cs@.subrange(0, i as int));
                if cs[i] == ',' {
                    let ghost prev = out.deep_view();
                    add_field(&mut out, s, &cs, start, i);
                    proof {
                        let nd = done.push(cur);
                        assert forall|t: Seq<char>|
                            out.deep_view().contains(t) <==> (t.len() > 0 && exists|k: int|
                                0 <= k < nd.len() && trimmed(#[trigger] nd[k]) == t) by {
                            if prev.contains(t) {
                                let k = choose|k: int| 0 <= k < done.len() && trimmed(#[trigger] done[k]) == t;
                                assert(nd[k] == done[k]);
                            }
                            assert(nd[done.len() as int] == cur);
                            assert(nd[done.len() as int] == cur);
                    if t.len() > 0 && exists|k: int| 0 <= k < nd.len() && trimmed(#[trigger] nd[k]) == t {
                                let k = choose|k: int| 0 <= k < nd.len() && trimmed(#[trigger] nd[k]) == t;
                                if k < done.len() {
                                    assert(nd[k] == done[k]);
                                }
                            }
                        }
                        done = nd;
                        assert(cs@.subrange(i + 1, i + 1) =~= Seq::<char>::empty());
                    }
                    start = i + 1;
                } else {
                    assert(cs@.subrange(start as int, i + 1) =~= cur.push(cs@[i as int]));
                }
                i = i + 1;
            }
            assert(cs@.subrange(0, cs.len() as int) =~= cs@);
            assert(fields(s@) == done.push(cs@.subrange(start as int, cs.len() as int)));
            let ghost prev = out.deep_view();
            let ghost cur = cs@.subrange(start as int, cs.len() as int);
            add_field(&mut out, s, &cs, start, cs.len());
            proof {
                let nd = done.push(cur);
                assert forall|t: Seq<char>|
                    out.deep_view().contains(t) <==> named_tags(s@).contains(t) by {
                    if prev.contains(t) {
                        let k = choose|k: int| 0 <= k < done.len() && trimmed(#[trigger] done[k]) == t;
                        assert(nd[k] == done[k]);
                    }
                    assert(nd[done.len() as int] == cur);
                    if t.len() > 0 && exists|k: int| 0 <= k < nd.len() && trimmed(#[trigger] nd[k]) == t {
                        let k = choose|k: int| 0 <= k < nd.len() && trimmed(#[trigger] nd[k]) == t;
                        if k < done.len() {
                            assert(nd[k] == done[k]);
                        }
                    }
                }
            }
        },
        None => {},
    }
    assert(forall|t: Seq<char>| out.deep_view().contains(t) <==> raw_tags(view_raw).contains(t));
    if out.len() == 0 {
        proof {
            assert(raw_tags(view_raw) =~= Set::<Seq<char>>::empty());
        }
        proof {
            reveal_strlit("none");
        }
        let fallback = "none".to_owned();
        assert(fallback@ =~= default_tag());
        out.push(fallback);
        assert(out.deep_view() =~= seq![default_tag()]);
    } else {
        assert(out.deep_view().contains(out.deep_view()[0]));
        assert(raw_tags(view_raw).contains(out.deep_view()[0]));
    }
    out
}

} // verus!
