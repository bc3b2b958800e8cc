//! Merging repeated detections of one technology.
use vstd::prelude::*;

use crate::classify::string_views;
use crate::js::TechComponent;
use crate::project_tree::{lemma_lex_total, lemma_lex_trans, lex_less, lex_lt};
use crate::report::{opt_view, sort_dedup, strictly_sorted};
use crate::text::chars_of;

verus! {

/// The merge key of a component: `category::id`.
pub open spec fn comp_key(c: TechComponent) -> Seq<char> {
    c.category@ + "::"@ + c.id@
}

pub open spec fn comp_keys(v: Seq<TechComponent>) -> Seq<Seq<char>> {
    v.map_values(|c: TechComponent| comp_key(c))
}

/// The highest confidence among the items with key `k` (0 when none).
pub open spec fn group_confidence(items: Seq<TechComponent>, k: Seq<char>) -> u32
    decreases items.len(),
{
    if items.len() == 0 {
        0
    } else {
        let rest = group_confidence(items.drop_last(), k);
        let c = items.last();
        if comp_key(c) == k && c.confidence_percent > rest {
            c.confidence_percent
        } else {
            rest
        }
    }
}

/// The first version given by an item with key `k`.
pub open spec fn group_version(items: Seq<TechComponent>, k: Seq<char>) -> Option<Seq<char>>
    decreases items.len(),
{
    if items.len() == 0 {
        None
    } else {
        let rest = group_version(items.drop_last(), k);
        let c = items.last();
        if rest.is_none() && comp_key(c) == k {
            opt_view(c.version)
        } else {
            rest
        }
    }
}

/// The evidence of the items with key `k`, in order.
pub open spec fn group_evidence(items: Seq<TechComponent>, k: Seq<char>) -> Seq<Seq<char>>
    decreases items.len(),
{
    if items.len() == 0 {
        Seq::empty()
    } else {
        let rest = group_evidence(items.drop_last(), k);
        let c = items.last();
        if comp_key(c) == k {
            rest + string_views(c.evidence@)
        } else {
            rest
        }
    }
}

/// Index of the first item with key `k` at or after `i`, or -1.
pub open spec fn first_with_key(items: Seq<TechComponent>, k: Seq<char>, i: int) -> int
    decreases items.len() - i,
{
    if i < 0 || i >= items.len() {
        -1
    } else if comp_key(items[i]) == k {
        i
    } else {
        first_with_key(items, k, i + 1)
    }
}

/// A merged component is the first item with its key, with the highest confidence, the
/// first version given, and the evidence of all those items, sorted and without repeats.
pub open spec fn merged_from(m: TechComponent, items: Seq<TechComponent>) -> bool {
    let k = comp_key(m);
    let f = first_with_key(items, k, 0);
    &&& 0 <= f < items.len()
    &&& m.id@ == items[f].id@ && m.name@ == items[f].name@ && m.category@ == items[f].category@
    &&& m.confidence_percent == group_confidence(items, k)
    &&& opt_view(m.version) == group_version(items, k)
    &&& strictly_sorted(string_views(m.evidence@))
    &&& forall|e: Seq<char>| string_views(m.evidence@).contains(e) <==> group_evidence(items, k).contains(e)
}

/// Order of the merged list: higher confidence first, then by key.
pub open spec fn listed_before(a: TechComponent, b: TechComponent) -> bool {
    a.confidence_percent > b.confidence_percent || (a.confidence_percent == b.confidence_percent && lex_lt(
        comp_key(a),
        comp_key(b),
    ))
}

fn key_exec(c: &TechComponent) -> (r: Vec<char>)
    ensures
        r@ == comp_key(*c),
{
    let mut s = c.category.clone();
    s.append("::");
    s.append(c.id.as_str());
    chars_of(s.as_str())
}

fn key_string(c: &TechComponent) -> (r: String)
    ensures
        r@ == comp_key(*c),
{
    let mut s = c.category.clone();
    s.append("::");
    s.append(c.id.as_str());
    s
}

/// The merged component of the items with key `k`, which must occur among them.
fn merge_group(items: &Vec<TechComponent>, k: &Vec<char>) -> (r: TechComponent)
    requires
        exists|j: int| 0 <= j < items@.len() && comp_key(#[trigger] items@[j]) == k@,
    ensures
        merged_from(r, items@),
        comp_key(r) == k@,
{
    let ghost s = items@;
    let mut first: Option<usize> = None;
    let mut conf: u32 = 0;
    let mut version: Option<String> = None;
    let mut evidence: Vec<String> = Vec::new();
    let mut i: usize = 0;
    while i < items.len()
        invariant
            i <= s.len(),
            s == items@,
            conf == group_confidence(s.subrange(0, i as int), k@),
            opt_view(version) == group_version(s.subrange(0, i as int), k@),
            string_views(evidence@) == group_evidence(s.subrange(0, i as int), k@),
            match first {
                Some(f) => f < i && comp_key(s[f as int]) == k@ && forall|j: int| 0 <= j < f ==> comp_key(s[j]) != k@,
                None => forall|j: int| 0 <= j < i ==> comp_key(s[j]) != k@,
            },
        decreases s.len() - i,
    {
        assert(s.subrange(0, i + 1).drop_last() =~= s.subrange(0, i as int));
        assert(s.subrange(0, i + 1).last() == s[i as int]);
        let c = &items[i];
        if crate::text::eq_chars(&key_exec(c), k) {
            if first.is_none() {
                first = Some(i);
            }
            if c.confidence_percent > conf {
                conf = c.confidence_percent;
            }
            if version.is_none() {
                version = match &c.version {
                    Some(v) => Some(v.clone()),
                    None => None,
                };
            }
            let ghost before = string_views(evidence@);
            let mut j: usize = 0;
            while j < c.evidence.len()
                invariant
                    j <= c.evidence@.len(),
                    string_views(evidence@) == before + string_views(c.evidence@).subrange(0, j as int),
                decreases c.evidence@.len() - j,
            {
                let ghost b2 = string_views(evidence@);
                evidence.push(c.evidence[j].clone());
                assert(string_views(evidence@) =~= b2.push(c.evidence@[j as int]@));
                j += 1;
                assert(string_views(c.evidence@).subrange(0, j as int) =~= string_views(c.evidence@).subrange(0, j - 1).push(
                    c.evidence@[j - 1]@,
                ));
            }
            assert(string_views(c.evidence@).subrange(0, j as int) =~= string_views(c.evidence@));
        }
        i += 1;
    }
    assert(s.subrange(0, s.len() as int) =~= s);
    let f = first.unwrap();
    proof {
        lemma_first_with_key(s, k@, 0, f as int);
    }
    let sorted = sort_dedup(&evidence);
    let r = TechComponent {
        id: items[f].id.clone(),
        name: items[f].name.clone(),
        category: items[f].category.clone(),
        version,
        confidence_percent: conf,
        evidence: sorted,
    };
    assert(comp_key(r) =~= comp_key(s[f as int]));
    r
}

proof fn lemma_first_with_key(items: Seq<TechComponent>, k: Seq<char>, i: int, j: int)
    requires
        0 <= i <= j < items.len(),
        comp_key(items[j]) == k,
        forall|m: int| i <= m < j ==> comp_key(items[m]) != k,
    ensures
        first_with_key(items, k, i) == j,
    decreases j - i,
{
    if i < j {
        lemma_first_with_key(items, k, i + 1, j);
    }
}

proof fn lemma_listed_trans(a: TechComponent, b: TechComponent, c: TechComponent)
    requires
        listed_before(a, b),
        listed_before(b, c),
    ensures
        listed_before(a, c),
{
    if a.confidence_percent == b.confidence_percent && b.confidence_percent == c.confidence_percent {
        lemma_lex_trans(comp_key(a), comp_key(b), comp_key(c));
    }
}

proof fn lemma_listed_total(a: TechComponent, b: TechComponent)
    requires
        comp_key(a) != comp_key(b),
    ensures
        listed_before(a, b) || listed_before(b, a),
        !(listed_before(a, b) && listed_before(b, a)),
{
    lemma_lex_total(comp_key(a), comp_key(b));
}

pub open spec fn listed_sorted(v: Seq<TechComponent>) -> bool {
    forall|a: int, b: int| 0 <= a < b < v.len() ==> listed_before(v[a], v[b])
}

proof fn lemma_listed_insert(v: Seq<TechComponent>, p: int, x: TechComponent)
    requires
        listed_sorted(v),
        0 <= p <= v.len(),
        forall|k: int| 0 <= k < p ==> listed_before(v[k], x),
        p < v.len() ==> listed_before(x, v[p]),
    ensures
        listed_sorted(v.insert(p, x)),
{
    let nv = v.insert(p, x);
    v.insert_ensures(p, x);
    assert forall|a: int, b: int| 0 <= a < b < nv.len() implies listed_before(nv[a], nv[b]) by {
        if b < p {
        } else if b == p {
        } else if a < p {
            assert(nv[b] == v[b - 1]);
            if p < b - 1 {
                lemma_listed_trans(x, v[p], v[b - 1]);
            }
            lemma_listed_trans(nv[a], x, v[b - 1]);
        } else if a == p {
            assert(nv[b] == v[b - 1]);
            if p < b - 1 {
                lemma_listed_trans(x, v[p], v[b - 1]);
            }
        } else {
            assert(nv[a] == v[a - 1]);
            assert(nv[b] == v[b - 1]);
        }
    }
}

/// Merges the detections of each technology (same category and id): the first
/// detection's names, the highest confidence, the first version given, and all evidence
/// sorted without repeats; the list is ordered by confidence, highest first, then by
/// `category::id`.
pub fn normalize_components(list: &Vec<TechComponent>) -> (r: Vec<TechComponent>)
    ensures
        forall|k: int| 0 <= k < r@.len() ==> merged_from(#[trigger] r@[k], list@),
        listed_sorted(r@),
        forall|j: int| 0 <= j < list@.len() ==> comp_keys(r@).contains(comp_key(#[trigger] list@[j])),
        forall|k: int| 0 <= k < r@.len() ==> comp_keys(list@).contains(comp_key(#[trigger] r@[k])),
{
    let mut names: Vec<String> = Vec::new();
    let mut i: usize = 0;
    while i < list.len()
        invariant
            i <= list@.len(),
            string_views(names@) == comp_keys(list@.subrange(0, i as int)),
        decreases list@.len() - i,
    {
        let ghost before = string_views(names@);
        names.push(key_string(&list[i]));
        assert(string_views(names@) =~= before.push(comp_key(list@[i as int])));
        i += 1;
        assert(comp_keys(list@.subrange(0, i as int)) =~= comp_keys(list@.subrange(0, i - 1)).push(
            comp_key(list@[i - 1]),
        ));
    }
    assert(list@.subrange(0, list@.len() as int) =~= list@);
    let keys = sort_dedup(&names);
    let ghost kv = string_views(keys@);
    let mut out: Vec<TechComponent> = Vec::new();
    let mut j: usize = 0;
    while j < keys.len()
        invariant
            j <= kv.len(),
            kv == string_views(keys@),
            strictly_sorted(kv),
            forall|s: Seq<char>| kv.contains(s) <==> comp_keys(list@).contains(s),
            forall|k: int| 0 <= k < out@.len() ==> merged_from(#[trigger] out@[k], list@),
            listed_sorted(out@),
            forall|s: Seq<char>| comp_keys(out@).contains(s) <==> kv.subrange(0, j as int).contains(s),
        decreases kv.len() - j,
    {
        let k = chars_of(keys[j].as_str());
        proof {
            assert(kv.contains(kv[j as int]));
            assert(comp_keys(list@).contains(k@));
            let m = choose|m: int| 0 <= m < comp_keys(list@).len() && #[trigger] comp_keys(list@)[m] == k@;
            assert(comp_key(list@[m]) == k@);
        }
        let g = merge_group(list, &k);
        let ghost ov = out@;
        proof {
            assert(!comp_keys(ov).contains(k@)) by {
                if comp_keys(ov).contains(k@) {
                    let pre = kv.subrange(0, j as int);
                    assert(pre.contains(k@));
                    let m = choose|m: int| 0 <= m < pre.len() && #[trigger] pre[m] == k@;
                    assert(kv[m] == k@);
                    assert(lex_lt(kv[m], kv[j as int]));
                    lemma_lex_total(k@, k@);
                }
            }
        }
        let mut p: usize = 0;
        let mut stop = false;
        while p < out.len() && !stop
            invariant
                p <= out@.len(),
                out@ == ov,
                !comp_keys(ov).contains(comp_key(g)),
                forall|q: int| 0 <= q < p ==> listed_before(ov[q], g),
                stop ==> p < ov.len() && listed_before(g, ov[p as int]),
            decreases out@.len() - p, if stop { 0int } else { 1int },
        {
            let before = g.confidence_percent > out[p].confidence_percent
                || (g.confidence_percent == out[p].confidence_percent && lex_less(&key_exec(&g), &key_exec(&out[p])));
            if before {
                stop = true;
            } else {
                proof {
                    assert(comp_keys(ov)[p as int] == comp_key(ov[p as int]));
                    lemma_listed_total(ov[p as int], g);
                }
                p += 1;
            }
        }
        let ghost gg = g;
        out.insert(p, g);
        proof {
            lemma_listed_insert(ov, p as int, gg);
            ov.insert_ensures(p as int, gg);
            assert(out@ == ov.insert(p as int, gg));
            assert forall|q: int| 0 <= q < out@.len() implies merged_from(#[trigger] out@[q], list@) by {
                if q < p {
                    assert(out@[q] == ov[q]);
                } else if q > p {
                    assert(out@[q] == ov[q - 1]);
                }
            }
            assert(comp_keys(out@) =~= comp_keys(ov).insert(p as int, k@));
            comp_keys(ov).insert_ensures(p as int, k@);
            assert(kv.subrange(0, j + 1) =~= kv.subrange(0, j as int).push(k@));
            let post = kv.subrange(0, j + 1);
            let pre = kv.subrange(0, j as int);
            assert forall|s: Seq<char>| comp_keys(out@).contains(s) <==> post.contains(s) by {
                let ck = comp_keys(ov);
                let nk = comp_keys(out@);
                if nk.contains(s) {
                    let q = choose|q: int| 0 <= q < nk.len() && #[trigger] nk[q] == s;
                    if s != k@ {
                        if q < p {
                            assert(ck[q] == s);
                        } else if q > p {
                            assert(ck[q - 1] == s);
                        }
                        assert(ck.contains(s));
                        assert(pre.contains(s));
                        let m = choose|m: int| 0 <= m < pre.len() && #[trigger] pre[m] == s;
                        assert(post[m] == s);
                    } else {
                        assert(post[j as int] == s);
                    }
                }
                if post.contains(s) {
                    let m = choose|m: int| 0 <= m < post.len() && #[trigger] post[m] == s;
                    if m == j {
                        assert(nk[p as int] == s);
                    } else {
                        assert(pre[m] == s);
                        assert(ck.contains(s));
                        let q = choose|q: int| 0 <= q < ck.len() && #[trigger] ck[q] == s;
                        if q < p {
                            assert(nk[q] == s);
                        } else {
                            assert(nk[q + 1] == s);
                        }
                    }
                }
            }
        }
        j += 1;
    }
    proof {
        assert(kv.subrange(0, kv.len() as int) =~= kv);
        assert forall|q: int| 0 <= q < list@.len() implies comp_keys(out@).contains(comp_key(#[trigger] list@[q])) by {
            assert(comp_keys(list@)[q] == comp_key(list@[q]));
            assert(comp_keys(list@).contains(comp_key(list@[q])));
        }
        assert forall|q: int| 0 <= q < out@.len() implies comp_keys(list@).contains(comp_key(#[trigger] out@[q])) by {
            assert(comp_keys(out@)[q] == comp_key(out@[q]));
            assert(comp_keys(out@).contains(comp_key(out@[q])));
        }
    }
    out
}

} // verus!

verus! {

/// The names of the components of one category, in order.
pub open spec fn names_in_category(v: Seq<TechComponent>, category: Seq<char>) -> Seq<Seq<char>> {
    v.filter(|c: TechComponent| c.category@ == category).map_values(|c: TechComponent| c.name@)
}

fn names_of_category(detected: &Vec<TechComponent>, category: &str) -> (r: Vec<String>)
    ensures
        string_views(r@) == names_in_category(detected@, category@),
{
    let ghost v = detected@;
    let cat = chars_of(category);
    let mut out: Vec<String> = Vec::new();
    let mut i: usize = 0;
    while i < detected.len()
        invariant
            i <= v.len(),
            v == detected@,
            cat@ == category@,
            string_views(out@) == names_in_category(v.subrange(0, i as int), category@),
        decreases v.len() - i,
    {
        let ghost pre = v.subrange(0, i as int);
        proof {
            pre.lemma_filter_push(v[i as int], |c: TechComponent| c.category@ == category@);
            assert(pre.push(v[i as int]) =~= v.subrange(0, i + 1));
        }
        if crate::text::eq_chars(&chars_of(detected[i].category.as_str()), &cat) {
            let ghost before = string_views(out@);
            out.push(detected[i].name.clone());
            proof {
                let f = pre.filter(|c: TechComponent| c.category@ == category@);
                assert(f.push(v[i as int]).map_values(|c: TechComponent| c.name@) =~= f.map_values(
                    |c: TechComponent| c.name@,
                ).push(v[i as int].name@));
                assert(string_views(out@) =~= before.push(v[i as int].name@));
            }
        }
        i += 1;
    }
    assert(v.subrange(0, v.len() as int) =~= v);
    out
}

/// The build tools among the detected components.
pub fn detect_build_tools(detected: &Vec<TechComponent>) -> (r: Vec<String>)
    ensures
        string_views(r@) == names_in_category(detected@, "build"@),
{
    names_of_category(detected, "build")
}

/// The test frameworks among the detected components.
pub fn detect_test_frameworks(detected: &Vec<TechComponent>) -> (r: Vec<String>)
    ensures
        string_views(r@) == names_in_category(detected@, "test"@),
{
    names_of_category(detected, "test")
}

} // verus!
