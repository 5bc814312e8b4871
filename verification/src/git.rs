use vstd::multiset::Multiset;
use vstd::prelude::*;
use vstd::seq_lib::lemma_multiset_commutative;

use crate::semver::{
    checked_semver_of, compare_versions, lemma_version_cmp_flip, lemma_version_cmp_trans,
    parse_version_tag, version_cmp, TagOrdering,
};

verus! {

/// The order the version catalog sorts tag names by, newest first: when both
/// tags parse as semantic versions, the comparison of the versions reversed
/// (descending); when either side fails to parse — or exceeds the parser's
/// identifier-chain bound — the pair is left as it stands (the comparator
/// reports the left side as not greater).
pub open spec fn tag_cmp(a: Seq<char>, b: Seq<char>) -> TagOrdering {
    match (checked_semver_of(a), checked_semver_of(b)) {
        (Some(va), Some(vb)) => version_cmp(vb, va),
        _ => TagOrdering::Less,
    }
}

/// Compares two tag names in the catalog order.
pub fn compare_tags(a: &str, b: &str) -> (r: TagOrdering)
    ensures
        r == tag_cmp(a@, b@),
{
    let va = parse_version_tag(a);
    let vb = parse_version_tag(b);
    match (va, vb) {
        (Some(x), Some(y)) => compare_versions(&y, &x),
        _ => TagOrdering::Less,
    }
}

/// Where an insertion sort places a tag in an already sorted prefix: scanning
/// from the right, it passes every entry greater than the new tag and stops
/// at the first that is not.
pub open spec fn insert_pos(s: Seq<Seq<char>>, x: Seq<char>) -> int
    decreases s.len(),
{
    if s.len() == 0 {
        0
    } else if tag_cmp(s.last(), x) == TagOrdering::Greater {
        insert_pos(s.drop_last(), x)
    } else {
        s.len() as int
    }
}

/// A sorted prefix with one more tag placed at its insertion position.
pub open spec fn insert_tag(s: Seq<Seq<char>>, x: Seq<char>) -> Seq<Seq<char>> {
    s.take(insert_pos(s, x)) + seq![x] + s.skip(insert_pos(s, x))
}

/// The catalog order of a whole tag sequence: each tag in turn inserted into
/// the sorted order of the tags before it (a stable insertion sort).
pub open spec fn sorted_tags(s: Seq<Seq<char>>) -> Seq<Seq<char>>
    decreases s.len(),
{
    if s.len() == 0 {
        Seq::empty()
    } else {
        insert_tag(sorted_tags(s.drop_last()), s.last())
    }
}

/// No adjacent pair of the sequence violates the catalog order.
pub open spec fn tags_sorted(s: Seq<Seq<char>>) -> bool {
    forall|i: int, j: int|
        0 <= i && j == i + 1 && j < s.len() ==> #[trigger] tag_cmp(s[i], s[j])
            != TagOrdering::Greater
}

proof fn lemma_insert_pos_props(s: Seq<Seq<char>>, x: Seq<char>)
    ensures
        0 <= insert_pos(s, x) <= s.len(),
        insert_pos(s, x) > 0 ==> tag_cmp(s[insert_pos(s, x) - 1], x) != TagOrdering::Greater,
        forall|k: int|
            insert_pos(s, x) <= k < s.len() ==> tag_cmp(s[k], x) == TagOrdering::Greater,
    decreases s.len(),
{
    if s.len() > 0 && tag_cmp(s.last(), x) == TagOrdering::Greater {
        lemma_insert_pos_props(s.drop_last(), x);
        assert forall|k: int| insert_pos(s, x) <= k < s.len() implies tag_cmp(s[k], x)
            == TagOrdering::Greater by {
            if k < s.len() - 1 {
                assert(s.drop_last()[k] == s[k]);
            }
        }
        if insert_pos(s, x) > 0 {
            assert(s.drop_last()[insert_pos(s, x) - 1] == s[insert_pos(s, x) - 1]);
        }
    }
}

proof fn lemma_tag_cmp_greater_flip(a: Seq<char>, b: Seq<char>)
    requires
        tag_cmp(a, b) == TagOrdering::Greater,
    ensures
        tag_cmp(b, a) == TagOrdering::Less,
{
    let va = checked_semver_of(a).unwrap();
    let vb = checked_semver_of(b).unwrap();
    lemma_version_cmp_flip(vb, va);
}

proof fn lemma_insert_tag_sorted(s: Seq<Seq<char>>, x: Seq<char>)
    requires
        tags_sorted(s),
    ensures
        tags_sorted(insert_tag(s, x)),
{
    let p = insert_pos(s, x);
    let t = insert_tag(s, x);
    lemma_insert_pos_props(s, x);
    assert(t.len() == s.len() + 1);
    assert forall|i: int, j: int| 0 <= i && j == i + 1 && j < t.len() implies #[trigger] tag_cmp(
        t[i],
        t[j],
    ) != TagOrdering::Greater by {
        if j < p {
            assert(t[i] == s[i]);
            assert(t[j] == s[j]);
            assert(tag_cmp(s[i], s[j]) != TagOrdering::Greater);
        } else if j == p {
            assert(t[i] == s[i]);
            assert(t[j] == x);
            assert(tag_cmp(s[p - 1], x) != TagOrdering::Greater);
        } else if i == p {
            assert(t[i] == x);
            assert(t[j] == s[p]);
            assert(tag_cmp(s[p], x) == TagOrdering::Greater);
            lemma_tag_cmp_greater_flip(s[p], x);
        } else {
            assert(t[i] == s[i - 1]);
            assert(t[j] == s[j - 1]);
            assert(tag_cmp(s[i - 1], s[j - 1]) != TagOrdering::Greater);
        }
    }
}

proof fn lemma_insert_tag_multiset(s: Seq<Seq<char>>, x: Seq<char>)
    ensures
        insert_tag(s, x).to_multiset() == s.to_multiset().insert(x),
        insert_tag(s, x).len() == s.len() + 1,
{
    let p = insert_pos(s, x);
    lemma_insert_pos_props(s, x);
    let front = s.take(p);
    let back = s.skip(p);
    lemma_multiset_commutative(front + seq![x], back);
    lemma_multiset_commutative(front, seq![x]);
    lemma_multiset_commutative(front, back);
    assert(front + back =~= s);
    assert(seq![x].to_multiset() =~= Multiset::empty().insert(x)) by {
        assert(seq![x] =~= Seq::empty().push(x));
        Seq::<Seq<char>>::empty().to_multiset_ensures();
    }
    assert(insert_tag(s, x).to_multiset() =~= s.to_multiset().insert(x));
}

/// Sorting a tag sequence keeps exactly the tags that went in, and leaves no
/// adjacent pair violating the catalog order, whether or not any tag parses.
pub proof fn lemma_sorted_tags_permutation_and_order(s: Seq<Seq<char>>)
    ensures
        sorted_tags(s).to_multiset() == s.to_multiset(),
        sorted_tags(s).len() == s.len(),
        tags_sorted(sorted_tags(s)),
    decreases s.len(),
{
    if s.len() > 0 {
        lemma_sorted_tags_permutation_and_order(s.drop_last());
        lemma_insert_tag_sorted(sorted_tags(s.drop_last()), s.last());
        lemma_insert_tag_multiset(sorted_tags(s.drop_last()), s.last());
        assert(s =~= s.drop_last().push(s.last()));
        s.drop_last().to_multiset_ensures();
        assert(s.drop_last().push(s.last()).to_multiset() =~= s.drop_last().to_multiset().insert(
            s.last(),
        ));
        assert(sorted_tags(s).to_multiset() =~= s.to_multiset());
    } else {
        assert(s =~= Seq::empty());
    }
}

/// A parse failure reorders nothing: a tag that does not parse is never
/// displaced by the sort, which appends it after everything already placed.
pub proof fn lemma_unparseable_appends(s: Seq<Seq<char>>, x: Seq<char>)
    requires
        checked_semver_of(x) is None,
    ensures
        insert_tag(s, x) == s.push(x),
{
    assert(insert_pos(s, x) == s.len());
    assert(insert_tag(s, x) =~= s.push(x));
}

/// Nothing the sort inserts ever crosses an unparseable tag: every insertion
/// lands after each unparseable entry already placed, so the pairwise order
/// around a parse failure is kept.
pub proof fn lemma_insert_stays_after_unparseable(s: Seq<Seq<char>>, x: Seq<char>, k: int)
    requires
        0 <= k < s.len(),
        checked_semver_of(s[k]) is None,
    ensures
        k < insert_pos(s, x),
{
    lemma_insert_pos_props(s, x);
    if k >= insert_pos(s, x) {
        assert(tag_cmp(s[k], x) == TagOrdering::Greater);
        assert(false);
    }
}

proof fn lemma_tag_cmp_trans_parseable(a: Seq<char>, b: Seq<char>, c: Seq<char>)
    requires
        checked_semver_of(a) is Some,
        checked_semver_of(b) is Some,
        checked_semver_of(c) is Some,
        tag_cmp(a, b) != TagOrdering::Greater,
        tag_cmp(b, c) != TagOrdering::Greater,
    ensures
        tag_cmp(a, c) != TagOrdering::Greater,
{
    let va = checked_semver_of(a).unwrap();
    let vb = checked_semver_of(b).unwrap();
    let vc = checked_semver_of(c).unwrap();
    lemma_version_cmp_trans(vc, vb, va);
}

/// Whether the first tag's version is at least the second's; false unless
/// both parse as semantic versions.
pub open spec fn version_ge(a: Seq<char>, b: Seq<char>) -> bool {
    match (checked_semver_of(a), checked_semver_of(b)) {
        (Some(va), Some(vb)) => version_cmp(va, vb) != TagOrdering::Less,
        _ => false,
    }
}

proof fn lemma_sorted_chain(s: Seq<Seq<char>>, i: int, j: int)
    requires
        tags_sorted(s),
        forall|k: int| 0 <= k < s.len() ==> checked_semver_of(s[k]) is Some,
        0 <= i < j < s.len(),
    ensures
        tag_cmp(s[i], s[j]) != TagOrdering::Greater,
    decreases j - i,
{
    if j == i + 1 {
        assert(tag_cmp(s[i], s[j]) != TagOrdering::Greater);
    } else {
        lemma_sorted_chain(s, i, j - 1);
        assert(tag_cmp(s[j - 1], s[j]) != TagOrdering::Greater);
        lemma_tag_cmp_trans_parseable(s[i], s[j - 1], s[j]);
    }
}

/// Sorting a sequence of tags that all parse as semantic versions puts them
/// in descending version order: every earlier entry's version is at least
/// every later entry's.
pub proof fn lemma_sorted_all_parseable_descending(s: Seq<Seq<char>>)
    requires
        forall|k: int| 0 <= k < s.len() ==> checked_semver_of(s[k]) is Some,
    ensures
        forall|i: int, j: int|
            0 <= i < j < sorted_tags(s).len() ==> version_ge(sorted_tags(s)[i], sorted_tags(s)[j]),
{
    let t = sorted_tags(s);
    lemma_sorted_tags_permutation_and_order(s);
    assert forall|k: int| 0 <= k < t.len() implies checked_semver_of(t[k]) is Some by {
        t.to_multiset_ensures();
        s.to_multiset_ensures();
        assert(t.to_multiset().count(t[k]) > 0);
        assert(s.contains(t[k]));
    }
    assert forall|i: int, j: int| 0 <= i < j < t.len() implies version_ge(t[i], t[j]) by {
        lemma_sorted_chain(t, i, j);
        let vi = checked_semver_of(t[i]).unwrap();
        let vj = checked_semver_of(t[j]).unwrap();
        lemma_version_cmp_flip(vj, vi);
    }
}

/// Whether the first tag's version is strictly newer than the second's;
/// false unless both parse.
pub open spec fn version_gt(a: Seq<char>, b: Seq<char>) -> bool {
    match (checked_semver_of(a), checked_semver_of(b)) {
        (Some(va), Some(vb)) => version_cmp(va, vb) == TagOrdering::Greater,
        _ => false,
    }
}

/// Sorting a duplicate-free tag sequence whose entries all parse, no two of
/// them to the same version, puts them in strictly descending version order.
/// Distinctness of the versions is needed beside distinctness of the tags:
/// two different tag strings can parse to one version, as the parser skips
/// surrounding whitespace.
pub proof fn lemma_sorted_distinct_versions_strictly_descending(s: Seq<Seq<char>>)
    requires
        s.no_duplicates(),
        forall|k: int| 0 <= k < s.len() ==> checked_semver_of(#[trigger] s[k]) is Some,
        forall|a: Seq<char>, b: Seq<char>|
            #[trigger] s.contains(a) && #[trigger] s.contains(b) && a != b ==> version_cmp(
                checked_semver_of(a).unwrap(),
                checked_semver_of(b).unwrap(),
            ) != TagOrdering::Equal,
    ensures
        forall|i: int, j: int|
            0 <= i < j < sorted_tags(s).len() ==> version_gt(sorted_tags(s)[i], sorted_tags(s)[j]),
{
    let t = sorted_tags(s);
    lemma_sorted_tags_permutation_and_order(s);
    lemma_sorted_all_parseable_descending(s);
    s.lemma_multiset_has_no_duplicates();
    t.lemma_multiset_has_no_duplicates_conv();
    assert forall|i: int, j: int| 0 <= i < j < t.len() implies version_gt(t[i], t[j]) by {
        t.to_multiset_ensures();
        s.to_multiset_ensures();
        assert(t.contains(t[i]));
        assert(t.contains(t[j]));
        assert(t.to_multiset().count(t[i]) > 0);
        assert(t.to_multiset().count(t[j]) > 0);
        assert(s.to_multiset().count(t[i]) > 0);
        assert(s.to_multiset().count(t[j]) > 0);
        assert(s.contains(t[i]));
        assert(s.contains(t[j]));
        assert(t[i] != t[j]);
        assert(version_ge(t[i], t[j]));
    }
}

fn insert_sorted(out: &mut Vec<String>, x: String)
    ensures
        final(out).deep_view() == insert_tag(old(out).deep_view(), x@),
{
    let mut j: usize = out.len();
    while j > 0 && compare_tags(out[j - 1].as_str(), x.as_str()) == TagOrdering::Greater
        invariant
            j <= out@.len(),
            forall|k: int|
                j <= k < out@.len() ==> tag_cmp(out.deep_view()[k], x@) == TagOrdering::Greater,
        decreases j,
    {
        j = j - 1;
    }
    proof {
        lemma_insert_pos_eq(out.deep_view(), x@, j as int);
    }
    let ghost before = out.deep_view();
    out.insert(j, x);
    proof {
        assert(out.deep_view() =~= before.take(j as int) + seq![x@] + before.skip(j as int));
    }
}

proof fn lemma_insert_pos_eq(s: Seq<Seq<char>>, x: Seq<char>, j: int)
    requires
        0 <= j <= s.len(),
        forall|k: int| j <= k < s.len() ==> tag_cmp(s[k], x) == TagOrdering::Greater,
        j > 0 ==> tag_cmp(s[j - 1], x) != TagOrdering::Greater,
    ensures
        insert_pos(s, x) == j,
    decreases s.len(),
{
    if s.len() > 0 {
        if tag_cmp(s.last(), x) == TagOrdering::Greater {
            assert(j < s.len());
            lemma_insert_pos_eq(s.drop_last(), x, j);
        } else {
            assert(j == s.len());
        }
    }
}

/// Sorts tag names into the catalog order, newest first.
pub fn sort_version_tags(tags: Vec<String>) -> (r: Vec<String>)
    ensures
        r.deep_view() == sorted_tags(tags.deep_view()),
{
    let mut out: Vec<String> = Vec::new();
    let mut idx: usize = 0;
    proof {
        assert(tags.deep_view().take(0) =~= Seq::empty());
        assert(out.deep_view() =~= Seq::empty());
    }
    while idx < tags.len()
        invariant
            idx <= tags@.len(),
            tags@.len() == tags.deep_view().len(),
            out.deep_view() == sorted_tags(tags.deep_view().take(idx as int)),
        decreases tags@.len() - idx,
    {
        let x = tags[idx].clone();
        insert_sorted(&mut out, x);
        proof {
            let dv = tags.deep_view();
            assert(dv.take(idx + 1).drop_last() =~= dv.take(idx as int));
            assert(dv.take(idx + 1).last() == dv[idx as int]);
        }
        idx = idx + 1;
    }
    proof {
        assert(tags.deep_view().take(tags@.len() as int) =~= tags.deep_view());
    }
    out
}

/// The namespace prefix a tag reference carries in a ref listing.
pub open spec fn tag_ref_prefix() -> Seq<char> {
    "refs/tags/"@
}

/// Whether the sequence starts with the given prefix.
pub open spec fn starts_with(s: Seq<char>, p: Seq<char>) -> bool {
    s.len() >= p.len() && s.take(p.len() as int) == p
}

/// Whether an occurrence of the pattern ends at position `e`.
pub open spec fn match_at(s: Seq<char>, p: Seq<char>, e: int) -> bool {
    p.len() <= e <= s.len() && s.subrange(e - p.len(), e) == p
}

/// The position just after the last occurrence of the pattern, or a negative
/// value when the pattern does not occur.
pub open spec fn last_match_end(s: Seq<char>, p: Seq<char>) -> int
    decreases s.len(),
{
    if p.len() == 0 || s.len() < p.len() {
        -1
    } else if s.subrange(s.len() - p.len(), s.len() as int) == p {
        s.len() as int
    } else {
        last_match_end(s.drop_last(), p)
    }
}

/// What remains of a tag reference name after its last tag-namespace prefix,
/// as the catalog reports it.
pub open spec fn tag_suffix(s: Seq<char>) -> Seq<char> {
    s.skip(last_match_end(s, tag_ref_prefix()))
}

fn has_match_at(name: &str, len: usize, e: usize) -> (r: bool)
    requires
        len == name@.len(),
        10 <= e <= len,
    ensures
        r == match_at(name@, tag_ref_prefix(), e as int),
{
    let pat = "refs/tags/";
    proof {
        reveal_strlit("refs/tags/");
    }
    let mut k: usize = 0;
    while k < 10
        invariant
            k <= 10,
            10 <= e <= len,
            len == name@.len(),
            pat@ == tag_ref_prefix(),
            pat@.len() == 10,
            forall|t: int| 0 <= t < k ==> name@[e - 10 + t] == pat@[t],
        decreases 10 - k,
    {
        if name.get_char(e - 10 + k) != pat.get_char(k) {
            proof {
                assert(name@.subrange(e - 10, e as int)[k as int] == name@[e - 10 + k]);
            }
            return false;
        }
        k = k + 1;
    }
    proof {
        assert(name@.subrange(e - 10, e as int) =~= tag_ref_prefix());
    }
    true
}

proof fn lemma_last_match_end_eq(s: Seq<char>, p: Seq<char>, e: int)
    requires
        p.len() > 0,
        match_at(s, p, e),
        forall|e2: int| e < e2 <= s.len() ==> !match_at(s, p, e2),
    ensures
        last_match_end(s, p) == e,
    decreases s.len(),
{
    if e == s.len() {
    } else {
        assert(!match_at(s, p, s.len() as int));
        assert(s.drop_last().subrange(e - p.len(), e) =~= s.subrange(e - p.len(), e));
        assert forall|e2: int| e < e2 <= s.drop_last().len() implies !match_at(
            s.drop_last(),
            p,
            e2,
        ) by {
            assert(!match_at(s, p, e2));
            if p.len() <= e2 {
                assert(s.drop_last().subrange(e2 - p.len(), e2) =~= s.subrange(e2 - p.len(), e2));
            }
        }
        lemma_last_match_end_eq(s.drop_last(), p, e);
    }
}

/// The catalog entry a ref listing line yields: for a name in the tag
/// namespace, the tag name with the namespace stripped; none otherwise.
pub fn tag_name_of_ref(name: &str) -> (r: Option<String>)
    ensures
        starts_with(name@, tag_ref_prefix()) ==> (r matches Some(t) && t@ == tag_suffix(name@)),
        !starts_with(name@, tag_ref_prefix()) ==> r is None,
{
    proof {
        reveal_strlit("refs/tags/");
    }
    let len = name.unicode_len();
    if len < 10 {
        return None;
    }
    proof {
        assert(name@.take(10) =~= name@.subrange(0, 10));
    }
    if !has_match_at(name, len, 10) {
        return None;
    }
    let mut e: usize = len;
    while !has_match_at(name, len, e)
        invariant
            10 <= e <= len,
            len == name@.len(),
            match_at(name@, tag_ref_prefix(), 10),
            forall|e2: int| e < e2 <= len ==> !match_at(name@, tag_ref_prefix(), e2),
        decreases e,
    {
        proof {
            if e == 10 {
                assert(match_at(name@, tag_ref_prefix(), 10));
                assert(false);
            }
        }
        e = e - 1;
    }
    proof {
        lemma_last_match_end_eq(name@, tag_ref_prefix(), e as int);
        assert(name@.subrange(e as int, len as int) =~= name@.skip(e as int));
    }
    let t = name.substring_char(e, len).to_owned();
    Some(t)
}

/// The tag names a ref listing yields, in listing order: each name under the
/// tag namespace, with the namespace stripped.
pub open spec fn tag_names_of(refs: Seq<Seq<char>>) -> Seq<Seq<char>>
    decreases refs.len(),
{
    if refs.len() == 0 {
        Seq::empty()
    } else {
        tag_names_of(refs.drop_last()) + (if starts_with(refs.last(), tag_ref_prefix()) {
            seq![tag_suffix(refs.last())]
        } else {
            Seq::empty()
        })
    }
}

/// The version catalog of a remote's ref listing: the advertised names under
/// the tag namespace, stripped of it and sorted newest first in the catalog
/// order. An empty result is valid: a repository may have no tags.
pub fn list_versions(ref_names: &Vec<String>) -> (r: Vec<String>)
    ensures
        r.deep_view() == sorted_tags(tag_names_of(ref_names.deep_view())),
{
    let mut tags: Vec<String> = Vec::new();
    let mut i: usize = 0;
    proof {
        assert(ref_names.deep_view().take(0) =~= Seq::empty());
        assert(tags.deep_view() =~= Seq::empty());
    }
    while i < ref_names.len()
        invariant
            i <= ref_names@.len(),
            ref_names@.len() == ref_names.deep_view().len(),
            tags.deep_view() == tag_names_of(ref_names.deep_view().take(i as int)),
        decreases ref_names@.len() - i,
    {
        let ghost before = tags.deep_view();
        match tag_name_of_ref(ref_names[i].as_str()) {
            Some(t) => {
                let ghost tv = t@;
                tags.push(t);
                proof {
                    assert(tags.deep_view() =~= before.push(tv));
                }
            },
            None => {},
        }
        proof {
            let dv = ref_names.deep_view();
            assert(dv.take(i + 1).drop_last() =~= dv.take(i as int));
            assert(dv.take(i + 1).last() == dv[i as int]);
            if starts_with(dv[i as int], tag_ref_prefix()) {
                assert(tags.deep_view() =~= before + seq![tag_suffix(dv[i as int])]);
            } else {
                assert(tags.deep_view() =~= before + Seq::empty());
            }
        }
        i = i + 1;
    }
    proof {
        assert(ref_names.deep_view().take(ref_names@.len() as int) =~= ref_names.deep_view());
    }
    sort_version_tags(tags)
}

pub(crate) fn str_eq(a: &str, b: &str) -> (r: bool)
    ensures
        r == (a@ == b@),
{
    let la = a.unicode_len();
    let lb = b.unicode_len();
    if la != lb {
        return false;
    }
    let mut i: usize = 0;
    while i < la
        invariant
            i <= la,
            la == a@.len(),
            la == b@.len(),
            forall|k: int| 0 <= k < i ==> a@[k] == b@[k],
        decreases la - i,
    {
        if a.get_char(i) != b.get_char(i) {
            return false;
        }
        i = i + 1;
    }
    proof {
        assert(a@ =~= b@);
    }
    true
}

/// One tag of a repository together with the identity of the reference it
/// points at (for a direct reference, its target object).
#[derive(Clone, Debug)]
pub struct TagRef {
    pub name: String,
    pub target: String,
}

/// The first tag, in listing order, whose reference identity equals the
/// HEAD reference's, if any tag matches at all.
pub open spec fn first_tag_at(tags: Seq<TagRef>, head: Seq<char>) -> Option<Seq<char>>
    decreases tags.len(),
{
    if tags.len() == 0 {
        None
    } else if tags.first().target@ == head {
        Some(tags.first().name@)
    } else {
        first_tag_at(tags.drop_first(), head)
    }
}

/// The tag the repository's HEAD currently sits on: the first tag, in a
/// stable listing order, whose reference identity matches HEAD's. None when
/// HEAD matches no tag; that is a valid state, not an error.
pub fn get_tag_name_at_head(tags: &Vec<TagRef>, head_target: &str) -> (r: Option<String>)
    ensures
        r matches Some(t) ==> first_tag_at(tags@, head_target@) == Some(t@),
        r is None ==> first_tag_at(tags@, head_target@) is None,
{
    let mut i: usize = 0;
    proof {
        assert(tags@.skip(0) =~= tags@);
    }
    while i < tags.len()
        invariant
            i <= tags@.len(),
            first_tag_at(tags@, head_target@) == first_tag_at(tags@.skip(i as int), head_target@),
        decreases tags@.len() - i,
    {
        proof {
            assert(tags@.skip(i as int).first() == tags@[i as int]);
        }
        if str_eq(tags[i].target.as_str(), head_target) {
            return Some(tags[i].name.clone());
        }
        proof {
            assert(tags@.skip(i as int).drop_first() =~= tags@.skip(i as int + 1));
        }
        i = i + 1;
    }
    None
}

/// Whether some listed remote is literally named `origin`.
pub open spec fn has_origin(names: Seq<Option<String>>) -> bool {
    exists|i: int|
        0 <= i < names.len() && ((#[trigger] names[i]) matches Some(n) && n@ == "origin"@)
}

/// The first named remote in listing order, if any.
pub open spec fn first_some(names: Seq<Option<String>>) -> Option<Seq<char>>
    decreases names.len(),
{
    if names.len() == 0 {
        None
    } else if names.first() is Some {
        Some(names.first().unwrap()@)
    } else {
        first_some(names.drop_first())
    }
}

/// The single remote that governs all catalog and fetch operations: the one
/// named `origin` when present, else the first named remote. A repository
/// with no named remote at all breaks the caller's contract.
pub fn choose_remote_name(names: &Vec<Option<String>>) -> (r: String)
    requires
        exists|i: int| 0 <= i < names@.len() && (#[trigger] names@[i]) is Some,
    ensures
        has_origin(names@) ==> r@ == "origin"@,
        !has_origin(names@) ==> Some(r@) == first_some(names@),
{
    let mut i: usize = 0;
    while i < names.len()
        invariant
            i <= names@.len(),
            forall|k: int|
                0 <= k < i ==> !((#[trigger] names@[k]) matches Some(n) && n@ == "origin"@),
        decreases names@.len() - i,
    {
        match &names[i] {
            Some(n) => {
                if str_eq(n.as_str(), "origin") {
                    proof {
                        assert((names@[i as int] matches Some(m) && m@ == "origin"@));
                        assert(has_origin(names@));
                    }
                    return n.clone();
                }
            },
            None => {},
        }
        i = i + 1;
    }
    assert(!has_origin(names@));
    let mut j: usize = 0;
    proof {
        assert(names@.skip(0) =~= names@);
    }
    while j < names.len()
        invariant
            j <= names@.len(),
            !has_origin(names@),
            forall|k: int| 0 <= k < j ==> (#[trigger] names@[k]) is None,
            first_some(names@) == first_some(names@.skip(j as int)),
        decreases names@.len() - j,
    {
        proof {
            assert(names@.skip(j as int).first() == names@[j as int]);
        }
        match &names[j] {
            Some(n) => {
                return n.clone();
            },
            None => {},
        }
        proof {
            assert(names@.skip(j as int).drop_first() =~= names@.skip(j as int + 1));
        }
        j = j + 1;
    }
    proof {
        assert(false);
    }
    unreached()
}

} // verus!
