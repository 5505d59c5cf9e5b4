//! Sets of names kept as sorted lists without repeats, ordered as `String`
//! orders them: character by character, by code point (which is the byte
//! order of their UTF-8 forms).

use vstd::prelude::*;

use crate::text::{chars_of, eq_chars, owned, views};

verus! {

/// `a` sorts before `b`: at the first position where they differ the code
/// point of `a` is smaller, or `a` is a proper prefix of `b`.
pub open spec fn text_lt(a: Seq<char>, b: Seq<char>) -> bool
    decreases a.len(),
{
    if a.len() == 0 {
        b.len() > 0
    } else if b.len() == 0 {
        false
    } else if (a[0] as int) < (b[0] as int) {
        true
    } else if a[0] == b[0] {
        text_lt(a.drop_first(), b.drop_first())
    } else {
        false
    }
}

/// No text sorts before itself.
pub proof fn lemma_text_lt_irreflexive(a: Seq<char>)
    ensures
        !text_lt(a, a),
    decreases a.len(),
{
    if a.len() > 0 {
        lemma_text_lt_irreflexive(a.drop_first());
    }
}

/// The order is transitive.
pub proof fn lemma_text_lt_transitive(a: Seq<char>, b: Seq<char>, c: Seq<char>)
    requires
        text_lt(a, b),
        text_lt(b, c),
    ensures
        text_lt(a, c),
    decreases a.len(),
{
    if a.len() > 0 && b.len() > 0 && c.len() > 0 {
        if a[0] == b[0] && b[0] == c[0] {
            lemma_text_lt_transitive(a.drop_first(), b.drop_first(), c.drop_first());
        }
    }
}

/// Of two different texts, one sorts before the other.
pub proof fn lemma_text_lt_total(a: Seq<char>, b: Seq<char>)
    requires
        a != b,
    ensures
        text_lt(a, b) || text_lt(b, a),
    decreases a.len(),
{
    if a.len() > 0 && b.len() > 0 {
        if a[0] == b[0] {
            if a.drop_first() == b.drop_first() {
                assert(a =~= seq![a[0]] + a.drop_first());
                assert(b =~= seq![b[0]] + b.drop_first());
            }
            lemma_text_lt_total(a.drop_first(), b.drop_first());
        } else {
            assert((a[0] as int) != (b[0] as int));
        }
    } else if a.len() == 0 && b.len() == 0 {
        assert(a =~= b);
    }
}

/// Two texts never sort before each other.
pub proof fn lemma_text_lt_asymmetric(a: Seq<char>, b: Seq<char>)
    requires
        text_lt(a, b),
    ensures
        !text_lt(b, a),
{
    if text_lt(b, a) {
        lemma_text_lt_transitive(a, b, a);
        lemma_text_lt_irreflexive(a);
    }
}

/// Whether `a` sorts before `b`.
pub fn text_less(a: &str, b: &str) -> (r: bool)
    ensures
        r == text_lt(a@, b@),
{
    let x = chars_of(a);
    let y = chars_of(b);
    let mut i: usize = 0;
    assert(a@.skip(0) =~= a@);
    assert(b@.skip(0) =~= b@);
    while i < x.len() && i < y.len()
        invariant
            x@ == a@,
            y@ == b@,
            i <= x@.len(),
            i <= y@.len(),
            text_lt(a@, b@) == text_lt(a@.skip(i as int), b@.skip(i as int)),
        decreases x.len() - i,
    {
        let c = x[i];
        let d = y[i];
        assert(a@.skip(i as int)[0] == c);
        assert(b@.skip(i as int)[0] == d);
        if c < d {
            return true;
        }
        if c != d {
            return false;
        }
        assert(a@.skip(i as int).drop_first() =~= a@.skip(i + 1));
        assert(b@.skip(i as int).drop_first() =~= b@.skip(i + 1));
        i = i + 1;
    }
    i < y.len()
}

/// Whether two texts are equal.
pub fn text_equal(a: &str, b: &str) -> (r: bool)
    ensures
        r == (a@ == b@),
{
    eq_chars(&chars_of(a), &chars_of(b))
}

/// Each name sorts before every later one (so none repeats).
pub open spec fn strictly_sorted(s: Seq<Seq<char>>) -> bool {
    forall|i: int, j: int| 0 <= i < j < s.len() ==> text_lt(#[trigger] s[i], #[trigger] s[j])
}

/// The list of a set: its names in order, each once.
pub open spec fn lists_set(v: Seq<Seq<char>>, s: Set<Seq<char>>) -> bool {
    strictly_sorted(v) && v.to_set() == s
}

/// Whether `name` is in the list.
pub fn contains_name(v: &Vec<String>, name: &str) -> (r: bool)
    ensures
        r == views(v@).contains(name@),
{
    let mut i: usize = 0;
    while i < v.len()
        invariant
            i <= v@.len(),
            forall|k: int| 0 <= k < i ==> views(v@)[k] != name@,
        decreases v.len() - i,
    {
        if text_equal(v[i].as_str(), name) {
            assert(views(v@)[i as int] == name@);
            return true;
        }
        i = i + 1;
    }
    false
}

/// The names of a prefix one longer: those of the prefix and the next one.
pub proof fn lemma_prefix_set(s: Seq<Seq<char>>, i: int)
    requires
        0 <= i < s.len(),
    ensures
        s.subrange(0, i + 1).to_set() == s.subrange(0, i).to_set().insert(s[i]),
{
    let longer = s.subrange(0, i + 1);
    let shorter = s.subrange(0, i);
    assert forall|y: Seq<char>| longer.to_set().contains(y) <==> shorter.to_set().insert(s[i]).contains(y) by {
        if longer.contains(y) {
            let k = choose|k: int| 0 <= k < longer.len() && longer[k] == y;
            if k < i {
                assert(shorter[k] == y);
            }
        }
        if shorter.contains(y) {
            let k = choose|k: int| 0 <= k < shorter.len() && shorter[k] == y;
            assert(longer[k] == y);
        }
        if y == s[i] {
            assert(longer[i] == y);
        }
    }
    assert(longer.to_set() =~= shorter.to_set().insert(s[i]));
}

/// Inserting into a sequence adds the element to its set.
pub proof fn lemma_insert_set(s: Seq<Seq<char>>, i: int, a: Seq<char>)
    requires
        0 <= i <= s.len(),
    ensures
        s.insert(i, a).to_set() == s.to_set().insert(a),
{
    let t = s.insert(i, a);
    assert forall|y: Seq<char>| t.to_set().contains(y) <==> s.to_set().insert(a).contains(y) by {
        if t.contains(y) {
            let k = choose|k: int| 0 <= k < t.len() && t[k] == y;
            if k < i {
                assert(s[k] == y);
            } else if k > i {
                assert(s[k - 1] == y);
            }
        }
        if s.contains(y) {
            let k = choose|k: int| 0 <= k < s.len() && s[k] == y;
            if k < i {
                assert(t[k] == y);
            } else {
                assert(t[k + 1] == y);
            }
        }
        if y == a {
            assert(t[i] == y);
        }
    }
    assert(t.to_set() =~= s.to_set().insert(a));
}

/// Adds `name` to a sorted list in its place; a name already there is not
/// added again.
pub fn insert_name(v: &mut Vec<String>, name: &str)
    requires
        strictly_sorted(views(old(v)@)),
    ensures
        strictly_sorted(views(final(v)@)),
        views(final(v)@).to_set() == views(old(v)@).to_set().insert(name@),
{
    let ghost old_views = views(v@);
    let mut p: usize = 0;
    loop
        invariant
            p <= v@.len(),
            views(v@) == old_views,
            strictly_sorted(old_views),
            forall|k: int| 0 <= k < p ==> text_lt(#[trigger] old_views[k], name@),
        ensures
            p <= v@.len(),
            views(v@) == old_views,
            forall|k: int| 0 <= k < p ==> text_lt(#[trigger] old_views[k], name@),
            p < v@.len() ==> !text_lt(old_views[p as int], name@),
        decreases v@.len() - p,
    {
        if p >= v.len() {
            break;
        }
        if !text_less(v[p].as_str(), name) {
            break;
        }
        p = p + 1;
    }
    if p < v.len() && text_equal(v[p].as_str(), name) {
        assert(old_views[p as int] == name@);
        assert(old_views.to_set().insert(name@) =~= old_views.to_set());
        return;
    }
    let x = owned(name);
    proof {
        if p < old_views.len() {
            lemma_text_lt_total(old_views[p as int], name@);
        }
    }
    assert(p < old_views.len() ==> text_lt(name@, old_views[p as int]));
    v.insert(p, x);
    let ghost new_views = old_views.insert(p as int, name@);
    assert(views(v@) =~= new_views);
    assert forall|i: int, j: int| 0 <= i < j < new_views.len() implies text_lt(
        #[trigger] new_views[i],
        #[trigger] new_views[j],
    ) by {
        if j < p {
        } else if j == p {
        } else if i < p {
            if j - 1 > p {
                lemma_text_lt_transitive(name@, old_views[p as int], old_views[j - 1]);
            }
            lemma_text_lt_transitive(old_views[i], name@, old_views[j - 1]);
        } else if i == p {
            if j - 1 > p {
                lemma_text_lt_transitive(name@, old_views[p as int], old_views[j - 1]);
            }
        } else {
        }
    }
    proof {
        lemma_insert_set(old_views, p as int, name@);
    }
}

/// The names of a list, sorted, each once.
pub fn name_set(names: &Vec<String>) -> (r: Vec<String>)
    ensures
        lists_set(views(r@), views(names@).to_set()),
{
    let ghost all = views(names@);
    let mut r: Vec<String> = Vec::new();
    let mut i: usize = 0;
    assert(views(r@).to_set() =~= all.subrange(0, 0).to_set());
    while i < names.len()
        invariant
            i <= names@.len(),
            all == views(names@),
            strictly_sorted(views(r@)),
            views(r@).to_set() == all.subrange(0, i as int).to_set(),
        decreases names.len() - i,
    {
        insert_name(&mut r, names[i].as_str());
        proof {
            lemma_prefix_set(all, i as int);
        }
        i = i + 1;
    }
    assert(all.subrange(0, i as int) =~= all);
    r
}

/// The names of the sorted list `a` that `b` holds (`keep`) or lacks
/// (`!keep`), in order.
fn filter_names(a: &Vec<String>, b: &Vec<String>, keep: bool) -> (r: Vec<String>)
    requires
        strictly_sorted(views(a@)),
    ensures
        strictly_sorted(views(r@)),
        views(r@).to_set() == (if keep {
            views(a@).to_set().intersect(views(b@).to_set())
        } else {
            views(a@).to_set().difference(views(b@).to_set())
        }),
{
    let ghost av = views(a@);
    let ghost bs = views(b@).to_set();
    let mut r: Vec<String> = Vec::new();
    let mut i: usize = 0;
    assert(views(r@).to_set() =~= av.subrange(0, 0).to_set().intersect(bs));
    assert(views(r@).to_set() =~= av.subrange(0, 0).to_set().difference(bs));
    while i < a.len()
        invariant
            i <= a@.len(),
            av == views(a@),
            bs == views(b@).to_set(),
            strictly_sorted(av),
            strictly_sorted(views(r@)),
            forall|k: int, m: int|
                0 <= k < views(r@).len() && i <= m < av.len() ==> text_lt(
                    #[trigger] views(r@)[k],
                    #[trigger] av[m],
                ),
            views(r@).to_set() == (if keep {
                av.subrange(0, i as int).to_set().intersect(bs)
            } else {
                av.subrange(0, i as int).to_set().difference(bs)
            }),
        decreases a.len() - i,
    {
        let held = contains_name(b, a[i].as_str());
        proof {
            lemma_prefix_set(av, i as int);
            assert(views(b@).contains(av[i as int]) == bs.contains(av[i as int]));
        }
        if held == keep {
            let ghost before = views(r@);
            r.push(a[i].clone());
            proof {
                lemma_views_push_set(before, a@[i as int]);
                assert(views(r@) =~= before.push(av[i as int]));
            }
            if keep {
                assert(views(r@).to_set() =~= av.subrange(0, i + 1).to_set().intersect(bs));
            } else {
                assert(views(r@).to_set() =~= av.subrange(0, i + 1).to_set().difference(bs));
            }
        } else {
            if keep {
                assert(views(r@).to_set() =~= av.subrange(0, i + 1).to_set().intersect(bs));
            } else {
                assert(views(r@).to_set() =~= av.subrange(0, i + 1).to_set().difference(bs));
            }
        }
        i = i + 1;
    }
    assert(av.subrange(0, i as int) =~= av);
    r
}

/// Pushing onto a sequence of names adds the name to its set.
proof fn lemma_views_push_set(v: Seq<Seq<char>>, s: String)
    ensures
        v.push(s@).to_set() == v.to_set().insert(s@),
{
    lemma_insert_set(v, v.len() as int, s@);
    assert(v.insert(v.len() as int, s@) =~= v.push(s@));
}

/// The names of the sorted list `a` that `b` lacks.
pub fn names_without(a: &Vec<String>, b: &Vec<String>) -> (r: Vec<String>)
    requires
        strictly_sorted(views(a@)),
    ensures
        lists_set(views(r@), views(a@).to_set().difference(views(b@).to_set())),
{
    filter_names(a, b, false)
}

/// The names of the sorted list `a` that `b` holds too.
pub fn names_within(a: &Vec<String>, b: &Vec<String>) -> (r: Vec<String>)
    requires
        strictly_sorted(views(a@)),
    ensures
        lists_set(views(r@), views(a@).to_set().intersect(views(b@).to_set())),
{
    filter_names(a, b, true)
}

/// The names of either list, sorted, each once.
pub fn names_union(a: &Vec<String>, b: &Vec<String>) -> (r: Vec<String>)
    requires
        strictly_sorted(views(a@)),
    ensures
        lists_set(views(r@), views(a@).to_set().union(views(b@).to_set())),
{
    let ghost bv = views(b@);
    let mut r: Vec<String> = a.clone();
    assert(views(r@) =~= views(a@));
    let mut i: usize = 0;
    assert(views(a@).to_set().union(bv.subrange(0, 0).to_set()) =~= views(a@).to_set());
    while i < b.len()
        invariant
            i <= b@.len(),
            bv == views(b@),
            strictly_sorted(views(r@)),
            views(r@).to_set() == views(a@).to_set().union(bv.subrange(0, i as int).to_set()),
        decreases b.len() - i,
    {
        insert_name(&mut r, b[i].as_str());
        proof {
            lemma_prefix_set(bv, i as int);
            assert(views(r@).to_set() =~= views(a@).to_set().union(bv.subrange(0, i + 1).to_set()));
        }
        i = i + 1;
    }
    assert(bv.subrange(0, i as int) =~= bv);
    r
}

/// Whether two lists hold the same names.
pub fn same_names(a: &Vec<String>, b: &Vec<String>) -> (r: bool)
    ensures
        r == (views(a@).to_set() == views(b@).to_set()),
{
    let ghost av = views(a@);
    let ghost bv = views(b@);
    let mut i: usize = 0;
    while i < a.len()
        invariant
            i <= a@.len(),
            av == views(a@),
            bv == views(b@),
            forall|k: int| 0 <= k < i ==> bv.contains(#[trigger] av[k]),
        decreases a.len() - i,
    {
        if !contains_name(b, a[i].as_str()) {
            assert(av.to_set().contains(av[i as int]));
            assert(!bv.to_set().contains(av[i as int]));
            return false;
        }
        i = i + 1;
    }
    let mut j: usize = 0;
    while j < b.len()
        invariant
            j <= b@.len(),
            av == views(a@),
            bv == views(b@),
            forall|k: int| 0 <= k < av.len() ==> bv.contains(#[trigger] av[k]),
            forall|k: int| 0 <= k < j ==> av.contains(#[trigger] bv[k]),
        decreases b.len() - j,
    {
        if !contains_name(a, b[j].as_str()) {
            assert(bv.to_set().contains(bv[j as int]));
            assert(!av.to_set().contains(bv[j as int]));
            return false;
        }
        j = j + 1;
    }
    assert forall|y: Seq<char>| av.to_set().contains(y) <==> bv.to_set().contains(y) by {
        if av.contains(y) {
            let k = choose|k: int| 0 <= k < av.len() && av[k] == y;
            assert(bv.contains(av[k]));
        }
        if bv.contains(y) {
            let k = choose|k: int| 0 <= k < bv.len() && bv[k] == y;
            assert(av.contains(bv[k]));
        }
    }
    assert(av.to_set() =~= bv.to_set());
    true
}

/// The first name of a sorted list sorts before every other name of it.
proof fn lemma_first_is_least(v: Seq<Seq<char>>, x: Seq<char>)
    requires
        strictly_sorted(v),
        v.len() > 0,
        v.to_set().contains(x),
    ensures
        x == v[0] || text_lt(v[0], x),
{
    let k = choose|k: int| 0 <= k < v.len() && v[k] == x;
    if k > 0 {
        assert(text_lt(v[0], v[k]));
    }
}

/// The rest of a sorted list lists its set without the first name.
proof fn lemma_rest_lists(v: Seq<Seq<char>>)
    requires
        strictly_sorted(v),
        v.len() > 0,
    ensures
        lists_set(v.drop_first(), v.to_set().remove(v[0])),
{
    let rest = v.drop_first();
    assert(strictly_sorted(rest)) by {
        assert forall|i: int, j: int| 0 <= i < j < rest.len() implies text_lt(#[trigger] rest[i], #[trigger] rest[j]) by {
            assert(rest[i] == v[i + 1]);
            assert(rest[j] == v[j + 1]);
        }
    }
    assert forall|y: Seq<char>| rest.to_set().contains(y) <==> v.to_set().remove(v[0]).contains(y) by {
        if rest.contains(y) {
            let k = choose|k: int| 0 <= k < rest.len() && rest[k] == y;
            assert(v[k + 1] == y);
            assert(text_lt(v[0], v[k + 1]));
            lemma_text_lt_irreflexive(v[0]);
        }
        if v.contains(y) && y != v[0] {
            let k = choose|k: int| 0 <= k < v.len() && v[k] == y;
            assert(k > 0);
            assert(rest[k - 1] == y);
        }
    }
    assert(rest.to_set() =~= v.to_set().remove(v[0]));
}

/// A set has one list: two sorted lists without repeats holding the same
/// names are equal.
pub proof fn lemma_lists_set_unique(a: Seq<Seq<char>>, b: Seq<Seq<char>>, s: Set<Seq<char>>)
    requires
        lists_set(a, s),
        lists_set(b, s),
    ensures
        a == b,
    decreases a.len(),
{
    if a.len() == 0 {
        if b.len() > 0 {
            assert(b.to_set().contains(b[0]));
            assert(a.to_set() =~= Set::<Seq<char>>::empty());
        }
        assert(a =~= b);
    } else {
        if b.len() == 0 {
            assert(a.to_set().contains(a[0]));
            assert(b.to_set() =~= Set::<Seq<char>>::empty());
        }
        assert(a.to_set().contains(a[0]));
        assert(b.to_set().contains(b[0]));
        lemma_first_is_least(a, b[0]);
        lemma_first_is_least(b, a[0]);
        if a[0] != b[0] {
            lemma_text_lt_asymmetric(a[0], b[0]);
        }
        lemma_rest_lists(a);
        lemma_rest_lists(b);
        lemma_lists_set_unique(a.drop_first(), b.drop_first(), s.remove(a[0]));
        assert(a =~= seq![a[0]] + a.drop_first());
        assert(b =~= seq![b[0]] + b.drop_first());
    }
}

} // verus!
