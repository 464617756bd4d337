use vstd::prelude::*;

verus! {

/// `a` comes strictly before `b` in the lexicographic order of their characters
/// (the order of `String`'s `cmp`, since UTF-8 keeps the order of code points).
pub open spec fn lex_lt(a: Seq<char>, b: Seq<char>) -> bool
    decreases a.len(),
{
    if b.len() == 0 {
        false
    } else if a.len() == 0 {
        true
    } else if a[0] != b[0] {
        a[0] < b[0]
    } else {
        lex_lt(a.drop_first(), b.drop_first())
    }
}

/// Whether `a` comes strictly before `b` in lexicographic order.
pub fn lex_less(a: &Vec<char>, b: &Vec<char>) -> (r: bool)
    ensures
        r == lex_lt(a@, b@),
{
    let mut i: usize = 0;
    assert(a@.skip(0) =~= a@);
    assert(b@.skip(0) =~= b@);
    while i < a.len() && i < b.len() && a[i] == b[i]
        invariant
            i <= a.len(),
            i <= b.len(),
            lex_lt(a@, b@) == lex_lt(a@.skip(i as int), b@.skip(i as int)),
        decreases a.len() - i,
    {
        assert(a@.skip(i as int).drop_first() =~= a@.skip(i + 1));
        assert(b@.skip(i as int).drop_first() =~= b@.skip(i + 1));
        i = i + 1;
    }
    if i == b.len() {
        false
    } else if i == a.len() {
        true
    } else {
        a[i] < b[i]
    }
}

/// Lexicographic order is irreflexive.
pub proof fn lemma_lex_irreflexive(a: Seq<char>)
    ensures
        !lex_lt(a, a),
    decreases a.len(),
{
    if a.len() > 0 {
        lemma_lex_irreflexive(a.drop_first());
    }
}

/// Lexicographic order is transitive.
pub proof fn lemma_lex_transitive(a: Seq<char>, b: Seq<char>, c: Seq<char>)
    requires
        lex_lt(a, b),
        lex_lt(b, c),
    ensures
        lex_lt(a, c),
    decreases a.len(),
{
    if a.len() > 0 && b.len() > 0 && c.len() > 0 && a[0] == b[0] && b[0] == c[0] {
        lemma_lex_transitive(a.drop_first(), b.drop_first(), c.drop_first());
    }
}

/// Any two different character sequences are ordered one way or the other.
pub proof fn lemma_lex_total(a: Seq<char>, b: Seq<char>)
    ensures
        a != b ==> lex_lt(a, b) || lex_lt(b, a),
    decreases a.len(),
{
    if a.len() > 0 && b.len() > 0 && a[0] == b[0] {
        lemma_lex_total(a.drop_first(), b.drop_first());
        if a.drop_first() == b.drop_first() {
            assert(a =~= seq![a[0]] + a.drop_first());
            assert(b =~= seq![b[0]] + b.drop_first());
        }
    } else if a.len() == 0 && b.len() == 0 {
        assert(a =~= b);
    }
}

/// `x` inserted into `s` after every element whose key is not greater than its
/// own (stable insertion into a sorted sequence).
pub open spec fn insert_sorted<T>(s: Seq<T>, x: T, key: spec_fn(T) -> Seq<char>) -> Seq<T>
    decreases s.len(),
{
    if s.len() == 0 {
        seq![x]
    } else if lex_lt(key(x), key(s.last())) {
        insert_sorted(s.drop_last(), x, key).push(s.last())
    } else {
        s.push(x)
    }
}

/// `s` stably sorted by `key`: ascending keys, and elements with equal keys in
/// their original order (what `sort_by` on the keys gives).
pub open spec fn sort_by_key<T>(s: Seq<T>, key: spec_fn(T) -> Seq<char>) -> Seq<T>
    decreases s.len(),
{
    if s.len() == 0 {
        s
    } else {
        insert_sorted(sort_by_key(s.drop_last(), key), s.last(), key)
    }
}

/// No element has a key smaller than an element before it.
pub open spec fn sorted_by_key<T>(s: Seq<T>, key: spec_fn(T) -> Seq<char>) -> bool {
    forall|i: int, j: int| 0 <= i < j < s.len() ==> !lex_lt(key(#[trigger] s[j]), key(#[trigger] s[i]))
}

proof fn lemma_insert_at<T>(s: Seq<T>, x: T, key: spec_fn(T) -> Seq<char>, j: int)
    requires
        0 <= j <= s.len(),
        forall|i: int| j <= i < s.len() ==> lex_lt(key(x), key(#[trigger] s[i])),
        j == 0 || !lex_lt(key(x), key(s[j - 1])),
    ensures
        insert_sorted(s, x, key) == s.insert(j, x),
    decreases s.len(),
{
    if s.len() == 0 {
        assert(s.insert(j, x) =~= seq![x]);
    } else if j == s.len() {
        assert(s.insert(j, x) =~= s.push(x));
    } else {
        assert(lex_lt(key(x), key(s[s.len() - 1])));
        let d = s.drop_last();
        assert forall|i: int| j <= i < d.len() implies lex_lt(key(x), key(#[trigger] d[i])) by {
            assert(d[i] == s[i]);
        }
        if j > 0 {
            assert(d[j - 1] == s[j - 1]);
        }
        lemma_insert_at(d, x, key, j);
        assert(d.insert(j, x).push(s.last()) =~= s.insert(j, x));
    }
}

/// Sorts `items` stably by the keys in `keys` (`keys[i]` is the key of `items[i]`).
pub fn sort_by_keys<T>(
    items: Vec<T>,
    keys: Vec<Vec<char>>,
    Ghost(key): Ghost<spec_fn(T) -> Seq<char>>,
) -> (r: Vec<T>)
    requires
        keys.len() == items.len(),
        forall|i: int| 0 <= i < items.len() ==> (#[trigger] keys[i])@ == key(items[i]),
    ensures
        r@ == sort_by_key(items@, key),
{
    let ghost orig = items@;
    let mut items = items;
    let mut keys = keys;
    let mut out: Vec<T> = Vec::new();
    let mut out_keys: Vec<Vec<char>> = Vec::new();
    let ghost mut done: int = 0;
    while items.len() > 0
        invariant
            0 <= done <= orig.len(),
            items@ == orig.skip(done),
            keys.len() == items.len(),
            forall|i: int| 0 <= i < items.len() ==> (#[trigger] keys[i])@ == key(items[i]),
            out@ == sort_by_key(orig.take(done), key),
            out_keys.len() == out.len(),
            forall|i: int| 0 <= i < out.len() ==> (#[trigger] out_keys[i])@ == key(out[i]),
        decreases items.len(),
    {
        let x = items.remove(0);
        let kx = keys.remove(0);
        assert(kx@ == key(x));
        let mut j = out.len();
        while j > 0 && lex_less(&kx, &out_keys[j - 1])
            invariant
                j <= out.len(),
                out_keys.len() == out.len(),
                forall|i: int| 0 <= i < out.len() ==> (#[trigger] out_keys[i])@ == key(out[i]),
                kx@ == key(x),
                forall|i: int| j <= i < out.len() ==> lex_lt(key(x), key(#[trigger] out@[i])),
            decreases j,
        {
            j = j - 1;
        }
        proof {
            lemma_insert_at(out@, x, key, j as int);
            assert(orig.take(done + 1).drop_last() =~= orig.take(done));
            assert(orig.take(done + 1).last() == x);
            assert(items@ =~= orig.skip(done + 1));
        }
        let ghost before = out@;
        out.insert(j, x);
        out_keys.insert(j, kx);
        proof {
            done = done + 1;
            assert(out@ == before.insert(j as int, x));
            assert forall|i: int| 0 <= i < out.len() implies (#[trigger] out_keys[i])@ == key(out[i]) by {
                if i < j {
                } else if i > j {
                }
            }
        }
    }
    assert(orig.take(orig.len() as int) =~= orig);
    out
}

} // verus!

verus! {

/// Where `insert_sorted` puts the new element.
pub open spec fn insert_pos<T>(s: Seq<T>, x: T, key: spec_fn(T) -> Seq<char>) -> int
    decreases s.len(),
{
    if s.len() == 0 {
        0
    } else if lex_lt(key(x), key(s.last())) {
        insert_pos(s.drop_last(), x, key)
    } else {
        s.len() as int
    }
}

proof fn lemma_insert_pos<T>(s: Seq<T>, x: T, key: spec_fn(T) -> Seq<char>)
    ensures
        0 <= insert_pos(s, x, key) <= s.len(),
        insert_sorted(s, x, key) == s.insert(insert_pos(s, x, key), x),
        forall|i: int|
            insert_pos(s, x, key) <= i < s.len() ==> lex_lt(key(x), key(#[trigger] s[i])),
        insert_pos(s, x, key) > 0 ==> !lex_lt(key(x), key(s[insert_pos(s, x, key) - 1])),
    decreases s.len(),
{
    if s.len() == 0 {
        assert(s.insert(0, x) =~= seq![x]);
    } else if lex_lt(key(x), key(s.last())) {
        let d = s.drop_last();
        lemma_insert_pos(d, x, key);
        let p = insert_pos(d, x, key);
        assert(d.insert(p, x).push(s.last()) =~= s.insert(p, x));
        assert forall|i: int| p <= i < s.len() implies lex_lt(key(x), key(#[trigger] s[i])) by {
            if i < d.len() {
                assert(d[i] == s[i]);
            }
        }
        if p > 0 {
            assert(d[p - 1] == s[p - 1]);
        }
    } else {
        assert(s.insert(s.len() as int, x) =~= s.push(x));
    }
}

proof fn lemma_insert_sorted<T>(s: Seq<T>, x: T, key: spec_fn(T) -> Seq<char>)
    requires
        sorted_by_key(s, key),
    ensures
        sorted_by_key(insert_sorted(s, x, key), key),
        insert_sorted(s, x, key).to_multiset() == s.to_multiset().insert(x),
        insert_sorted(s, x, key).len() == s.len() + 1,
{
    lemma_insert_pos(s, x, key);
    let j = insert_pos(s, x, key);
    let t = s.insert(j, x);
    vstd::seq_lib::to_multiset_insert(s, j, x);
    assert forall|i: int| 0 <= i < j implies !lex_lt(key(x), key(#[trigger] s[i])) by {
        if lex_lt(key(x), key(s[i])) && i < j - 1 {
            let ki = key(s[i]);
            let kl = key(s[j - 1]);
            assert(!lex_lt(key(s[j - 1]), key(s[i])));
            lemma_lex_total(ki, kl);
            if ki == kl {
            } else {
                lemma_lex_transitive(key(x), ki, kl);
            }
        }
    }
    assert forall|a: int, b: int| 0 <= a < b < t.len() implies !lex_lt(
        key(#[trigger] t[b]),
        key(#[trigger] t[a]),
    ) by {
        if b < j {
            assert(t[a] == s[a] && t[b] == s[b]);
        } else if b == j {
            assert(t[a] == s[a]);
        } else if a == j {
            assert(t[b] == s[b - 1]);
            if lex_lt(key(s[b - 1]), key(x)) {
                lemma_lex_transitive(key(x), key(s[b - 1]), key(x));
                lemma_lex_irreflexive(key(x));
            }
        } else if a < j {
            assert(t[a] == s[a] && t[b] == s[b - 1]);
        } else {
            assert(t[a] == s[a - 1] && t[b] == s[b - 1]);
        }
    }
}

/// The elements of `s` whose key is `k`, in their order in `s`.
pub open spec fn with_key<T>(s: Seq<T>, key: spec_fn(T) -> Seq<char>, k: Seq<char>) -> Seq<T> {
    s.filter(key_is(key, k))
}

/// Whether an element's key is `k`.
pub open spec fn key_is<T>(key: spec_fn(T) -> Seq<char>, k: Seq<char>) -> spec_fn(T) -> bool {
    |x: T| key(x) == k
}

proof fn lemma_insert_sorted_stable<T>(
    s: Seq<T>,
    x: T,
    key: spec_fn(T) -> Seq<char>,
    k: Seq<char>,
)
    ensures
        with_key(insert_sorted(s, x, key), key, k) == if key(x) == k {
            with_key(s, key, k).push(x)
        } else {
            with_key(s, key, k)
        },
    decreases s.len(),
{
    let p = key_is(key, k);
    if s.len() == 0 {
        Seq::<T>::empty().lemma_filter_push(x, p);
        assert(seq![x] =~= Seq::<T>::empty().push(x));
        assert(s =~= Seq::<T>::empty());
    } else {
        let d = s.drop_last();
        let l = s.last();
        assert(d.push(l) =~= s);
        d.lemma_filter_push(l, p);
        if lex_lt(key(x), key(l)) {
            lemma_insert_sorted_stable(d, x, key, k);
            insert_sorted(d, x, key).lemma_filter_push(l, p);
            if key(x) == k {
                lemma_lex_irreflexive(k);
            }
        } else {
            s.lemma_filter_push(x, p);
        }
    }
}

/// Sorting by key gives the same elements, in ascending order of their keys,
/// and keeps the elements of each key in the order they had (the sort is
/// stable).
pub proof fn lemma_sort_by_key<T>(s: Seq<T>, key: spec_fn(T) -> Seq<char>)
    ensures
        sorted_by_key(sort_by_key(s, key), key),
        sort_by_key(s, key).to_multiset() == s.to_multiset(),
        sort_by_key(s, key).len() == s.len(),
        forall|k: Seq<char>| #[trigger] with_key(sort_by_key(s, key), key, k) == with_key(s, key, k),
    decreases s.len(),
{
    if s.len() > 0 {
        let d = s.drop_last();
        lemma_sort_by_key(d, key);
        lemma_insert_sorted(sort_by_key(d, key), s.last(), key);
        vstd::seq_lib::to_multiset_build(d, s.last());
        assert(d.push(s.last()) =~= s);
        assert forall|k: Seq<char>| #[trigger] with_key(sort_by_key(s, key), key, k) == with_key(
            s,
            key,
            k,
        ) by {
            lemma_insert_sorted_stable(sort_by_key(d, key), s.last(), key, k);
            d.lemma_filter_push(s.last(), key_is(key, k));
            assert(with_key(sort_by_key(d, key), key, k) == with_key(d, key, k));
        }
    } else {
        assert forall|k: Seq<char>| #[trigger] with_key(sort_by_key(s, key), key, k) == with_key(
            s,
            key,
            k,
        ) by {}
    }
}

} // verus!

verus! {

proof fn lemma_insert_sorted_map<T, U>(
    s: Seq<T>,
    x: T,
    f: spec_fn(T) -> U,
    key: spec_fn(U) -> Seq<char>,
    key_t: spec_fn(T) -> Seq<char>,
)
    requires
        forall|t: T| #[trigger] key_t(t) == key(f(t)),
    ensures
        insert_sorted(s, x, key_t).map_values(f) == insert_sorted(s.map_values(f), f(x), key),
    decreases s.len(),
{
    if s.len() == 0 {
        assert(seq![x].map_values(f) =~= seq![f(x)]);
    } else {
        let sm = s.map_values(f);
        assert(sm.last() == f(s.last()));
        assert(sm.drop_last() =~= s.drop_last().map_values(f));
        if lex_lt(key_t(x), key_t(s.last())) {
            lemma_insert_sorted_map(s.drop_last(), x, f, key, key_t);
            assert(insert_sorted(s.drop_last(), x, key_t).push(s.last()).map_values(f)
                =~= insert_sorted(s.drop_last(), x, key_t).map_values(f).push(f(s.last())));
        } else {
            assert(s.push(x).map_values(f) =~= sm.push(f(x)));
        }
    }
}

/// Sorting by a key commutes with mapping the elements, when the key of an
/// element is the key of its image.
pub proof fn lemma_sort_by_key_map<T, U>(
    s: Seq<T>,
    f: spec_fn(T) -> U,
    key: spec_fn(U) -> Seq<char>,
    key_t: spec_fn(T) -> Seq<char>,
)
    requires
        forall|t: T| #[trigger] key_t(t) == key(f(t)),
    ensures
        sort_by_key(s, key_t).map_values(f) == sort_by_key(s.map_values(f), key),
    decreases s.len(),
{
    if s.len() > 0 {
        lemma_sort_by_key_map(s.drop_last(), f, key, key_t);
        lemma_insert_sorted_map(sort_by_key(s.drop_last(), key_t), s.last(), f, key, key_t);
        let sm = s.map_values(f);
        assert(sm.drop_last() =~= s.drop_last().map_values(f));
        assert(sm.last() == f(s.last()));
    } else {
        assert(s.map_values(f) =~= Seq::<U>::empty());
    }
}

} // verus!
