//! Putting things in order by their keys.

use crate::text::chars_of;
use vstd::prelude::*;

verus! {

/// Whether `a` comes before `b`, or is `b`, in the order of dictionaries.
pub open spec fn lex_le(a: Seq<i128>, b: Seq<i128>) -> bool
    decreases a.len(),
{
    if a.len() == 0 {
        true
    } else if b.len() == 0 {
        false
    } else if a[0] != b[0] {
        a[0] < b[0]
    } else {
        lex_le(a.skip(1), b.skip(1))
    }
}

/// The key of a text: the numbers of its characters.
pub open spec fn text_key(s: Seq<char>) -> Seq<i128> {
    s.map_values(|c: char| c as u32 as i128)
}

/// The key of a pair of texts, which is ordered by the first and then by the second.
pub open spec fn pair_key(a: Seq<char>, b: Seq<char>) -> Seq<i128> {
    text_key(a) + seq![-1i128] + text_key(b)
}

/// `n` put into `order`, behind everything whose key does not come after its own.
pub open spec fn placed(order: Seq<int>, keys: Seq<Seq<i128>>, n: int) -> Seq<int>
    decreases order.len(),
{
    if order.len() == 0 || lex_le(keys[order.last()], keys[n]) {
        order.push(n)
    } else {
        placed(order.drop_last(), keys, n).push(order.last())
    }
}

/// The places of the first `n` keys in order. Equal keys keep their order.
pub open spec fn order_upto(keys: Seq<Seq<i128>>, n: int) -> Seq<int>
    decreases n,
{
    if n <= 0 {
        seq![]
    } else {
        placed(order_upto(keys, n - 1), keys, n - 1)
    }
}

/// The places of all keys in order. Equal keys keep their order.
pub open spec fn order_of(keys: Seq<Seq<i128>>) -> Seq<int> {
    order_upto(keys, keys.len() as int)
}

/// The keys of a list of keys.
pub open spec fn key_views(keys: Seq<Vec<i128>>) -> Seq<Seq<i128>> {
    keys.map_values(|k: Vec<i128>| k@)
}

/// The places of a list of places.
pub open spec fn places(list: Seq<usize>) -> Seq<int> {
    list.map_values(|i: usize| i as int)
}

fn is_lex_le(a: &Vec<i128>, b: &Vec<i128>) -> (r: bool)
    ensures
        r == lex_le(a@, b@),
{
    let mut i: usize = 0;
    assert(a@.skip(0) =~= a@);
    assert(b@.skip(0) =~= b@);
    loop
        invariant
            i <= a.len(),
            i <= b.len(),
            lex_le(a@, b@) == lex_le(a@.skip(i as int), b@.skip(i as int)),
        decreases a.len() - i,
    {
        if i == a.len() {
            return true;
        }
        if i == b.len() {
            return false;
        }
        assert(a@.skip(i as int).skip(1) =~= a@.skip(i + 1));
        assert(b@.skip(i as int).skip(1) =~= b@.skip(i + 1));
        if a[i] != b[i] {
            return a[i] < b[i];
        }
        i += 1;
    }
}

/// The key of a text.
pub fn key_of_text(s: &str) -> (r: Vec<i128>)
    ensures
        r@ == text_key(s@),
{
    let v = chars_of(s);
    let mut out: Vec<i128> = Vec::new();
    let mut i: usize = 0;
    while i < v.len()
        invariant
            i <= v.len(),
            out@ =~= text_key(v@.take(i as int)),
        decreases v.len() - i,
    {
        out.push(v[i] as u32 as i128);
        i += 1;
    }
    assert(v@.take(i as int) =~= v@);
    out
}

/// The key of a pair of texts.
pub fn key_of_pair(a: &str, b: &str) -> (r: Vec<i128>)
    ensures
        r@ == pair_key(a@, b@),
{
    let mut out = key_of_text(a);
    out.push(-1);
    let second = key_of_text(b);
    assert(out@ =~= text_key(a@) + seq![-1i128]);
    let ghost first = out@;
    let mut i: usize = 0;
    while i < second.len()
        invariant
            i <= second.len(),
            out@ =~= first + second@.take(i as int),
        decreases second.len() - i,
    {
        out.push(second[i]);
        i += 1;
    }
    assert(second@.take(i as int) =~= second@);
    out
}

proof fn lemma_places(keys: Seq<Seq<i128>>, n: int)
    requires
        0 <= n <= keys.len(),
    ensures
        order_upto(keys, n).len() == n,
        forall|i: int| 0 <= i < n ==> 0 <= #[trigger] order_upto(keys, n)[i] < n,
    decreases n,
{
    if n > 0 {
        lemma_places(keys, n - 1);
        lemma_placed_len(order_upto(keys, n - 1), keys, n - 1, n - 1);
    }
}

proof fn lemma_placed_len(order: Seq<int>, keys: Seq<Seq<i128>>, n: int, bound: int)
    requires
        0 <= n,
        bound <= n,
        forall|i: int| 0 <= i < order.len() ==> 0 <= #[trigger] order[i] < bound,
    ensures
        placed(order, keys, n).len() == order.len() + 1,
        forall|i: int| 0 <= i <= order.len() ==> 0 <= #[trigger] placed(order, keys, n)[i] <= n,
    decreases order.len(),
{
    if order.len() > 0 && !lex_le(keys[order.last()], keys[n]) {
        lemma_placed_len(order.drop_last(), keys, n, bound);
    }
}

proof fn lemma_placed_tail(order: Seq<int>, keys: Seq<Seq<i128>>, n: int, k: int)
    requires
        0 <= k <= order.len(),
        forall|i: int| k <= i < order.len() ==> !lex_le(keys[#[trigger] order[i]], keys[n]),
    ensures
        placed(order, keys, n) == placed(order.take(k), keys, n) + order.skip(k),
    decreases order.len() - k,
{
    if k < order.len() {
        lemma_placed_tail(order.drop_last(), keys, n, k);
        assert(order.drop_last().take(k) =~= order.take(k));
        assert(order.last() == order[order.len() - 1]);
        assert(order.drop_last().skip(k).push(order.last()) =~= order.skip(k));
        assert(placed(order, keys, n) =~= placed(order.take(k), keys, n) + order.skip(k));
    } else {
        assert(order.take(k) =~= order);
        assert(order.skip(k) =~= seq![]);
        assert(placed(order, keys, n) + seq![] =~= placed(order, keys, n));
    }
}

fn place(order: &mut Vec<usize>, keys: &Vec<Vec<i128>>, n: usize)
    requires
        n < keys@.len(),
        forall|i: int| 0 <= i < old(order)@.len() ==> #[trigger] old(order)@[i] < keys@.len(),
    ensures
        places(final(order)@) == placed(places(old(order)@), key_views(keys@), n as int),
{
    let ghost views = key_views(keys@);
    let ghost before = places(order@);
    let mut k: usize = order.len();
    while k > 0 && !is_lex_le(&keys[order[k - 1]], &keys[n])
        invariant
            k <= order@.len(),
            n < keys@.len(),
            views == key_views(keys@),
            before == places(order@),
            forall|i: int| 0 <= i < order@.len() ==> #[trigger] order@[i] < keys@.len(),
            forall|i: int| k <= i < before.len() ==> !lex_le(views[#[trigger] before[i]], views[n as int]),
        decreases k,
    {
        k -= 1;
        assert(before[k as int] == order@[k as int]);
    }
    proof {
        lemma_placed_tail(before, views, n as int, k as int);
        if k > 0 {
            assert(before.take(k as int).last() == order@[k - 1]);
        }
        assert(placed(before.take(k as int), views, n as int) =~= before.take(k as int).push(n as int));
    }
    order.insert(k, n);
    assert(places(order@) =~= before.take(k as int).push(n as int) + before.skip(k as int));
}

/// The places of the keys in order. Equal keys keep their order.
pub fn stable_order(keys: &Vec<Vec<i128>>) -> (r: Vec<usize>)
    ensures
        places(r@) == order_of(key_views(keys@)),
        r@.len() == keys@.len(),
        forall|i: int| 0 <= i < r@.len() ==> #[trigger] r@[i] < keys@.len(),
{
    let ghost views = key_views(keys@);
    let mut order: Vec<usize> = Vec::new();
    let mut n: usize = 0;
    assert(places(order@) =~= seq![]);
    while n < keys.len()
        invariant
            n <= keys.len(),
            views == key_views(keys@),
            places(order@) == order_upto(views, n as int),
        decreases keys.len() - n,
    {
        proof {
            lemma_places(views, n as int);
            assert forall|i: int| 0 <= i < order@.len() implies #[trigger] order@[i] < keys@.len() by {
                assert(places(order@)[i] == order@[i]);
            }
        }
        place(&mut order, keys, n);
        n += 1;
    }
    proof {
        lemma_places(views, n as int);
        assert(places(order@).len() == order@.len());
        assert forall|i: int| 0 <= i < order@.len() implies #[trigger] order@[i] < keys@.len() by {
            assert(places(order@)[i] == order@[i]);
        }
    }
    order
}

/// The order of dictionaries compares any two keys.
pub proof fn lex_total(a: Seq<i128>, b: Seq<i128>)
    ensures
        lex_le(a, b) || lex_le(b, a),
    decreases a.len(),
{
    if a.len() > 0 && b.len() > 0 && a[0] == b[0] {
        lex_total(a.skip(1), b.skip(1));
    }
}

/// The order of dictionaries is transitive.
pub proof fn lex_transitive(a: Seq<i128>, b: Seq<i128>, c: Seq<i128>)
    requires
        lex_le(a, b),
        lex_le(b, c),
    ensures
        lex_le(a, c),
    decreases a.len(),
{
    if a.len() > 0 && b.len() > 0 && c.len() > 0 && a[0] == b[0] && b[0] == c[0] {
        lex_transitive(a.skip(1), b.skip(1), c.skip(1));
    }
}

/// Two keys that come before each other are the same.
pub proof fn lex_antisymmetric(a: Seq<i128>, b: Seq<i128>)
    requires
        lex_le(a, b),
        lex_le(b, a),
    ensures
        a == b,
    decreases a.len(),
{
    if a.len() > 0 && b.len() > 0 {
        lex_antisymmetric(a.skip(1), b.skip(1));
        assert(a =~= seq![a[0]] + a.skip(1));
        assert(b =~= seq![b[0]] + b.skip(1));
    } else {
        assert(a =~= b);
    }
}

/// Whether a list of places is in order: keys ascend, and equal keys stand as they came.
pub open spec fn is_ordered(order: Seq<int>, keys: Seq<Seq<i128>>) -> bool {
    forall|i: int, j: int|
        0 <= i < j < order.len() ==> lex_le(keys[#[trigger] order[i]], keys[#[trigger] order[j]]) && (
        keys[order[i]] == keys[order[j]] ==> order[i] < order[j])
}

proof fn lemma_placed_ordered(order: Seq<int>, keys: Seq<Seq<i128>>, n: int)
    requires
        0 <= n,
        is_ordered(order, keys),
        forall|i: int| 0 <= i < order.len() ==> 0 <= #[trigger] order[i] < n,
    ensures
        is_ordered(placed(order, keys, n), keys),
        placed(order, keys, n).to_multiset() == order.to_multiset().insert(n),
        forall|i: int| 0 <= i < placed(order, keys, n).len() ==> #[trigger] placed(order, keys, n)[i]
            == n || order.contains(placed(order, keys, n)[i]),
    decreases order.len(),
{
    broadcast use vstd::seq_lib::group_to_multiset_ensures;

    let out = placed(order, keys, n);
    if order.len() == 0 || lex_le(keys[order.last()], keys[n]) {
        assert forall|i: int, j: int| 0 <= i < j < out.len() implies lex_le(
            keys[#[trigger] out[i]],
            keys[#[trigger] out[j]],
        ) && (keys[out[i]] == keys[out[j]] ==> out[i] < out[j]) by {
            if j == order.len() {
                let last = order[order.len() - 1];
                if i < order.len() - 1 {
                    assert(lex_le(keys[order[i]], keys[last]));
                    lex_transitive(keys[order[i]], keys[last], keys[n]);
                }
            } else {
                assert(out[i] == order[i] && out[j] == order[j]);
            }
        }
        assert forall|i: int| 0 <= i < out.len() implies #[trigger] out[i] == n || order.contains(
            out[i],
        ) by {
            if i < order.len() {
                assert(out[i] == order[i]);
            }
        }
    } else {
        let front = order.drop_last();
        let last = order.last();
        assert forall|i: int, j: int| 0 <= i < j < front.len() implies lex_le(
            keys[#[trigger] front[i]],
            keys[#[trigger] front[j]],
        ) && (keys[front[i]] == keys[front[j]] ==> front[i] < front[j]) by {
            assert(front[i] == order[i] && front[j] == order[j]);
        }
        lemma_placed_ordered(front, keys, n);
        let inner = placed(front, keys, n);
        lex_total(keys[last], keys[n]);
        assert forall|i: int| 0 <= i < inner.len() implies lex_le(keys[#[trigger] inner[i]], keys[last])
            && (keys[inner[i]] == keys[last] ==> inner[i] < last) by {
            if inner[i] == n {
                if keys[n] == keys[last] {
                    lex_total(keys[n], keys[n]);
                }
            } else {
                let k = choose|k: int| 0 <= k < front.len() && front[k] == inner[i];
                assert(order[k] == front[k]);
                assert(order[order.len() - 1] == last);
            }
        }
        assert forall|i: int, j: int| 0 <= i < j < out.len() implies lex_le(
            keys[#[trigger] out[i]],
            keys[#[trigger] out[j]],
        ) && (keys[out[i]] == keys[out[j]] ==> out[i] < out[j]) by {
            assert(out[i] == inner[i]);
            if j < inner.len() {
                assert(out[j] == inner[j]);
            }
        }
        assert(order =~= front.push(last));
        assert(out.to_multiset() =~= order.to_multiset().insert(n));
        assert forall|i: int| 0 <= i < out.len() implies #[trigger] out[i] == n || order.contains(
            out[i],
        ) by {
            if i < inner.len() {
                assert(out[i] == inner[i]);
                if inner[i] != n {
                    let k = choose|k: int| 0 <= k < front.len() && front[k] == inner[i];
                    assert(order[k] == out[i]);
                }
            } else {
                assert(order[order.len() - 1] == out[i]);
            }
        }
    }
}

proof fn lemma_order_upto(keys: Seq<Seq<i128>>, n: int)
    requires
        0 <= n <= keys.len(),
    ensures
        is_ordered(order_upto(keys, n), keys),
        order_upto(keys, n).to_multiset() == Seq::new(n as nat, |i: int| i).to_multiset(),
    decreases n,
{
    broadcast use vstd::seq_lib::group_to_multiset_ensures;

    if n > 0 {
        lemma_order_upto(keys, n - 1);
        lemma_places(keys, n - 1);
        lemma_placed_ordered(order_upto(keys, n - 1), keys, n - 1);
        assert(Seq::new(n as nat, |i: int| i) =~= Seq::new((n - 1) as nat, |i: int| i).push(n - 1));
    } else {
        assert(order_upto(keys, n) =~= Seq::new(0, |i: int| i));
    }
}

/// The order holds every place once, its keys ascend, and equal keys stand as they came.
pub proof fn order_is_stable_and_complete(keys: Seq<Seq<i128>>)
    ensures
        is_ordered(order_of(keys), keys),
        order_of(keys).to_multiset() == Seq::new(keys.len(), |i: int| i).to_multiset(),
{
    lemma_order_upto(keys, keys.len() as int);
}

/// The order holds places only.
pub proof fn order_is_of_places(keys: Seq<Seq<i128>>)
    ensures
        order_of(keys).len() == keys.len(),
        forall|i: int| 0 <= i < keys.len() ==> 0 <= #[trigger] order_of(keys)[i] < keys.len(),
{
    lemma_places(keys, keys.len() as int);
}

proof fn lemma_char_keys(a: char, b: char)
    requires
        a != b,
    ensures
        a as u32 as i128 != b as u32 as i128,
{
}

/// Pairs of texts are ordered by the first text, and those with the same first text by the
/// second.
pub proof fn pairs_are_ordered_by_first_then_second(
    a: Seq<char>,
    b: Seq<char>,
    c: Seq<char>,
    d: Seq<char>,
)
    ensures
        lex_le(pair_key(a, b), pair_key(c, d)) <==> (if a == c {
            lex_le(text_key(b), text_key(d))
        } else {
            lex_le(text_key(a), text_key(c))
        }),
    decreases a.len(),
{
    let (p, q) = (pair_key(a, b), pair_key(c, d));
    if a.len() == 0 && c.len() == 0 {
        assert(a =~= c);
        assert(p.skip(1) =~= text_key(b));
        assert(q.skip(1) =~= text_key(d));
    } else if a.len() > 0 && c.len() > 0 {
        if a[0] == c[0] {
            pairs_are_ordered_by_first_then_second(a.skip(1), b, c.skip(1), d);
            assert(p.skip(1) =~= pair_key(a.skip(1), b));
            assert(q.skip(1) =~= pair_key(c.skip(1), d));
            assert(text_key(a).skip(1) =~= text_key(a.skip(1)));
            assert(text_key(c).skip(1) =~= text_key(c.skip(1)));
            if a.skip(1) == c.skip(1) {
                assert(a =~= seq![a[0]] + a.skip(1));
                assert(c =~= seq![c[0]] + c.skip(1));
            }
        } else {
            lemma_char_keys(a[0], c[0]);
            assert(text_key(a)[0] != text_key(c)[0]);
        }
    }
}

} // verus!
