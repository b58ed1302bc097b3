//! Queries over tables held as sequences of rows.

use vstd::prelude::*;

verus! {

/// A row that can be copied without changing what it stands for.
pub trait Row: View + Sized {
    fn duplicate(&self) -> (r: Self)
        ensures
            r@ == self@,
    ;
}

/// What the rows of a table stand for.
pub open spec fn views<T: View>(rows: Seq<T>) -> Seq<T::V> {
    rows.map_values(|t: T| t@)
}

/// Puts `x` behind every row that it does not have to come before.
pub open spec fn placed<V>(sorted: Seq<V>, x: V, before: spec_fn(V, V) -> bool) -> Seq<V>
    decreases sorted.len(),
{
    if sorted.len() > 0 && before(x, sorted.last()) {
        placed(sorted.drop_last(), x, before).push(sorted.last())
    } else {
        sorted.push(x)
    }
}

/// The rows in the order `before`; rows that it leaves open keep their order.
pub open spec fn ordered<V>(rows: Seq<V>, before: spec_fn(V, V) -> bool) -> Seq<V>
    decreases rows.len(),
{
    if rows.len() == 0 {
        rows
    } else {
        placed(ordered(rows.drop_last(), before), rows.last(), before)
    }
}

/// The rows of a table that satisfy a condition, in table order.
pub fn select<T: Row, F: Fn(&T) -> bool>(
    rows: &Vec<T>,
    keep: F,
    Ghost(wanted): Ghost<spec_fn(T::V) -> bool>,
) -> (r: Vec<T>)
    requires
        forall|t: &T| #[trigger] call_requires(keep, (t,)),
        forall|t: &T, b: bool| #[trigger] call_ensures(keep, (t,), b) ==> b == wanted(t@),
    ensures
        views(r@) == views(rows@).filter(wanted),
{
    let mut out: Vec<T> = Vec::new();
    let mut i: usize = 0;
    proof {
        assert(views(rows@).take(0) =~= Seq::empty());
        reveal(Seq::filter);
        assert(views(out@) =~= views(rows@).take(0).filter(wanted));
    }
    while i < rows.len()
        invariant
            i <= rows.len(),
            forall|t: &T| #[trigger] call_requires(keep, (t,)),
            forall|t: &T, b: bool| #[trigger] call_ensures(keep, (t,), b) ==> b == wanted(t@),
            views(out@) == views(rows@).take(i as int).filter(wanted),
        decreases rows.len() - i,
    {
        let ghost old_out = views(out@);
        let hit = keep(&rows[i]);
        proof {
            let v = views(rows@);
            assert(v.take(i + 1).drop_last() =~= v.take(i as int));
            assert(v.take(i + 1).last() == rows@[i as int]@);
            reveal(Seq::filter);
        }
        if hit {
            out.push(rows[i].duplicate());
            assert(views(out@) =~= old_out.push(rows@[i as int]@));
        }
        i = i + 1;
    }
    assert(views(rows@).take(i as int) =~= views(rows@));
    out
}

/// The first `n` rows, or all of them where there are fewer.
pub open spec fn first_n<V>(rows: Seq<V>, n: int) -> Seq<V> {
    if rows.len() <= n {
        rows
    } else {
        rows.take(n)
    }
}

/// The last `n` rows, or all of them where there are fewer.
pub open spec fn last_n<V>(rows: Seq<V>, n: int) -> Seq<V> {
    if rows.len() <= n {
        rows
    } else {
        rows.skip(rows.len() - n)
    }
}

/// Whether some row satisfies a condition.
pub open spec fn any<V>(rows: Seq<V>, wanted: spec_fn(V) -> bool) -> bool {
    exists|i: int| 0 <= i < rows.len() && wanted(#[trigger] rows[i])
}

/// The first row that satisfies a condition.
pub open spec fn first_match<V>(rows: Seq<V>, wanted: spec_fn(V) -> bool) -> Option<V>
    decreases rows.len(),
{
    if rows.len() == 0 {
        None
    } else if wanted(rows[0]) {
        Some(rows[0])
    } else {
        first_match(rows.drop_first(), wanted)
    }
}

/// The position of the first row that satisfies a condition.
pub fn find<T: View, F: Fn(&T) -> bool>(
    rows: &Vec<T>,
    hit: F,
    Ghost(wanted): Ghost<spec_fn(T::V) -> bool>,
) -> (r: Option<usize>)
    requires
        forall|t: &T| #[trigger] call_requires(hit, (t,)),
        forall|t: &T, b: bool| #[trigger] call_ensures(hit, (t,), b) ==> b == wanted(t@),
    ensures
        r is Some <==> any(views(rows@), wanted),
        match r {
            Some(i) => i < rows.len() && wanted(rows@[i as int]@) && (forall|j: int|
                0 <= j < i ==> !wanted(#[trigger] rows@[j]@)) && first_match(views(rows@), wanted)
                == Some(rows@[i as int]@),
            None => first_match(views(rows@), wanted) is None && forall|j: int|
                0 <= j < rows.len() ==> !wanted(#[trigger] rows@[j]@),
        },
{
    let mut i: usize = 0;
    assert(views(rows@).skip(0) =~= views(rows@));
    while i < rows.len()
        invariant
            i <= rows.len(),
            forall|t: &T| #[trigger] call_requires(hit, (t,)),
            forall|t: &T, b: bool| #[trigger] call_ensures(hit, (t,), b) ==> b == wanted(t@),
            forall|j: int| 0 <= j < i ==> !wanted(#[trigger] rows@[j]@),
            first_match(views(rows@), wanted) == first_match(views(rows@).skip(i as int), wanted),
        decreases rows.len() - i,
    {
        if hit(&rows[i]) {
            assert(wanted(views(rows@)[i as int]));
            return Some(i);
        }
        assert(views(rows@).skip(i as int).drop_first() =~= views(rows@).skip(i + 1));
        i = i + 1;
    }
    assert forall|j: int| 0 <= j < views(rows@).len() implies !wanted(
        #[trigger] views(rows@)[j],
    ) by {
        assert(!wanted(rows@[j]@));
    }
    None
}

/// Whether some row satisfies a condition.
pub fn exists_row<T: View, F: Fn(&T) -> bool>(
    rows: &Vec<T>,
    hit: F,
    Ghost(wanted): Ghost<spec_fn(T::V) -> bool>,
) -> (r: bool)
    requires
        forall|t: &T| #[trigger] call_requires(hit, (t,)),
        forall|t: &T, b: bool| #[trigger] call_ensures(hit, (t,), b) ==> b == wanted(t@),
    ensures
        r == any(views(rows@), wanted),
{
    find(rows, hit, Ghost(wanted)).is_some()
}

/// How many rows satisfy a condition.
pub fn count<T: View, F: Fn(&T) -> bool>(
    rows: &Vec<T>,
    hit: F,
    Ghost(wanted): Ghost<spec_fn(T::V) -> bool>,
) -> (r: usize)
    requires
        forall|t: &T| #[trigger] call_requires(hit, (t,)),
        forall|t: &T, b: bool| #[trigger] call_ensures(hit, (t,), b) ==> b == wanted(t@),
    ensures
        r == views(rows@).filter(wanted).len(),
{
    let mut n: usize = 0;
    let mut i: usize = 0;
    proof {
        assert(views(rows@).take(0) =~= Seq::empty());
        reveal(Seq::filter);
    }
    while i < rows.len()
        invariant
            n <= i <= rows.len(),
            forall|t: &T| #[trigger] call_requires(hit, (t,)),
            forall|t: &T, b: bool| #[trigger] call_ensures(hit, (t,), b) ==> b == wanted(t@),
            n == views(rows@).take(i as int).filter(wanted).len(),
        decreases rows.len() - i,
    {
        proof {
            let v = views(rows@);
            assert(v.take(i + 1).drop_last() =~= v.take(i as int));
            assert(v.take(i + 1).last() == rows@[i as int]@);
            reveal(Seq::filter);
        }
        if hit(&rows[i]) {
            n = n + 1;
        }
        i = i + 1;
    }
    assert(views(rows@).take(i as int) =~= views(rows@));
    n
}

/// Replaces every row by what `change` makes of it.
pub fn rewrite<T: View, F: Fn(&T) -> T>(
    rows: &Vec<T>,
    change: F,
    Ghost(becomes): Ghost<spec_fn(T::V) -> T::V>,
) -> (r: Vec<T>)
    requires
        forall|t: &T| #[trigger] call_requires(change, (t,)),
        forall|t: &T, u: T| #[trigger] call_ensures(change, (t,), u) ==> u@ == becomes(t@),
    ensures
        views(r@) == views(rows@).map_values(becomes),
{
    let mut out: Vec<T> = Vec::new();
    let mut i: usize = 0;
    while i < rows.len()
        invariant
            i <= rows.len(),
            out.len() == i,
            forall|t: &T| #[trigger] call_requires(change, (t,)),
            forall|t: &T, u: T| #[trigger] call_ensures(change, (t,), u) ==> u@ == becomes(t@),
            forall|j: int| 0 <= j < i ==> (#[trigger] out@[j])@ == becomes(rows@[j]@),
        decreases rows.len() - i,
    {
        out.push(change(&rows[i]));
        i = i + 1;
    }
    assert(views(out@) =~= views(rows@).map_values(becomes));
    out
}

/// Sorts the rows; rows that the order leaves open keep their order.
pub fn sort<T: View, F: Fn(&T, &T) -> bool>(
    rows: Vec<T>,
    less: F,
    Ghost(before): Ghost<spec_fn(T::V, T::V) -> bool>,
) -> (r: Vec<T>)
    requires
        forall|a: &T, b: &T| #[trigger] call_requires(less, (a, b)),
        forall|a: &T, b: &T, o: bool| #[trigger]
            call_ensures(less, (a, b), o) ==> o == before(a@, b@),
    ensures
        views(r@) == ordered(views(rows@), before),
{
    let mut rest = rows;
    let mut reversed: Vec<T> = Vec::new();
    while rest.len() > 0
        invariant
            rest@ + reversed@.reverse() == rows@,
        decreases rest.len(),
    {
        let ghost r0 = rest@;
        let ghost v0 = reversed@;
        let x = rest.pop().unwrap();
        reversed.push(x);
        assert(rest@ + reversed@.reverse() =~= r0 + v0.reverse());
    }
    assert(reversed@.reverse() =~= rows@);
    let mut out: Vec<T> = Vec::new();
    proof {
        assert(views(rows@).take(0) =~= Seq::empty());
        assert(views(out@) =~= ordered(views(rows@).take(0), before));
        assert(reversed@ =~= rows@.skip(0).reverse());
    }
    while reversed.len() > 0
        invariant
            reversed.len() <= rows@.len(),
            reversed@ == rows@.skip(rows@.len() - reversed.len()).reverse(),
            views(out@) == ordered(views(rows@).take(rows@.len() - reversed.len()), before),
            forall|a: &T, b: &T| #[trigger] call_requires(less, (a, b)),
            forall|a: &T, b: &T, o: bool| #[trigger]
                call_ensures(less, (a, b), o) ==> o == before(a@, b@),
        decreases reversed.len(),
    {
        let ghost k = rows@.len() - reversed.len();
        let ghost old_rev = reversed@;
        let x = reversed.pop().unwrap();
        proof {
            assert(x == rows@[k]);
            assert(reversed@ =~= rows@.skip(k + 1).reverse());
            assert(views(rows@).take(k + 1).drop_last() =~= views(rows@).take(k));
            assert(views(rows@).take(k + 1).last() == x@);
        }
        let ghost sorted = views(out@);
        let mut p: usize = out.len();
        assert(sorted.take(p as int) =~= sorted);
        assert(sorted.skip(p as int) =~= Seq::empty());
        assert(placed(sorted, x@, before) =~= placed(sorted.take(p as int), x@, before)
            + sorted.skip(p as int));
        while p > 0 && less(&x, &out[p - 1])
            invariant
                p <= out.len(),
                sorted == views(out@),
                forall|a: &T, b: &T| #[trigger] call_requires(less, (a, b)),
                forall|a: &T, b: &T, o: bool| #[trigger]
                    call_ensures(less, (a, b), o) ==> o == before(a@, b@),
                placed(sorted, x@, before) == placed(sorted.take(p as int), x@, before)
                    + sorted.skip(p as int),
            ensures
                p <= out.len(),
                sorted == views(out@),
                placed(sorted, x@, before) == sorted.take(p as int).push(x@) + sorted.skip(p as int),
            decreases p,
        {
            proof {
                let cur = sorted.take(p as int);
                assert(cur.last() == out@[p - 1]@);
                assert(cur.drop_last() =~= sorted.take(p - 1));
                assert(placed(cur, x@, before) == placed(sorted.take(p - 1), x@, before).push(
                    sorted[p - 1],
                ));
                assert(placed(sorted.take(p - 1), x@, before).push(sorted[p - 1]) + sorted.skip(
                    p as int,
                ) =~= placed(sorted.take(p - 1), x@, before) + sorted.skip(p - 1));
            }
            p = p - 1;
        }
        let ghost shown = x@;
        out.insert(p, x);
        assert(views(out@) =~= sorted.take(p as int).push(shown) + sorted.skip(p as int));
    }
    assert(views(rows@).take(rows@.len() as int) =~= views(rows@));
    out
}

/// The first `n` rows of a result.
pub fn limit_front<T: Row>(rows: Vec<T>, n: u64) -> (r: Vec<T>)
    ensures
        views(r@) == first_n(views(rows@), n as int),
{
    let mut out = rows;
    if out.len() as u64 > n {
        out.truncate(n as usize);
    }
    assert(views(out@) =~= first_n(views(rows@), n as int));
    out
}

/// The last `n` rows of a result.
pub fn limit_back<T: Row>(rows: Vec<T>, n: u64) -> (r: Vec<T>)
    ensures
        views(r@) == last_n(views(rows@), n as int),
{
    if rows.len() as u64 <= n {
        return rows;
    }
    let mut out: Vec<T> = Vec::new();
    let start: usize = rows.len() - n as usize;
    let mut i: usize = start;
    while i < rows.len()
        invariant
            start <= i <= rows.len(),
            out.len() == i - start,
            forall|j: int| 0 <= j < out.len() ==> (#[trigger] out@[j])@ == rows@[start + j]@,
        decreases rows.len() - i,
    {
        out.push(rows[i].duplicate());
        i = i + 1;
    }
    assert(views(out@) =~= last_n(views(rows@), n as int));
    out
}

/// Sorting keeps every row, and adds none.
pub proof fn lemma_ordered_same_rows<V>(rows: Seq<V>, before: spec_fn(V, V) -> bool)
    ensures
        ordered(rows, before).to_multiset() =~= rows.to_multiset(),
        ordered(rows, before).len() == rows.len(),
    decreases rows.len(),
{
    broadcast use vstd::seq_lib::group_to_multiset_ensures;

    if rows.len() > 0 {
        let front = ordered(rows.drop_last(), before);
        lemma_ordered_same_rows(rows.drop_last(), before);
        lemma_placed_same_rows(front, rows.last(), before);
        assert(rows =~= rows.drop_last().push(rows.last()));
    }
}

proof fn lemma_placed_same_rows<V>(sorted: Seq<V>, x: V, before: spec_fn(V, V) -> bool)
    ensures
        placed(sorted, x, before).to_multiset() =~= sorted.to_multiset().insert(x),
        placed(sorted, x, before).len() == sorted.len() + 1,
    decreases sorted.len(),
{
    broadcast use vstd::seq_lib::group_to_multiset_ensures;

    if sorted.len() > 0 && before(x, sorted.last()) {
        lemma_placed_same_rows(sorted.drop_last(), x, before);
        assert(sorted =~= sorted.drop_last().push(sorted.last()));
    }
}

/// What an order must be for a sorted result to be in order throughout.
pub open spec fn is_strict_order<V>(before: spec_fn(V, V) -> bool) -> bool {
    &&& forall|a: V, b: V| #[trigger] before(a, b) ==> !before(b, a)
    &&& forall|a: V, b: V, c: V|
        #![trigger before(a, c), before(b, c)]
        #![trigger before(a, b), before(b, c)]
        before(a, c) ==> before(a, b) || before(b, c)
}

/// Whether no row stands behind one that it comes before.
pub open spec fn in_order<V>(rows: Seq<V>, before: spec_fn(V, V) -> bool) -> bool {
    forall|i: int, j: int| 0 <= i < j < rows.len() ==> !before(#[trigger] rows[j], #[trigger] rows[i])
}

/// A sorted result is in order.
pub proof fn lemma_ordered_in_order<V>(rows: Seq<V>, before: spec_fn(V, V) -> bool)
    requires
        is_strict_order(before),
    ensures
        in_order(ordered(rows, before), before),
    decreases rows.len(),
{
    if rows.len() > 0 {
        lemma_ordered_in_order(rows.drop_last(), before);
        lemma_placed_in_order(ordered(rows.drop_last(), before), rows.last(), before);
    }
}

proof fn lemma_placed_in_order<V>(sorted: Seq<V>, x: V, before: spec_fn(V, V) -> bool)
    requires
        is_strict_order(before),
        in_order(sorted, before),
    ensures
        in_order(placed(sorted, x, before), before),
        forall|i: int|
            0 <= i < placed(sorted, x, before).len() ==> sorted.contains(
                #[trigger] placed(sorted, x, before)[i],
            ) || placed(sorted, x, before)[i] == x,
    decreases sorted.len(),
{
    if sorted.len() > 0 && before(x, sorted.last()) {
        let front = sorted.drop_last();
        let last = sorted.last();
        lemma_placed_in_order(front, x, before);
        let r = placed(front, x, before);
        assert(last == sorted[sorted.len() - 1]);
        assert forall|i: int| 0 <= i < r.len() implies !before(last, #[trigger] r[i])
            && (sorted.contains(r[i]) || r[i] == x) by {
            if front.contains(r[i]) {
                let j = choose|j: int| 0 <= j < front.len() && front[j] == r[i];
                assert(sorted[j] == r[i]);
            }
        }
        let whole = r.push(last);
        assert forall|i: int, j: int| 0 <= i < j < whole.len() implies !before(
            #[trigger] whole[j],
            #[trigger] whole[i],
        ) by {
            assert(whole[i] == r[i]);
            if j < r.len() {
                assert(whole[j] == r[j]);
            }
        }
        assert forall|i: int| 0 <= i < whole.len() implies sorted.contains(#[trigger] whole[i])
            || whole[i] == x by {
            if i < r.len() {
                assert(whole[i] == r[i]);
            }
        }
    } else {
        let whole = sorted.push(x);
        assert forall|i: int, j: int| 0 <= i < j < whole.len() implies !before(
            #[trigger] whole[j],
            #[trigger] whole[i],
        ) by {
            if j == sorted.len() && before(x, sorted[i]) {
                let last = sorted[sorted.len() - 1];
                assert(before(x, last) || before(last, sorted[i]));
                if i < sorted.len() - 1 {
                    assert(!before(last, sorted[i]));
                }
            }
        }
        assert forall|i: int| 0 <= i < whole.len() implies sorted.contains(#[trigger] whole[i])
            || whole[i] == x by {
            if i < sorted.len() {
                assert(whole[i] == sorted[i]);
            }
        }
    }
}

/// Whether every row satisfies a condition.
pub open spec fn all<V>(rows: Seq<V>, ok: spec_fn(V) -> bool) -> bool {
    forall|i: int| 0 <= i < rows.len() ==> ok(#[trigger] rows[i])
}

/// Whether every row stands in a relation to every later one.
pub open spec fn pairwise<V>(rows: Seq<V>, rel: spec_fn(V, V) -> bool) -> bool {
    forall|i: int, j: int| 0 <= i < j < rows.len() ==> rel(#[trigger] rows[i], #[trigger] rows[j])
}

/// A selection holds the rows that satisfy the condition, and no others.
pub proof fn lemma_filter_rows<V>(rows: Seq<V>, wanted: spec_fn(V) -> bool)
    ensures
        all(rows.filter(wanted), |v: V| wanted(v) && rows.contains(v)),
        all(rows, |v: V| wanted(v) ==> rows.filter(wanted).contains(v)),
    decreases rows.len(),
{
    reveal(Seq::filter);
    let sel = rows.filter(wanted);
    if rows.len() > 0 {
        let front = rows.drop_last();
        let kept = front.filter(wanted);
        lemma_filter_rows(front, wanted);
        assert forall|i: int| 0 <= i < sel.len() implies wanted(#[trigger] sel[i])
            && rows.contains(sel[i]) by {
            if i < kept.len() {
                assert(kept[i] == sel[i]);
                assert(front.contains(kept[i]));
                let j = choose|j: int| 0 <= j < front.len() && front[j] == kept[i];
                assert(rows[j] == sel[i]);
            } else {
                assert(rows[rows.len() - 1] == sel[i]);
            }
        }
        assert forall|i: int| 0 <= i < rows.len() && wanted(#[trigger] rows[i]) implies sel.contains(
            rows[i],
        ) by {
            if i < front.len() {
                assert(front[i] == rows[i]);
                assert(kept.contains(front[i]));
                let j = choose|j: int| 0 <= j < kept.len() && kept[j] == front[i];
                assert(sel[j] == rows[i]);
            } else {
                assert(sel[sel.len() - 1] == rows[i]);
            }
        }
    }
}

/// A selection keeps a relation between rows.
pub proof fn lemma_filter_pairwise<V>(
    rows: Seq<V>,
    wanted: spec_fn(V) -> bool,
    rel: spec_fn(V, V) -> bool,
)
    requires
        pairwise(rows, rel),
    ensures
        pairwise(rows.filter(wanted), rel),
    decreases rows.len(),
{
    reveal(Seq::filter);
    if rows.len() > 0 {
        let front = rows.drop_last();
        let kept = front.filter(wanted);
        let sel = rows.filter(wanted);
        assert(pairwise(front, rel)) by {
            assert forall|i: int, j: int| 0 <= i < j < front.len() implies rel(
                #[trigger] front[i],
                #[trigger] front[j],
            ) by {
                assert(rel(rows[i], rows[j]));
            }
        }
        lemma_filter_pairwise(front, wanted, rel);
        lemma_filter_rows(front, wanted);
        assert forall|i: int, j: int| 0 <= i < j < sel.len() implies rel(
            #[trigger] sel[i],
            #[trigger] sel[j],
        ) by {
            assert(sel[i] == kept[i]);
            if j < kept.len() {
                assert(sel[j] == kept[j]);
            } else {
                assert(front.contains(kept[i]));
                let k = choose|k: int| 0 <= k < front.len() && front[k] == kept[i];
                assert(rel(rows[k], rows[rows.len() - 1]));
            }
        }
    }
}

/// A new row at the end keeps a relation that every row has to it.
pub proof fn lemma_push_pairwise<V>(rows: Seq<V>, x: V, rel: spec_fn(V, V) -> bool)
    requires
        pairwise(rows, rel),
        all(rows, |v: V| rel(v, x)),
    ensures
        pairwise(rows.push(x), rel),
{
    let longer = rows.push(x);
    assert forall|i: int, j: int| 0 <= i < j < longer.len() implies rel(
        #[trigger] longer[i],
        #[trigger] longer[j],
    ) by {
        assert(longer[i] == rows[i]);
        if j < rows.len() {
            assert(longer[j] == rows[j]);
        }
    }
}

/// A change of every row keeps a relation that it respects.
pub proof fn lemma_map_pairwise<V>(
    rows: Seq<V>,
    change: spec_fn(V) -> V,
    rel: spec_fn(V, V) -> bool,
)
    requires
        pairwise(rows, rel),
        forall|a: V, b: V| #[trigger] rel(a, b) ==> rel(change(a), change(b)),
    ensures
        pairwise(rows.map_values(change), rel),
{
    let changed = rows.map_values(change);
    assert forall|i: int, j: int| 0 <= i < j < changed.len() implies rel(
        #[trigger] changed[i],
        #[trigger] changed[j],
    ) by {
        assert(rel(rows[i], rows[j]));
    }
}

/// Where no row satisfies a condition there is no first one; where one does,
/// the first one satisfies it and is a row.
pub proof fn lemma_first_match<V>(rows: Seq<V>, wanted: spec_fn(V) -> bool)
    ensures
        first_match(rows, wanted) is Some <==> any(rows, wanted),
        first_match(rows, wanted) matches Some(v) ==> wanted(v) && rows.contains(v),
    decreases rows.len(),
{
    if rows.len() > 0 {
        let rest = rows.drop_first();
        lemma_first_match(rest, wanted);
        if wanted(rows[0]) {
            assert(rows.contains(rows[0]));
        } else {
            if any(rest, wanted) {
                let i = choose|i: int| 0 <= i < rest.len() && wanted(#[trigger] rest[i]);
                assert(wanted(rows[i + 1]));
            }
            if any(rows, wanted) {
                let i = choose|i: int| 0 <= i < rows.len() && wanted(#[trigger] rows[i]);
                assert(wanted(rest[i - 1]));
            }
            if let Some(v) = first_match(rest, wanted) {
                let i = choose|i: int| 0 <= i < rest.len() && rest[i] == v;
                assert(rows[i + 1] == v);
            }
        }
    }
}

/// A row pushed behind rows that do not satisfy a condition is the first one
/// that does.
pub proof fn lemma_first_match_pushed<V>(rows: Seq<V>, x: V, wanted: spec_fn(V) -> bool)
    requires
        !any(rows, wanted),
        wanted(x),
    ensures
        first_match(rows.push(x), wanted) == Some(x),
    decreases rows.len(),
{
    let longer = rows.push(x);
    if rows.len() == 0 {
        assert(longer[0] == x);
    } else {
        assert(!wanted(rows[0]));
        assert(longer[0] == rows[0]);
        let rest = rows.drop_first();
        assert(longer.drop_first() =~= rest.push(x));
        if any(rest, wanted) {
            let i = choose|i: int| 0 <= i < rest.len() && wanted(#[trigger] rest[i]);
            assert(wanted(rows[i + 1]));
        }
        lemma_first_match_pushed(rest, x, wanted);
    }
}

/// A row pushed behind others is no match for a condition that it does not
/// satisfy.
pub proof fn lemma_first_match_unchanged<V>(rows: Seq<V>, x: V, wanted: spec_fn(V) -> bool)
    requires
        !wanted(x),
    ensures
        first_match(rows.push(x), wanted) == first_match(rows, wanted),
    decreases rows.len(),
{
    let longer = rows.push(x);
    if rows.len() == 0 {
        assert(longer[0] == x);
        assert(longer.drop_first() =~= rows);
    } else {
        assert(longer[0] == rows[0]);
        assert(longer.drop_first() =~= rows.drop_first().push(x));
        lemma_first_match_unchanged(rows.drop_first(), x, wanted);
    }
}

/// Rows that are in order already stay as they are when they are sorted.
pub proof fn lemma_ordered_in_place<V>(rows: Seq<V>, before: spec_fn(V, V) -> bool)
    requires
        in_order(rows, before),
    ensures
        ordered(rows, before) == rows,
    decreases rows.len(),
{
    if rows.len() > 0 {
        let front = rows.drop_last();
        assert(in_order(front, before)) by {
            assert forall|i: int, j: int| 0 <= i < j < front.len() implies !before(
                #[trigger] front[j],
                #[trigger] front[i],
            ) by {
                assert(!before(rows[j], rows[i]));
            }
        }
        lemma_ordered_in_place(front, before);
        if front.len() > 0 {
            assert(front.last() == rows[front.len() - 1]);
            assert(!before(rows[rows.len() - 1], rows[front.len() - 1]));
        }
        assert(front.push(rows.last()) =~= rows);
    }
}

// --- What holds of sorting and joining ---

/// Lines written one behind the other are the lines of all rows, joined.
pub(crate) proof fn lemma_joined<V>(
    rows: Seq<V>,
    line: spec_fn(V) -> Seq<char>,
    written: spec_fn(Seq<V>) -> Seq<char>,
)
    requires
        forall|list: Seq<V>| #[trigger]
            written(list) == (if list.len() == 0 {
                Seq::empty()
            } else {
                written(list.drop_last()) + line(list.last())
            }),
    ensures
        written(rows) == rows.map_values(line).flatten(),
    decreases rows.len(),
{
    let lines = rows.map_values(line);
    lines.lemma_flatten_and_flatten_alt_are_equivalent();
    if rows.len() > 0 {
        let front = rows.drop_last();
        lemma_joined(front, line, written);
        assert(lines.drop_last() =~= front.map_values(line));
        front.map_values(line).lemma_flatten_and_flatten_alt_are_equivalent();
        assert(lines.last() == line(rows.last()));
    }
}

proof fn lemma_placed_ties<V>(
    sorted: Seq<V>,
    x: V,
    before: spec_fn(V, V) -> bool,
    tied: spec_fn(V) -> bool,
)
    requires
        forall|a: V, b: V| tied(a) && tied(b) ==> !#[trigger] before(a, b),
    ensures
        placed(sorted, x, before).filter(tied) == sorted.push(x).filter(tied),
    decreases sorted.len(),
{
    reveal(Seq::filter);
    if sorted.len() > 0 && before(x, sorted.last()) {
        let front = sorted.drop_last();
        let last = sorted.last();
        lemma_placed_ties(front, x, before, tied);
        let r = placed(front, x, before);
        assert(r.push(last).drop_last() =~= r);
        assert(sorted.push(x).drop_last() =~= sorted);
        assert(front.push(x).drop_last() =~= front);
        let kept = front.filter(tied);
        assert(!(tied(x) && tied(last)));
        assert(sorted.filter(tied) == if tied(last) {
            kept.push(last)
        } else {
            kept
        });
        assert(front.push(x).filter(tied) == if tied(x) {
            kept.push(x)
        } else {
            kept
        });
        assert(sorted.push(x).filter(tied) == if tied(x) {
            sorted.filter(tied).push(x)
        } else {
            sorted.filter(tied)
        });
        assert(r.push(last).filter(tied) == if tied(last) {
            r.filter(tied).push(last)
        } else {
            r.filter(tied)
        });
    }
}

/// Sorting keeps every row, puts none behind one that it comes before, and leaves rows that
/// the order does not tell apart in their order.
pub proof fn sorting_is_stable<V>(
    rows: Seq<V>,
    before: spec_fn(V, V) -> bool,
    tied: spec_fn(V) -> bool,
)
    requires
        is_strict_order(before),
        forall|a: V, b: V| tied(a) && tied(b) ==> !#[trigger] before(a, b),
    ensures
        ordered(rows, before).to_multiset() == rows.to_multiset(),
        forall|i: int, j: int|
            0 <= i < j < rows.len() ==> !before(
                #[trigger] ordered(rows, before)[j],
                #[trigger] ordered(rows, before)[i],
            ),
        ordered(rows, before).filter(tied) == rows.filter(tied),
    decreases rows.len(),
{
    lemma_ordered_same_rows(rows, before);
    lemma_ordered_in_order(rows, before);
    reveal(Seq::filter);
    if rows.len() > 0 {
        let front = rows.drop_last();
        let sorted = ordered(front, before);
        sorting_is_stable(front, before, tied);
        lemma_placed_ties(sorted, rows.last(), before, tied);
        assert(sorted.push(rows.last()).drop_last() =~= sorted);
        assert(rows =~= front.push(rows.last()));
    }
}

/// The first rows are those at the beginning, the last ones those at the end, as many as
/// asked for or all; the first match is the first row that satisfies the condition.
pub proof fn the_first_and_the_last_rows<V>(
    rows: Seq<V>,
    n: int,
    wanted: spec_fn(V) -> bool,
    i: int,
)
    requires
        0 <= n,
    ensures
        first_n(rows, n).len() == (if n < rows.len() {
            n
        } else {
            rows.len() as int
        }),
        last_n(rows, n).len() == first_n(rows, n).len(),
        0 <= i < first_n(rows, n).len() ==> first_n(rows, n)[i] == rows[i],
        0 <= i < last_n(rows, n).len() ==> last_n(rows, n)[last_n(rows, n).len() - 1 - i]
            == rows[rows.len() - 1 - i],
        first_match(rows, wanted) is None <==> forall|j: int|
            0 <= j < rows.len() ==> !wanted(#[trigger] rows[j]),
        any(rows, wanted) <==> exists|j: int| 0 <= j < rows.len() && wanted(#[trigger] rows[j]),
        0 <= i < rows.len() && wanted(rows[i]) && (forall|j: int|
            0 <= j < i ==> !wanted(#[trigger] rows[j]))
                ==> first_match(rows, wanted) == Some(rows[i]),
    decreases rows.len(),
{
    lemma_first_match(rows, wanted);
    if 0 < i < rows.len() && wanted(rows[i]) && (forall|j: int|
        0 <= j < i ==> !wanted(#[trigger] rows[j])) {
        let tail = rows.drop_first();
        assert(!wanted(rows[0]));
        assert forall|j: int| 0 <= j < i - 1 implies !wanted(#[trigger] tail[j]) by {
            assert(tail[j] == rows[j + 1]);
        }
        assert(tail[i - 1] == rows[i]);
        the_first_and_the_last_rows(tail, n, wanted, i - 1);
    }
}

} // verus!
