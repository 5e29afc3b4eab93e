//! Ordering: keys with a total preorder, a stable merge sort of positions, grouping by key,
//! and moving items into a new order.
use vstd::prelude::*;

verus! {

/// A value that things are ordered by.
pub trait Key: Sized {
    /// The order: reflexive, transitive and total.
    spec fn at_most(&self, other: &Self) -> bool;

    proof fn total(a: &Self, b: &Self)
        ensures
            a.at_most(b) || b.at_most(a),
    ;

    proof fn transitive(a: &Self, b: &Self, c: &Self)
        requires
            a.at_most(b),
            b.at_most(c),
        ensures
            a.at_most(c),
    ;

    fn is_at_most(&self, other: &Self) -> (r: bool)
        ensures
            r == self.at_most(other),
    ;
}

impl Key for i64 {
    open spec fn at_most(&self, other: &Self) -> bool {
        *self <= *other
    }

    proof fn total(a: &Self, b: &Self) {
    }

    proof fn transitive(a: &Self, b: &Self, c: &Self) {
    }

    fn is_at_most(&self, other: &Self) -> (r: bool) {
        *self <= *other
    }
}

impl Key for char {
    open spec fn at_most(&self, other: &Self) -> bool {
        *self <= *other
    }

    proof fn total(a: &Self, b: &Self) {
    }

    proof fn transitive(a: &Self, b: &Self, c: &Self) {
    }

    fn is_at_most(&self, other: &Self) -> (r: bool) {
        *self <= *other
    }
}

/// The pair order: by the first part, and by the second where the first parts tie.
impl<A: Key, B: Key> Key for (A, B) {
    open spec fn at_most(&self, other: &Self) -> bool {
        self.0.at_most(&other.0) && (other.0.at_most(&self.0) ==> self.1.at_most(&other.1))
    }

    proof fn total(a: &Self, b: &Self) {
        A::total(&a.0, &b.0);
        B::total(&a.1, &b.1);
    }

    proof fn transitive(a: &Self, b: &Self, c: &Self) {
        A::transitive(&a.0, &b.0, &c.0);
        if c.0.at_most(&a.0) {
            A::transitive(&b.0, &c.0, &a.0);
            A::transitive(&c.0, &a.0, &b.0);
            B::transitive(&a.1, &b.1, &c.1);
        }
    }

    fn is_at_most(&self, other: &Self) -> (r: bool) {
        self.0.is_at_most(&other.0) && (!other.0.is_at_most(&self.0) || self.1.is_at_most(&other.1))
    }
}

/// The dictionary order on sequences.
pub open spec fn dictionary<A: Key>(a: Seq<A>, b: Seq<A>) -> bool
    decreases a.len(),
{
    if a.len() == 0 {
        true
    } else if b.len() == 0 {
        false
    } else if !b[0].at_most(&a[0]) {
        true
    } else if !a[0].at_most(&b[0]) {
        false
    } else {
        dictionary(a.drop_first(), b.drop_first())
    }
}

proof fn dictionary_total<A: Key>(a: Seq<A>, b: Seq<A>)
    ensures
        dictionary(a, b) || dictionary(b, a),
    decreases a.len(),
{
    if a.len() > 0 && b.len() > 0 {
        A::total(&a[0], &b[0]);
        dictionary_total(a.drop_first(), b.drop_first());
    }
}

proof fn dictionary_transitive<A: Key>(a: Seq<A>, b: Seq<A>, c: Seq<A>)
    requires
        dictionary(a, b),
        dictionary(b, c),
    ensures
        dictionary(a, c),
    decreases a.len(),
{
    if a.len() > 0 && b.len() > 0 && c.len() > 0 {
        A::total(&a[0], &b[0]);
        A::total(&b[0], &c[0]);
        A::total(&a[0], &c[0]);
        if c[0].at_most(&a[0]) {
            if b[0].at_most(&a[0]) && c[0].at_most(&b[0]) {
                dictionary_transitive(a.drop_first(), b.drop_first(), c.drop_first());
                A::transitive(&a[0], &b[0], &c[0]);
            } else if !b[0].at_most(&a[0]) {
                A::transitive(&b[0], &c[0], &a[0]);
            } else {
                A::transitive(&c[0], &a[0], &b[0]);
            }
        }
    }
}

impl<A: Key> Key for Vec<A> {
    open spec fn at_most(&self, other: &Self) -> bool {
        dictionary(self@, other@)
    }

    proof fn total(a: &Self, b: &Self) {
        dictionary_total(a@, b@);
    }

    proof fn transitive(a: &Self, b: &Self, c: &Self) {
        dictionary_transitive(a@, b@, c@);
    }

    fn is_at_most(&self, other: &Self) -> (r: bool) {
        let mut i: usize = 0;
        assert(self@.skip(0) =~= self@);
        assert(other@.skip(0) =~= other@);
        loop
            invariant
                i <= self@.len(),
                i <= other@.len(),
                dictionary(self@, other@) == dictionary(
                    self@.skip(i as int),
                    other@.skip(i as int),
                ),
            decreases self@.len() - i,
        {
            if i == self.len() {
                return true;
            }
            if i == other.len() {
                return false;
            }
            assert(self@.skip(i as int).drop_first() =~= self@.skip(i + 1));
            assert(other@.skip(i as int).drop_first() =~= other@.skip(i + 1));
            if !other[i].is_at_most(&self[i]) {
                return true;
            }
            if !self[i].is_at_most(&other[i]) {
                return false;
            }
            i += 1;
        }
    }
}

/// Two texts that tie in the dictionary order of their characters are the same.
pub proof fn lemma_dictionary_ties(a: Seq<char>, b: Seq<char>)
    requires
        dictionary(a, b),
        dictionary(b, a),
    ensures
        a == b,
    decreases a.len(),
{
    if a.len() == 0 || b.len() == 0 {
        assert(a =~= b);
    } else {
        lemma_dictionary_ties(a.drop_first(), b.drop_first());
        assert(a =~= seq![a[0]] + a.drop_first());
        assert(b =~= seq![b[0]] + b.drop_first());
    }
}

/// Of two texts in two parts, the first parts of one length, the first parts decide where they are
/// different, and the others where they are not.
pub proof fn lemma_dictionary_parts(a: Seq<char>, s: Seq<char>, b: Seq<char>, t: Seq<char>)
    requires
        a.len() == b.len(),
    ensures
        dictionary(a + s, b + t) == (if a == b {
            dictionary(s, t)
        } else {
            dictionary(a, b)
        }),
    decreases a.len(),
{
    if a.len() == 0 {
        assert(a =~= b);
        assert(a + s =~= s);
        assert(b + t =~= t);
    } else {
        lemma_dictionary_parts(a.drop_first(), s, b.drop_first(), t);
        assert((a + s).drop_first() =~= a.drop_first() + s);
        assert((b + t).drop_first() =~= b.drop_first() + t);
        if a[0] == b[0] {
            if a.drop_first() == b.drop_first() {
                assert(a =~= seq![a[0]] + a.drop_first());
                assert(b =~= seq![b[0]] + b.drop_first());
            }
        }
    }
}

pub proof fn lemma_dictionary_reflexive<A: Key>(a: Seq<A>)
    ensures
        dictionary(a, a),
{
    dictionary_total(a, a);
}

pub open spec fn ties<K: Key>(a: K, b: K) -> bool {
    a.at_most(&b) && b.at_most(&a)
}

/// Position `i` comes before position `j`: its key is smaller, or the keys tie and it is the
/// earlier position.
pub open spec fn precedes<K: Key>(keys: Seq<K>, i: int, j: int) -> bool {
    keys[i].at_most(&keys[j]) && (keys[j].at_most(&keys[i]) ==> i < j)
}

proof fn precedes_transitive<K: Key>(keys: Seq<K>, i: int, j: int, k: int)
    requires
        precedes(keys, i, j),
        precedes(keys, j, k),
    ensures
        precedes(keys, i, k),
{
    K::transitive(&keys[i], &keys[j], &keys[k]);
    if keys[k].at_most(&keys[i]) {
        K::transitive(&keys[j], &keys[k], &keys[i]);
        K::transitive(&keys[k], &keys[i], &keys[j]);
    }
}

pub open spec fn ordered<K: Key>(keys: Seq<K>, order: Seq<usize>) -> bool {
    forall|a: int, b: int|
        0 <= a < b < order.len() ==> precedes(keys, #[trigger] order[a] as int, #[trigger] order[b] as int)
}

/// `order` holds each position from `lo` up to `hi` once.
pub open spec fn covers(order: Seq<usize>, lo: int, hi: int) -> bool {
    &&& order.len() == hi - lo
    &&& forall|a: int| 0 <= a < order.len() ==> lo <= #[trigger] order[a] < hi
    &&& forall|i: int| lo <= i < hi ==> #[trigger] order.contains(i as usize)
}

/// `order` lists all positions of `keys`, from the smallest key up, ties in their first order.
pub open spec fn is_stable_order<K: Key>(keys: Seq<K>, order: Seq<usize>) -> bool {
    covers(order, 0, keys.len() as int) && ordered(keys, order)
}

fn merge<K: Key>(
    keys: &Vec<K>,
    left: Vec<usize>,
    right: Vec<usize>,
    Ghost(lo): Ghost<int>,
    Ghost(mid): Ghost<int>,
    Ghost(hi): Ghost<int>,
) -> (r: Vec<usize>)
    requires
        0 <= lo <= mid <= hi <= keys@.len(),
        hi <= usize::MAX,
        covers(left@, lo, mid),
        covers(right@, mid, hi),
        ordered(keys@, left@),
        ordered(keys@, right@),
    ensures
        covers(r@, lo, hi),
        ordered(keys@, r@),
{
    let mut out: Vec<usize> = Vec::new();
    let mut i: usize = 0;
    let mut j: usize = 0;
    while i < left.len() || j < right.len()
        invariant
            0 <= lo <= mid <= hi <= keys@.len(),
            hi <= usize::MAX,
            covers(left@, lo, mid),
            covers(right@, mid, hi),
            ordered(keys@, left@),
            ordered(keys@, right@),
            i <= left@.len(),
            j <= right@.len(),
            out@.len() == i + j,
            ordered(keys@, out@),
            forall|a: int| 0 <= a < out@.len() ==> lo <= #[trigger] out@[a] < hi,
            forall|a: int, k: int|
                0 <= a < out@.len() && i <= k < left@.len() ==> precedes(
                    keys@,
                    #[trigger] out@[a] as int,
                    #[trigger] left@[k] as int,
                ),
            forall|a: int, k: int|
                0 <= a < out@.len() && j <= k < right@.len() ==> precedes(
                    keys@,
                    #[trigger] out@[a] as int,
                    #[trigger] right@[k] as int,
                ),
            forall|k: int| 0 <= k < i ==> out@.contains(#[trigger] left@[k]),
            forall|k: int| 0 <= k < j ==> out@.contains(#[trigger] right@[k]),
        decreases left@.len() - i + right@.len() - j,
    {
        let ghost before = out@;
        let take_left = if i < left.len() {
            if j < right.len() {
                let l: usize = left[i];
                let m: usize = right[j];
                keys[l].is_at_most(&keys[m])
            } else {
                true
            }
        } else {
            false
        };
        if take_left {
            let x: usize = left[i];
            proof {
                assert forall|k: int| j <= k < right@.len() implies precedes(
                    keys@,
                    x as int,
                    #[trigger] right@[k] as int,
                ) by {
                    assert(precedes(keys@, x as int, right@[j as int] as int));
                    if k > j {
                        precedes_transitive(
                            keys@,
                            x as int,
                            right@[j as int] as int,
                            right@[k] as int,
                        );
                    }
                }
            }
            out.push(x);
            i += 1;
        } else {
            let x: usize = right[j];
            proof {
                assert forall|k: int| i <= k < left@.len() implies precedes(
                    keys@,
                    x as int,
                    #[trigger] left@[k] as int,
                ) by {
                    K::total(&keys@[x as int], &keys@[left@[i as int] as int]);
                    assert(precedes(keys@, x as int, left@[i as int] as int));
                    if k > i {
                        precedes_transitive(
                            keys@,
                            x as int,
                            left@[i as int] as int,
                            left@[k] as int,
                        );
                    }
                }
            }
            out.push(x);
            j += 1;
        }
        proof {
            assert(out@.last() == out@[out@.len() - 1]);
            assert forall|k: int| 0 <= k < i implies out@.contains(#[trigger] left@[k]) by {
                if before.contains(left@[k]) {
                    let a = choose|a: int| 0 <= a < before.len() && before[a] == left@[k];
                    assert(out@[a] == left@[k]);
                } else {
                    assert(out@[out@.len() - 1] == left@[k]);
                }
            }
            assert forall|k: int| 0 <= k < j implies out@.contains(#[trigger] right@[k]) by {
                if before.contains(right@[k]) {
                    let a = choose|a: int| 0 <= a < before.len() && before[a] == right@[k];
                    assert(out@[a] == right@[k]);
                } else {
                    assert(out@[out@.len() - 1] == right@[k]);
                }
            }
        }
    }
    proof {
        assert forall|p: int| lo <= p < hi implies #[trigger] out@.contains(p as usize) by {
            if p < mid {
                assert(left@.contains(p as usize));
                let k = choose|k: int| 0 <= k < left@.len() && left@[k] == p as usize;
                assert(out@.contains(left@[k]));
            } else {
                assert(right@.contains(p as usize));
                let k = choose|k: int| 0 <= k < right@.len() && right@[k] == p as usize;
                assert(out@.contains(right@[k]));
            }
        }
    }
    out
}

fn sort_range<K: Key>(keys: &Vec<K>, lo: usize, hi: usize) -> (r: Vec<usize>)
    requires
        lo <= hi <= keys@.len(),
    ensures
        covers(r@, lo as int, hi as int),
        ordered(keys@, r@),
    decreases hi - lo,
{
    let n: usize = hi - lo;
    if n == 0 {
        Vec::new()
    } else if n == 1 {
        let mut r: Vec<usize> = Vec::new();
        r.push(lo);
        assert(r@[0] == lo);
        assert forall|i: int| lo <= i < hi implies #[trigger] r@.contains(i as usize) by {
            assert(r@[0] == i as usize);
        }
        r
    } else {
        let mid: usize = lo + n / 2;
        let left = sort_range(keys, lo, mid);
        let right = sort_range(keys, mid, hi);
        merge(keys, left, right, Ghost(lo as int), Ghost(mid as int), Ghost(hi as int))
    }
}

/// The positions of `keys` from the smallest key up; ties keep their order.
pub fn sort_order<K: Key>(keys: &Vec<K>) -> (r: Vec<usize>)
    ensures
        is_stable_order(keys@, r@),
{
    sort_range(keys, 0, keys.len())
}

/// A stable order holds no position twice.
pub proof fn lemma_order_is_distinct<K: Key>(keys: Seq<K>, order: Seq<usize>)
    requires
        is_stable_order(keys, order),
    ensures
        forall|a: int, b: int|
            0 <= a < b < order.len() ==> #[trigger] order[a] != #[trigger] order[b],
        forall|a: int| 0 <= a < order.len() ==> #[trigger] order[a] < keys.len(),
{
    assert forall|a: int, b: int| 0 <= a < b < order.len() implies #[trigger] order[a]
        != #[trigger] order[b] by {
        assert(precedes(keys, order[a] as int, order[b] as int));
        if order[a] == order[b] {
            K::total(&keys[order[a] as int], &keys[order[a] as int]);
        }
    }
}

/// There is one stable order only: of two that agree up to a position, the next is the same.
proof fn lemma_orders_agree<K: Key>(keys: Seq<K>, left: Seq<usize>, right: Seq<usize>, n: int)
    requires
        is_stable_order(keys, left),
        is_stable_order(keys, right),
        0 <= n <= left.len(),
        left.len() == right.len(),
    ensures
        forall|k: int| 0 <= k < n ==> #[trigger] left[k] == right[k],
    decreases n,
{
    if n > 0 {
        lemma_orders_agree(keys, left, right, n - 1);
        lemma_order_is_distinct(keys, left);
        lemma_order_is_distinct(keys, right);
        let x = left[n - 1];
        let y = right[n - 1];
        if x != y {
            let from = x as int;
            assert(right.contains(from as usize));
            let a = choose|a: int| 0 <= a < right.len() && right[a] == x;
            assert(a > n - 1) by {
                if a < n - 1 {
                    assert(left[a] == right[a]);
                }
            }
            let other = y as int;
            assert(left.contains(other as usize));
            let b = choose|b: int| 0 <= b < left.len() && left[b] == y;
            assert(b > n - 1) by {
                if b < n - 1 {
                    assert(left[b] == right[b]);
                }
            }
            assert(precedes(keys, right[n - 1] as int, right[a] as int));
            assert(precedes(keys, left[n - 1] as int, left[b] as int));
        }
    }
}

/// There is one stable order only.
pub proof fn lemma_one_stable_order<K: Key>(keys: Seq<K>, left: Seq<usize>, right: Seq<usize>)
    requires
        is_stable_order(keys, left),
        is_stable_order(keys, right),
    ensures
        left == right,
{
    lemma_orders_agree(keys, left, right, left.len() as int);
    assert(left =~= right);
}

/// The positions of `keys` grouped by key: each group lists, in order, all positions whose keys
/// tie, and the groups stand in the order of their keys.
pub open spec fn is_grouping<K: Key>(keys: Seq<K>, groups: Seq<Vec<usize>>) -> bool {
    &&& forall|g: int| 0 <= g < groups.len() ==> (#[trigger] groups[g])@.len() > 0
    &&& forall|g: int, a: int|
        0 <= g < groups.len() && 0 <= a < groups[g]@.len() ==> {
            &&& 0 <= #[trigger] groups[g]@[a] < keys.len()
            &&& ties(keys[groups[g]@[a] as int], keys[groups[g]@[0] as int])
        }
    &&& forall|g: int, a: int, b: int|
        0 <= g < groups.len() && 0 <= a < b < groups[g]@.len() ==> (#[trigger] groups[g]@[a])
            < #[trigger] groups[g]@[b]
    &&& forall|g: int, h: int|
        0 <= g < h < groups.len() ==> !keys[(#[trigger] groups[h])@[0] as int].at_most(
            &keys[(#[trigger] groups[g])@[0] as int],
        )
    &&& forall|i: int| 0 <= i < keys.len() ==> #[trigger] in_some_group(groups, i)
}

pub open spec fn in_group(groups: Seq<Vec<usize>>, g: int, i: int) -> bool {
    0 <= g < groups.len() && groups[g]@.contains(i as usize)
}

pub open spec fn in_some_group(groups: Seq<Vec<usize>>, i: int) -> bool {
    exists|g: int| #[trigger] in_group(groups, g, i)
}

/// A position whose key ties with that of a group stands in the group.
pub proof fn lemma_group_holds_ties<K: Key>(keys: Seq<K>, groups: Seq<Vec<usize>>, g: int, i: int)
    requires
        is_grouping(keys, groups),
        keys.len() <= usize::MAX,
        0 <= g < groups.len(),
        0 <= i < keys.len(),
        ties(keys[i], keys[groups[g]@[0] as int]),
    ensures
        groups[g]@.contains(i as usize),
{
    assert(in_some_group(groups, i));
    let h = choose|h: int| #[trigger] in_group(groups, h, i);
    assert(in_group(groups, h, i));
    let a = choose|a: int| 0 <= a < groups[h]@.len() && groups[h]@[a] == i as usize;
    assert(ties(keys[groups[h]@[a] as int], keys[groups[h]@[0] as int]));
    let kg = keys[groups[g]@[0] as int];
    let kh = keys[groups[h]@[0] as int];
    K::transitive(&kg, &keys[i], &kh);
    K::transitive(&kh, &keys[i], &kg);
}

/// A rising list of positions below `n` that holds all of them lists each at its own place.
pub proof fn lemma_rising_and_full(members: Seq<usize>, n: int)
    requires
        0 <= n <= usize::MAX,
        forall|a: int| 0 <= a < members.len() ==> #[trigger] members[a] < n,
        forall|a: int, b: int|
            0 <= a < b < members.len() ==> #[trigger] members[a] < #[trigger] members[b],
        forall|i: int| 0 <= i < n ==> members.contains(#[trigger] (i as usize)),
    ensures
        members.len() == n,
        forall|a: int| 0 <= a < n ==> #[trigger] members[a] == a,
{
    lemma_rising(members, members.len() as int);
    lemma_full(members, n, n);
    if members.len() > n {
        assert(members[n] < n);
    }
}

proof fn lemma_rising(members: Seq<usize>, upto: int)
    requires
        0 <= upto <= members.len(),
        forall|a: int, b: int|
            0 <= a < b < members.len() ==> #[trigger] members[a] < #[trigger] members[b],
    ensures
        forall|a: int| 0 <= a < upto ==> #[trigger] members[a] >= a,
    decreases upto,
{
    if upto > 0 {
        lemma_rising(members, upto - 1);
        if upto > 1 {
            assert(members[upto - 2] < members[upto - 1]);
        }
    }
}

proof fn lemma_full(members: Seq<usize>, n: int, upto: int)
    requires
        0 <= upto <= n <= usize::MAX,
        forall|a: int| 0 <= a < members.len() ==> #[trigger] members[a] >= a,
        forall|i: int| 0 <= i < n ==> members.contains(#[trigger] (i as usize)),
    ensures
        upto <= members.len(),
        forall|a: int| 0 <= a < upto ==> #[trigger] members[a] == a,
    decreases upto,
{
    if upto > 0 {
        lemma_full(members, n, upto - 1);
        assert(members.contains((upto - 1) as usize));
        let a = choose|a: int| 0 <= a < members.len() && members[a] == (upto - 1) as usize;
        assert(members[a] >= a);
    }
}

/// Groups the positions of `keys` by key.
pub fn group<K: Key>(keys: &Vec<K>) -> (r: Vec<Vec<usize>>)
    ensures
        is_grouping(keys@, r@),
{
    let order = sort_order(keys);
    let mut groups: Vec<Vec<usize>> = Vec::new();
    let mut current: Vec<usize> = Vec::new();
    let mut i: usize = 0;
    let n: usize = order.len();
    while i < n
        invariant
            n == order@.len(),
            is_stable_order(keys@, order@),
            i <= n,
            current@.len() == 0 <==> i == 0,
            i == 0 ==> groups@.len() == 0,
            i > 0 ==> current@.len() > 0 && current@.last() == order@[i - 1],
            forall|a: int|
                0 <= a < current@.len() ==> {
                    &&& 0 <= #[trigger] current@[a] < keys@.len()
                    &&& ties(keys@[current@[a] as int], keys@[current@[0] as int])
                },
            forall|a: int, b: int|
                0 <= a < b < current@.len() ==> (#[trigger] current@[a]) < #[trigger] current@[b],
            forall|g: int| 0 <= g < groups@.len() ==> (#[trigger] groups@[g])@.len() > 0,
            forall|g: int, a: int|
                0 <= g < groups@.len() && 0 <= a < groups@[g]@.len() ==> {
                    &&& 0 <= #[trigger] groups@[g]@[a] < keys@.len()
                    &&& ties(keys@[groups@[g]@[a] as int], keys@[groups@[g]@[0] as int])
                },
            forall|g: int, a: int, b: int|
                0 <= g < groups@.len() && 0 <= a < b < groups@[g]@.len() ==> (#[trigger] groups@[g]@[a])
                    < #[trigger] groups@[g]@[b],
            forall|g: int, h: int|
                0 <= g < h < groups@.len() ==> !keys@[(#[trigger] groups@[h])@[0] as int].at_most(
                    &keys@[(#[trigger] groups@[g])@[0] as int],
                ),
            forall|g: int|
                0 <= g < groups@.len() ==> !keys@[current@[0] as int].at_most(
                    &keys@[(#[trigger] groups@[g])@[0] as int],
                ),
            forall|p: int|
                0 <= p < i ==> current@.contains(#[trigger] order@[p]) || exists|g: int|
                    #[trigger] in_group(groups@, g, order@[p] as int),
        decreases n - i,
    {
        let x: usize = order[i];
        let ghost old_groups = groups@;
        let ghost old_current = current@;
        proof {
            if i > 0 {
                assert(precedes(keys@, order@[i - 1] as int, order@[i as int] as int));
            } else {
                K::total(&keys@[x as int], &keys@[x as int]);
            }
        }
        if i > 0 {
            let first: usize = current[0];
            if keys[x].is_at_most(&keys[first]) {
                proof {
                    let y = order@[i - 1] as int;
                    assert(old_current[old_current.len() - 1] == y);
                    assert(ties(keys@[y], keys@[first as int]));
                    K::transitive(&keys@[first as int], &keys@[y], &keys@[x as int]);
                    K::transitive(&keys@[x as int], &keys@[first as int], &keys@[y]);
                    assert(y < x);
                }
                current.push(x);
                proof {
                    assert forall|p: int| 0 <= p < i + 1 implies current@.contains(
                        #[trigger] order@[p],
                    ) || exists|g: int| #[trigger] in_group(groups@, g, order@[p] as int) by {
                        if p == i {
                            assert(current@[current@.len() - 1] == order@[p]);
                        } else if old_current.contains(order@[p]) {
                            let a = choose|a: int|
                                0 <= a < old_current.len() && old_current[a] == order@[p];
                            assert(current@[a] == order@[p]);
                        }
                    }
                }
            } else {
                let mut fresh: Vec<usize> = Vec::new();
                fresh.push(x);
                proof {
                    let y = order@[i - 1] as int;
                    assert(old_current[old_current.len() - 1] == y);
                    assert(ties(keys@[y], keys@[first as int]));
                    K::total(&keys@[x as int], &keys@[x as int]);
                    assert forall|g: int| 0 <= g < old_groups.len() implies !keys@[x as int].at_most(
                        &keys@[(#[trigger] old_groups[g])@[0] as int],
                    ) by {
                        let f = old_groups[g]@[0] as int;
                        if keys@[x as int].at_most(&keys@[f]) {
                            K::transitive(&keys@[first as int], &keys@[y], &keys@[x as int]);
                            K::transitive(&keys@[first as int], &keys@[x as int], &keys@[f]);
                        }
                    }
                }
                groups.push(current);
                current = fresh;
                proof {
                    let last = old_groups.len() as int;
                    assert(groups@[last]@ == old_current);
                    assert(current@[0] == x);
                    assert forall|p: int| 0 <= p < i + 1 implies current@.contains(
                        #[trigger] order@[p],
                    ) || exists|g: int| #[trigger] in_group(groups@, g, order@[p] as int) by {
                        if p == i {
                            assert(current@[0] == order@[p]);
                        } else if old_current.contains(order@[p]) {
                            assert(in_group(groups@, last, order@[p] as int));
                        } else {
                            let g = choose|g: int|
                                #[trigger] in_group(old_groups, g, order@[p] as int);
                            assert(in_group(old_groups, g, order@[p] as int));
                            assert(groups@[g] == old_groups[g]);
                            assert(in_group(groups@, g, order@[p] as int));
                        }
                    }
                }
            }
        } else {
            current.push(x);
            assert(current@[0] == order@[0]);
        }
        i += 1;
    }
    if n > 0 {
        let ghost old_groups = groups@;
        let ghost old_current = current@;
        groups.push(current);
        proof {
            let last = old_groups.len() as int;
            assert(groups@[last]@ == old_current);
            assert forall|q: int| 0 <= q < keys@.len() implies #[trigger] in_some_group(
                groups@,
                q,
            ) by {
                assert(order@.contains(q as usize));
                let p = choose|p: int| 0 <= p < order@.len() && order@[p] == q as usize;
                if old_current.contains(order@[p]) {
                    assert(in_group(groups@, last, q));
                } else {
                    let g = choose|g: int| #[trigger] in_group(old_groups, g, order@[p] as int);
                    assert(in_group(old_groups, g, order@[p] as int));
                    assert(groups@[g] == old_groups[g]);
                    assert(in_group(groups@, g, q));
                }
            }
        }
    }
    groups
}

/// The items at these positions, in this order.
pub open spec fn picked<T>(items: Seq<T>, order: Seq<usize>) -> Seq<T> {
    Seq::new(order.len(), |i: int| items[order[i] as int])
}

/// Moves the items at these positions out into the given order.
pub fn pick<T>(items: Vec<T>, order: &Vec<usize>) -> (r: Vec<T>)
    requires
        forall|a: int| 0 <= a < order@.len() ==> #[trigger] order@[a] < items@.len(),
        forall|a: int, b: int|
            0 <= a < b < order@.len() ==> #[trigger] order@[a] != #[trigger] order@[b],
    ensures
        r@ == picked(items@, order@),
{
    let ghost all = items@;
    let mut slots: Vec<Option<T>> = Vec::new();
    let mut rest = items;
    let n: usize = rest.len();
    let mut i: usize = 0;
    while i < n
        invariant
            i <= n,
            n == all.len(),
            rest@ == all.take(n - i),
            slots@.len() == i,
            forall|k: int| 0 <= k < i ==> #[trigger] slots@[k] == Some(all[n - 1 - k]),
        decreases n - i,
    {
        let last = rest.pop();
        assert(last == Some(all[n - 1 - i]));
        slots.push(last);
        i += 1;
        assert(rest@ =~= all.take(n - i));
    }
    let mut out: Vec<T> = Vec::new();
    let mut j: usize = 0;
    while j < order.len()
        invariant
            j <= order@.len(),
            n == all.len(),
            slots@.len() == n,
            forall|a: int| 0 <= a < order@.len() ==> #[trigger] order@[a] < n,
            forall|a: int, b: int|
                0 <= a < b < order@.len() ==> #[trigger] order@[a] != #[trigger] order@[b],
            out@ == picked(all, order@).take(j as int),
            forall|a: int|
                j <= a < order@.len() ==> slots@[n - 1 - #[trigger] order@[a]] == Some(
                    all[order@[a] as int],
                ),
        decreases order@.len() - j,
    {
        let from: usize = order[j];
        assert(order@[j as int] < n);
        let at: usize = n - 1 - from;
        let mut slot: Option<T> = None;
        std::mem::swap(&mut slot, &mut slots[at]);
        match slot {
            Some(item) => {
                out.push(item);
            },
            None => {
                assert(false);
            },
        }
        j += 1;
        assert(out@ =~= picked(all, order@).take(j as int));
    }
    assert(picked(all, order@).take(order@.len() as int) =~= picked(all, order@));
    out
}

/// A position stands in one group only, and there at one place only.
pub proof fn lemma_groups_are_disjoint<K: Key>(
    keys: Seq<K>,
    groups: Seq<Vec<usize>>,
    g: int,
    a: int,
    h: int,
    b: int,
)
    requires
        is_grouping(keys, groups),
        0 <= g < groups.len(),
        0 <= a < groups[g]@.len(),
        0 <= h < groups.len(),
        0 <= b < groups[h]@.len(),
        groups[g]@[a] == groups[h]@[b],
    ensures
        g == h,
        a == b,
{
    let key = keys[groups[g]@[a] as int];
    let left = keys[groups[g]@[0] as int];
    let right = keys[groups[h]@[0] as int];
    assert(ties(key, left));
    assert(ties(keys[groups[h]@[b] as int], right));
    K::transitive(&left, &key, &right);
    K::transitive(&right, &key, &left);
    if g < h {
        assert(!right.at_most(&left));
    } else if h < g {
        assert(!left.at_most(&right));
    } else if a < b {
        assert(groups[g]@[a] < groups[g]@[b]);
    } else if b < a {
        assert(groups[g]@[b] < groups[g]@[a]);
    }
}

/// Moves the items out into their groups.
pub fn pick_groups<K: Key, T>(
    items: Vec<T>,
    groups: &Vec<Vec<usize>>,
    keys: &Vec<K>,
) -> (r: Vec<Vec<T>>)
    requires
        is_grouping(keys@, groups@),
        keys@.len() == items@.len(),
    ensures
        r@.len() == groups@.len(),
        forall|g: int|
            0 <= g < groups@.len() ==> (#[trigger] r@[g])@ == picked(items@, groups@[g]@),
{
    let ghost all = items@;
    let mut slots: Vec<Option<T>> = Vec::new();
    let mut rest = items;
    let n: usize = rest.len();
    let mut i: usize = 0;
    while i < n
        invariant
            i <= n,
            n == all.len(),
            rest@ == all.take(n - i),
            slots@.len() == i,
            forall|k: int| 0 <= k < i ==> #[trigger] slots@[k] == Some(all[n - 1 - k]),
        decreases n - i,
    {
        let last = rest.pop();
        assert(last == Some(all[n - 1 - i]));
        slots.push(last);
        i += 1;
        assert(rest@ =~= all.take(n - i));
    }
    let mut out: Vec<Vec<T>> = Vec::new();
    let mut g: usize = 0;
    while g < groups.len()
        invariant
            g <= groups@.len(),
            n == all.len() == keys@.len(),
            slots@.len() == n,
            is_grouping(keys@, groups@),
            out@.len() == g,
            forall|h: int| 0 <= h < g ==> (#[trigger] out@[h])@ == picked(all, groups@[h]@),
            forall|h: int, a: int|
                g <= h < groups@.len() && 0 <= a < groups@[h]@.len() ==> slots@[n - 1
                    - #[trigger] groups@[h]@[a]] == Some(all[groups@[h]@[a] as int]),
        decreases groups@.len() - g,
    {
        let members = &groups[g];
        let mut part: Vec<T> = Vec::new();
        let mut j: usize = 0;
        while j < members.len()
            invariant
                g < groups@.len(),
                *members == groups@[g as int],
                j <= members@.len(),
                n == all.len() == keys@.len(),
                slots@.len() == n,
                is_grouping(keys@, groups@),
                part@ == picked(all, members@).take(j as int),
                forall|h: int, a: int|
                    0 <= a < groups@[h]@.len() && (g < h < groups@.len() || (h == g && j <= a))
                        ==> slots@[n - 1 - #[trigger] groups@[h]@[a]] == Some(
                        all[groups@[h]@[a] as int],
                    ),
            decreases members@.len() - j,
        {
            assert(0 <= groups@[g as int]@[j as int] < keys@.len());
            let from: usize = members[j];
            let at: usize = n - 1 - from;
            let mut slot: Option<T> = None;
            assert(slots@[n - 1 - groups@[g as int]@[j as int]] == Some(all[from as int]));
            std::mem::swap(&mut slot, &mut slots[at]);
            match slot {
                Some(item) => {
                    part.push(item);
                },
                None => {
                    assert(false);
                },
            }
            proof {
                assert forall|h: int, a: int|
                    0 <= a < groups@[h]@.len() && (g < h < groups@.len() || (h == g && j + 1 <= a)) implies slots@[n
                    - 1 - #[trigger] groups@[h]@[a]] == Some(all[groups@[h]@[a] as int]) by {
                    assert(0 <= groups@[h]@[a] < keys@.len());
                    if groups@[h]@[a] == from {
                        lemma_groups_are_disjoint(keys@, groups@, g as int, j as int, h, a);
                    }
                }
            }
            j += 1;
            assert(part@ =~= picked(all, members@).take(j as int));
        }
        assert(picked(all, members@).take(members@.len() as int) =~= picked(all, members@));
        out.push(part);
        g += 1;
    }
    out
}

} // verus!
