//! The stable sort of a branch snapshot by commit time.
//!
//! `stable_sorted` is the mathematical statement of what sorting returns:
//! each branch is inserted, in enumeration order, after every branch already
//! placed whose time is not larger. [`sort_branches`] computes exactly that
//! sequence. The public lemmas state the laws of the sort: the result is
//! sorted non-decreasing by time, it is a permutation of the snapshot,
//! branches of equal time keep their relative order, and the number of head
//! flags is unchanged.

use vstd::prelude::*;
use crate::git::Branch;

verus! {

/// The snapshot is sorted non-decreasing by commit time.
pub open spec fn sorted_by_time(s: Seq<Branch>) -> bool {
    forall|i: int, j: int| 0 <= i <= j < s.len() ==> #[trigger] s[i].time <= #[trigger] s[j].time
}

/// Where `b` comes to stand in `s`: the first position whose time exceeds
/// `b.time`, so that `b` lands after every branch of equal time.
pub open spec fn insert_pos(b: Branch, s: Seq<Branch>) -> int
    decreases s.len(),
{
    if s.len() == 0 {
        0
    } else if b.time < s[0].time {
        0
    } else {
        1 + insert_pos(b, s.drop_first())
    }
}

/// `s` with `b` inserted at `insert_pos(b, s)`.
pub open spec fn insert_by_time(b: Branch, s: Seq<Branch>) -> Seq<Branch>
    decreases s.len(),
{
    if s.len() == 0 {
        seq![b]
    } else if b.time < s[0].time {
        seq![b] + s
    } else {
        seq![s[0]] + insert_by_time(b, s.drop_first())
    }
}

/// The stable sort of `s` by time: the branches inserted one after another,
/// in enumeration order, each after its equals.
pub open spec fn stable_sorted(s: Seq<Branch>) -> Seq<Branch>
    decreases s.len(),
{
    if s.len() == 0 {
        Seq::empty()
    } else {
        insert_by_time(s.last(), stable_sorted(s.drop_last()))
    }
}

/// The branches of `s` whose commit time is `t`, in their order in `s`.
pub open spec fn with_time(s: Seq<Branch>, t: i64) -> Seq<Branch>
    decreases s.len(),
{
    if s.len() == 0 {
        Seq::empty()
    } else if s[0].time == t {
        seq![s[0]] + with_time(s.drop_first(), t)
    } else {
        with_time(s.drop_first(), t)
    }
}

/// How many branches of `s` carry the head flag.
pub open spec fn head_count(s: Seq<Branch>) -> nat
    decreases s.len(),
{
    if s.len() == 0 {
        0
    } else {
        (if s[0].is_head { 1nat } else { 0nat }) + head_count(s.drop_first())
    }
}

/// At most one branch of the snapshot carries the head flag.
pub open spec fn at_most_one_head(s: Seq<Branch>) -> bool {
    head_count(s) <= 1
}

proof fn lemma_insert_pos_properties(b: Branch, s: Seq<Branch>)
    ensures
        0 <= insert_pos(b, s) <= s.len(),
        forall|j: int| 0 <= j < insert_pos(b, s) ==> #[trigger] s[j].time <= b.time,
        insert_pos(b, s) < s.len() ==> b.time < s[insert_pos(b, s)].time,
        insert_by_time(b, s) == s.insert(insert_pos(b, s), b),
    decreases s.len(),
{
    if s.len() == 0 {
        assert(insert_by_time(b, s) =~= s.insert(0, b));
    } else if b.time < s[0].time {
        assert(insert_by_time(b, s) =~= s.insert(0, b));
    } else {
        let rest = s.drop_first();
        lemma_insert_pos_properties(b, rest);
        let p = insert_pos(b, rest);
        assert(forall|j: int| 1 <= j < 1 + p ==> #[trigger] s[j].time == rest[j - 1].time);
        assert(insert_by_time(b, s) =~= s.insert(1 + p, b)) by {
            assert(insert_by_time(b, s) == seq![s[0]] + rest.insert(p, b));
        }
    }
}

proof fn lemma_insert_at_sorted(b: Branch, s: Seq<Branch>, pos: int)
    requires
        sorted_by_time(s),
        0 <= pos <= s.len(),
        forall|j: int| 0 <= j < pos ==> #[trigger] s[j].time <= b.time,
        pos < s.len() ==> b.time < s[pos].time,
    ensures
        sorted_by_time(s.insert(pos, b)),
{
    let r = s.insert(pos, b);
    assert forall|i: int, j: int| 0 <= i <= j < r.len() implies #[trigger] r[i].time
        <= #[trigger] r[j].time by {
        assert(forall|k: int| 0 <= k < pos ==> r[k] == s[k]);
        assert(r[pos] == b);
        assert(forall|k: int| pos < k < r.len() ==> r[k] == s[k - 1]);
    }
}

proof fn lemma_with_time_none(s: Seq<Branch>, t: i64)
    requires
        forall|i: int| 0 <= i < s.len() ==> #[trigger] s[i].time != t,
    ensures
        with_time(s, t) == Seq::<Branch>::empty(),
    decreases s.len(),
{
    if s.len() > 0 {
        lemma_with_time_none(s.drop_first(), t);
    }
}

proof fn lemma_with_time_push(s: Seq<Branch>, x: Branch, t: i64)
    ensures
        with_time(s.push(x), t) == if x.time == t {
            with_time(s, t).push(x)
        } else {
            with_time(s, t)
        },
    decreases s.len(),
{
    if s.len() == 0 {
        assert(s.push(x)[0] == x);
        assert(s.push(x).drop_first() =~= Seq::<Branch>::empty());
        assert(with_time(Seq::<Branch>::empty(), t) == Seq::<Branch>::empty());
        if x.time == t {
            assert(with_time(s.push(x), t) == seq![x] + Seq::<Branch>::empty());
            assert(seq![x] + Seq::<Branch>::empty() =~= with_time(s, t).push(x));
        }
    } else {
        assert(s.push(x)[0] == s[0]);
        assert(s.push(x).drop_first() =~= s.drop_first().push(x));
        lemma_with_time_push(s.drop_first(), x, t);
        if s[0].time == t {
            if x.time == t {
                assert(seq![s[0]] + with_time(s.drop_first(), t).push(x) =~= (seq![s[0]]
                    + with_time(s.drop_first(), t)).push(x));
            }
        }
    }
}

proof fn lemma_head_count_push(s: Seq<Branch>, x: Branch)
    ensures
        head_count(s.push(x)) == head_count(s) + (if x.is_head { 1nat } else { 0nat }),
    decreases s.len(),
{
    if s.len() == 0 {
        assert(s.push(x)[0] == x);
        assert(s.push(x).drop_first() =~= Seq::<Branch>::empty());
        assert(head_count(Seq::<Branch>::empty()) == 0);
    } else {
        assert(s.push(x)[0] == s[0]);
        assert(s.push(x).drop_first() =~= s.drop_first().push(x));
        lemma_head_count_push(s.drop_first(), x);
    }
}

proof fn lemma_insert_with_time(b: Branch, s: Seq<Branch>, t: i64)
    requires
        sorted_by_time(s),
    ensures
        with_time(insert_by_time(b, s), t) == if b.time == t {
            with_time(s, t).push(b)
        } else {
            with_time(s, t)
        },
    decreases s.len(),
{
    if s.len() == 0 {
        assert(seq![b][0] == b);
        assert(seq![b].drop_first() =~= Seq::<Branch>::empty());
        assert(with_time(Seq::<Branch>::empty(), t) == Seq::<Branch>::empty());
        if b.time == t {
            assert(with_time(seq![b], t) == seq![b] + Seq::<Branch>::empty());
            assert(seq![b] + Seq::<Branch>::empty() =~= with_time(s, t).push(b));
        }
    } else if b.time < s[0].time {
        let r = seq![b] + s;
        assert(r[0] == b);
        assert(r.drop_first() =~= s);
        if b.time == t {
            // every branch of `s` has a strictly larger time than `b`
            assert(forall|i: int| 0 <= i < s.len() ==> #[trigger] s[i].time != t);
            lemma_with_time_none(s, t);
            assert(with_time(r, t) == seq![b] + Seq::<Branch>::empty());
            assert(seq![b] + Seq::<Branch>::empty() =~= with_time(s, t).push(b));
        }
    } else {
        let rest = s.drop_first();
        let r = seq![s[0]] + insert_by_time(b, rest);
        assert(r[0] == s[0]);
        assert(r.drop_first() =~= insert_by_time(b, rest));
        lemma_insert_with_time(b, rest, t);
        if s[0].time == t {
            if b.time == t {
                assert(seq![s[0]] + with_time(rest, t).push(b) =~= (seq![s[0]] + with_time(
                    rest,
                    t,
                )).push(b));
            }
        }
    }
}

proof fn lemma_insert_head_count(b: Branch, s: Seq<Branch>)
    ensures
        head_count(insert_by_time(b, s)) == head_count(s) + (if b.is_head { 1nat } else { 0nat }),
    decreases s.len(),
{
    if s.len() == 0 {
        assert(seq![b][0] == b);
        assert(seq![b].drop_first() =~= Seq::<Branch>::empty());
        assert(head_count(Seq::<Branch>::empty()) == 0);
    } else if b.time < s[0].time {
        let r = seq![b] + s;
        assert(r[0] == b);
        assert(r.drop_first() =~= s);
    } else {
        let rest = s.drop_first();
        let r = seq![s[0]] + insert_by_time(b, rest);
        assert(r[0] == s[0]);
        assert(r.drop_first() =~= insert_by_time(b, rest));
        lemma_insert_head_count(b, rest);
    }
}

proof fn lemma_insert_multiset(b: Branch, s: Seq<Branch>)
    ensures
        insert_by_time(b, s).to_multiset() == s.to_multiset().insert(b),
    decreases s.len(),
{
    broadcast use vstd::seq_lib::group_to_multiset_ensures;

    let pos = insert_pos(b, s);
    lemma_insert_pos_properties(b, s);
    let left = s.subrange(0, pos);
    let right = s.subrange(pos, s.len() as int);
    assert(insert_by_time(b, s) == left.push(b) + right);
    vstd::seq_lib::lemma_multiset_commutative(left.push(b), right);
    vstd::seq_lib::lemma_multiset_commutative(left, right);
    assert(s =~= left + right);
    assert(left.push(b).to_multiset() =~= left.to_multiset().insert(b));
    assert(left.to_multiset().insert(b).add(right.to_multiset()) =~= left.to_multiset().add(
        right.to_multiset(),
    ).insert(b));
}

/// Law: the stable sort of a snapshot is sorted non-decreasing by commit
/// time, it holds exactly the branches of the snapshot, and branches with
/// equal timestamps keep their original relative enumeration order.
pub proof fn lemma_sort_sorted_and_stable(s: Seq<Branch>)
    ensures
        sorted_by_time(stable_sorted(s)),
        stable_sorted(s).to_multiset() == s.to_multiset(),
        forall|t: i64| #[trigger] with_time(stable_sorted(s), t) == with_time(s, t),
    decreases s.len(),
{
    broadcast use vstd::seq_lib::group_to_multiset_ensures;

    if s.len() == 0 {
        assert forall|t: i64| #[trigger] with_time(stable_sorted(s), t) == with_time(s, t) by {}
    } else {
        let front = s.drop_last();
        let b = s.last();
        lemma_sort_sorted_and_stable(front);
        let prev = stable_sorted(front);
        lemma_insert_pos_properties(b, prev);
        lemma_insert_at_sorted(b, prev, insert_pos(b, prev));
        lemma_insert_multiset(b, prev);
        assert(s =~= front.push(b));
        assert(front.push(b).to_multiset() =~= front.to_multiset().insert(b));
        assert forall|t: i64| #[trigger] with_time(stable_sorted(s), t) == with_time(s, t) by {
            lemma_insert_with_time(b, prev, t);
            lemma_with_time_push(front, b, t);
        }
    }
}

/// The stable sort keeps the snapshot's length.
pub proof fn lemma_stable_sorted_len(s: Seq<Branch>)
    ensures
        stable_sorted(s).len() == s.len(),
    decreases s.len(),
{
    if s.len() > 0 {
        lemma_stable_sorted_len(s.drop_last());
        lemma_insert_pos_properties(s.last(), stable_sorted(s.drop_last()));
    }
}

/// Law: sorting neither adds nor loses head flags; in particular a snapshot
/// with at most one checked-out branch keeps at most one after the sort.
pub proof fn lemma_sort_preserves_head_count(s: Seq<Branch>)
    ensures
        head_count(stable_sorted(s)) == head_count(s),
        at_most_one_head(s) ==> at_most_one_head(stable_sorted(s)),
    decreases s.len(),
{
    if s.len() > 0 {
        let front = s.drop_last();
        let b = s.last();
        lemma_sort_preserves_head_count(front);
        lemma_insert_head_count(b, stable_sorted(front));
        assert(s =~= front.push(b));
        lemma_head_count_push(front, b);
    }
}

proof fn lemma_no_heads_count_zero(s: Seq<Branch>)
    requires
        forall|i: int| 0 <= i < s.len() ==> !(#[trigger] s[i].is_head),
    ensures
        head_count(s) == 0,
    decreases s.len(),
{
    if s.len() > 0 {
        lemma_no_heads_count_zero(s.drop_first());
    }
}

proof fn lemma_head_count_at(s: Seq<Branch>, i: int)
    requires
        0 <= i < s.len(),
        s[i].is_head,
    ensures
        head_count(s) >= 1,
    decreases s.len(),
{
    if i > 0 {
        lemma_head_count_at(s.drop_first(), i - 1);
    }
}

proof fn lemma_head_count_two(s: Seq<Branch>, i: int, j: int)
    requires
        0 <= i < j < s.len(),
        s[i].is_head,
        s[j].is_head,
    ensures
        head_count(s) >= 2,
    decreases s.len(),
{
    if i == 0 {
        lemma_head_count_at(s.drop_first(), j - 1);
    } else {
        lemma_head_count_two(s.drop_first(), i - 1, j - 1);
    }
}

/// Law: a snapshot has at most one head flag exactly when no two of its
/// branches both carry the flag.
pub proof fn lemma_at_most_one_head_positions(s: Seq<Branch>)
    ensures
        at_most_one_head(s) <==> forall|i: int, j: int|
            0 <= i < j < s.len() ==> !(#[trigger] s[i].is_head && #[trigger] s[j].is_head),
    decreases s.len(),
{
    if head_count(s) <= 1 {
        assert forall|i: int, j: int| 0 <= i < j < s.len() implies !(#[trigger] s[i].is_head
            && #[trigger] s[j].is_head) by {
            if s[i].is_head && s[j].is_head {
                lemma_head_count_two(s, i, j);
            }
        }
    }
    if forall|i: int, j: int|
        0 <= i < j < s.len() ==> !(#[trigger] s[i].is_head && #[trigger] s[j].is_head) {
        if s.len() > 0 {
            if s[0].is_head {
                assert(forall|k: int|
                    0 <= k < s.drop_first().len() ==> !(#[trigger] s.drop_first()[k].is_head));
                lemma_no_heads_count_zero(s.drop_first());
            } else {
                lemma_at_most_one_head_positions(s.drop_first());
                assert(forall|i: int, j: int|
                    0 <= i < j < s.drop_first().len() ==> !(#[trigger] s.drop_first()[i].is_head
                        && #[trigger] s.drop_first()[j].is_head));
            }
        }
    }
}

/// Sort the snapshot ascending by commit time, stably: the returned vector
/// is exactly the stable sort of the argument.
pub fn sort_branches(branches: Vec<Branch>) -> (r: Vec<Branch>)
    ensures
        r@ == stable_sorted(branches@),
{
    let ghost orig = branches@;
    let mut rest = branches;
    let mut out: Vec<Branch> = Vec::new();
    while rest.len() > 0
        invariant
            rest@.len() <= orig.len(),
            rest@ == orig.skip(orig.len() - rest@.len()),
            out@ == stable_sorted(orig.take(orig.len() - rest@.len())),
            sorted_by_time(out@),
        decreases rest@.len(),
    {
        let ghost k = orig.len() - rest@.len();
        let b = rest.remove(0);
        proof {
            assert(b == orig[k as int]);
            assert(rest@ =~= orig.skip(k as int + 1));
        }
        let mut pos: usize = 0;
        while pos < out.len() && out[pos].time <= b.time
            invariant
                pos <= out@.len(),
                forall|j: int| 0 <= j < pos ==> #[trigger] out@[j].time <= b.time,
            decreases out@.len() - pos,
        {
            pos = pos + 1;
        }
        proof {
            lemma_insert_pos_properties(b, out@);
            assert(pos == insert_pos(b, out@)) by {
                let p = insert_pos(b, out@);
                if p < pos {
                    assert(out@[p].time <= b.time);
                }
                if pos < p {
                    assert(out@[pos as int].time <= b.time);
                }
            }
            lemma_insert_at_sorted(b, out@, pos as int);
            assert(orig.take(k as int + 1).drop_last() =~= orig.take(k as int));
            assert(orig.take(k as int + 1).last() == b);
        }
        out.insert(pos, b);
    }
    proof {
        assert(orig.take(orig.len() as int) =~= orig);
    }
    out
}

} // verus!
