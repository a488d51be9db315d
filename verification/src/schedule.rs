//! Deterministic minibatch schedule of gradient training.
//!
//! Every training epoch visits the samples in a seeded Fisher–Yates order
//! drawn from a 64-bit linear congruential stream, cut into consecutive
//! minibatches. The order depends on the seed and the epoch number alone, so a
//! run is reproducible bit for bit.
use vstd::prelude::*;
use vstd::wrapping::u64_specs;

verus! {

/// Multiplier of the 64-bit linear congruential stream.
pub const LCG_MUL: u64 = 6364136223846793005;
/// Increment of the 64-bit linear congruential stream.
pub const LCG_INC: u64 = 1442695040888963407;
/// Odd constant that decorrelates the shuffle seeds of successive epochs.
pub const EPOCH_STRIDE: u64 = 0x9E37_79B9;

/// One step of the linear congruential stream, modulo `2^64`.
pub open spec fn lcg_next(s: u64) -> u64 {
    u64_specs::wrapping_add(u64_specs::wrapping_mul(s, LCG_MUL), LCG_INC)
}

/// The position drawn for slot `i` from stream state `s`: the high 31 bits of
/// the state, reduced modulo `i + 1`.
pub open spec fn draw(s: u64, i: nat) -> nat {
    ((s >> 33u64) as nat) % (i + 1)
}

/// `s` with the entries at `a` and `b` exchanged.
pub open spec fn swap_at(s: Seq<usize>, a: int, b: int) -> Seq<usize> {
    s.update(a, s[b]).update(b, s[a])
}

/// `0, 1, ..., n - 1`.
pub open spec fn identity_seq(n: nat) -> Seq<usize> {
    Seq::new(n, |i: int| i as usize)
}

/// The Fisher–Yates walk over slots `i, i - 1, ..., 1` of `idx`, starting from
/// stream state `s`: each slot first advances the stream, then swaps with the
/// drawn position.
pub open spec fn shuffle_walk(idx: Seq<usize>, s: u64, i: nat) -> Seq<usize>
    decreases i,
{
    if i == 0 {
        idx
    } else {
        let s2 = lcg_next(s);
        shuffle_walk(swap_at(idx, i as int, draw(s2, i) as int), s2, (i - 1) as nat)
    }
}

/// The seeded order of `0..n`; the stream starts from `seed | 1`.
pub open spec fn shuffled(n: nat, seed: u64) -> Seq<usize> {
    if n <= 1 {
        identity_seq(n)
    } else {
        shuffle_walk(identity_seq(n), seed | 1u64, (n - 1) as nat)
    }
}

/// `s` lists each of `0..n` exactly once.
pub open spec fn is_permutation_of_range(s: Seq<usize>, n: nat) -> bool {
    &&& s.len() == n
    &&& forall|i: int| 0 <= i < n ==> #[trigger] s[i] < n
    &&& forall|i: int, j: int| 0 <= i < j < n ==> s[i] != s[j]
    &&& forall|k: usize| k < n ==> #[trigger] s.contains(k)
}

/// Seed of the shuffle of epoch `epoch` for a run seeded with `seed`.
pub open spec fn epoch_seed(seed: u64, epoch: u64) -> u64 {
    seed ^ u64_specs::wrapping_mul(epoch, EPOCH_STRIDE)
}

/// `order` cut into consecutive batches of `batch` entries; the last batch
/// holds the remainder.
pub open spec fn batches_of(order: Seq<usize>, batch: nat) -> Seq<Seq<usize>>
    decreases order.len(),
{
    if batch == 0 || order.len() == 0 {
        Seq::empty()
    } else if order.len() <= batch {
        seq![order]
    } else {
        seq![order.take(batch as int)] + batches_of(order.skip(batch as int), batch)
    }
}

proof fn lemma_identity_is_permutation(n: nat)
    requires
        n <= usize::MAX,
    ensures
        is_permutation_of_range(identity_seq(n), n),
{
    let s = identity_seq(n);
    assert forall|i: int| 0 <= i < n implies #[trigger] s[i] < n by {
        assert(s[i] == i as usize);
    }
    assert forall|k: usize| k < n implies #[trigger] s.contains(k) by {
        assert(s[k as int] == k);
    }
}

proof fn lemma_swap_keeps_permutation(s: Seq<usize>, n: nat, a: int, b: int)
    requires
        is_permutation_of_range(s, n),
        0 <= a < n,
        0 <= b < n,
    ensures
        is_permutation_of_range(swap_at(s, a, b), n),
{
    let t = swap_at(s, a, b);
    assert forall|i: int| 0 <= i < n implies #[trigger] t[i] < n by {
        if i == b {
        } else if i == a {
        } else {
            assert(t[i] == s[i]);
        }
    }
    assert forall|i: int, j: int| 0 <= i < j < n implies t[i] != t[j] by {
        let si: int = if i == b { a } else if i == a { b } else { i };
        let sj: int = if j == b { a } else if j == a { b } else { j };
        assert(t[i] == s[si]);
        assert(t[j] == s[sj]);
        if si < sj {
        } else {
            assert(si != sj);
        }
    }
    assert forall|k: usize| k < n implies #[trigger] t.contains(k) by {
        assert(s.contains(k));
        let i: int = choose|i: int| 0 <= i < s.len() && s[i] == k;
        let ti: int = if i == a { b } else if i == b { a } else { i };
        assert(t[ti] == k);
    }
}

proof fn lemma_walk_keeps_permutation(idx: Seq<usize>, s: u64, i: nat, n: nat)
    requires
        is_permutation_of_range(idx, n),
        i < n,
    ensures
        is_permutation_of_range(shuffle_walk(idx, s, i), n),
    decreases i,
{
    if i > 0 {
        let s2 = lcg_next(s);
        let r: nat = draw(s2, i);
        assert(r < i + 1) by {
            vstd::arithmetic::div_mod::lemma_mod_bound((s2 >> 33u64) as int, (i + 1) as int);
        }
        lemma_swap_keeps_permutation(idx, n, i as int, r as int);
        lemma_walk_keeps_permutation(swap_at(idx, i as int, r as int), s2, (i - 1) as nat, n);
    }
}

/// The seeded order lists every index of `0..n` exactly once, whatever the
/// seed.
pub proof fn lemma_shuffled_is_permutation(n: usize, seed: u64)
    ensures
        is_permutation_of_range(shuffled(n as nat, seed), n as nat),
{
    lemma_identity_is_permutation(n as nat);
    if n > 1 {
        lemma_walk_keeps_permutation(identity_seq(n as nat), seed | 1u64, (n - 1) as nat, n as nat);
    }
}

/// The stream is the 64-bit LCG `s ↦ (6364136223846793005 · s +
/// 1442695040888963407) mod 2^64`, and a draw for slot `i` is
/// `floor(s / 2^33) mod (i + 1)`, a position in `0..=i`.
pub proof fn lemma_stream_and_draw(s: u64, i: nat)
    ensures
        lcg_next(s) as int == (s as int * 6364136223846793005int + 1442695040888963407int)
            % 0x1_0000_0000_0000_0000int,
        draw(s, i) == (s as int / 0x2_0000_0000int) % (i as int + 1),
        draw(s, i) <= i,
{
    let m: int = 0x1_0000_0000_0000_0000int;
    let p: int = (s as int * LCG_MUL as int) % m;
    assert(u64_specs::wrapping_mul(s, LCG_MUL) as int == p);
    vstd::arithmetic::div_mod::lemma_mod_bound(s as int * LCG_MUL as int, m);
    vstd::arithmetic::div_mod::lemma_add_mod_noop(s as int * LCG_MUL as int, LCG_INC as int, m);
    vstd::arithmetic::div_mod::lemma_small_mod(LCG_INC as nat, m as nat);
    if p + LCG_INC > u64::MAX {
        vstd::arithmetic::div_mod::lemma_mod_sub_multiples_vanish(p + LCG_INC, m);
        vstd::arithmetic::div_mod::lemma_small_mod((p + LCG_INC - m) as nat, m as nat);
    } else {
        vstd::arithmetic::div_mod::lemma_small_mod((p + LCG_INC) as nat, m as nat);
    }
    assert((s >> 33u64) == s / 0x2_0000_0000u64) by (bit_vector);
    vstd::arithmetic::div_mod::lemma_mod_bound((s >> 33u64) as int, i as int + 1);
}

/// The walk never touches a slot above its current one: slots `j > i` keep
/// their values.
proof fn lemma_walk_keeps_upper_slots(idx: Seq<usize>, s: u64, i: nat, j: int)
    requires
        i < j < idx.len(),
    ensures
        shuffle_walk(idx, s, i).len() == idx.len(),
        shuffle_walk(idx, s, i)[j] == idx[j],
    decreases i,
{
    if i > 0 {
        let s2 = lcg_next(s);
        vstd::arithmetic::div_mod::lemma_mod_bound((s2 >> 33u64) as int, i as int + 1);
        let next = swap_at(idx, i as int, draw(s2, i) as int);
        lemma_walk_keeps_upper_slots(next, s2, (i - 1) as nat, j);
    }
}

/// Each step settles its slot for good: after the walk from slot `i`, slot
/// `i` holds the entry at the position drawn by the first step, from the next
/// state of the stream.
pub proof fn lemma_walk_settles_slot(idx: Seq<usize>, s: u64, i: nat)
    requires
        0 < i < idx.len(),
    ensures
        shuffle_walk(idx, s, i)[i as int] == idx[draw(lcg_next(s), i) as int],
{
    let s2 = lcg_next(s);
    vstd::arithmetic::div_mod::lemma_mod_bound((s2 >> 33u64) as int, i as int + 1);
    let r = draw(s2, i) as int;
    let next = swap_at(idx, i as int, r);
    assert(next[i as int] == idx[r]);
    assert(shuffle_walk(idx, s, i) == shuffle_walk(next, s2, (i - 1) as nat));
    if i > 1 {
        lemma_walk_keeps_upper_slots(next, s2, (i - 1) as nat, i as int);
    }
}

/// For every `n >= 2` and every seed, the last sample of the order is the
/// position drawn by the first step of the stream started from `seed | 1`:
/// `floor(s1 / 2^33) mod n` with `s1` the LCG successor of `seed | 1`.
pub proof fn lemma_shuffled_last_is_first_draw(n: usize, seed: u64)
    requires
        n >= 2,
    ensures
        shuffled(n as nat, seed)[n - 1] as int == (lcg_next(seed | 1u64) as int / 0x2_0000_0000int)
            % (n as int),
{
    let id = identity_seq(n as nat);
    lemma_walk_settles_slot(id, seed | 1u64, (n - 1) as nat);
    lemma_stream_and_draw(lcg_next(seed | 1u64), (n - 1) as nat);
    let r = draw(lcg_next(seed | 1u64), (n - 1) as nat) as int;
    assert(id[r] == r as usize);
}

/// The shuffle seed of epoch `e` is `seed XOR (e · 0x9E3779B9 mod 2^64)`;
/// epochs below `2^32` never share a shuffle seed, so no epoch of a run
/// replays another's order by construction.
pub proof fn lemma_epoch_seeds(seed: u64, e1: u64, e2: u64)
    ensures
        epoch_seed(seed, e1) == seed ^ (((e1 as int * 0x9E37_79B9int) % 0x1_0000_0000_0000_0000int) as u64),
        e1 < 0x1_0000_0000 && e2 < 0x1_0000_0000 && e1 != e2 ==> epoch_seed(seed, e1) != epoch_seed(
            seed,
            e2,
        ),
{
    if e1 < 0x1_0000_0000 && e2 < 0x1_0000_0000 && e1 != e2 {
        let a: u64 = u64_specs::wrapping_mul(e1, EPOCH_STRIDE);
        let b: u64 = u64_specs::wrapping_mul(e2, EPOCH_STRIDE);
        assert(e1 as int * 0x9E37_79B9int < 0x1_0000_0000_0000_0000int) by (nonlinear_arith)
            requires
                e1 < 0x1_0000_0000,
        ;
        assert(e2 as int * 0x9E37_79B9int < 0x1_0000_0000_0000_0000int) by (nonlinear_arith)
            requires
                e2 < 0x1_0000_0000,
        ;
        vstd::arithmetic::div_mod::lemma_small_mod((e1 as int * 0x9E37_79B9int) as nat, 0x1_0000_0000_0000_0000nat);
        vstd::arithmetic::div_mod::lemma_small_mod((e2 as int * 0x9E37_79B9int) as nat, 0x1_0000_0000_0000_0000nat);
        assert(a != b) by (nonlinear_arith)
            requires
                a as int == e1 as int * 0x9E37_79B9int,
                b as int == e2 as int * 0x9E37_79B9int,
                e1 != e2,
        ;
        assert((seed ^ a) != (seed ^ b)) by (bit_vector)
            requires
                a != b,
        ;
    }
}

/// Deterministic Fisher–Yates order of `0..n` from `seed`.
pub fn shuffled_indices(n: usize, seed: u64) -> (idx: Vec<usize>)
    ensures
        idx@ == shuffled(n as nat, seed),
{
    let mut idx: Vec<usize> = Vec::new();
    let mut j: usize = 0;
    while j < n
        invariant
            j <= n,
            idx@ == identity_seq(j as nat),
        decreases n - j,
    {
        idx.push(j);
        j = j + 1;
        assert(idx@ =~= identity_seq(j as nat));
    }
    if n <= 1 {
        return idx;
    }
    let mut s: u64 = seed | 1;
    let mut i: usize = n - 1;
    while i > 0
        invariant
            idx@.len() == n,
            i < n,
            shuffle_walk(idx@, s, i as nat) == shuffled(n as nat, seed),
        decreases i,
    {
        s = s.wrapping_mul(LCG_MUL).wrapping_add(LCG_INC);
        let hi: u64 = s >> 33;
        assert(hi <= 0x7fff_ffffu64) by (bit_vector)
            requires
                hi == s >> 33u64,
        ;
        let r: usize = (hi as usize) % (i + 1);
        assert(r == draw(s, i as nat));
        let ghost before = idx@;
        let a: usize = idx[i];
        let b: usize = idx[r];
        idx.set(i, b);
        idx.set(r, a);
        assert(idx@ =~= swap_at(before, i as int, r as int));
        i = i - 1;
    }
    idx
}

proof fn lemma_batches_step(order: Seq<usize>, start: nat, end: nat, batch: nat)
    requires
        batch > 0,
        start < end <= order.len(),
        end == if order.len() - start > batch { start + batch } else { order.len() },
    ensures
        batches_of(order.skip(start as int), batch) == seq![order.subrange(start as int, end as int)]
            + batches_of(order.skip(end as int), batch),
{
    let rest = order.skip(start as int);
    if order.len() - start > batch {
        assert(rest.take(batch as int) =~= order.subrange(start as int, end as int));
        assert(rest.skip(batch as int) =~= order.skip(end as int));
    } else {
        assert(rest =~= order.subrange(start as int, end as int));
        assert(order.skip(end as int) =~= Seq::<usize>::empty());
        assert(batches_of(order.skip(end as int), batch) =~= Seq::<Seq<usize>>::empty());
        assert(seq![rest] + Seq::<Seq<usize>>::empty() =~= seq![rest]);
    }
}

/// The minibatches of one training epoch: the samples `0..n`, in the seeded
/// order of epoch `epoch`, cut into consecutive batches of `batch` samples.
/// With no samples there are no batches, whatever the batch size.
pub fn epoch_batches(n: usize, batch: usize, seed: u64, epoch: usize) -> (batches: Vec<Vec<usize>>)
    requires
        batch > 0 || n == 0,
    ensures
        batches@.len() == batches_of(shuffled(n as nat, epoch_seed(seed, epoch as u64)), batch as nat).len(),
        forall|k: int|
            0 <= k < batches@.len() ==> #[trigger] batches@[k]@ == batches_of(
                shuffled(n as nat, epoch_seed(seed, epoch as u64)),
                batch as nat,
            )[k],
{
    let order = shuffled_indices(n, seed ^ (epoch as u64).wrapping_mul(EPOCH_STRIDE));
    proof {
        lemma_shuffled_is_permutation(n, epoch_seed(seed, epoch as u64));
    }
    let ghost full = batches_of(order@, batch as nat);
    let ghost mut done: Seq<Seq<usize>> = Seq::empty();
    let mut batches: Vec<Vec<usize>> = Vec::new();
    let mut start: usize = 0;
    assert(order@.skip(0) =~= order@);
    while start < n
        invariant
            order@.len() == n,
            start <= n,
            batch > 0 || n == 0,
            full == batches_of(order@, batch as nat),
            batches@.len() == done.len(),
            forall|k: int| 0 <= k < done.len() ==> #[trigger] batches@[k]@ == done[k],
            done + batches_of(order@.skip(start as int), batch as nat) == full,
        decreases n - start,
    {
        let end: usize = if n - start > batch { start + batch } else { n };
        let mut b: Vec<usize> = Vec::new();
        let mut k: usize = start;
        while k < end
            invariant
                order@.len() == n,
                start <= k <= end <= n,
                b@ == order@.subrange(start as int, k as int),
            decreases end - k,
        {
            b.push(order[k]);
            k = k + 1;
            assert(b@ =~= order@.subrange(start as int, k as int));
        }
        proof {
            lemma_batches_step(order@, start as nat, end as nat, batch as nat);
            assert(done.push(b@) + batches_of(order@.skip(end as int), batch as nat) =~= done + batches_of(
                order@.skip(start as int),
                batch as nat,
            ));
            done = done.push(b@);
        }
        batches.push(b);
        start = end;
    }
    proof {
        assert(order@.skip(n as int) =~= Seq::<usize>::empty());
        assert(done =~= full);
    }
    batches
}

/// Cutting into batches loses and reorders nothing, every batch is non-empty
/// and at most `batch` long, and every batch but the last is exactly `batch`
/// long.
pub proof fn lemma_batches_partition(order: Seq<usize>, batch: nat)
    requires
        batch > 0 || order.len() == 0,
    ensures
        batches_of(order, batch).flatten() == order,
        forall|k: int|
            0 <= k < batches_of(order, batch).len() ==> 0 < (#[trigger] batches_of(order, batch)[k]).len()
                <= batch,
        forall|k: int|
            0 <= k < batches_of(order, batch).len() - 1 ==> (#[trigger] batches_of(
                order,
                batch,
            )[k]).len() == batch,
    decreases order.len(),
{
    let bs = batches_of(order, batch);
    if order.len() == 0 {
        assert(bs.flatten() =~= order);
    } else if order.len() <= batch {
        assert(bs.drop_first() =~= Seq::<Seq<usize>>::empty());
        assert(bs.drop_first().flatten() =~= Seq::<usize>::empty());
        assert(bs.flatten() == bs.first() + bs.drop_first().flatten());
        assert(bs.flatten() =~= order);
    } else {
        let tail = order.skip(batch as int);
        lemma_batches_partition(tail, batch);
        let rest = batches_of(tail, batch);
        assert(bs.drop_first() =~= rest);
        assert(order.take(batch as int) + tail =~= order);
        assert forall|k: int| 0 < k < bs.len() implies #[trigger] bs[k] == rest[k - 1] by {}
    }
}

/// Each training epoch visits every sample of `0..n` exactly once, in batches
/// of at most `batch` samples, all but the last exactly `batch` long.
pub proof fn lemma_epoch_visits_each_sample_once(n: usize, batch: usize, seed: u64, epoch: usize)
    requires
        batch > 0 || n == 0,
    ensures
        is_permutation_of_range(
            batches_of(shuffled(n as nat, epoch_seed(seed, epoch as u64)), batch as nat).flatten(),
            n as nat,
        ),
        forall|k: int|
            #![trigger batches_of(shuffled(n as nat, epoch_seed(seed, epoch as u64)), batch as nat)[k]]
            0 <= k < batches_of(shuffled(n as nat, epoch_seed(seed, epoch as u64)), batch as nat).len()
                ==> 0 < batches_of(shuffled(n as nat, epoch_seed(seed, epoch as u64)), batch as nat)[k].len()
                <= batch,
{
    let order = shuffled(n as nat, epoch_seed(seed, epoch as u64));
    lemma_shuffled_is_permutation(n, epoch_seed(seed, epoch as u64));
    lemma_batches_partition(order, batch as nat);
}

} // verus!
