//! The bookkeeping of the covariance store: how a pair of variables keys its
//! block, and which variables and blocks age out. The blocks themselves (sparse
//! matrices of floating-point numbers) are carried through untouched.

use vstd::prelude::*;

verus! {

/// A variable's identifier.
pub type VariableId = u64;

/// The key a pair of variables stores its block under: the smaller id first.
pub open spec fn key_spec(id1: u64, id2: u64) -> (u64, u64) {
    if id1 <= id2 {
        (id1, id2)
    } else {
        (id2, id1)
    }
}

/// The key of the block between two variables, and whether the stored block
/// must be transposed to read it in the order asked for.
pub fn block_key(id1: VariableId, id2: VariableId) -> (r: ((VariableId, VariableId), bool))
    ensures
        r.0 == key_spec(id1, id2),
        r.1 == (id1 > id2),
{
    if id1 <= id2 {
        ((id1, id2), false)
    } else {
        ((id2, id1), true)
    }
}

/// The oldest step still in use: `max_age` steps back, never below 0.
pub fn age_limit(current_step: u64, max_age: usize) -> (r: u64)
    ensures
        r == (if current_step >= max_age { (current_step - max_age) as u64 } else { 0u64 }),
{
    let m = max_age as u64;
    current_step.saturating_sub(m)
}

/// The ids last used before `limit`, in ledger order.
pub open spec fn expired_spec(ledger: Seq<(u64, u64)>, limit: u64) -> Seq<u64>
    decreases ledger.len(),
{
    if ledger.len() == 0 {
        Seq::empty()
    } else {
        expired_spec(ledger.drop_last(), limit) + if ledger.last().1 < limit {
            seq![ledger.last().0]
        } else {
            Seq::empty()
        }
    }
}

/// Exactly the stale variables expire: every ledger entry last used before the
/// limit has its variable among the expired ones, and every expired variable has
/// a ledger entry last used before the limit.
pub proof fn lemma_expired_are_exactly_the_stale(ledger: Seq<(u64, u64)>, limit: u64)
    ensures
        forall|i: int|
            0 <= i < ledger.len() && #[trigger] ledger[i].1 < limit ==> expired_spec(ledger, limit).contains(
                ledger[i].0,
            ),
        forall|x: u64|
            #[trigger] expired_spec(ledger, limit).contains(x) ==> exists|i: int|
                0 <= i < ledger.len() && #[trigger] ledger[i].0 == x && ledger[i].1 < limit,
    decreases ledger.len(),
{
    if ledger.len() > 0 {
        let pre = ledger.drop_last();
        lemma_expired_are_exactly_the_stale(pre, limit);
        let e = expired_spec(ledger, limit);
        let ep = expired_spec(pre, limit);
        let tail = if ledger.last().1 < limit {
            seq![ledger.last().0]
        } else {
            Seq::<u64>::empty()
        };
        assert(e == ep + tail);
        assert forall|i: int| 0 <= i < ledger.len() && #[trigger] ledger[i].1 < limit implies e.contains(
            ledger[i].0,
        ) by {
            if i < ledger.len() - 1 {
                assert(pre[i] == ledger[i]);
                assert(ep.contains(ledger[i].0));
                let j = choose|j: int| 0 <= j < ep.len() && ep[j] == ledger[i].0;
                assert(e[j] == ep[j]);
            } else {
                assert(e[ep.len() as int] == ledger[i].0);
            }
        }
        assert forall|x: u64| #[trigger] e.contains(x) implies exists|i: int|
            0 <= i < ledger.len() && #[trigger] ledger[i].0 == x && ledger[i].1 < limit by {
            let j = choose|j: int| 0 <= j < e.len() && e[j] == x;
            if j < ep.len() {
                assert(ep[j] == x);
                assert(ep.contains(x));
                let i = choose|i: int| 0 <= i < pre.len() && #[trigger] pre[i].0 == x && pre[i].1 < limit;
                assert(ledger[i] == pre[i]);
            } else {
                assert(ledger[ledger.len() - 1].0 == x);
            }
        }
    }
}

/// The variables whose last use (`(id, step)` in the ledger) is before `limit`.
pub fn expired_ids(ledger: &Vec<(VariableId, u64)>, limit: u64) -> (r: Vec<VariableId>)
    ensures
        r@ == expired_spec(ledger@, limit),
        forall|i: int|
            0 <= i < ledger@.len() && #[trigger] ledger@[i].1 < limit ==> r@.contains(ledger@[i].0),
        forall|x: u64|
            #[trigger] r@.contains(x) ==> exists|i: int|
                0 <= i < ledger@.len() && #[trigger] ledger@[i].0 == x && ledger@[i].1 < limit,
{
    proof {
        lemma_expired_are_exactly_the_stale(ledger@, limit);
    }
    let mut out: Vec<u64> = Vec::new();
    let mut i: usize = 0;
    while i < ledger.len()
        invariant
            i <= ledger.len(),
            out@ == expired_spec(ledger@.subrange(0, i as int), limit),
        decreases ledger.len() - i,
    {
        proof {
            assert(ledger@.subrange(0, i + 1).drop_last() =~= ledger@.subrange(0, i as int));
        }
        if ledger[i].1 < limit {
            out.push(ledger[i].0);
        }
        i = i + 1;
        assert(out@ =~= expired_spec(ledger@.subrange(0, i as int), limit));
    }
    assert(ledger@.subrange(0, ledger.len() as int) =~= ledger@);
    out
}

/// Whether a block survives pruning: neither of its variables has expired.
pub open spec fn block_live(key: (u64, u64), expired: Seq<u64>) -> bool {
    !expired.contains(key.0) && !expired.contains(key.1)
}

/// The blocks that survive, in their order.
pub open spec fn live_blocks<B>(s: Seq<((u64, u64), B)>, expired: Seq<u64>) -> Seq<((u64, u64), B)>
    decreases s.len(),
{
    if s.len() == 0 {
        Seq::empty()
    } else {
        live_blocks(s.drop_last(), expired) + if block_live(s.last().0, expired) {
            seq![s.last()]
        } else {
            Seq::empty()
        }
    }
}

/// Whether `x` occurs in `v`.
fn contains_id(v: &Vec<u64>, x: u64) -> (r: bool)
    ensures
        r == v@.contains(x),
{
    let mut i: usize = 0;
    while i < v.len()
        invariant
            i <= v.len(),
            forall|k: int| 0 <= k < i ==> v@[k] != x,
        decreases v.len() - i,
    {
        if v[i] == x {
            assert(v@[i as int] == x);
            return true;
        }
        i = i + 1;
    }
    false
}

/// Drops every block that involves an expired variable, keeping the others in
/// their order.
pub fn prune_blocks<B>(blocks: &mut Vec<((VariableId, VariableId), B)>, expired: &Vec<VariableId>)
    ensures
        final(blocks)@ == live_blocks(old(blocks)@, expired@),
{
    let ghost orig = blocks@;
    let n0 = blocks.len();
    let mut i: usize = 0;
    let mut j: usize = 0;
    assert(orig.subrange(0, 0) =~= Seq::<((u64, u64), B)>::empty());
    assert(blocks@ =~= live_blocks(orig.subrange(0, 0), expired@) + orig.subrange(0, orig.len() as int));
    while i < blocks.len()
        invariant
            orig.len() == n0,
            j <= orig.len(),
            i == live_blocks(orig.subrange(0, j as int), expired@).len(),
            blocks@ == live_blocks(orig.subrange(0, j as int), expired@) + orig.subrange(
                j as int,
                orig.len() as int,
            ),
        decreases blocks.len() - i,
    {
        let ghost pre = live_blocks(orig.subrange(0, j as int), expired@);
        assert(blocks@.len() == pre.len() + orig.subrange(j as int, orig.len() as int).len());
        assert(j < orig.len());
        assert(blocks@[i as int] == orig[j as int]);
        assert(orig.subrange(0, j + 1).drop_last() =~= orig.subrange(0, j as int));
        let key = blocks[i].0;
        if contains_id(expired, key.0) || contains_id(expired, key.1) {
            let _gone = blocks.remove(i);
            assert(blocks@ =~= pre + orig.subrange(j + 1, orig.len() as int));
        } else {
            assert(blocks@ =~= (pre + seq![orig[j as int]]) + orig.subrange(j + 1, orig.len() as int));
            i = i + 1;
        }
        j = j + 1;
    }
    assert(orig.subrange(j as int, orig.len() as int).len() == 0);
    assert(orig.subrange(0, j as int) =~= orig);
    assert(blocks@ =~= live_blocks(orig, expired@));
}

/// The ledger entries of the variables that have not expired, in their order.
pub open spec fn live_ledger(s: Seq<(u64, u64)>, expired: Seq<u64>) -> Seq<(u64, u64)>
    decreases s.len(),
{
    if s.len() == 0 {
        Seq::empty()
    } else {
        live_ledger(s.drop_last(), expired) + if !expired.contains(s.last().0) {
            seq![s.last()]
        } else {
            Seq::empty()
        }
    }
}

/// Forgets the expired variables' ledger entries.
pub fn prune_ledger(ledger: &Vec<(VariableId, u64)>, expired: &Vec<VariableId>) -> (r: Vec<(VariableId, u64)>)
    ensures
        r@ == live_ledger(ledger@, expired@),
{
    let mut out: Vec<(u64, u64)> = Vec::new();
    let mut i: usize = 0;
    while i < ledger.len()
        invariant
            i <= ledger.len(),
            out@ == live_ledger(ledger@.subrange(0, i as int), expired@),
        decreases ledger.len() - i,
    {
        proof {
            assert(ledger@.subrange(0, i + 1).drop_last() =~= ledger@.subrange(0, i as int));
        }
        if !contains_id(expired, ledger[i].0) {
            out.push(ledger[i]);
        }
        i = i + 1;
        assert(out@ =~= live_ledger(ledger@.subrange(0, i as int), expired@));
    }
    assert(ledger@.subrange(0, ledger.len() as int) =~= ledger@);
    out
}

/// No surviving block involves an expired variable.
pub proof fn lemma_live_blocks_avoid_expired<B>(s: Seq<((u64, u64), B)>, expired: Seq<u64>, k: int)
    requires
        0 <= k < live_blocks(s, expired).len(),
    ensures
        block_live(live_blocks(s, expired)[k].0, expired),
    decreases s.len(),
{
    if s.len() > 0 {
        let p = live_blocks(s.drop_last(), expired);
        if k < p.len() {
            lemma_live_blocks_avoid_expired(s.drop_last(), expired, k);
        }
    }
}

/// Pruning keeps every block whose variables are both live.
pub proof fn lemma_live_blocks_keep_live<B>(s: Seq<((u64, u64), B)>, expired: Seq<u64>, k: int)
    requires
        0 <= k < s.len(),
        block_live(s[k].0, expired),
    ensures
        live_blocks(s, expired).contains(s[k]),
    decreases s.len(),
{
    if k < s.len() - 1 {
        assert(s.drop_last()[k] == s[k]);
        lemma_live_blocks_keep_live(s.drop_last(), expired, k);
        let p = live_blocks(s.drop_last(), expired);
        let j = choose|j: int| 0 <= j < p.len() && p[j] == s[k];
        assert(live_blocks(s, expired)[j] == s[k]);
    } else {
        let p = live_blocks(s.drop_last(), expired);
        assert(live_blocks(s, expired)[p.len() as int] == s[k]);
    }
}

} // verus!
