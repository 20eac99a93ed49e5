//! Pointer chains: a base address and offsets, walked over a memory snapshot
//! on every access.

use vstd::prelude::*;
use crate::memory::Memory;

verus! {

/// One hop of a walk from address `cur` by offset `off`: the offset is added
/// and, unless it is the `last`, the non-null pointer stored there is
/// followed. `None` where the sum passes the address space, or the pointer is
/// unmapped or null.
pub open spec fn hop(mem: Memory, cur: int, off: u64, last: bool) -> Option<int> {
    let a = cur + off;
    if a > u64::MAX {
        None
    } else if last {
        Some(a)
    } else {
        match mem.value_at(a, 8) {
            Some(p) => if p != 0 {
                Some(p as int)
            } else {
                None
            },
            None => None,
        }
    }
}

/// The address that the offsets `offs` lead to from `cur`, if every hop succeeds.
pub open spec fn walk(mem: Memory, cur: int, offs: Seq<u64>) -> Option<int>
    decreases offs.len(),
{
    if offs.len() == 0 {
        Some(cur)
    } else {
        match hop(mem, cur, offs[0], offs.len() == 1) {
            Some(n) => walk(mem, n, offs.drop_first()),
            None => None,
        }
    }
}

/// The address reached from `cur` after the first `k` hops, if they succeed.
pub open spec fn follow(mem: Memory, cur: int, offs: Seq<u64>, k: nat) -> Option<int>
    decreases k,
{
    if k == 0 || offs.len() == 0 {
        Some(cur)
    } else {
        match hop(mem, cur, offs[0], offs.len() == 1) {
            Some(n) => follow(mem, n, offs.drop_first(), (k - 1) as nat),
            None => None,
        }
    }
}

/// Whether the walk from `cur` by `offs` reads the byte at address `x`.
pub open spec fn walk_reads(mem: Memory, cur: int, offs: Seq<u64>, x: int) -> bool
    decreases offs.len(),
{
    if offs.len() <= 1 || cur + offs[0] > u64::MAX {
        false
    } else {
        let a = cur + offs[0];
        (a <= x < a + 8) || match hop(mem, cur, offs[0], false) {
            Some(n) => walk_reads(mem, n, offs.drop_first(), x),
            None => false,
        }
    }
}

/// A walk fails exactly where one of its hops fails: the `k`-th hop, taken
/// from where the first `k` hops led.
pub proof fn lemma_walk_fails_iff_hop_fails(mem: Memory, cur: int, offs: Seq<u64>)
    ensures
        walk(mem, cur, offs).is_none() <==> exists|k: nat|
            k < offs.len() && #[trigger] follow(mem, cur, offs, k).is_some() && hop(
                mem,
                follow(mem, cur, offs, k).unwrap(),
                offs[k as int],
                k == offs.len() - 1,
            ).is_none(),
    decreases offs.len(),
{
    if offs.len() > 0 {
        let tail = offs.drop_first();
        match hop(mem, cur, offs[0], offs.len() == 1) {
            Some(n) => {
                lemma_walk_fails_iff_hop_fails(mem, n, tail);
                if walk(mem, cur, offs).is_none() {
                    let k2 = choose|k2: nat|
                        k2 < tail.len() && #[trigger] follow(mem, n, tail, k2).is_some() && hop(
                            mem,
                            follow(mem, n, tail, k2).unwrap(),
                            tail[k2 as int],
                            k2 == tail.len() - 1,
                        ).is_none();
                    assert(follow(mem, cur, offs, k2 + 1) == follow(mem, n, tail, k2));
                }
                if exists|k: nat|
                    k < offs.len() && #[trigger] follow(mem, cur, offs, k).is_some() && hop(
                        mem,
                        follow(mem, cur, offs, k).unwrap(),
                        offs[k as int],
                        k == offs.len() - 1,
                    ).is_none() {
                    let k = choose|k: nat|
                        k < offs.len() && #[trigger] follow(mem, cur, offs, k).is_some() && hop(
                            mem,
                            follow(mem, cur, offs, k).unwrap(),
                            offs[k as int],
                            k == offs.len() - 1,
                        ).is_none();
                    assert(k != 0);
                    let k2 = (k - 1) as nat;
                    assert(follow(mem, cur, offs, k) == follow(mem, n, tail, k2));
                    assert(follow(mem, n, tail, k2).is_some());
                }
            },
            None => {
                assert(follow(mem, cur, offs, 0).is_some());
            },
        }
    }
}

/// A walk that does not read the byte at `x` leads to the same place after
/// that byte alone is changed.
pub proof fn lemma_walk_unchanged(mem: Memory, mem2: Memory, cur: int, offs: Seq<u64>, x: int)
    requires
        mem.same_outside(mem2, x, 1),
        !walk_reads(mem, cur, offs, x),
    ensures
        walk(mem2, cur, offs) == walk(mem, cur, offs),
    decreases offs.len(),
{
    if offs.len() > 1 && cur + offs[0] <= u64::MAX {
        let a = cur + offs[0];
        if mem.bytes_at(a, 8).is_some() {
            assert(mem2.bytes_at(a, 8).unwrap() =~= mem.bytes_at(a, 8).unwrap());
        }
        assert(hop(mem2, cur, offs[0], false) == hop(mem, cur, offs[0], false));
        match hop(mem, cur, offs[0], false) {
            Some(n) => lemma_walk_unchanged(mem, mem2, n, offs.drop_first(), x),
            None => {},
        }
    } else if offs.len() == 1 {
        let n = cur + offs[0];
        assert(walk(mem, n, offs.drop_first()) == Some(n));
        assert(walk(mem2, n, offs.drop_first()) == Some(n));
    }
}

/// A base address and the offsets that lead from it to a value.
#[derive(Debug, Clone)]
pub struct PointerChain {
    pub base: u64,
    pub offsets: Vec<u64>,
}

impl View for PointerChain {
    type V = (u64, Seq<u64>);

    open spec fn view(&self) -> (u64, Seq<u64>) {
        (self.base, self.offsets@)
    }
}

impl PointerChain {
    /// A copy of this chain.
    pub fn copy(&self) -> (r: PointerChain)
        ensures
            r@ == self@,
    {
        PointerChain { base: self.base, offsets: self.offsets.clone() }
    }

    /// The address this chain leads to in `mem`, if it resolves.
    pub open spec fn target(self, mem: Memory) -> Option<int> {
        walk(mem, self.base as int, self.offsets@)
    }

    pub fn new(base: u64, offsets: Vec<u64>) -> (r: PointerChain)
        ensures
            r.base == base,
            r.offsets@ == offsets@,
    {
        PointerChain { base, offsets }
    }

    /// Walks the chain over `mem`: `None` where a hop fails.
    pub fn resolve(&self, mem: &Memory) -> (r: Option<u64>)
        ensures
            match r {
                Some(a) => self.target(*mem) == Some(a as int),
                None => self.target(*mem).is_none(),
            },
    {
        let n = self.offsets.len();
        let mut cur: u64 = self.base;
        let mut i: usize = 0;
        assert(self.offsets@.subrange(0, n as int) =~= self.offsets@);
        while i < n
            invariant
                i <= n == self.offsets@.len(),
                self.target(*mem) == walk(*mem, cur as int, self.offsets@.subrange(i as int, n as int)),
            decreases n - i,
        {
            let ghost rest = self.offsets@.subrange(i as int, n as int);
            assert(rest.drop_first() =~= self.offsets@.subrange(i + 1, n as int));
            let off = self.offsets[i];
            if off > u64::MAX - cur {
                return None;
            }
            let a = cur + off;
            if i + 1 == n {
                assert(rest.drop_first().len() == 0);
                assert(walk(*mem, a as int, rest.drop_first()) == Some(a as int));
                return Some(a);
            }
            match mem.read_le(a, 8) {
                Some(p) => {
                    if p == 0 {
                        return None;
                    }
                    cur = p;
                },
                None => return None,
            }
            i = i + 1;
        }
        Some(cur)
    }
}

} // verus!
