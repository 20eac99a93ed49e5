//! A snapshot of one mapped region of the host's memory, with guarded reads
//! and writes: an access outside the region fails instead of faulting.

use vstd::prelude::*;

verus! {

/// The value of bytes read in little-endian order.
pub open spec fn le_value(s: Seq<u8>) -> nat
    decreases s.len(),
{
    if s.len() == 0 {
        0
    } else {
        s[0] as nat + 256 * le_value(s.drop_first())
    }
}

/// `256` to the power `n`.
pub open spec fn pow256(n: nat) -> nat
    decreases n,
{
    if n == 0 {
        1
    } else {
        256 * pow256((n - 1) as nat)
    }
}

pub proof fn lemma_le_value_bound(s: Seq<u8>)
    ensures
        le_value(s) < pow256(s.len()),
    decreases s.len(),
{
    if s.len() > 0 {
        lemma_le_value_bound(s.drop_first());
        let r = le_value(s.drop_first());
        let p = pow256(s.drop_first().len());
        assert(s[0] as nat + 256 * r < 256 * p) by (nonlinear_arith)
            requires
                r < p,
                s[0] < 256,
        ;
    }
}

pub proof fn lemma_le_value_push(s: Seq<u8>, b: u8)
    ensures
        le_value(s.push(b)) == le_value(s) + pow256(s.len()) * b,
    decreases s.len(),
{
    if s.len() == 0 {
        assert(s.push(b).drop_first() =~= Seq::<u8>::empty());
        assert(pow256(0) == 1);
        assert(le_value(Seq::<u8>::empty()) == 0);
    } else {
        assert(s.push(b).drop_first() =~= s.drop_first().push(b));
        lemma_le_value_push(s.drop_first(), b);
        let p = pow256(s.drop_first().len());
        assert(pow256(s.len()) == 256 * p);
        assert(256 * (le_value(s.drop_first()) + p * b) == 256 * le_value(s.drop_first()) + (256
            * p) * b) by (nonlinear_arith);
    }
}

pub proof fn lemma_pow256_8()
    ensures
        pow256(4) == 0x1_0000_0000,
        pow256(7) == 0x100_0000_0000_0000,
        pow256(8) == 0x1_0000_0000_0000_0000,
{
    reveal_with_fuel(pow256, 9);
}

/// One contiguous mapped region: `bytes[i]` lies at address `start + i`.
#[derive(Debug, Clone)]
pub struct Memory {
    pub start: u64,
    pub bytes: Vec<u8>,
}

impl Memory {
    /// The byte at address `a`, if it is mapped.
    pub open spec fn byte_at(self, a: int) -> Option<u8> {
        if self.start <= a < self.start + self.bytes@.len() && a <= u64::MAX {
            Some(self.bytes@[a - self.start])
        } else {
            None
        }
    }

    /// `n` bytes starting at address `a`, if all are mapped.
    pub open spec fn bytes_at(self, a: int, n: nat) -> Option<Seq<u8>> {
        if self.start <= a && a + n <= self.start + self.bytes@.len() && a + n <= u64::MAX + 1 {
            Some(self.bytes@.subrange(a - self.start, a - self.start + n))
        } else {
            None
        }
    }

    /// The little-endian value of the `n` bytes at address `a`, if all are mapped.
    pub open spec fn value_at(self, a: int, n: nat) -> Option<nat> {
        match self.bytes_at(a, n) {
            Some(s) => Some(le_value(s)),
            None => None,
        }
    }

    /// Whether `m` holds what `self` holds except for the `n` bytes at `a`.
    pub open spec fn same_outside(self, m: Memory, a: int, n: nat) -> bool {
        &&& m.start == self.start
        &&& m.bytes@.len() == self.bytes@.len()
        &&& forall|i: int|
            0 <= i < self.bytes@.len() && !(a <= self.start + i < a + n) ==> m.bytes@[i]
                == self.bytes@[i]
    }

    /// A region of `bytes` mapped at `start`; none where it would pass the end
    /// of the address space.
    pub fn new(start: u64, bytes: Vec<u8>) -> (r: Option<Memory>)
        ensures
            match r {
                Some(m) => m.start == start && m.bytes@ == bytes@,
                None => start + bytes@.len() > u64::MAX,
            },
    {
        if bytes.len() as u64 <= u64::MAX - start {
            Some(Memory { start, bytes })
        } else {
            None
        }
    }

    /// Whether the `n` bytes at `addr` are all mapped.
    pub fn has_range(&self, addr: u64, n: usize) -> (r: bool)
        ensures
            r == self.bytes_at(addr as int, n as nat).is_some(),
    {
        self.offset_of(addr, n).is_some()
    }

    /// Offset of the `n` bytes at `addr` within the region, if all are mapped.
    fn offset_of(&self, addr: u64, n: usize) -> (r: Option<usize>)
        ensures
            match r {
                Some(o) => self.bytes_at(addr as int, n as nat).is_some() && o == addr
                    - self.start,
                None => self.bytes_at(addr as int, n as nat).is_none(),
            },
    {
        if addr < self.start {
            return None;
        }
        let off: u64 = addr - self.start;
        let len: u64 = self.bytes.len() as u64;
        if off <= len && (len - off) >= n as u64 && (n == 0 || (n - 1) as u64 <= u64::MAX - addr) {
            Some(off as usize)
        } else {
            None
        }
    }

    /// Reads the byte at `addr`; `None` where it is not mapped.
    pub fn read_u8(&self, addr: u64) -> (r: Option<u8>)
        ensures
            r == self.byte_at(addr as int),
    {
        match self.offset_of(addr, 1) {
            Some(o) => Some(self.bytes[o]),
            None => None,
        }
    }

    /// Reads the little-endian value of `n` bytes at `addr`; `None` where
    /// one of them is not mapped.
    pub fn read_le(&self, addr: u64, n: usize) -> (r: Option<u64>)
        requires
            n <= 8,
        ensures
            match r {
                Some(v) => self.value_at(addr as int, n as nat) == Some(v as nat),
                None => self.value_at(addr as int, n as nat).is_none(),
            },
    {
        let o = match self.offset_of(addr, n) {
            Some(o) => o,
            None => return None,
        };
        assert(o + n <= self.bytes@.len());
        let ghost all = self.bytes@.subrange(o as int, o + n);
        let mut v: u64 = 0;
        let mut k: usize = n;
        while k > 0
            invariant
                k <= n <= 8,
                o + n <= self.bytes.len(),
                all == self.bytes@.subrange(o as int, o + n),
                v == le_value(all.subrange(k as int, n as int)),
            decreases k,
        {
            let ghost tail = all.subrange(k as int, n as int);
            k = k - 1;
            let b = self.bytes[o + k];
            proof {
                let s = all.subrange(k as int, n as int);
                assert(s.drop_first() =~= tail);
                lemma_le_value_bound(tail);
                lemma_pow256_8();
                assert(pow256(tail.len()) <= pow256(7)) by {
                    reveal_with_fuel(pow256, 9);
                }
            }
            v = b as u64 + 256 * v;
        }
        assert(all.subrange(0, n as int) =~= all);
        Some(v)
    }

    /// Stores the byte `v` at `addr`; `false`, with nothing changed, where it
    /// is not mapped.
    pub fn write_u8(&mut self, addr: u64, v: u8) -> (r: bool)
        ensures
            r == old(self).byte_at(addr as int).is_some(),
            r ==> final(self).byte_at(addr as int) == Some(v),
            r ==> old(self).same_outside(*final(self), addr as int, 1),
            !r ==> *final(self) == *old(self),
    {
        match self.offset_of(addr, 1) {
            Some(o) => {
                self.bytes.set(o, v);
                true
            },
            None => false,
        }
    }

    /// Stores `v` as `n` little-endian bytes at `addr`; `false`, with nothing
    /// changed, where one of them is not mapped.
    pub fn write_le(&mut self, addr: u64, v: u64, n: usize) -> (r: bool)
        requires
            n <= 8,
            v < pow256(n as nat),
        ensures
            r == old(self).bytes_at(addr as int, n as nat).is_some(),
            r ==> final(self).value_at(addr as int, n as nat) == Some(v as nat),
            r ==> old(self).same_outside(*final(self), addr as int, n as nat),
            !r ==> *final(self) == *old(self),
    {
        let o = match self.offset_of(addr, n) {
            Some(o) => o,
            None => return false,
        };
        let mut x: u64 = v;
        let mut j: usize = 0;
        assert(o + n <= self.bytes@.len());
        assert(self.bytes@.subrange(o as int, o as int) =~= Seq::<u8>::empty());
        assert(pow256(0) == 1);
        assert(le_value(Seq::<u8>::empty()) == 0);
        while j < n
            invariant
                j <= n <= 8,
                o + n <= self.bytes.len(),
                o == addr - self.start,
                self.start == old(self).start,
                x < pow256((n - j) as nat),
                v == le_value(self.bytes@.subrange(o as int, o + j)) + pow256(j as nat) * x,
                old(self).same_outside(*self, addr as int, n as nat),
            decreases n - j,
        {
            let b: u8 = (x % 256) as u8;
            let ghost w = self.bytes@.subrange(o as int, o + j);
            let ghost p = pow256(j as nat);
            let ghost x0 = x;
            self.bytes.set(o + j, b);
            x = x / 256;
            proof {
                assert(self.bytes@.subrange(o as int, o + j + 1) =~= w.push(b));
                lemma_le_value_push(w, b);
                assert(w.len() == j);
                assert(p * (b as nat) + pow256((j + 1) as nat) * x == p * x0) by {
                    assert(pow256((j + 1) as nat) == 256 * p);
                    assert(p * (b as nat) + (256 * p) * (x0 / 256) == p * x0) by (nonlinear_arith)
                        requires
                            b as nat == x0 % 256,
                    ;
                }
                assert(x < pow256((n - (j + 1)) as nat)) by {
                    assert(pow256((n - j) as nat) == 256 * pow256((n - (j + 1)) as nat));
                }
            }
            j = j + 1;
        }
        assert(pow256(0) == 1);
        assert(x == 0);
        true
    }

    /// Reads the `n` bytes at `addr`; `None` where one of them is not mapped.
    pub fn read_bytes(&self, addr: u64, n: usize) -> (r: Option<Vec<u8>>)
        ensures
            match r {
                Some(v) => self.bytes_at(addr as int, n as nat) == Some(v@),
                None => self.bytes_at(addr as int, n as nat).is_none(),
            },
    {
        let o = match self.offset_of(addr, n) {
            Some(o) => o,
            None => return None,
        };
        let mut v: Vec<u8> = Vec::new();
        let mut j: usize = 0;
        while j < n
            invariant
                j <= n,
                o + n <= self.bytes.len(),
                v@ == self.bytes@.subrange(o as int, o + j),
            decreases n - j,
        {
            v.push(self.bytes[o + j]);
            j = j + 1;
            assert(v@ =~= self.bytes@.subrange(o as int, o + j));
        }
        Some(v)
    }

    /// Stores `data` from `addr` on; `false`, with nothing changed, where one
    /// of its bytes is not mapped.
    pub fn write_bytes(&mut self, addr: u64, data: &Vec<u8>) -> (r: bool)
        ensures
            r == old(self).bytes_at(addr as int, data@.len()).is_some(),
            r ==> final(self).bytes_at(addr as int, data@.len()) == Some(data@),
            r ==> old(self).same_outside(*final(self), addr as int, data@.len()),
            !r ==> *final(self) == *old(self),
    {
        let n = data.len();
        let o = match self.offset_of(addr, n) {
            Some(o) => o,
            None => return false,
        };
        let mut j: usize = 0;
        while j < n
            invariant
                j <= n == data@.len(),
                o + n <= self.bytes.len(),
                o == addr - self.start,
                self.start == old(self).start,
                forall|k: int| 0 <= k < j ==> self.bytes@[o + k] == data@[k],
                old(self).same_outside(*self, addr as int, n as nat),
                old(self).bytes_at(addr as int, n as nat).is_some(),
            decreases n - j,
        {
            self.bytes.set(o + j, data[j]);
            j = j + 1;
        }
        assert(self.bytes@.subrange(o as int, o + n) =~= data@);
        true
    }
}

} // verus!
