//! Typed views over the value a pointer chain leads to: a single bit of a
//! byte, and a 32-bit little-endian word. Every access resolves the chain
//! anew and is skipped where it does not resolve.

use vstd::prelude::*;
use crate::memory::{Memory, pow256};
use crate::pointer::{PointerChain, walk_reads};

verus! {

/// Whether bit `k` of `b` is set.
pub open spec fn bit_of(b: u8, k: u8) -> bool {
    b & (1u8 << k) != 0
}

/// `b` with bit `k` set to `v` and the other bits kept.
pub open spec fn with_bit(b: u8, k: u8, v: bool) -> u8 {
    if v {
        b | (1u8 << k)
    } else {
        b & !(1u8 << k)
    }
}

pub proof fn lemma_with_bit(b: u8, k: u8, v: bool)
    requires
        k < 8,
    ensures
        bit_of(with_bit(b, k, v), k) == v,
        forall|j: u8| j < 8 && j != k ==> bit_of(with_bit(b, k, v), j) == bit_of(b, j),
        bit_of(b, k) == v ==> with_bit(b, k, v) == b,
{
    assert((b | (1u8 << k)) & (1u8 << k) != 0) by (bit_vector)
        requires
            k < 8,
    ;
    assert((b & !(1u8 << k)) & (1u8 << k) == 0) by (bit_vector)
        requires
            k < 8,
    ;
    assert forall|j: u8| j < 8 && j != k implies bit_of(with_bit(b, k, v), j) == bit_of(b, j) by {
        assert(((b | (1u8 << k)) & (1u8 << j) != 0) == (b & (1u8 << j) != 0)) by (bit_vector)
            requires
                k < 8,
                j < 8,
                j != k,
        ;
        assert(((b & !(1u8 << k)) & (1u8 << j) != 0) == (b & (1u8 << j) != 0)) by (bit_vector)
            requires
                k < 8,
                j < 8,
                j != k,
        ;
    }
    assert(b & (1u8 << k) != 0 ==> b | (1u8 << k) == b) by (bit_vector)
        requires
            k < 8,
    ;
    assert(b & (1u8 << k) == 0 ==> b & !(1u8 << k) == b) by (bit_vector)
        requires
            k < 8,
    ;
}

/// One bit of the byte a pointer chain leads to.
#[derive(Debug, Clone)]
pub struct Bitflag {
    pub chain: PointerChain,
    pub bit: u8,
}

impl View for Bitflag {
    type V = ((u64, Seq<u64>), u8);

    open spec fn view(&self) -> ((u64, Seq<u64>), u8) {
        (self.chain@, self.bit)
    }
}

impl Bitflag {
    /// A copy of this flag.
    pub fn copy(&self) -> (r: Bitflag)
        ensures
            r@ == self@,
    {
        Bitflag { chain: self.chain.copy(), bit: self.bit }
    }

    pub open spec fn wf(self) -> bool {
        self.bit < 8
    }

    /// The bit's value in `mem`, where the chain resolves to a mapped byte.
    pub open spec fn current(self, mem: Memory) -> Option<bool> {
        match self.chain.target(mem) {
            Some(a) => match mem.byte_at(a) {
                Some(b) => Some(bit_of(b, self.bit)),
                None => None,
            },
            None => None,
        }
    }

    /// What a call of `set(v)` that returned `r` did, from `before` to `after`:
    /// the write is made exactly where the flag can be read, and then changes
    /// the bit alone.
    pub open spec fn set_post(self, before: Memory, after: Memory, v: bool, r: bool) -> bool {
        &&& r == self.current(before).is_some()
        &&& r ==> after.byte_at(self.address(before)) == Some(
            with_bit(before.byte_at(self.address(before)).unwrap(), self.bit, v),
        )
        &&& r ==> before.same_outside(after, self.address(before), 1)
        &&& !r ==> after == before
    }

    /// The address of the byte, where the chain resolves.
    pub open spec fn address(self, mem: Memory) -> int {
        self.chain.target(mem).unwrap()
    }

    pub fn new(chain: PointerChain, bit: u8) -> (r: Bitflag)
        requires
            bit < 8,
        ensures
            r.chain == chain,
            r.bit == bit,
            r.wf(),
    {
        Bitflag { chain, bit }
    }

    /// Reads the bit; `None` where the chain does not resolve to a mapped byte.
    pub fn get(&self, mem: &Memory) -> (r: Option<bool>)
        requires
            self.wf(),
        ensures
            r == self.current(*mem),
    {
        match self.chain.resolve(mem) {
            Some(a) => match mem.read_u8(a) {
                Some(b) => Some(b & (1u8 << self.bit) != 0),
                None => None,
            },
            None => None,
        }
    }

    /// Sets the bit to `v`, keeping the other bits of its byte; returns
    /// whether the write was made. Nothing changes where the chain does not
    /// resolve to a mapped byte.
    pub fn set(&self, mem: &mut Memory, v: bool) -> (r: bool)
        requires
            self.wf(),
        ensures
            self.set_post(*old(mem), *final(mem), v, r),
    {
        let a = match self.chain.resolve(mem) {
            Some(a) => a,
            None => return false,
        };
        let b = match mem.read_u8(a) {
            Some(b) => b,
            None => return false,
        };
        let nb = if v {
            b | (1u8 << self.bit)
        } else {
            b & !(1u8 << self.bit)
        };
        mem.write_u8(a, nb)
    }

    /// Whether the chain currently resolves to a mapped byte.
    pub fn is_valid(&self, mem: &Memory) -> (r: bool)
        requires
            self.wf(),
        ensures
            r == self.current(*mem).is_some(),
    {
        self.get(mem).is_some()
    }
}

/// After `set(v)` on a flag whose chain does not read its own byte, `get`
/// returns `v`; the other bits of the byte are kept, and setting the bit to
/// the value it has changes nothing.
pub proof fn lemma_bitflag_set_get(f: Bitflag, mem: Memory, after: Memory, v: bool)
    requires
        f.wf(),
        f.current(mem).is_some(),
        !walk_reads(mem, f.chain.base as int, f.chain.offsets@, f.address(mem)),
        mem.same_outside(after, f.address(mem), 1),
        after.byte_at(f.address(mem)) == Some(
            with_bit(mem.byte_at(f.address(mem)).unwrap(), f.bit, v),
        ),
    ensures
        f.current(after) == Some(v),
        f.chain.target(after) == f.chain.target(mem),
        forall|j: u8|
            j < 8 && j != f.bit ==> bit_of(after.byte_at(f.address(mem)).unwrap(), j) == bit_of(
                mem.byte_at(f.address(mem)).unwrap(),
                j,
            ),
        f.current(mem) == Some(v) ==> after.bytes@ == mem.bytes@,
{
    let a = f.address(mem);
    crate::pointer::lemma_walk_unchanged(mem, after, f.chain.base as int, f.chain.offsets@, a);
    lemma_with_bit(mem.byte_at(a).unwrap(), f.bit, v);
    if f.current(mem) == Some(v) {
        assert(after.bytes@ =~= mem.bytes@);
    }
}

/// A 32-bit little-endian word that a pointer chain leads to.
#[derive(Debug, Clone)]
pub struct WordCell {
    pub chain: PointerChain,
}

impl View for WordCell {
    type V = (u64, Seq<u64>);

    open spec fn view(&self) -> (u64, Seq<u64>) {
        self.chain@
    }
}

impl WordCell {
    /// A copy of this cell.
    pub fn copy(&self) -> (r: WordCell)
        ensures
            r@ == self@,
    {
        WordCell { chain: self.chain.copy() }
    }

    /// The word's value in `mem`, where the chain resolves to four mapped bytes.
    pub open spec fn current(self, mem: Memory) -> Option<nat> {
        match self.chain.target(mem) {
            Some(a) => mem.value_at(a, 4),
            None => None,
        }
    }

    /// What a call of `write(v)` that returned `r` did, from `before` to
    /// `after`: the write is made exactly where the word can be read, and then
    /// changes those four bytes alone.
    pub open spec fn write_post(self, before: Memory, after: Memory, v: u32, r: bool) -> bool {
        &&& r == self.current(before).is_some()
        &&& r ==> after.value_at(self.chain.target(before).unwrap(), 4) == Some(v as nat)
        &&& r ==> before.same_outside(after, self.chain.target(before).unwrap(), 4)
        &&& !r ==> after == before
    }

    pub fn new(chain: PointerChain) -> (r: WordCell)
        ensures
            r.chain == chain,
    {
        WordCell { chain }
    }

    /// Reads the word; `None` where the chain does not resolve to mapped bytes.
    pub fn read(&self, mem: &Memory) -> (r: Option<u32>)
        ensures
            match r {
                Some(v) => self.current(*mem) == Some(v as nat),
                None => self.current(*mem).is_none(),
            },
    {
        match self.chain.resolve(mem) {
            Some(a) => match mem.read_le(a, 4) {
                Some(v) => {
                    proof {
                        crate::memory::lemma_le_value_bound(mem.bytes_at(a as int, 4).unwrap());
                        crate::memory::lemma_pow256_8();
                    }
                    Some(v as u32)
                },
                None => None,
            },
            None => None,
        }
    }

    /// Writes `v`; returns whether the write was made. Nothing changes where
    /// the chain does not resolve to mapped bytes.
    pub fn write(&self, mem: &mut Memory, v: u32) -> (r: bool)
        ensures
            self.write_post(*old(mem), *final(mem), v, r),
    {
        match self.chain.resolve(mem) {
            Some(a) => {
                proof {
                    crate::memory::lemma_pow256_8();
                }
                mem.write_le(a, v as u64, 4)
            },
            None => false,
        }
    }

    /// Whether the chain currently resolves to four mapped bytes.
    pub fn is_valid(&self, mem: &Memory) -> (r: bool)
        ensures
            r == self.current(*mem).is_some(),
    {
        self.read(mem).is_some()
    }
}

} // verus!
