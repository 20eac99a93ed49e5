//! Detection of the running game version from byte signatures of its main
//! module, which yields the table of base addresses for that version.

use vstd::prelude::*;
use crate::memory::Memory;

verus! {

/// A version of the game.
#[derive(Debug, Clone, Copy, PartialEq, Eq, Structural)]
pub struct Version {
    pub major: u32,
    pub minor: u32,
    pub patch: u32,
}

/// A known version: the bytes found at `offset` from the module's start, and
/// where each region lies from that start.
#[derive(Debug, Clone)]
pub struct Signature {
    pub version: Version,
    pub offset: u64,
    pub pattern: Vec<u8>,
    pub region_offsets: Vec<u64>,
}

/// The detected version and the absolute address of each region, by index.
#[derive(Debug, Clone)]
pub struct BaseAddresses {
    pub version: Version,
    pub regions: Vec<u64>,
}

/// Detection failed: no known signature matches the module.
#[derive(Debug, Clone, Copy, PartialEq, Eq, Structural)]
pub enum DetectError {
    UnknownVersion,
}

/// Whether `sig` matches `module`: its pattern lies at its offset, and that
/// offset and every region lie within the address space.
pub open spec fn sig_matches(module: Memory, sig: Signature) -> bool {
    &&& module.start + sig.offset <= u64::MAX
    &&& module.bytes_at(module.start + sig.offset, sig.pattern@.len()) == Some(sig.pattern@)
    &&& forall|k: int|
        0 <= k < sig.region_offsets@.len() ==> module.start + #[trigger] sig.region_offsets@[k]
            <= u64::MAX
}

/// Whether `b` is the table that `sig` gives for `module`.
pub open spec fn table_of(module: Memory, sig: Signature, b: BaseAddresses) -> bool {
    &&& b.version == sig.version
    &&& b.regions@.len() == sig.region_offsets@.len()
    &&& forall|k: int|
        0 <= k < b.regions@.len() ==> #[trigger] b.regions@[k] == module.start
            + sig.region_offsets@[k]
}

/// Whether the bytes at `addr` in `module` are `pattern`.
fn pattern_at(module: &Memory, addr: u64, pattern: &Vec<u8>) -> (r: bool)
    ensures
        r == (module.bytes_at(addr as int, pattern@.len()) == Some(pattern@)),
{
    let n = pattern.len();
    if !module.has_range(addr, n) {
        return false;
    }
    let mut i: usize = 0;
    while i < n
        invariant
            i <= n == pattern@.len(),
            module.bytes_at(addr as int, n as nat).is_some(),
            forall|j: int| 0 <= j < i ==> #[trigger] module.byte_at(addr + j) == Some(pattern@[j]),
        decreases n - i,
    {
        let b = module.read_u8(addr + i as u64);
        if b != Some(pattern[i]) {
            proof {
                let s = module.bytes_at(addr as int, n as nat).unwrap();
                assert(s[i as int] == module.bytes@[addr + i - module.start]);
                assert(s != pattern@);
            }
            return false;
        }
        i = i + 1;
    }
    proof {
        let s = module.bytes_at(addr as int, n as nat).unwrap();
        assert forall|j: int| 0 <= j < n implies s[j] == pattern@[j] by {
            assert(module.byte_at(addr + j) == Some(pattern@[j]));
        }
        assert(s =~= pattern@);
    }
    true
}

/// Whether every region offset of `sig` lies within the address space from
/// `start`.
fn regions_fit(start: u64, sig: &Signature) -> (r: bool)
    ensures
        r == forall|k: int|
            0 <= k < sig.region_offsets@.len() ==> start + #[trigger] sig.region_offsets@[k]
                <= u64::MAX,
{
    let mut k: usize = 0;
    while k < sig.region_offsets.len()
        invariant
            k <= sig.region_offsets@.len(),
            forall|j: int| 0 <= j < k ==> start + #[trigger] sig.region_offsets@[j] <= u64::MAX,
        decreases sig.region_offsets@.len() - k,
    {
        if sig.region_offsets[k] > u64::MAX - start {
            return false;
        }
        k = k + 1;
    }
    true
}

/// Finds the first known signature that matches `module` and gives its
/// version and region addresses; `UnknownVersion` where none matches.
pub fn detect_version(module: &Memory, known: &Vec<Signature>) -> (r: Result<
    BaseAddresses,
    DetectError,
>)
    ensures
        match r {
            Ok(b) => exists|i: int|
                0 <= i < known@.len() && sig_matches(*module, #[trigger] known@[i]) && (forall|j: int|
                    0 <= j < i ==> !sig_matches(*module, #[trigger] known@[j])) && table_of(
                    *module,
                    known@[i],
                    b,
                ),
            Err(e) => e == DetectError::UnknownVersion && forall|i: int|
                0 <= i < known@.len() ==> !sig_matches(*module, #[trigger] known@[i]),
        },
{
    let mut i: usize = 0;
    while i < known.len()
        invariant
            i <= known@.len(),
            forall|j: int| 0 <= j < i ==> !sig_matches(*module, #[trigger] known@[j]),
        decreases known@.len() - i,
    {
        let sig = &known[i];
        if sig.offset <= u64::MAX - module.start && regions_fit(module.start, sig) && pattern_at(
            module,
            module.start + sig.offset,
            &sig.pattern,
        ) {
            let mut regions: Vec<u64> = Vec::new();
            let mut k: usize = 0;
            while k < sig.region_offsets.len()
                invariant
                    k <= sig.region_offsets@.len(),
                    regions@.len() == k,
                    forall|j: int|
                        0 <= j < sig.region_offsets@.len() ==> module.start
                            + #[trigger] sig.region_offsets@[j] <= u64::MAX,
                    forall|j: int|
                        0 <= j < k ==> #[trigger] regions@[j] == module.start
                            + sig.region_offsets@[j],
                decreases sig.region_offsets@.len() - k,
            {
                regions.push(module.start + sig.region_offsets[k]);
                k = k + 1;
            }
            let b = BaseAddresses { version: sig.version, regions };
            assert(table_of(*module, known@[i as int], b));
            return Ok(b);
        }
        i = i + 1;
    }
    Err(DetectError::UnknownVersion)
}

impl BaseAddresses {
    /// The address of region `k`, if there is one.
    pub fn region(&self, k: usize) -> (r: Option<u64>)
        ensures
            r == if k < self.regions@.len() {
                Some(self.regions@[k as int])
            } else {
                None
            },
    {
        if k < self.regions.len() {
            Some(self.regions[k])
        } else {
            None
        }
    }
}

} // verus!
