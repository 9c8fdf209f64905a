//! A device backed by a flat byte memory.
//!
//! The device state is a fixed-size array of bytes, zeroed at construction.
//! A load or store succeeds exactly when the whole access lies inside the
//! memory; a successful load reflects whatever was last stored at those
//! offsets, which makes this the device the round-trip law is stated of.

use vstd::prelude::*;

use crate::plugin::Plugin;

verus! {

/// How many bytes of memory the device has.
pub const RAM_SIZE: usize = 4096;

/// The memory after a store of `data` at `offset`: the stored bytes replace
/// the old ones and every other byte keeps its value.
pub open spec fn mem_after_store(v: Seq<u8>, offset: u64, data: Seq<u8>) -> Seq<u8> {
    Seq::new(
        v.len(),
        |i: int|
            if offset <= i && i < offset + data.len() {
                data[i - offset]
            } else {
                v[i]
            },
    )
}

/// A plugin whose device state is a flat byte memory.
pub struct RamPlugin {
    mem: Vec<u8>,
}

impl View for RamPlugin {
    type V = Seq<u8>;

    closed spec fn view(&self) -> Seq<u8> {
        self.mem@
    }
}

impl Plugin for RamPlugin {
    /// Construction ignores the argument text and zeroes the memory.
    open spec fn from_args_spec(args: Seq<char>) -> Seq<u8> {
        Seq::new(RAM_SIZE as nat, |i: int| 0u8)
    }

    /// The memory never changes size.
    open spec fn wf(v: Seq<u8>) -> bool {
        v.len() == RAM_SIZE
    }

    /// The device accepts every load request; out-of-range ones fail.
    open spec fn load_req(v: Seq<u8>, offset: u64, len: nat) -> bool {
        true
    }

    /// A load succeeds exactly when it lies inside the memory, and then
    /// produces the bytes at its offsets; the memory is unchanged either way.
    open spec fn load_spec(v: Seq<u8>, offset: u64, len: nat) -> (Seq<u8>, Seq<u8>, bool) {
        if offset + len <= v.len() {
            (v, v.subrange(offset as int, offset + len), true)
        } else {
            (v, Seq::empty(), false)
        }
    }

    open spec fn store_req(v: Seq<u8>, offset: u64, data: Seq<u8>) -> bool {
        true
    }

    /// A store succeeds exactly when it lies inside the memory, and then
    /// replaces the bytes at its offsets; a failed store changes nothing.
    open spec fn store_spec(v: Seq<u8>, offset: u64, data: Seq<u8>) -> (Seq<u8>, bool) {
        if offset + data.len() <= v.len() {
            (mem_after_store(v, offset, data), true)
        } else {
            (v, false)
        }
    }

    fn new(args: &str) -> (r: Self) {
        let mut mem: Vec<u8> = Vec::new();
        let mut i: usize = 0;
        while i < RAM_SIZE
            invariant
                i <= RAM_SIZE,
                mem@ =~= Seq::new(i as nat, |k: int| 0u8),
            decreases RAM_SIZE - i,
        {
            mem.push(0);
            i += 1;
        }
        proof {
            assert(mem@ =~= Seq::new(RAM_SIZE as nat, |k: int| 0u8));
        }
        RamPlugin { mem }
    }

    fn load(&mut self, offset: u64, buf: &mut Vec<u8>) -> (r: bool) {
        let n = buf.len();
        if offset > self.mem.len() as u64 {
            return false;
        }
        let off = offset as usize;
        if n > self.mem.len() - off {
            return false;
        }
        let mut k: usize = 0;
        while k < n
            invariant
                k <= n,
                n == buf@.len(),
                off + n <= self.mem@.len(),
                self.mem@.len() == RAM_SIZE,
                self@ == old(self)@,
                buf@.len() == old(buf)@.len(),
                forall|i: int| 0 <= i < k ==> buf@[i] == self.mem@[off + i],
            decreases n - k,
        {
            let b = self.mem[off + k];
            buf[k] = b;
            k += 1;
        }
        proof {
            assert(buf@ =~= self.mem@.subrange(off as int, off + n));
        }
        true
    }

    fn store(&mut self, offset: u64, buf: &[u8]) -> (r: bool) {
        let n = buf.len();
        if offset > self.mem.len() as u64 {
            return false;
        }
        let off = offset as usize;
        if n > self.mem.len() - off {
            return false;
        }
        let mut k: usize = 0;
        while k < n
            invariant
                k <= n,
                n == buf@.len(),
                off + n <= self.mem@.len(),
                self.mem@.len() == RAM_SIZE,
                self.mem@.len() == old(self)@.len(),
                forall|i: int| off <= i < off + k ==> self.mem@[i] == buf@[i - off],
                forall|i: int|
                    0 <= i < self.mem@.len() && !(off <= i < off + k) ==> self.mem@[i] == old(
                        self,
                    )@[i],
            decreases n - k,
        {
            let b = buf[k];
            self.mem[off + k] = b;
            k += 1;
        }
        proof {
            assert(self.mem@ =~= mem_after_store(old(self)@, offset, buf@));
        }
        true
    }
}

/// The round-trip law: storing bytes in the memory and then loading the same
/// number of bytes at the same offset yields exactly the stored bytes, and
/// the load leaves the memory as the store wrote it.
pub proof fn lemma_store_then_load_round_trip(v: Seq<u8>, offset: u64, data: Seq<u8>)
    requires
        <RamPlugin as Plugin>::wf(v),
        1 <= data.len() <= 64,
        offset + data.len() <= v.len(),
    ensures
        ({
            let (v2, stored) = <RamPlugin as Plugin>::store_spec(v, offset, data);
            let (v3, bytes, loaded) = <RamPlugin as Plugin>::load_spec(v2, offset, data.len());
            &&& stored
            &&& loaded
            &&& bytes == data
            &&& v3 == v2
        }),
{
    let (v2, stored) = <RamPlugin as Plugin>::store_spec(v, offset, data);
    let (v3, bytes, loaded) = <RamPlugin as Plugin>::load_spec(v2, offset, data.len());
    assert(bytes =~= data);
}

/// The empty-access law: a load or store of zero bytes leaves the memory
/// untouched, and its answer is pinned down: it succeeds exactly when the
/// offset itself lies inside the memory.
pub proof fn lemma_empty_access(v: Seq<u8>, offset: u64)
    requires
        <RamPlugin as Plugin>::wf(v),
    ensures
        ({
            let (v2, bytes, loaded) = <RamPlugin as Plugin>::load_spec(v, offset, 0);
            &&& v2 == v
            &&& loaded == (offset <= v.len())
            &&& (loaded ==> bytes == Seq::<u8>::empty())
        }),
        ({
            let (v2, stored) = <RamPlugin as Plugin>::store_spec(v, offset, Seq::empty());
            &&& v2 == v
            &&& stored == (offset <= v.len())
        }),
{
    let (v2, bytes, loaded) = <RamPlugin as Plugin>::load_spec(v, offset, 0);
    if loaded {
        assert(bytes =~= Seq::<u8>::empty());
    }
    let (w2, stored) = <RamPlugin as Plugin>::store_spec(v, offset, Seq::empty());
    if stored {
        assert(w2 =~= v);
    }
}

} // verus!
