//! The capability interface a device author implements.
//!
//! A plugin is a small state machine: it is constructed once from an argument
//! string supplied by the simulator, then serves an arbitrary sequence of
//! `load` and `store` calls, and is finally destroyed. Each implementation
//! describes its own behaviour through spec functions over an abstract view
//! of its state, and the executable methods are verified against them.

use vstd::prelude::*;

verus! {

/// High-level interface for defining an MMIO plugin.
///
/// The abstract state of an implementation is its [`View`]; the five spec
/// functions pin down, for that abstract state, exactly what construction
/// yields, which accesses the implementation accepts, and what each accepted
/// access returns and does to the state. The executable methods must follow
/// those spec functions to the letter, so code that drives a plugin only
/// through this trait (the bridge, in particular) forwards the
/// implementation's own success condition unchanged.
pub trait Plugin: Sized + View {
    /// The abstract state a freshly constructed instance has for the given
    /// argument text. Construction is total: invalid arguments must be
    /// absorbed (for instance by falling back to a default), never rejected,
    /// because the simulator has no failure path for construction.
    spec fn from_args_spec(args: Seq<char>) -> Self::V;

    /// Well-formedness of an abstract state. Construction establishes it and
    /// every access preserves it.
    spec fn wf(v: Self::V) -> bool;

    /// Which loads the implementation accepts at all. A call outside this
    /// set has no defined behaviour (the device may abort); callers must
    /// stay inside it.
    spec fn load_req(v: Self::V, offset: u64, len: nat) -> bool;

    /// The state after a load of `len` bytes at `offset`, the bytes the load
    /// produces, and whether it succeeds. On failure the produced bytes are
    /// meaningless and the caller must treat the region as unreadable.
    spec fn load_spec(v: Self::V, offset: u64, len: nat) -> (Self::V, Seq<u8>, bool);

    /// Which stores the implementation accepts at all.
    spec fn store_req(v: Self::V, offset: u64, data: Seq<u8>) -> bool;

    /// The state after a store of `data` at `offset`, and whether it
    /// succeeds. A failed store leaves the state as the spec says, with no
    /// partial-application escape hatch.
    spec fn store_spec(v: Self::V, offset: u64, data: Seq<u8>) -> (Self::V, bool);

    /// Create a new instance of this plugin with the arguments that were
    /// provided.
    fn new(args: &str) -> (r: Self)
        ensures
            r@ == Self::from_args_spec(args@),
            Self::wf(r@),
    ;

    /// Fill the whole `buf` with the bytes located at the given offset.
    ///
    /// Returns `true` if the load succeeded, otherwise `false`. On success
    /// `buf` holds exactly the bytes `load_spec` names; in every case `buf`
    /// keeps its length.
    fn load(&mut self, offset: u64, buf: &mut Vec<u8>) -> (r: bool)
        requires
            Self::wf(old(self)@),
            Self::load_req(old(self)@, offset, old(buf)@.len() as nat),
        ensures
            ({
                let (v2, bytes, ok) = Self::load_spec(old(self)@, offset, old(buf)@.len() as nat);
                &&& final(self)@ == v2
                &&& r == ok
                &&& final(buf)@.len() == old(buf)@.len()
                &&& (r ==> final(buf)@ == bytes)
                &&& Self::wf(final(self)@)
            }),
    ;

    /// Store every byte from `buf` into the device state at `offset`.
    ///
    /// Returns `true` if the store succeeded, otherwise `false`.
    fn store(&mut self, offset: u64, buf: &[u8]) -> (r: bool)
        requires
            Self::wf(old(self)@),
            Self::store_req(old(self)@, offset, buf@),
        ensures
            ({
                let (v2, ok) = Self::store_spec(old(self)@, offset, buf@);
                &&& final(self)@ == v2
                &&& r == ok
                &&& Self::wf(final(self)@)
            }),
    ;
}

} // verus!
