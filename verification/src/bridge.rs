//! The typed cores of the four functions the simulator calls.
//!
//! The simulator speaks a C-shaped convention: an argument pointer for
//! allocation, an opaque handle plus a raw buffer for loads and stores. A
//! thin unsafe layer outside this crate turns those raw values into plain
//! ones (byte slices, vectors, exclusive references) and forwards to the
//! functions here, which do everything that can be stated and checked:
//! decoding the argument bytes, constructing the instance, and passing each
//! access through to the plugin without altering its answer.

use vstd::prelude::*;

use crate::plugin::Plugin;

verus! {

/// The text that lossy decoding yields for a byte string. Valid sequences
/// decode to their characters and invalid ones are substituted, so decoding
/// never fails; the exact mapping is the decoder's.
pub uninterp spec fn lossy_decode(bytes: Seq<u8>) -> Seq<char>;

/// Whether every byte is plain ASCII.
pub open spec fn all_ascii(bytes: Seq<u8>) -> bool {
    forall|i: int| 0 <= i < bytes.len() ==> bytes[i] < 0x80
}

/// The characters an ASCII byte string spells.
pub open spec fn ascii_chars(bytes: Seq<u8>) -> Seq<char> {
    bytes.map(|i: int, b: u8| b as char)
}

/// Relies on `String::from_utf8_lossy`: it decodes any byte string, replacing
/// invalid sequences with the replacement character, and never fails; bytes
/// that already are valid UTF-8 (all of ASCII included) decode to themselves.
#[verifier::external_body]
fn decode_lossy(bytes: &[u8]) -> (r: String)
    ensures
        r@ == lossy_decode(bytes@),
        all_ascii(bytes@) ==> r@ == ascii_chars(bytes@),
{
    String::from_utf8_lossy(bytes).into_owned()
}

/// The core of the allocation trampoline: decode the simulator's argument
/// bytes permissively and construct the plugin instance from the resulting
/// text. Total: no argument byte string can make it fail. When the argument
/// is plain ASCII, the decoded text is exactly its characters.
pub fn bridge_alloc<T: Plugin>(args: &[u8]) -> (r: T)
    ensures
        r@ == T::from_args_spec(lossy_decode(args@)),
        T::wf(r@),
        all_ascii(args@) ==> r@ == T::from_args_spec(ascii_chars(args@)),
{
    let text = decode_lossy(args);
    T::new(text.as_str())
}

/// The core of the load trampoline: pass the access through to the plugin
/// and hand its answer back unchanged, with the buffer filled exactly as the
/// plugin's own spec says on success.
pub fn bridge_load<T: Plugin>(plugin: &mut T, offset: u64, buf: &mut Vec<u8>) -> (r: bool)
    requires
        T::wf(old(plugin)@),
        T::load_req(old(plugin)@, offset, old(buf)@.len() as nat),
    ensures
        ({
            let (v2, bytes, ok) = T::load_spec(old(plugin)@, offset, old(buf)@.len() as nat);
            &&& final(plugin)@ == v2
            &&& r == ok
            &&& final(buf)@.len() == old(buf)@.len()
            &&& (r ==> final(buf)@ == bytes)
            &&& T::wf(final(plugin)@)
        }),
{
    plugin.load(offset, buf)
}

/// The core of the store trampoline: pass the access through to the plugin
/// and hand its answer back unchanged.
pub fn bridge_store<T: Plugin>(plugin: &mut T, offset: u64, buf: &[u8]) -> (r: bool)
    requires
        T::wf(old(plugin)@),
        T::store_req(old(plugin)@, offset, buf@),
    ensures
        ({
            let (v2, ok) = T::store_spec(old(plugin)@, offset, buf@);
            &&& final(plugin)@ == v2
            &&& r == ok
            &&& T::wf(final(plugin)@)
        }),
{
    plugin.store(offset, buf)
}

/// The core of the deallocation trampoline: take back exclusive ownership of
/// the instance and end its life. Total, so tearing an instance down right
/// after constructing it, or after any sequence of accesses, can never fail;
/// the unsafe rim only reclaims the heap cell around the instance.
pub fn bridge_dealloc<T: Plugin>(plugin: T) {
}

/// Prepare a registration name for the simulator: names cross the boundary
/// null-terminated, so a name containing a null byte cannot be registered at
/// all, and any other name gets the terminator appended.
pub fn make_c_name(name: &[u8]) -> (r: Option<Vec<u8>>)
    ensures
        match r {
            Some(v) => {
                &&& forall|i: int| 0 <= i < name@.len() ==> name@[i] != 0
                &&& v@ == name@.push(0u8)
            },
            None => exists|i: int| 0 <= i < name@.len() && name@[i] == 0,
        },
{
    let n = name.len();
    let mut out: Vec<u8> = Vec::new();
    let mut k: usize = 0;
    while k < n
        invariant
            k <= n,
            n == name@.len(),
            out@ == name@.subrange(0, k as int),
            forall|i: int| 0 <= i < k ==> name@[i] != 0,
        decreases n - k,
    {
        let b = name[k];
        if b == 0 {
            return None;
        }
        out.push(b);
        proof {
            assert(out@ =~= name@.subrange(0, k + 1));
        }
        k += 1;
    }
    out.push(0);
    proof {
        assert(name@.subrange(0, n as int) =~= name@);
        assert(out@ =~= name@.push(0u8));
    }
    Some(out)
}

} // verus!
