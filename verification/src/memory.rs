//! A partial copy of another process's memory, and typed reads from it.

use std::collections::HashMap;
use vstd::prelude::*;
use vstd::utf8::{decode_utf8, valid_utf8};

use crate::bytes::{decode_u32, decode_u64, le_u32, le_u64};
use crate::error::TraceError;
use crate::text::{lossy_utf8, string_from_utf8_lossy};

verus! {

broadcast use vstd::std_specs::hash::group_hash_axioms;

/// The address `delta` bytes after `base`; addresses wrap around at 2^64.
pub open spec fn at(base: u64, delta: int) -> u64 {
    ((base + delta) % 0x1_0000_0000_0000_0000) as u64
}

/// Whether `mem` holds every byte of the `len` bytes that start at `addr`.
pub open spec fn readable(mem: Map<u64, u8>, addr: u64, len: nat) -> bool {
    forall|i: int| 0 <= i < len ==> mem.contains_key(#[trigger] at(addr, i))
}

/// The `len` bytes that start at `addr`.
pub open spec fn bytes_at(mem: Map<u64, u8>, addr: u64, len: nat) -> Seq<u8> {
    Seq::new(len, |i: int| mem[at(addr, i)])
}

/// `mem` after `bytes` were written to it from `addr` on, one after the other.
pub open spec fn overlay(mem: Map<u64, u8>, addr: u64, bytes: Seq<u8>) -> Map<u64, u8>
    decreases bytes.len(),
{
    if bytes.len() == 0 {
        mem
    } else {
        overlay(mem, addr, bytes.drop_last()).insert(at(addr, bytes.len() - 1), bytes.last())
    }
}

/// The bytes at `addr`, or the range that is missing.
pub open spec fn fetch(mem: Map<u64, u8>, addr: u64, len: nat) -> Result<Seq<u8>, TraceError> {
    if readable(mem, addr, len) {
        Ok(bytes_at(mem, addr, len))
    } else {
        Err(TraceError::Unreadable { addr, len: len as u64 })
    }
}

/// The byte at `addr`.
pub open spec fn fetch_u8(mem: Map<u64, u8>, addr: u64) -> Result<u8, TraceError> {
    match fetch(mem, addr, 1) {
        Ok(b) => Ok(b[0]),
        Err(e) => Err(e),
    }
}

/// The little-endian 32-bit number at `addr`.
pub open spec fn fetch_u32(mem: Map<u64, u8>, addr: u64) -> Result<u32, TraceError> {
    match fetch(mem, addr, 4) {
        Ok(b) => Ok(le_u32(b, 0)),
        Err(e) => Err(e),
    }
}

/// The little-endian 64-bit number at `addr`.
pub open spec fn fetch_u64(mem: Map<u64, u8>, addr: u64) -> Result<u64, TraceError> {
    match fetch(mem, addr, 8) {
        Ok(b) => Ok(le_u64(b, 0)),
        Err(e) => Err(e),
    }
}

/// The bytes of an image, by address. Only the addresses that were copied
/// from the process are present.
pub struct MemoryImage {
    cells: HashMap<u64, u8>,
}

impl View for MemoryImage {
    type V = Map<u64, u8>;

    closed spec fn view(&self) -> Map<u64, u8> {
        self.cells@
    }
}

impl MemoryImage {
    /// An image that holds nothing yet.
    pub fn new() -> (image: Self)
        ensures
            image@ == Map::<u64, u8>::empty(),
    {
        MemoryImage { cells: HashMap::new() }
    }

    /// Writes `bytes` to the image from `addr` on, over what was there.
    pub fn insert(&mut self, addr: u64, bytes: &[u8])
        ensures
            final(self)@ == overlay(old(self)@, addr, bytes@),
    {
        let mut i: usize = 0;
        while i < bytes.len()
            invariant
                i <= bytes.len(),
                self@ == overlay(old(self)@, addr, bytes@.take(i as int)),
            decreases bytes.len() - i,
        {
            let target: u64 = addr.wrapping_add(i as u64);
            self.cells.insert(target, bytes[i]);
            proof {
                let next = bytes@.take(i + 1);
                assert(next.drop_last() =~= bytes@.take(i as int));
                assert(next.last() == bytes@[i as int]);
                assert(target == at(addr, i as int));
            }
            i += 1;
        }
        proof {
            assert(bytes@.take(bytes@.len() as int) =~= bytes@);
        }
    }

    /// The byte at `addr`, if the image holds it.
    pub fn byte(&self, addr: u64) -> (b: Option<u8>)
        ensures
            b == (if self@.contains_key(addr) { Some(self@[addr]) } else { None::<u8> }),
    {
        match self.cells.get(&addr) {
            Some(v) => Some(*v),
            None => None,
        }
    }

    /// Copies `len` bytes from `addr` on out of the image.
    pub fn read_bytes(&self, addr: u64, len: usize) -> (r: Result<Vec<u8>, TraceError>)
        ensures
            match fetch(self@, addr, len as nat) {
                Ok(b) => r is Ok && r->Ok_0@ == b,
                Err(e) => r == Err::<Vec<u8>, TraceError>(e),
            },
    {
        let mut out: Vec<u8> = Vec::new();
        let mut i: usize = 0;
        while i < len
            invariant
                i <= len,
                out@.len() == i,
                forall|j: int| 0 <= j < i ==> self@.contains_key(#[trigger] at(addr, j)),
                forall|j: int| 0 <= j < i ==> out@[j] == self@[at(addr, j)],
            decreases len - i,
        {
            let target: u64 = addr.wrapping_add(i as u64);
            assert(target == at(addr, i as int));
            match self.byte(target) {
                Some(b) => {
                    out.push(b);
                },
                None => {
                    return Err(TraceError::Unreadable { addr, len: len as u64 });
                },
            }
            i += 1;
        }
        assert(out@ =~= bytes_at(self@, addr, len as nat));
        Ok(out)
    }
}

/// The longest C string that is read, in bytes.
pub const C_STRING_LIMIT: usize = 100;

/// Puts `head` in front of the bytes that `rest` gives, if it gives any.
pub open spec fn after(head: Seq<u8>, rest: Result<Seq<u8>, TraceError>) -> Result<
    Seq<u8>,
    TraceError,
> {
    match rest {
        Ok(tail) => Ok(head + tail),
        Err(e) => Err(e),
    }
}

/// The bytes of the C string at `addr` from its `i`-th byte on: they end before
/// the first zero byte, and after `C_STRING_LIMIT` bytes of the string at the
/// latest. A byte that the image lacks before that is reported with the rest of
/// the range that may still belong to the string.
pub open spec fn c_string_from(mem: Map<u64, u8>, addr: u64, i: nat) -> Result<Seq<u8>, TraceError>
    decreases C_STRING_LIMIT - i,
{
    if i >= C_STRING_LIMIT {
        Ok(Seq::empty())
    } else if !mem.contains_key(at(addr, i as int)) {
        Err(TraceError::Unreadable { addr: at(addr, i as int), len: (C_STRING_LIMIT - i) as u64 })
    } else if mem[at(addr, i as int)] == 0 {
        Ok(Seq::empty())
    } else {
        after(seq![mem[at(addr, i as int)]], c_string_from(mem, addr, i + 1))
    }
}

/// The bytes of the C string at `addr`.
pub open spec fn c_string(mem: Map<u64, u8>, addr: u64) -> Result<Seq<u8>, TraceError> {
    c_string_from(mem, addr, 0)
}

/// A C string has at most `C_STRING_LIMIT` bytes and none of them is zero.
pub proof fn lemma_c_string_shape(mem: Map<u64, u8>, addr: u64)
    ensures
        c_string(mem, addr) matches Ok(s) ==> s.len() <= C_STRING_LIMIT && forall|j: int|
            0 <= j < s.len() ==> s[j] != 0,
{
    lemma_c_string_tail_shape(mem, addr, 0);
}

/// What is left of a C string after its first `i` bytes has at most
/// `C_STRING_LIMIT - i` bytes and none of them is zero.
proof fn lemma_c_string_tail_shape(mem: Map<u64, u8>, addr: u64, i: nat)
    requires
        i <= C_STRING_LIMIT,
    ensures
        c_string_from(mem, addr, i) matches Ok(s) ==> s.len() + i <= C_STRING_LIMIT && forall|
            j: int,
        |
            0 <= j < s.len() ==> s[j] != 0,
    decreases C_STRING_LIMIT - i,
{
    if i < C_STRING_LIMIT && mem.contains_key(at(addr, i as int)) && mem[at(addr, i as int)] != 0 {
        lemma_c_string_tail_shape(mem, addr, i + 1);
    }
}

/// Whether `after` holds at `a` what `before` holds there.
pub open spec fn untouched(before: Map<u64, u8>, after: Map<u64, u8>, a: u64) -> bool {
    &&& after.contains_key(a) <==> before.contains_key(a)
    &&& before.contains_key(a) ==> after[a] == before[a]
}

/// What was written to an image reads back from it, and the addresses that
/// were not written to hold what they held.
pub proof fn lemma_overlay_fetch(mem: Map<u64, u8>, addr: u64, bytes: Seq<u8>)
    requires
        bytes.len() <= 0x1_0000_0000_0000_0000,
    ensures
        fetch(overlay(mem, addr, bytes), addr, bytes.len()) == Ok::<Seq<u8>, TraceError>(bytes),
        forall|a: u64|
            (forall|i: int| 0 <= i < bytes.len() ==> a != #[trigger] at(addr, i)) ==> untouched(
                mem,
                #[trigger] overlay(mem, addr, bytes),
                a,
            ),
    decreases bytes.len(),
{
    if bytes.len() > 0 {
        let front = bytes.drop_last();
        let n = bytes.len() - 1;
        lemma_overlay_fetch(mem, addr, front);
        let before = overlay(mem, addr, front);
        let now = overlay(mem, addr, bytes);
        assert(now == before.insert(at(addr, n), bytes.last()));
        assert(readable(before, addr, front.len()));
        assert forall|i: int| 0 <= i < bytes.len() implies now.contains_key(
            #[trigger] at(addr, i),
        ) && now[at(addr, i)] == bytes[i] by {
            if i < n {
                assert(at(addr, i) != at(addr, n));
                assert(before.contains_key(at(addr, i)));
                assert(bytes_at(before, addr, front.len())[i] == front[i]);
            }
        }
        assert(bytes_at(now, addr, bytes.len()) =~= bytes);
        assert forall|a: u64|
            (forall|i: int| 0 <= i < bytes.len() ==> a != #[trigger] at(addr, i)) implies untouched(
            mem,
            now,
            a,
        ) by {
            assert(a != at(addr, n));
            assert forall|i: int| 0 <= i < front.len() implies a != #[trigger] at(addr, i) by {}
            assert(untouched(mem, before, a));
        }
    } else {
        assert(bytes_at(mem, addr, 0) =~= bytes);
    }
}

/// The address `delta` bytes after `base`.
pub fn offset(base: u64, delta: u64) -> (a: u64)
    ensures
        a == at(base, delta as int),
{
    base.wrapping_add(delta)
}

/// The address of the `index`-th of the 8-byte slots that start at `base`.
pub fn slot(base: u64, index: u64) -> (a: u64)
    ensures
        a == at(base, 8 * index),
{
    let scaled: u64 = index.wrapping_mul(8);
    assert(scaled as int == (8 * index) % 0x1_0000_0000_0000_0000);
    base.wrapping_add(scaled)
}

/// Going on from an address by two steps is going on by their sum.
pub proof fn lemma_at_at(base: u64, first: int, second: int)
    ensures
        at(at(base, first), second) == at(base, first + second),
{
}

/// The byte at `addr`.
pub fn read_u8(image: &MemoryImage, addr: u64) -> (r: Result<u8, TraceError>)
    ensures
        r == fetch_u8(image@, addr),
{
    match image.read_bytes(addr, 1) {
        Ok(b) => Ok(b[0]),
        Err(e) => Err(e),
    }
}

/// The little-endian 32-bit number at `addr`.
pub fn read_u32(image: &MemoryImage, addr: u64) -> (r: Result<u32, TraceError>)
    ensures
        r == fetch_u32(image@, addr),
{
    match image.read_bytes(addr, 4) {
        Ok(b) => Ok(decode_u32(b.as_slice(), 0)),
        Err(e) => Err(e),
    }
}

/// The little-endian 64-bit number at `addr`.
pub fn read_u64(image: &MemoryImage, addr: u64) -> (r: Result<u64, TraceError>)
    ensures
        r == fetch_u64(image@, addr),
{
    match image.read_bytes(addr, 8) {
        Ok(b) => Ok(decode_u64(b.as_slice(), 0)),
        Err(e) => Err(e),
    }
}

/// The bytes of the C string at `addr`, without the zero byte that ends it.
pub fn read_c_string(image: &MemoryImage, addr: u64) -> (r: Result<Vec<u8>, TraceError>)
    ensures
        match c_string(image@, addr) {
            Ok(s) => r is Ok && r->Ok_0@ == s,
            Err(e) => r == Err::<Vec<u8>, TraceError>(e),
        },
        r matches Ok(bytes) ==> bytes@.len() <= C_STRING_LIMIT && forall|j: int|
            0 <= j < bytes@.len() ==> bytes@[j] != 0,
{
    proof {
        lemma_c_string_shape(image@, addr);
    }
    let mut out: Vec<u8> = Vec::new();
    let mut i: usize = 0;
    while i < C_STRING_LIMIT
        invariant
            i <= C_STRING_LIMIT,
            out@.len() == i,
            c_string(image@, addr) == after(out@, c_string_from(image@, addr, i as nat)),
            c_string(image@, addr) matches Ok(s) ==> s.len() <= C_STRING_LIMIT && forall|j: int|
                0 <= j < s.len() ==> s[j] != 0,
        decreases C_STRING_LIMIT - i,
    {
        let target: u64 = addr.wrapping_add(i as u64);
        assert(target == at(addr, i as int));
        match image.byte(target) {
            None => {
                return Err(
                    TraceError::Unreadable { addr: target, len: (C_STRING_LIMIT - i) as u64 },
                );
            },
            Some(b) => {
                if b == 0 {
                    assert(out@ + Seq::<u8>::empty() =~= out@);
                    return Ok(out);
                }
                proof {
                    let rest = c_string_from(image@, addr, (i + 1) as nat);
                    if let Ok(tail) = rest {
                        assert(out@.push(b) + tail =~= out@ + (seq![b] + tail));
                    }
                }
                out.push(b);
            },
        }
        i += 1;
    }
    assert(out@ + Seq::<u8>::empty() =~= out@);
    Ok(out)
}

/// The text of the C string at `addr`. Bytes that are no valid UTF-8 become
/// U+FFFD.
pub fn read_string(image: &MemoryImage, addr: u64) -> (r: Result<String, TraceError>)
    ensures
        match c_string(image@, addr) {
            Ok(s) => r is Ok && r->Ok_0@ == lossy_utf8(s) && (valid_utf8(s) ==> r->Ok_0@
                == decode_utf8(s)),
            Err(e) => r == Err::<String, TraceError>(e),
        },
{
    match read_c_string(image, addr) {
        Ok(bytes) => Ok(string_from_utf8_lossy(bytes.as_slice())),
        Err(e) => Err(e),
    }
}

/// An address in the process, to read from.
pub struct MemPtr(u64);

impl MemPtr {
    /// The address that this pointer holds.
    pub closed spec fn addr(&self) -> u64 {
        self.0
    }

    /// A pointer to `addr`.
    pub fn new(addr: u64) -> (p: Self)
        ensures
            p.addr() == addr,
    {
        Self(addr)
    }

    /// The address that this pointer holds.
    pub fn address(&self) -> (a: u64)
        ensures
            a == self.addr(),
    {
        self.0
    }

    /// Copies the `len` bytes that the pointer points to out of the image.
    pub fn read(&self, image: &MemoryImage, len: usize) -> (r: Result<Vec<u8>, TraceError>)
        ensures
            match fetch(image@, self.addr(), len as nat) {
                Ok(b) => r is Ok && r->Ok_0@ == b,
                Err(e) => r == Err::<Vec<u8>, TraceError>(e),
            },
    {
        image.read_bytes(self.0, len)
    }

    /// Fills `out` with the bytes that the pointer points to, as many as `out`
    /// holds. Where the image lacks one of them, `out` stays as it was.
    pub fn read_into(&self, image: &MemoryImage, out: &mut Vec<u8>) -> (r: Result<(), TraceError>)
        ensures
            match fetch(image@, self.addr(), old(out)@.len()) {
                Ok(b) => r is Ok && final(out)@ == b,
                Err(e) => r == Err::<(), TraceError>(e) && final(out)@ == old(out)@,
            },
    {
        match image.read_bytes(self.0, out.len()) {
            Ok(b) => {
                *out = b;
                Ok(())
            },
            Err(e) => Err(e),
        }
    }
}

} // verus!
