//! The Mono runtime's metadata, as it lies in the memory of the process:
//! the class cache, classes, their fields and their static storage.

use vstd::prelude::*;
use vstd::string::StringSliceAdditionalSpecFns;
use vstd::utf8::{decode_utf8, valid_utf8};

use crate::bytes::{decode_u16, decode_u32, decode_u64, le_u16, le_u32, le_u64};
use crate::error::TraceError;
use crate::memory::{
    at, c_string, fetch, fetch_u32, fetch_u64, fetch_u8, lemma_at_at, offset, read_c_string,
    read_u32, read_u64, read_u8, slot, MemoryImage,
};
use crate::text::{
    all_plain, bytes_equal, lossy_utf16, lossy_utf8, plain_text, string_from_utf16_lossy,
    string_from_utf8_lossy,
};

verus! {

/// Where a class keeps the byte whose low three bits are its kind.
pub const CLASS_KIND: u64 = 0x24;

/// Where a class keeps the pointer to its name, a C string.
pub const CLASS_NAME: u64 = 0x40;

/// Where a class keeps the size of its vtable.
pub const CLASS_VTABLE_SIZE: u64 = 0x54;

/// Where a class keeps the pointer to its field table.
pub const CLASS_FIELDS: u64 = 0x90;

/// Where a class keeps the pointer to its per-domain runtime info.
pub const CLASS_RUNTIME_INFO: u64 = 0xC8;

/// Where an instantiation of a generic class keeps the pointer to the record
/// that starts with the pointer to the generic definition.
pub const CLASS_GENERIC: u64 = 0xE0;

/// Where a class keeps the number of its fields.
pub const CLASS_FIELD_COUNT: u64 = 0xF0;

/// Where a class keeps the link to the next class of its bucket.
pub const CLASS_NEXT: u64 = 0xF8;

/// Where the class cache keeps the pointer to its table of buckets.
pub const CACHE_TABLE: u64 = 0x20;

/// Where the table of buckets keeps the number of buckets.
pub const TABLE_SIZE: u64 = 0x18;

/// The most classes that are visited in one bucket: as many as there are
/// addresses other than null. A chain that ends visits no address twice, so
/// only a chain that runs in a circle is longer.
pub const MAX_CHAIN_LENGTH: u64 = 0xFFFF_FFFF_FFFF_FFFF;

/// The most instantiations that are followed to reach a generic definition:
/// as many as the counter can count, which is more than there are addresses.
/// Only instantiations that lead back to one of themselves lead so far.
pub const MAX_GENERIC_DEPTH: u128 = 0xFFFF_FFFF_FFFF_FFFF_FFFF_FFFF_FFFF_FFFF;

/// The kinds of class that the runtime knows.
#[derive(Clone, Copy, Debug, PartialEq, Eq, Structural)]
pub enum MonoTypeKind {
    MonoClassDef,
    MonoClassGTD,
    MonoClassGInst,
    MonoClassGParam,
    MonoClassArray,
    MonoClassPointer,
}

impl MonoTypeKind {
    /// The number that the runtime stores for this kind.
    pub open spec fn code(self) -> u8 {
        match self {
            MonoTypeKind::MonoClassDef => 1,
            MonoTypeKind::MonoClassGTD => 2,
            MonoTypeKind::MonoClassGInst => 3,
            MonoTypeKind::MonoClassGParam => 4,
            MonoTypeKind::MonoClassArray => 5,
            MonoTypeKind::MonoClassPointer => 6,
        }
    }

    /// The kind that the runtime stores as `v`, if there is one.
    pub open spec fn of_code(v: u8) -> Option<MonoTypeKind> {
        if v == 1 {
            Some(MonoTypeKind::MonoClassDef)
        } else if v == 2 {
            Some(MonoTypeKind::MonoClassGTD)
        } else if v == 3 {
            Some(MonoTypeKind::MonoClassGInst)
        } else if v == 4 {
            Some(MonoTypeKind::MonoClassGParam)
        } else if v == 5 {
            Some(MonoTypeKind::MonoClassArray)
        } else if v == 6 {
            Some(MonoTypeKind::MonoClassPointer)
        } else {
            None
        }
    }

    /// The number that the runtime stores for this kind.
    pub fn to_u8(&self) -> (v: u8)
        ensures
            v == self.code(),
            1 <= v <= 6,
            MonoTypeKind::of_code(v) == Some(*self),
    {
        match self {
            MonoTypeKind::MonoClassDef => 1,
            MonoTypeKind::MonoClassGTD => 2,
            MonoTypeKind::MonoClassGInst => 3,
            MonoTypeKind::MonoClassGParam => 4,
            MonoTypeKind::MonoClassArray => 5,
            MonoTypeKind::MonoClassPointer => 6,
        }
    }

    /// The kind that the runtime stores as `v`; none for a number outside 1
    /// to 6.
    pub fn from_u8(v: u8) -> (kind: Option<MonoTypeKind>)
        ensures
            kind == MonoTypeKind::of_code(v),
            kind is Some <==> 1 <= v <= 6,
            kind matches Some(k) ==> k.code() == v,
    {
        if v == 1 {
            Some(MonoTypeKind::MonoClassDef)
        } else if v == 2 {
            Some(MonoTypeKind::MonoClassGTD)
        } else if v == 3 {
            Some(MonoTypeKind::MonoClassGInst)
        } else if v == 4 {
            Some(MonoTypeKind::MonoClassGParam)
        } else if v == 5 {
            Some(MonoTypeKind::MonoClassArray)
        } else if v == 6 {
            Some(MonoTypeKind::MonoClassPointer)
        } else {
            None
        }
    }
}

/// The bytes of the name of the class at `class`.
pub open spec fn class_name_of(mem: Map<u64, u8>, class: u64) -> Result<Seq<u8>, TraceError> {
    match fetch_u64(mem, at(class, CLASS_NAME as int)) {
        Ok(name_ptr) => c_string(mem, name_ptr),
        Err(e) => Err(e),
    }
}

/// The first class with the name `name` in the chain that starts at `class`
/// and is followed for at most `left` classes; `None` where the chain ends
/// before one is found.
pub open spec fn chain_search(mem: Map<u64, u8>, class: u64, name: Seq<u8>, left: nat) -> Result<
    Option<u64>,
    TraceError,
>
    decreases left,
{
    if class == 0 {
        Ok(None)
    } else if left == 0 {
        Err(TraceError::ChainTooLong)
    } else {
        match class_name_of(mem, class) {
            Err(e) => Err(e),
            Ok(found) => if found == name {
                Ok(Some(class))
            } else {
                match fetch_u64(mem, at(class, CLASS_NEXT as int)) {
                    Err(e) => Err(e),
                    Ok(next) => chain_search(mem, next, name, (left - 1) as nat),
                }
            },
        }
    }
}

/// What a search of the whole table gives, once the chain of one bucket gave
/// `chain` and the buckets after it would give `rest`.
pub open spec fn or_later(chain: Result<Option<u64>, TraceError>, rest: Result<u64, TraceError>)
    -> Result<u64, TraceError> {
    match chain {
        Err(e) => Err(e),
        Ok(Some(class)) => Ok(class),
        Ok(None) => rest,
    }
}

/// The first class with the name `name` in the buckets from `bucket` on, of a
/// table at `table` with `size` buckets.
pub open spec fn bucket_search(
    mem: Map<u64, u8>,
    table: u64,
    name: &'static str,
    bucket: nat,
    size: nat,
) -> Result<u64, TraceError>
    decreases size - bucket,
{
    if bucket >= size {
        Err(TraceError::ClassNotFound { name })
    } else {
        match fetch_u64(mem, at(table, 8 * (bucket as int))) {
            Err(e) => Err(e),
            Ok(head) => or_later(
                chain_search(mem, head, name.spec_bytes(), MAX_CHAIN_LENGTH as nat),
                bucket_search(mem, table, name, bucket + 1, size),
            ),
        }
    }
}

/// The class with the name `name` that a walk through the class cache at
/// `class_cache` meets first: bucket by bucket, and in each bucket along its
/// chain.
pub open spec fn class_named(mem: Map<u64, u8>, class_cache: u64, name: &'static str) -> Result<
    u64,
    TraceError,
> {
    match fetch_u64(mem, at(class_cache, CACHE_TABLE as int)) {
        Err(e) => Err(e),
        Ok(table) => match fetch_u32(mem, at(table, TABLE_SIZE as int)) {
            Err(e) => Err(e),
            Ok(size) => bucket_search(mem, table, name, 0, size as nat),
        },
    }
}

/// The bytes of the name of the class at `class`.
pub fn class_name_bytes(image: &MemoryImage, class: u64) -> (r: Result<Vec<u8>, TraceError>)
    ensures
        match class_name_of(image@, class) {
            Ok(s) => r is Ok && r->Ok_0@ == s,
            Err(e) => r == Err::<Vec<u8>, TraceError>(e),
        },
{
    match read_u64(image, offset(class, CLASS_NAME)) {
        Ok(name_ptr) => read_c_string(image, name_ptr),
        Err(e) => Err(e),
    }
}

/// The name of the class at `class`. Bytes that are no valid UTF-8 become
/// U+FFFD.
pub fn class_name(image: &MemoryImage, class: u64) -> (r: Result<String, TraceError>)
    ensures
        match class_name_of(image@, class) {
            Ok(s) => r is Ok && r->Ok_0@ == lossy_utf8(s) && (valid_utf8(s) ==> r->Ok_0@
                == decode_utf8(s)),
            Err(e) => r == Err::<String, TraceError>(e),
        },
{
    match class_name_bytes(image, class) {
        Ok(bytes) => Ok(string_from_utf8_lossy(bytes.as_slice())),
        Err(e) => Err(e),
    }
}

/// The class that the chain leads to from `class` in `k` steps, each over a
/// class of another name than `name`; none where the chain ends, meets the
/// name or leaves the image before that.
pub open spec fn chain_steps(mem: Map<u64, u8>, class: u64, name: Seq<u8>, k: nat) -> Option<u64>
    decreases k,
{
    if k == 0 {
        Some(class)
    } else if class == 0 {
        None
    } else {
        match class_name_of(mem, class) {
            Err(_) => None,
            Ok(found) => if found == name {
                None
            } else {
                match fetch_u64(mem, at(class, CLASS_NEXT as int)) {
                    Err(_) => None,
                    Ok(next) => chain_steps(mem, next, name, (k - 1) as nat),
                }
            },
        }
    }
}

/// Steps along a chain can be taken in two parts.
pub proof fn lemma_chain_steps_split(mem: Map<u64, u8>, class: u64, name: Seq<u8>, a: nat, b: nat)
    ensures
        chain_steps(mem, class, name, a + b) == (match chain_steps(mem, class, name, a) {
            Some(middle) => chain_steps(mem, middle, name, b),
            None => None,
        }),
    decreases a,
{
    if a > 0 && class != 0 {
        if let Ok(found) = class_name_of(mem, class) {
            if found != name {
                if let Ok(next) = fetch_u64(mem, at(class, CLASS_NEXT as int)) {
                    lemma_chain_steps_split(mem, next, name, (a - 1) as nat, b);
                    assert(((a - 1) as nat) + b == (a + b - 1) as nat);
                }
            }
        }
    }
}

/// A search that may still visit `left` classes goes on, after `k` steps over
/// classes of other names, as a search that may visit `left - k`.
pub proof fn lemma_chain_steps_search(
    mem: Map<u64, u8>,
    class: u64,
    name: Seq<u8>,
    k: nat,
    left: nat,
)
    requires
        chain_steps(mem, class, name, k) is Some,
        k <= left,
    ensures
        chain_search(mem, class, name, left) == chain_search(
            mem,
            chain_steps(mem, class, name, k)->Some_0,
            name,
            (left - k) as nat,
        ),
    decreases k,
{
    if k > 0 {
        let next = fetch_u64(mem, at(class, CLASS_NEXT as int))->Ok_0;
        lemma_chain_steps_search(mem, next, name, (k - 1) as nat, (left - 1) as nat);
    }
}

/// A chain that leads back to where it started never ends: the search along
/// it gives up, however many classes it may visit.
pub proof fn lemma_chain_cycle(mem: Map<u64, u8>, class: u64, name: Seq<u8>, k: nat, left: nat)
    requires
        k >= 1,
        chain_steps(mem, class, name, k) == Some(class),
    ensures
        chain_search(mem, class, name, left) == Err::<Option<u64>, TraceError>(
            TraceError::ChainTooLong,
        ),
    decreases left,
{
    if left >= k {
        lemma_chain_steps_search(mem, class, name, k, left);
        lemma_chain_cycle(mem, class, name, k, (left - k) as nat);
    } else {
        lemma_chain_steps_split(mem, class, name, left, (k - left) as nat);
        assert(left + ((k - left) as nat) == k);
        let middle = chain_steps(mem, class, name, left)->Some_0;
        assert(chain_steps(mem, middle, name, (k - left) as nat) is Some);
        assert(middle != 0);
        lemma_chain_steps_search(mem, class, name, left, left);
    }
}

/// Follows the chain of one bucket from `head` and returns the first class of
/// the name `name`, or `None` where the chain ends without one. A chain that
/// leads back to a class that was visited is given up at once.
pub fn search_chain(image: &MemoryImage, head: u64, name: &[u8]) -> (r: Result<
    Option<u64>,
    TraceError,
>)
    ensures
        r == chain_search(image@, head, name@, MAX_CHAIN_LENGTH as nat),
        r matches Ok(Some(class)) ==> class != 0,
{
    let mut class: u64 = head;
    let mut left: u64 = MAX_CHAIN_LENGTH;
    // A class that was visited `since` steps ago; it moves on after `span`
    // steps, and `span` doubles then, so that every circle is noticed.
    let mut mark: u64 = head;
    let mut since: u64 = 0;
    let mut span: u64 = 1;
    while class != 0
        invariant
            chain_search(image@, head, name@, MAX_CHAIN_LENGTH as nat) == chain_search(
                image@,
                class,
                name@,
                left as nat,
            ),
            chain_steps(image@, mark, name@, since as nat) == Some(class),
            since + left <= MAX_CHAIN_LENGTH,
            span >= 1,
        decreases left,
    {
        if left == 0 {
            return Err(TraceError::ChainTooLong);
        }
        let found = match class_name_bytes(image, class) {
            Ok(found) => found,
            Err(e) => {
                return Err(e);
            },
        };
        if bytes_equal(found.as_slice(), name) {
            return Ok(Some(class));
        }
        let next = match read_u64(image, offset(class, CLASS_NEXT)) {
            Ok(next) => next,
            Err(e) => {
                return Err(e);
            },
        };
        proof {
            lemma_chain_steps_split(image@, mark, name@, since as nat, 1);
            assert(chain_steps(image@, next, name@, 0) == Some(next));
            assert(chain_steps(image@, class, name@, 1) == Some(next));
        }
        class = next;
        left = left - 1;
        since = since + 1;
        if class == mark {
            proof {
                lemma_chain_cycle(image@, mark, name@, since as nat, left as nat);
            }
            return Err(TraceError::ChainTooLong);
        }
        if since >= span {
            mark = class;
            since = 0;
            span = if span > MAX_CHAIN_LENGTH / 2 {
                MAX_CHAIN_LENGTH
            } else {
                span * 2
            };
        }
    }
    Ok(None)
}

/// Finds the class of the name `name` in the class cache at `class_cache`.
///
/// The buckets are searched in order and each along its chain; the first
/// class whose name is `name`, byte for byte, is returned. The search fails
/// with `ClassNotFound` when every chain ended without such a class, with
/// `Unreadable` at the first address that the image lacks, and with
/// `ChainTooLong` at a chain that does not end, which is one that runs in a
/// circle.
pub fn lookup_class(image: &MemoryImage, class_cache: u64, name: &'static str) -> (r: Result<
    u64,
    TraceError,
>)
    ensures
        r == class_named(image@, class_cache, name),
        r matches Ok(class) ==> class != 0,
{
    let target = name.as_bytes();
    let table = match read_u64(image, offset(class_cache, CACHE_TABLE)) {
        Ok(table) => table,
        Err(e) => {
            return Err(e);
        },
    };
    let size = match read_u32(image, offset(table, TABLE_SIZE)) {
        Ok(size) => size,
        Err(e) => {
            return Err(e);
        },
    };
    let mut bucket: u32 = 0;
    while bucket < size
        invariant
            bucket <= size,
            target@ == name.spec_bytes(),
            class_named(image@, class_cache, name) == bucket_search(
                image@,
                table,
                name,
                bucket as nat,
                size as nat,
            ),
        decreases size - bucket,
    {
        let head = match read_u64(image, slot(table, bucket as u64)) {
            Ok(head) => head,
            Err(e) => {
                return Err(e);
            },
        };
        match search_chain(image, head, target) {
            Err(e) => {
                return Err(e);
            },
            Ok(Some(class)) => {
                return Ok(class);
            },
            Ok(None) => {},
        }
        bucket = bucket + 1;
    }
    Err(TraceError::ClassNotFound { name })
}

/// The bytes from one field to the next in a field table.
pub const FIELD_STRIDE: u64 = 32;

/// The bytes of a field that are read.
pub const FIELD_BYTES: usize = 28;

/// One entry of a class's field table.
#[derive(Clone, Copy, Debug, Default, PartialEq, Eq, Structural)]
pub struct MonoClassField {
    /// Pointer to the field's type.
    pub t: u64,
    /// Pointer to the field's name, a C string.
    pub name: u64,
    /// Pointer to the class that declares the field.
    pub parent: u64,
    /// Where the field lies in an instance, or in the static storage.
    pub offset: u32,
}

impl MonoClassField {
    /// The field that the bytes `b` hold.
    pub open spec fn decode(b: Seq<u8>) -> MonoClassField {
        MonoClassField {
            t: le_u64(b, 0),
            name: le_u64(b, 8),
            parent: le_u64(b, 16),
            offset: le_u32(b, 24),
        }
    }

    /// Reads a field from the bytes of its table entry.
    pub fn from_bytes(b: &[u8]) -> (field: MonoClassField)
        requires
            b@.len() >= FIELD_BYTES,
        ensures
            field == MonoClassField::decode(b@),
    {
        MonoClassField {
            t: decode_u64(b, 0),
            name: decode_u64(b, 8),
            parent: decode_u64(b, 16),
            offset: decode_u32(b, 24),
        }
    }
}

/// The low three bits of the kind byte of the class at `class`.
pub open spec fn kind_bits(mem: Map<u64, u8>, class: u64) -> Result<u8, TraceError> {
    match fetch_u8(mem, at(class, CLASS_KIND as int)) {
        Ok(b) => Ok(b % 8),
        Err(e) => Err(e),
    }
}

/// The kind of the class at `class`.
pub open spec fn kind_of(mem: Map<u64, u8>, class: u64) -> Result<MonoTypeKind, TraceError> {
    match kind_bits(mem, class) {
        Err(e) => Err(e),
        Ok(bits) => match MonoTypeKind::of_code(bits) {
            Some(kind) => Ok(kind),
            None => Err(TraceError::UnexpectedClassKind { class }),
        },
    }
}

/// The `i`-th entry of the field table at `fields`.
pub open spec fn field_at(mem: Map<u64, u8>, fields: u64, i: nat) -> Result<
    MonoClassField,
    TraceError,
> {
    match fetch(mem, at(fields, FIELD_STRIDE * i), FIELD_BYTES as nat) {
        Ok(b) => Ok(MonoClassField::decode(b)),
        Err(e) => Err(e),
    }
}

/// The offset of the first field named `name` among the entries from `i` on
/// of the table at `fields`, which has `count` entries and belongs to `class`.
pub open spec fn field_search(
    mem: Map<u64, u8>,
    class: u64,
    fields: u64,
    name: &'static str,
    i: nat,
    count: nat,
) -> Result<u64, TraceError>
    decreases count - i,
{
    if i >= count {
        Err(TraceError::FieldNotFound { class, name })
    } else {
        match field_at(mem, fields, i) {
            Err(e) => Err(e),
            Ok(field) => match c_string(mem, field.name) {
                Err(e) => Err(e),
                Ok(found) => if found == name.spec_bytes() {
                    Ok(field.offset as u64)
                } else {
                    field_search(mem, class, fields, name, i + 1, count)
                },
            },
        }
    }
}

/// The offset of the field named `name` in the field table of the class at
/// `class` itself.
pub open spec fn own_field_offset(mem: Map<u64, u8>, class: u64, name: &'static str) -> Result<
    u64,
    TraceError,
> {
    match fetch_u32(mem, at(class, CLASS_FIELD_COUNT as int)) {
        Err(e) => Err(e),
        Ok(count) => match fetch_u64(mem, at(class, CLASS_FIELDS as int)) {
            Err(e) => Err(e),
            Ok(fields) => field_search(mem, class, fields, name, 0, count as nat),
        },
    }
}

/// The generic definition that the instantiation at `class` was made from.
pub open spec fn generic_definition(mem: Map<u64, u8>, class: u64) -> Result<u64, TraceError> {
    match fetch_u64(mem, at(class, CLASS_GENERIC as int)) {
        Err(e) => Err(e),
        Ok(generic) => fetch_u64(mem, generic),
    }
}

/// The offset of the field named `name` of the class at `class`, where at most
/// `depth` instantiations are followed to their definitions.
pub open spec fn field_offset_within(
    mem: Map<u64, u8>,
    class: u64,
    name: &'static str,
    depth: nat,
) -> Result<u64, TraceError>
    decreases depth,
{
    match kind_of(mem, class) {
        Err(e) => Err(e),
        Ok(MonoTypeKind::MonoClassGInst) => if depth == 0 {
            Err(TraceError::ChainTooLong)
        } else {
            match generic_definition(mem, class) {
                Err(e) => Err(e),
                Ok(definition) => field_offset_within(mem, definition, name, (depth - 1) as nat),
            }
        },
        Ok(MonoTypeKind::MonoClassDef) | Ok(MonoTypeKind::MonoClassGTD) => own_field_offset(
            mem,
            class,
            name,
        ),
        Ok(_) => Err(TraceError::UnexpectedClassKind { class }),
    }
}

/// The offset of the field named `name` of the class at `class`.
pub open spec fn field_offset(mem: Map<u64, u8>, class: u64, name: &'static str) -> Result<
    u64,
    TraceError,
> {
    field_offset_within(mem, class, name, MAX_GENERIC_DEPTH as nat)
}

/// The kind of the class at `class`; `UnexpectedClassKind` where the low
/// three bits of its kind byte are none of 1 to 6.
pub fn class_kind(image: &MemoryImage, class: u64) -> (r: Result<MonoTypeKind, TraceError>)
    ensures
        r == kind_of(image@, class),
{
    let byte = match read_u8(image, offset(class, CLASS_KIND)) {
        Ok(byte) => byte,
        Err(e) => {
            return Err(e);
        },
    };
    let bits: u8 = byte & 7;
    assert(byte & 7 == byte % 8) by (bit_vector);
    match MonoTypeKind::from_u8(bits) {
        Some(kind) => Ok(kind),
        None => Err(TraceError::UnexpectedClassKind { class }),
    }
}

/// Searches the field table of the class at `class` itself for `name`.
pub fn search_fields(image: &MemoryImage, class: u64, name: &'static str) -> (r: Result<
    u64,
    TraceError,
>)
    ensures
        r == own_field_offset(image@, class, name),
{
    let target = name.as_bytes();
    let count = match read_u32(image, offset(class, CLASS_FIELD_COUNT)) {
        Ok(count) => count,
        Err(e) => {
            return Err(e);
        },
    };
    let fields = match read_u64(image, offset(class, CLASS_FIELDS)) {
        Ok(fields) => fields,
        Err(e) => {
            return Err(e);
        },
    };
    let mut i: u32 = 0;
    while i < count
        invariant
            i <= count,
            target@ == name.spec_bytes(),
            own_field_offset(image@, class, name) == field_search(
                image@,
                class,
                fields,
                name,
                i as nat,
                count as nat,
            ),
        decreases count - i,
    {
        let entry = offset(fields, (i as u64) * FIELD_STRIDE);
        let raw = match image.read_bytes(entry, FIELD_BYTES) {
            Ok(raw) => raw,
            Err(e) => {
                return Err(e);
            },
        };
        let field = MonoClassField::from_bytes(raw.as_slice());
        let found = match read_c_string(image, field.name) {
            Ok(found) => found,
            Err(e) => {
                return Err(e);
            },
        };
        if bytes_equal(found.as_slice(), target) {
            return Ok(field.offset as u64);
        }
        i = i + 1;
    }
    Err(TraceError::FieldNotFound { class, name })
}

/// The class that is reached from `class` by going from an instantiation to
/// its definition `k` times; none where a class on the way is no
/// instantiation or cannot be read.
pub open spec fn definition_steps(mem: Map<u64, u8>, class: u64, k: nat) -> Option<u64>
    decreases k,
{
    if k == 0 {
        Some(class)
    } else if kind_of(mem, class) == Ok::<MonoTypeKind, TraceError>(MonoTypeKind::MonoClassGInst) {
        match generic_definition(mem, class) {
            Ok(definition) => definition_steps(mem, definition, (k - 1) as nat),
            Err(_) => None,
        }
    } else {
        None
    }
}

/// Steps from instantiations to definitions can be taken in two parts.
pub proof fn lemma_definition_steps_split(mem: Map<u64, u8>, class: u64, a: nat, b: nat)
    ensures
        definition_steps(mem, class, a + b) == (match definition_steps(mem, class, a) {
            Some(middle) => definition_steps(mem, middle, b),
            None => None,
        }),
    decreases a,
{
    if a > 0 && kind_of(mem, class) == Ok::<MonoTypeKind, TraceError>(
        MonoTypeKind::MonoClassGInst,
    ) {
        if let Ok(definition) = generic_definition(mem, class) {
            lemma_definition_steps_split(mem, definition, (a - 1) as nat, b);
            assert(((a - 1) as nat) + b == (a + b - 1) as nat);
        }
    }
}

/// A search for a field that may still follow `depth` instantiations goes on,
/// after `k` of them, as a search that may follow `depth - k`.
pub proof fn lemma_definition_steps_offset(
    mem: Map<u64, u8>,
    class: u64,
    name: &'static str,
    k: nat,
    depth: nat,
)
    requires
        definition_steps(mem, class, k) is Some,
        k <= depth,
    ensures
        field_offset_within(mem, class, name, depth) == field_offset_within(
            mem,
            definition_steps(mem, class, k)->Some_0,
            name,
            (depth - k) as nat,
        ),
    decreases k,
{
    if k > 0 {
        let definition = generic_definition(mem, class)->Ok_0;
        lemma_definition_steps_offset(mem, definition, name, (k - 1) as nat, (depth - 1) as nat);
    }
}

/// Instantiations that lead back to where they started lead to no
/// definition: the search for a field gives up, however many it may follow.
pub proof fn lemma_definition_cycle(
    mem: Map<u64, u8>,
    class: u64,
    name: &'static str,
    k: nat,
    depth: nat,
)
    requires
        k >= 1,
        definition_steps(mem, class, k) == Some(class),
    ensures
        field_offset_within(mem, class, name, depth) == Err::<u64, TraceError>(
            TraceError::ChainTooLong,
        ),
    decreases depth,
{
    if depth >= k {
        lemma_definition_steps_offset(mem, class, name, k, depth);
        lemma_definition_cycle(mem, class, name, k, (depth - k) as nat);
    } else {
        lemma_definition_steps_split(mem, class, depth, (k - depth) as nat);
        assert(depth + ((k - depth) as nat) == k);
        let middle = definition_steps(mem, class, depth)->Some_0;
        assert(definition_steps(mem, middle, (k - depth) as nat) is Some);
        assert(kind_of(mem, middle) == Ok::<MonoTypeKind, TraceError>(
            MonoTypeKind::MonoClassGInst,
        ));
        lemma_definition_steps_offset(mem, class, name, depth, depth);
    }
}

/// The offset of the field named `name` of the class at `class`.
///
/// An instantiation of a generic class has the fields of its definition, so
/// the search goes on there. A plain class or a generic definition is searched
/// entry by entry, and the first field whose name is `name`, byte for byte,
/// gives the offset. Any other kind of class fails with `UnexpectedClassKind`,
/// a class without such a field with `FieldNotFound`, and instantiations that
/// lead back to one of themselves with `ChainTooLong`.
pub fn class_field_offset(image: &MemoryImage, class: u64, name: &'static str) -> (r: Result<
    u64,
    TraceError,
>)
    ensures
        r == field_offset(image@, class, name),
{
    let mut current: u64 = class;
    let mut depth: u128 = MAX_GENERIC_DEPTH;
    // A class that was visited `since` steps ago; it moves on after `span`
    // steps, and `span` doubles then, so that every circle is noticed.
    let mut mark: u64 = class;
    let mut since: u128 = 0;
    let mut span: u128 = 1;
    loop
        invariant
            field_offset(image@, class, name) == field_offset_within(
                image@,
                current,
                name,
                depth as nat,
            ),
            definition_steps(image@, mark, since as nat) == Some(current),
            since + depth <= MAX_GENERIC_DEPTH,
            span >= 1,
        decreases depth,
    {
        let kind = match class_kind(image, current) {
            Ok(kind) => kind,
            Err(e) => {
                return Err(e);
            },
        };
        match kind {
            MonoTypeKind::MonoClassGInst => {
                if depth == 0 {
                    return Err(TraceError::ChainTooLong);
                }
                let generic = match read_u64(image, offset(current, CLASS_GENERIC)) {
                    Ok(generic) => generic,
                    Err(e) => {
                        return Err(e);
                    },
                };
                let definition = match read_u64(image, generic) {
                    Ok(definition) => definition,
                    Err(e) => {
                        return Err(e);
                    },
                };
                proof {
                    lemma_definition_steps_split(image@, mark, since as nat, 1);
                    assert(definition_steps(image@, definition, 0) == Some(definition));
                    assert(definition_steps(image@, current, 1) == Some(definition));
                }
                current = definition;
                depth = depth - 1;
                since = since + 1;
                if current == mark {
                    proof {
                        lemma_definition_cycle(image@, mark, name, since as nat, depth as nat);
                    }
                    return Err(TraceError::ChainTooLong);
                }
                if since >= span {
                    mark = current;
                    since = 0;
                    span = if span > MAX_GENERIC_DEPTH / 2 {
                        MAX_GENERIC_DEPTH
                    } else {
                        span * 2
                    };
                }
            },
            MonoTypeKind::MonoClassDef | MonoTypeKind::MonoClassGTD => {
                return search_fields(image, current, name);
            },
            _ => {
                return Err(TraceError::UnexpectedClassKind { class: current });
            },
        }
    }
}

/// The pointer `p` without the tag that the runtime keeps in its lowest bit.
pub open spec fn without_tag(p: u64) -> u64 {
    (p - p % 2) as u64
}

/// The class of the object at `instance`: the object starts with a pointer,
/// tagged in its lowest bit, to a record that starts with the class.
pub open spec fn class_of(mem: Map<u64, u8>, instance: u64) -> Result<u64, TraceError> {
    match fetch_u64(mem, instance) {
        Err(e) => Err(e),
        Ok(tagged) => fetch_u64(mem, without_tag(tagged)),
    }
}

/// The class of the object at `instance`.
pub fn instance_class(image: &MemoryImage, instance: u64) -> (r: Result<u64, TraceError>)
    ensures
        r == class_of(image@, instance),
{
    let tagged = match read_u64(image, instance) {
        Ok(tagged) => tagged,
        Err(e) => {
            return Err(e);
        },
    };
    let vtable: u64 = tagged & !1u64;
    assert(tagged & !1u64 == (tagged - tagged % 2) as u64) by (bit_vector);
    read_u64(image, vtable)
}

/// The first vtable that is not null among the slots from `i` to `last` of the
/// runtime info at `info`, which belongs to `class`.
pub open spec fn vtable_search(mem: Map<u64, u8>, class: u64, info: u64, i: nat, last: nat)
    -> Result<u64, TraceError>
    decreases last + 1 - i,
{
    if i > last {
        Err(TraceError::ClassNotLoaded { class })
    } else {
        match fetch_u64(mem, at(info, 8 + 8 * (i as int))) {
            Err(e) => Err(e),
            Ok(vtable) => if vtable != 0 {
                Ok(vtable)
            } else {
                vtable_search(mem, class, info, i + 1, last)
            },
        }
    }
}

/// Where the static fields of the class at `class` are stored: the pointer
/// that follows the `vtable_size` method slots of the first vtable that a
/// domain has for the class.
pub open spec fn static_fields_of(mem: Map<u64, u8>, class: u64) -> Result<u64, TraceError> {
    match fetch_u32(mem, at(class, CLASS_VTABLE_SIZE as int)) {
        Err(e) => Err(e),
        Ok(vtable_size) => match fetch_u64(mem, at(class, CLASS_RUNTIME_INFO as int)) {
            Err(e) => Err(e),
            Ok(info) => match fetch_u64(mem, info) {
                Err(e) => Err(e),
                Ok(max_domains) => match vtable_search(mem, class, info, 0, max_domains as nat) {
                    Err(e) => Err(e),
                    Ok(vtable) => fetch_u64(mem, at(vtable, 64 + 8 * (vtable_size as int))),
                },
            },
        }
    }
}

/// The address of the vtable slot of domain `i` in the runtime info at `info`.
fn domain_slot(info: u64, i: u64) -> (a: u64)
    ensures
        a == at(info, 8 + 8 * (i as int)),
{
    let first: u64 = offset(info, 8);
    let a: u64 = slot(first, i);
    proof {
        lemma_at_at(info, 8, 8 * (i as int));
    }
    a
}

/// The first vtable that is not null among the slots of the domains 0 to
/// `max_domains` in the runtime info at `info`, which belongs to `class`.
pub fn find_vtable(image: &MemoryImage, class: u64, info: u64, max_domains: u64) -> (r: Result<
    u64,
    TraceError,
>)
    ensures
        r == vtable_search(image@, class, info, 0, max_domains as nat),
{
    let mut i: u64 = 0;
    loop
        invariant
            i <= max_domains,
            vtable_search(image@, class, info, 0, max_domains as nat) == vtable_search(
                image@,
                class,
                info,
                i as nat,
                max_domains as nat,
            ),
        decreases max_domains - i,
    {
        let vtable = match read_u64(image, domain_slot(info, i)) {
            Ok(vtable) => vtable,
            Err(e) => {
                return Err(e);
            },
        };
        if vtable != 0 {
            return Ok(vtable);
        }
        if i == max_domains {
            assert(vtable_search(image@, class, info, (i + 1) as nat, max_domains as nat) == Err::<
                u64,
                TraceError,
            >(TraceError::ClassNotLoaded { class }));
            return Err(TraceError::ClassNotLoaded { class });
        }
        i = i + 1;
    }
}

/// Where the static fields of the class at `class` are stored.
///
/// The runtime info of the class starts with the highest domain number and
/// goes on with one vtable slot for each domain from 0 to that number. The
/// first slot that is not null gives the vtable; `ClassNotLoaded` where all
/// are null.
pub fn class_static_fields(image: &MemoryImage, class: u64) -> (r: Result<u64, TraceError>)
    ensures
        r == static_fields_of(image@, class),
{
    let vtable_size = match read_u32(image, offset(class, CLASS_VTABLE_SIZE)) {
        Ok(vtable_size) => vtable_size,
        Err(e) => {
            return Err(e);
        },
    };
    let info = match read_u64(image, offset(class, CLASS_RUNTIME_INFO)) {
        Ok(info) => info,
        Err(e) => {
            return Err(e);
        },
    };
    let max_domains = match read_u64(image, info) {
        Ok(max_domains) => max_domains,
        Err(e) => {
            return Err(e);
        },
    };
    match find_vtable(image, class, info, max_domains) {
        Ok(vtable) => read_u64(image, offset(vtable, 64 + 8 * (vtable_size as u64))),
        Err(e) => Err(e),
    }
}

/// The 64-bit static field named `name` of the class at `class`.
pub open spec fn static_u64(mem: Map<u64, u8>, class: u64, name: &'static str) -> Result<
    u64,
    TraceError,
> {
    match static_fields_of(mem, class) {
        Err(e) => Err(e),
        Ok(storage) => match field_offset(mem, class, name) {
            Err(e) => Err(e),
            Ok(field) => fetch_u64(mem, at(storage, field as int)),
        },
    }
}

/// Where the field named `name` lies in the object at `instance`.
pub open spec fn instance_field(mem: Map<u64, u8>, instance: u64, name: &'static str) -> Result<
    u64,
    TraceError,
> {
    match class_of(mem, instance) {
        Err(e) => Err(e),
        Ok(class) => match field_offset(mem, class, name) {
            Err(e) => Err(e),
            Ok(field) => Ok(at(instance, field as int)),
        },
    }
}

/// The 32-bit field named `name` of the object at `instance`.
pub open spec fn instance_u32(mem: Map<u64, u8>, instance: u64, name: &'static str) -> Result<
    u32,
    TraceError,
> {
    match instance_field(mem, instance, name) {
        Err(e) => Err(e),
        Ok(place) => fetch_u32(mem, place),
    }
}

/// The 64-bit field named `name` of the object at `instance`.
pub open spec fn instance_u64(mem: Map<u64, u8>, instance: u64, name: &'static str) -> Result<
    u64,
    TraceError,
> {
    match instance_field(mem, instance, name) {
        Err(e) => Err(e),
        Ok(place) => fetch_u64(mem, place),
    }
}

/// Reads the 64-bit static field named `name` of the class at `class`.
pub fn static_field_u64(image: &MemoryImage, class: u64, name: &'static str) -> (r: Result<
    u64,
    TraceError,
>)
    ensures
        r == static_u64(image@, class, name),
{
    let storage = match class_static_fields(image, class) {
        Ok(storage) => storage,
        Err(e) => {
            return Err(e);
        },
    };
    let field = match class_field_offset(image, class, name) {
        Ok(field) => field,
        Err(e) => {
            return Err(e);
        },
    };
    read_u64(image, offset(storage, field))
}

/// Where the field named `name` lies in the object at `instance`.
pub fn instance_field_address(image: &MemoryImage, instance: u64, name: &'static str) -> (r: Result<
    u64,
    TraceError,
>)
    ensures
        r == instance_field(image@, instance, name),
{
    let class = match instance_class(image, instance) {
        Ok(class) => class,
        Err(e) => {
            return Err(e);
        },
    };
    match class_field_offset(image, class, name) {
        Ok(field) => Ok(offset(instance, field)),
        Err(e) => Err(e),
    }
}

/// Reads the 32-bit field named `name` of the object at `instance`.
pub fn instance_field_u32(image: &MemoryImage, instance: u64, name: &'static str) -> (r: Result<
    u32,
    TraceError,
>)
    ensures
        r == instance_u32(image@, instance, name),
{
    match instance_field_address(image, instance, name) {
        Ok(place) => read_u32(image, place),
        Err(e) => Err(e),
    }
}

/// Reads the 64-bit field named `name` of the object at `instance`.
pub fn instance_field_u64(image: &MemoryImage, instance: u64, name: &'static str) -> (r: Result<
    u64,
    TraceError,
>)
    ensures
        r == instance_u64(image@, instance, name),
{
    match instance_field_address(image, instance, name) {
        Ok(place) => read_u64(image, place),
        Err(e) => Err(e),
    }
}

/// The field of a managed string where its characters start.
pub const FIRST_CHAR: &'static str = "m_firstChar";

/// The field of a managed string that holds its length in UTF-16 code units.
pub const STRING_LENGTH: &'static str = "m_stringLength";

/// The most UTF-16 code units that are read of one managed string.
pub const MAX_STRING_UNITS: u32 = 1024;

/// The UTF-16 code units that the bytes `b` hold, two bytes each.
pub open spec fn units_of(b: Seq<u8>) -> Seq<u16> {
    Seq::new(b.len() / 2, |i: int| le_u16(b, 2 * i))
}

/// The number of code units that are read of a string of `length` units.
pub open spec fn units_read(length: u32) -> nat {
    if length <= MAX_STRING_UNITS {
        length as nat
    } else {
        MAX_STRING_UNITS as nat
    }
}

/// The UTF-16 code units of the managed string at `instance`, the first
/// `MAX_STRING_UNITS` of them at most.
pub open spec fn managed_string_units(mem: Map<u64, u8>, instance: u64) -> Result<
    Seq<u16>,
    TraceError,
> {
    match class_of(mem, instance) {
        Err(e) => Err(e),
        Ok(class) => match field_offset(mem, class, FIRST_CHAR) {
            Err(e) => Err(e),
            Ok(data) => match field_offset(mem, class, STRING_LENGTH) {
                Err(e) => Err(e),
                Ok(size) => match fetch_u32(mem, at(instance, size as int)) {
                    Err(e) => Err(e),
                    Ok(length) => match fetch(
                        mem,
                        at(instance, data as int),
                        2 * units_read(length),
                    ) {
                        Err(e) => Err(e),
                        Ok(b) => Ok(units_of(b)),
                    },
                },
            },
        },
    }
}

/// Reads the UTF-16 code units of the managed string at `instance`.
pub fn read_string_units(image: &MemoryImage, instance: u64) -> (r: Result<Vec<u16>, TraceError>)
    ensures
        match managed_string_units(image@, instance) {
            Ok(units) => r is Ok && r->Ok_0@ == units,
            Err(e) => r == Err::<Vec<u16>, TraceError>(e),
        },
{
    let class = match instance_class(image, instance) {
        Ok(class) => class,
        Err(e) => {
            return Err(e);
        },
    };
    let data = match class_field_offset(image, class, FIRST_CHAR) {
        Ok(data) => data,
        Err(e) => {
            return Err(e);
        },
    };
    let size = match class_field_offset(image, class, STRING_LENGTH) {
        Ok(size) => size,
        Err(e) => {
            return Err(e);
        },
    };
    let length = match read_u32(image, offset(instance, size)) {
        Ok(length) => length,
        Err(e) => {
            return Err(e);
        },
    };
    let count: usize = if length <= MAX_STRING_UNITS {
        length as usize
    } else {
        MAX_STRING_UNITS as usize
    };
    let raw = match image.read_bytes(offset(instance, data), 2 * count) {
        Ok(raw) => raw,
        Err(e) => {
            return Err(e);
        },
    };
    let mut units: Vec<u16> = Vec::new();
    let mut i: usize = 0;
    while i < count
        invariant
            i <= count,
            count <= MAX_STRING_UNITS,
            raw@.len() == 2 * count,
            units@.len() == i,
            forall|j: int| 0 <= j < i ==> units@[j] == le_u16(raw@, 2 * j),
        decreases count - i,
    {
        units.push(decode_u16(raw.as_slice(), 2 * i));
        i += 1;
    }
    assert(units@ =~= units_of(raw@));
    Ok(units)
}

/// The text of the managed string at `instance`: its UTF-16 code units, the
/// first `MAX_STRING_UNITS` of them at most, with U+FFFD for each surrogate
/// that has no partner.
pub fn read_boxed_string(image: &MemoryImage, instance: u64) -> (r: Result<String, TraceError>)
    ensures
        match managed_string_units(image@, instance) {
            Ok(units) => r is Ok && r->Ok_0@ == lossy_utf16(units) && (all_plain(units) ==> r->Ok_0@
                == plain_text(units)),
            Err(e) => r == Err::<String, TraceError>(e),
        },
{
    match read_string_units(image, instance) {
        Ok(units) => Ok(string_from_utf16_lossy(units.as_slice())),
        Err(e) => Err(e),
    }
}

} // verus!
