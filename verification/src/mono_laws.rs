//! What holds of every walk through the runtime's metadata.

use vstd::prelude::*;
use vstd::relations::injective_on;
use vstd::seq_lib::seq_to_set_is_finite;
use vstd::set_lib::{lemma_int_range, lemma_len_subset, lemma_map_size, set_int_range};
use vstd::string::StringSliceAdditionalSpecFns;

use crate::error::TraceError;
use crate::memory::{at, c_string_from, fetch_u32, fetch_u64, C_STRING_LIMIT};
use crate::mono::{
    bucket_search, chain_search, chain_steps, class_name_of, class_named, class_of,
    definition_steps, field_at, field_offset, field_offset_within, field_search,
    generic_definition, kind_of, lemma_chain_steps_split, lemma_definition_cycle,
    lemma_definition_steps_offset, lemma_definition_steps_split, static_fields_of,
    vtable_search, without_tag, MonoTypeKind, CACHE_TABLE, CLASS_FIELDS, CLASS_FIELD_COUNT,
    CLASS_NAME, CLASS_NEXT, CLASS_RUNTIME_INFO, CLASS_VTABLE_SIZE, MAX_CHAIN_LENGTH,
    MAX_GENERIC_DEPTH, TABLE_SIZE,
};

verus! {

/// Whether the chain that starts at `head` links exactly the classes
/// `classes`, in this order, and each of them has a name that can be read.
pub open spec fn chain_holds(mem: Map<u64, u8>, head: u64, classes: Seq<u64>) -> bool
    decreases classes.len(),
{
    if classes.len() == 0 {
        head == 0
    } else {
        &&& head != 0
        &&& head == classes[0]
        &&& class_name_of(mem, head) is Ok
        &&& match fetch_u64(mem, at(head, CLASS_NEXT as int)) {
            Ok(next) => chain_holds(mem, next, classes.drop_first()),
            Err(_) => false,
        }
    }
}

/// Whether the class cache at `class_cache` has exactly the buckets `buckets`:
/// one chain of classes for each.
pub open spec fn cache_holds(mem: Map<u64, u8>, class_cache: u64, buckets: Seq<Seq<u64>>) -> bool {
    match fetch_u64(mem, at(class_cache, CACHE_TABLE as int)) {
        Err(_) => false,
        Ok(table) => {
            &&& fetch_u32(mem, at(table, TABLE_SIZE as int)) == Ok::<u32, TraceError>(
                buckets.len() as u32,
            )
            &&& buckets.len() <= u32::MAX
            &&& forall|b: int|
                0 <= b < buckets.len() ==> bucket_holds(mem, table, b, #[trigger] buckets[b])
        },
    }
}

/// Whether bucket `b` of the table at `table` holds the chain `classes`.
pub open spec fn bucket_holds(mem: Map<u64, u8>, table: u64, b: int, classes: Seq<u64>) -> bool {
    match fetch_u64(mem, at(table, 8 * b)) {
        Ok(head) => chain_holds(mem, head, classes),
        Err(_) => false,
    }
}

/// No more addresses can differ from one another than there are addresses.
pub proof fn lemma_distinct_addresses(addresses: Seq<u64>)
    requires
        addresses.no_duplicates(),
    ensures
        addresses.len() <= 0x1_0000_0000_0000_0000,
{
    let all = set_int_range(0, 0x1_0000_0000_0000_0000);
    let held = addresses.to_set();
    let number = |a: u64| a as int;
    let numbers = held.map(number);
    addresses.unique_seq_to_set();
    seq_to_set_is_finite(addresses);
    assert(injective_on(number, held));
    lemma_map_size(held, numbers, number);
    lemma_int_range(0, 0x1_0000_0000_0000_0000);
    assert(numbers.subset_of(all)) by {
        assert forall|n: int| numbers.contains(n) implies all.contains(n) by {
            let a = choose|a: u64| held.contains(a) && n == number(a);
            assert(n == a as int);
        }
    }
    lemma_len_subset(numbers, all);
}

/// A chain holds the classes of one sequence only.
proof fn lemma_chain_is_one(mem: Map<u64, u8>, head: u64, first: Seq<u64>, second: Seq<u64>)
    requires
        chain_holds(mem, head, first),
        chain_holds(mem, head, second),
    ensures
        first == second,
    decreases first.len(),
{
    if first.len() > 0 {
        let next = fetch_u64(mem, at(head, CLASS_NEXT as int))->Ok_0;
        lemma_chain_is_one(mem, next, first.drop_first(), second.drop_first());
        assert(first =~= seq![head] + first.drop_first());
        assert(second =~= seq![head] + second.drop_first());
    } else {
        assert(first =~= second);
    }
}

/// From each of its classes on, a chain is the chain of the classes that
/// follow.
proof fn lemma_chain_from(mem: Map<u64, u8>, head: u64, classes: Seq<u64>, i: int)
    requires
        chain_holds(mem, head, classes),
        0 <= i < classes.len(),
    ensures
        chain_holds(mem, classes[i], classes.skip(i)),
        classes[i] != 0,
    decreases i,
{
    if i == 0 {
        assert(classes.skip(0) =~= classes);
    } else {
        let next = fetch_u64(mem, at(head, CLASS_NEXT as int))->Ok_0;
        lemma_chain_from(mem, next, classes.drop_first(), i - 1);
        assert(classes.drop_first().skip(i - 1) =~= classes.skip(i));
    }
}

/// A chain that ends visits no class twice, so it is not longer than
/// `MAX_CHAIN_LENGTH`.
pub proof fn lemma_chain_length(mem: Map<u64, u8>, head: u64, classes: Seq<u64>)
    requires
        chain_holds(mem, head, classes),
    ensures
        classes.no_duplicates(),
        classes.len() <= MAX_CHAIN_LENGTH,
{
    assert forall|i: int, j: int|
        0 <= i < classes.len() && 0 <= j < classes.len() && i != j implies classes[i]
        != classes[j] by {
        if classes[i] == classes[j] {
            lemma_chain_from(mem, head, classes, i);
            lemma_chain_from(mem, head, classes, j);
            lemma_chain_is_one(mem, classes[i], classes.skip(i), classes.skip(j));
            assert(classes.skip(i).len() != classes.skip(j).len());
        }
    }
    let with_null = seq![0u64] + classes;
    assert forall|i: int, j: int|
        0 <= i < with_null.len() && 0 <= j < with_null.len() && i != j implies with_null[i]
        != with_null[j] by {
        if i > 0 {
            lemma_chain_from(mem, head, classes, i - 1);
            assert(with_null[i] == classes[i - 1]);
        }
        if j > 0 {
            lemma_chain_from(mem, head, classes, j - 1);
            assert(with_null[j] == classes[j - 1]);
        }
    }
    lemma_distinct_addresses(with_null);
}

/// Whether the class at `class` has the name `name`.
pub open spec fn is_named(mem: Map<u64, u8>, class: u64, name: Seq<u8>) -> bool {
    class_name_of(mem, class) == Ok::<Seq<u8>, TraceError>(name)
}

/// The first of `classes` that has the name `name`.
pub open spec fn first_named(mem: Map<u64, u8>, classes: Seq<u64>, name: Seq<u8>) -> Option<u64>
    decreases classes.len(),
{
    if classes.len() == 0 {
        None
    } else if is_named(mem, classes[0], name) {
        Some(classes[0])
    } else {
        first_named(mem, classes.drop_first(), name)
    }
}

/// The first class named `name` in the buckets from `from` on.
pub open spec fn first_in_buckets(
    mem: Map<u64, u8>,
    buckets: Seq<Seq<u64>>,
    name: Seq<u8>,
    from: int,
) -> Option<u64>
    decreases buckets.len() - from,
{
    if from < 0 || from >= buckets.len() {
        None
    } else {
        match first_named(mem, buckets[from], name) {
            Some(class) => Some(class),
            None => first_in_buckets(mem, buckets, name, from + 1),
        }
    }
}

/// The search of a chain finds the first class of `classes` with the name.
proof fn lemma_chain_search(
    mem: Map<u64, u8>,
    head: u64,
    classes: Seq<u64>,
    name: Seq<u8>,
    left: nat,
)
    requires
        chain_holds(mem, head, classes),
        classes.len() <= left,
    ensures
        chain_search(mem, head, name, left) == Ok::<Option<u64>, TraceError>(
            first_named(mem, classes, name),
        ),
    decreases classes.len(),
{
    if classes.len() > 0 {
        if !is_named(mem, head, name) {
            let next = fetch_u64(mem, at(head, CLASS_NEXT as int))->Ok_0;
            lemma_chain_search(mem, next, classes.drop_first(), name, (left - 1) as nat);
        }
    }
}

/// The search of the table finds the first class with the name in the buckets
/// that are left.
proof fn lemma_bucket_search(
    mem: Map<u64, u8>,
    class_cache: u64,
    buckets: Seq<Seq<u64>>,
    name: &'static str,
    from: int,
)
    requires
        cache_holds(mem, class_cache, buckets),
        0 <= from <= buckets.len(),
    ensures
        bucket_search(
            mem,
            fetch_u64(mem, at(class_cache, CACHE_TABLE as int))->Ok_0,
            name,
            from as nat,
            buckets.len(),
        ) == (match first_in_buckets(mem, buckets, name.spec_bytes(), from) {
            Some(class) => Ok::<u64, TraceError>(class),
            None => Err::<u64, TraceError>(TraceError::ClassNotFound { name }),
        }),
    decreases buckets.len() - from,
{
    let table = fetch_u64(mem, at(class_cache, CACHE_TABLE as int))->Ok_0;
    if from < buckets.len() {
        assert(bucket_holds(mem, table, from, buckets[from]));
        let head = fetch_u64(mem, at(table, 8 * from))->Ok_0;
        lemma_chain_length(mem, head, buckets[from]);
        lemma_chain_search(mem, head, buckets[from], name.spec_bytes(), MAX_CHAIN_LENGTH as nat);
        lemma_bucket_search(mem, class_cache, buckets, name, from + 1);
    }
}

/// What `first_named` finds is one of the classes and has the name; it finds
/// nothing only where none of them has it.
proof fn lemma_first_named(mem: Map<u64, u8>, classes: Seq<u64>, name: Seq<u8>)
    ensures
        match first_named(mem, classes, name) {
            Some(class) => is_named(mem, class, name) && classes.contains(class),
            None => forall|k: int| 0 <= k < classes.len() ==> !is_named(mem, #[trigger] classes[k], name),
        },
    decreases classes.len(),
{
    if classes.len() > 0 {
        if !is_named(mem, classes[0], name) {
            let rest = classes.drop_first();
            lemma_first_named(mem, rest, name);
            match first_named(mem, rest, name) {
                Some(class) => {
                    let k = choose|k: int| 0 <= k < rest.len() && rest[k] == class;
                    assert(classes[k + 1] == class);
                },
                None => {
                    assert forall|k: int| 0 <= k < classes.len() implies !is_named(
                        mem,
                        #[trigger] classes[k],
                        name,
                    ) by {
                        if k > 0 {
                            assert(rest[k - 1] == classes[k]);
                        }
                    }
                },
            }
        }
    }
}

/// What `first_in_buckets` finds is in one of the buckets and has the name;
/// it finds nothing only where no class of these buckets has it.
proof fn lemma_first_in_buckets(
    mem: Map<u64, u8>,
    buckets: Seq<Seq<u64>>,
    name: Seq<u8>,
    from: int,
)
    requires
        0 <= from <= buckets.len(),
    ensures
        match first_in_buckets(mem, buckets, name, from) {
            Some(class) => is_named(mem, class, name) && exists|b: int, k: int|
                from <= b < buckets.len() && 0 <= k < buckets[b].len() && buckets[b][k] == class,
            None => forall|b: int, k: int|
                from <= b < buckets.len() && 0 <= k < buckets[b].len() ==> !is_named(
                    mem,
                    #[trigger] buckets[b][k],
                    name,
                ),
        },
    decreases buckets.len() - from,
{
    if from < buckets.len() {
        lemma_first_named(mem, buckets[from], name);
        match first_named(mem, buckets[from], name) {
            Some(class) => {
                let k = choose|k: int| 0 <= k < buckets[from].len() && buckets[from][k] == class;
                assert(from <= from < buckets.len() && 0 <= k < buckets[from].len()
                    && buckets[from][k] == class);
            },
            None => {
                lemma_first_in_buckets(mem, buckets, name, from + 1);
                match first_in_buckets(mem, buckets, name, from + 1) {
                    Some(class) => {
                        let (b, k) = choose|b: int, k: int|
                            from + 1 <= b < buckets.len() && 0 <= k < buckets[b].len()
                                && buckets[b][k] == class;
                        assert(from <= b < buckets.len() && 0 <= k < buckets[b].len()
                            && buckets[b][k] == class);
                    },
                    None => {},
                }
            },
        }
    }
}

/// A class cache gives each name to the one class that has it: where the
/// cache holds the classes `buckets`, the class at place `k` of bucket `b`
/// has the name `name`, and no other class of the cache has it, a look-up of
/// `name` finds that class, in whichever bucket and place it lies.
pub proof fn lemma_lookup_finds_unique_class(
    mem: Map<u64, u8>,
    class_cache: u64,
    buckets: Seq<Seq<u64>>,
    name: &'static str,
    b: int,
    k: int,
)
    requires
        cache_holds(mem, class_cache, buckets),
        0 <= b < buckets.len(),
        0 <= k < buckets[b].len(),
        is_named(mem, buckets[b][k], name.spec_bytes()),
        forall|b2: int, k2: int|
            0 <= b2 < buckets.len() && 0 <= k2 < buckets[b2].len() && is_named(
                mem,
                #[trigger] buckets[b2][k2],
                name.spec_bytes(),
            ) ==> buckets[b2][k2] == buckets[b][k],
    ensures
        class_named(mem, class_cache, name) == Ok::<u64, TraceError>(buckets[b][k]),
{
    lemma_bucket_search(mem, class_cache, buckets, name, 0);
    lemma_first_in_buckets(mem, buckets, name.spec_bytes(), 0);
}

/// A look-up of a name that no class of the cache has ends with
/// `ClassNotFound`.
pub proof fn lemma_lookup_of_absent_class(
    mem: Map<u64, u8>,
    class_cache: u64,
    buckets: Seq<Seq<u64>>,
    name: &'static str,
)
    requires
        cache_holds(mem, class_cache, buckets),
        forall|b: int, k: int|
            0 <= b < buckets.len() && 0 <= k < buckets[b].len() ==> !is_named(
                mem,
                #[trigger] buckets[b][k],
                name.spec_bytes(),
            ),
    ensures
        class_named(mem, class_cache, name) == Err::<u64, TraceError>(
            TraceError::ClassNotFound { name },
        ),
{
    lemma_bucket_search(mem, class_cache, buckets, name, 0);
    lemma_first_in_buckets(mem, buckets, name.spec_bytes(), 0);
    match first_in_buckets(mem, buckets, name.spec_bytes(), 0) {
        Some(class) => {
            let (b, k) = choose|b: int, k: int|
                0 <= b < buckets.len() && 0 <= k < buckets[b].len() && buckets[b][k] == class;
            assert(!is_named(mem, buckets[b][k], name.spec_bytes()));
        },
        None => {},
    }
}

/// A look-up does not depend on how the classes lie in the cache: where two
/// caches both hold the class `class`, in whatever bucket and place, and in
/// both it is the one class of the name `name`, a look-up of `name` finds
/// `class` in both.
pub proof fn lemma_lookup_ignores_layout(
    first: Map<u64, u8>,
    first_cache: u64,
    first_buckets: Seq<Seq<u64>>,
    second: Map<u64, u8>,
    second_cache: u64,
    second_buckets: Seq<Seq<u64>>,
    name: &'static str,
    class: u64,
)
    requires
        cache_holds(first, first_cache, first_buckets),
        cache_holds(second, second_cache, second_buckets),
        exists|b: int, k: int|
            0 <= b < first_buckets.len() && 0 <= k < first_buckets[b].len()
                && #[trigger] first_buckets[b][k] == class,
        exists|b: int, k: int|
            0 <= b < second_buckets.len() && 0 <= k < second_buckets[b].len()
                && #[trigger] second_buckets[b][k] == class,
        forall|b: int, k: int|
            0 <= b < first_buckets.len() && 0 <= k < first_buckets[b].len() ==> (is_named(
                first,
                #[trigger] first_buckets[b][k],
                name.spec_bytes(),
            ) <==> first_buckets[b][k] == class),
        forall|b: int, k: int|
            0 <= b < second_buckets.len() && 0 <= k < second_buckets[b].len() ==> (is_named(
                second,
                #[trigger] second_buckets[b][k],
                name.spec_bytes(),
            ) <==> second_buckets[b][k] == class),
    ensures
        class_named(first, first_cache, name) == Ok::<u64, TraceError>(class),
        class_named(second, second_cache, name) == Ok::<u64, TraceError>(class),
{
    let (b1, k1) = choose|b: int, k: int|
        0 <= b < first_buckets.len() && 0 <= k < first_buckets[b].len()
            && #[trigger] first_buckets[b][k] == class;
    let (b2, k2) = choose|b: int, k: int|
        0 <= b < second_buckets.len() && 0 <= k < second_buckets[b].len()
            && #[trigger] second_buckets[b][k] == class;
    lemma_lookup_finds_unique_class(first, first_cache, first_buckets, name, b1, k1);
    lemma_lookup_finds_unique_class(second, second_cache, second_buckets, name, b2, k2);
}

/// Where the instantiations end before `depth` of them were followed, one
/// more that may be followed changes nothing.
proof fn lemma_ended_offset(mem: Map<u64, u8>, class: u64, name: &'static str, depth: nat)
    requires
        definition_steps(mem, class, depth) is None,
    ensures
        field_offset_within(mem, class, name, depth) == field_offset_within(
            mem,
            class,
            name,
            depth + 1,
        ),
    decreases depth,
{
    if depth > 0 && kind_of(mem, class) == Ok::<MonoTypeKind, TraceError>(
        MonoTypeKind::MonoClassGInst,
    ) {
        if let Ok(definition) = generic_definition(mem, class) {
            lemma_ended_offset(mem, definition, name, (depth - 1) as nat);
        }
    }
}

/// The class that is reached from `class` after `i` instantiations.
pub open spec fn step_at(mem: Map<u64, u8>, class: u64, i: int) -> Option<u64> {
    definition_steps(mem, class, i as nat)
}

/// The class that the chain leads to from `head` in `i` steps over classes of
/// other names than `name`.
pub open spec fn link_at(mem: Map<u64, u8>, head: u64, name: Seq<u8>, i: int) -> Option<u64> {
    chain_steps(mem, head, name, i as nat)
}

/// Whether the chain from `head` comes to one class after `i` steps and
/// again after `j`.
pub open spec fn chain_returns(mem: Map<u64, u8>, head: u64, name: Seq<u8>, i: int, j: int) -> bool {
    &&& 0 <= i < j <= MAX_CHAIN_LENGTH
    &&& link_at(mem, head, name, i) is Some
    &&& link_at(mem, head, name, i) == link_at(mem, head, name, j)
}

/// Whether the same class is reached from `class` after `i` instantiations
/// and again after `j`.
pub open spec fn definitions_return(mem: Map<u64, u8>, class: u64, i: int, j: int) -> bool {
    &&& 0 <= i < j <= 0x1_0000_0000_0000_0000
    &&& step_at(mem, class, i) is Some
    &&& step_at(mem, class, i) == step_at(mem, class, j)
}

/// No C string fails for another reason than a byte that the image lacks.
proof fn lemma_c_string_errors(mem: Map<u64, u8>, addr: u64, i: nat)
    ensures
        c_string_from(mem, addr, i) matches Err(e) ==> e is Unreadable,
    decreases C_STRING_LIMIT - i,
{
    if i < C_STRING_LIMIT && mem.contains_key(at(addr, i as int)) && mem[at(addr, i as int)] != 0 {
        lemma_c_string_errors(mem, addr, i + 1);
    }
}

/// A search that gave up has taken every step that it was allowed, and
/// stands at a class.
proof fn lemma_given_up_steps(mem: Map<u64, u8>, class: u64, name: Seq<u8>, left: nat)
    requires
        chain_search(mem, class, name, left) == Err::<Option<u64>, TraceError>(
            TraceError::ChainTooLong,
        ),
    ensures
        chain_steps(mem, class, name, left) is Some,
        chain_steps(mem, class, name, left)->Some_0 != 0,
    decreases left,
{
    if left > 0 {
        if let Ok(name_ptr) = fetch_u64(mem, at(class, CLASS_NAME as int)) {
            lemma_c_string_errors(mem, name_ptr, 0);
        }
        let next = fetch_u64(mem, at(class, CLASS_NEXT as int))->Ok_0;
        lemma_given_up_steps(mem, next, name, (left - 1) as nat);
    }
}

/// A search along a chain gives up only where the chain leads back into
/// itself: where `search_chain` ends with `ChainTooLong`, the chain comes to
/// one class after two different numbers of steps.
pub proof fn lemma_given_up_chain_is_a_circle(mem: Map<u64, u8>, head: u64, name: Seq<u8>)
    requires
        chain_search(mem, head, name, MAX_CHAIN_LENGTH as nat) == Err::<Option<u64>, TraceError>(
            TraceError::ChainTooLong,
        ),
    ensures
        exists|i: int, j: int| #[trigger] chain_returns(mem, head, name, i, j),
{
    let last = MAX_CHAIN_LENGTH as nat;
    lemma_given_up_steps(mem, head, name, last);
    // Null, and after it the classes that the search has come to.
    let visited = Seq::new(
        (last + 2) as nat,
        |i: int|
            if i == 0 {
                0u64
            } else {
                link_at(mem, head, name, i - 1)->Some_0
            },
    );
    assert forall|i: int| 0 <= i <= last implies (#[trigger] link_at(mem, head, name, i)) is Some
        && link_at(mem, head, name, i)->Some_0 != 0 by {
        lemma_chain_steps_split(mem, head, name, i as nat, (last - i) as nat);
        assert((i as nat) + ((last - i) as nat) == last);
        if i < last {
            let middle = chain_steps(mem, head, name, i as nat)->Some_0;
            assert(chain_steps(mem, middle, name, (last - i) as nat) is Some);
        }
    }
    if visited.no_duplicates() {
        lemma_distinct_addresses(visited);
    } else {
        let (a, b) = choose|a: int, b: int|
            0 <= a < visited.len() && 0 <= b < visited.len() && a != b && visited[a] == visited[b];
        let (low, high) = if a < b {
            (a, b)
        } else {
            (b, a)
        };
        assert(link_at(mem, head, name, high - 1) is Some);
        assert(visited[high] != 0);
        assert(low > 0);
        assert(link_at(mem, head, name, low - 1) is Some);
        assert(link_at(mem, head, name, low - 1) == link_at(mem, head, name, high - 1));
        assert(chain_returns(mem, head, name, low - 1, high - 1));
    }
}

/// No search through a field table gives up.
proof fn lemma_field_search_errors(
    mem: Map<u64, u8>,
    class: u64,
    fields: u64,
    name: &'static str,
    i: nat,
    count: nat,
)
    ensures
        !(field_search(mem, class, fields, name, i, count) matches Err(TraceError::ChainTooLong)),
    decreases count - i,
{
    if i < count {
        if let Ok(field) = field_at(mem, fields, i) {
            lemma_c_string_errors(mem, field.name, 0);
            lemma_field_search_errors(mem, class, fields, name, i + 1, count);
        }
    }
}

/// A search for a field that gave up has followed every instantiation that
/// it was allowed.
proof fn lemma_given_up_definitions(mem: Map<u64, u8>, class: u64, name: &'static str, depth: nat)
    requires
        field_offset_within(mem, class, name, depth) == Err::<u64, TraceError>(
            TraceError::ChainTooLong,
        ),
    ensures
        definition_steps(mem, class, depth) is Some,
    decreases depth,
{
    if kind_of(mem, class) == Ok::<MonoTypeKind, TraceError>(MonoTypeKind::MonoClassGInst) {
        if depth > 0 {
            let definition = generic_definition(mem, class)->Ok_0;
            lemma_given_up_definitions(mem, definition, name, (depth - 1) as nat);
        }
    } else {
        if let Ok(count) = fetch_u32(mem, at(class, CLASS_FIELD_COUNT as int)) {
            if let Ok(fields) = fetch_u64(mem, at(class, CLASS_FIELDS as int)) {
                lemma_field_search_errors(mem, class, fields, name, 0, count as nat);
            }
        }
    }
}

/// A search for a field gives up only where instantiations lead back to one
/// of themselves: where `class_field_offset` ends with `ChainTooLong`, the
/// same class is reached from `class` after two different numbers of
/// instantiations.
pub proof fn lemma_given_up_definitions_are_a_circle(
    mem: Map<u64, u8>,
    class: u64,
    name: &'static str,
)
    requires
        field_offset(mem, class, name) == Err::<u64, TraceError>(TraceError::ChainTooLong),
    ensures
        exists|i: int, j: int| #[trigger] definitions_return(mem, class, i, j),
{
    let depth = MAX_GENERIC_DEPTH as nat;
    lemma_given_up_definitions(mem, class, name, depth);
    let count: nat = 0x1_0000_0000_0000_0001;
    let visited = Seq::new(count, |i: int| step_at(mem, class, i)->Some_0);
    assert forall|i: int| 0 <= i < count implies #[trigger] step_at(mem, class, i) is Some by {
        lemma_definition_steps_split(mem, class, i as nat, (depth - i) as nat);
        assert((i as nat) + ((depth - i) as nat) == depth);
    }
    if visited.no_duplicates() {
        lemma_distinct_addresses(visited);
    } else {
        let (a, b) = choose|a: int, b: int|
            0 <= a < visited.len() && 0 <= b < visited.len() && a != b && visited[a] == visited[b];
        let (low, high) = if a < b {
            (a, b)
        } else {
            (b, a)
        };
        assert(step_at(mem, class, low) is Some);
        assert(step_at(mem, class, high) is Some);
        assert(step_at(mem, class, low) == step_at(mem, class, high));
        assert(definitions_return(mem, class, low, high));
    }
}

/// Instantiations of which more are followed than there are addresses lead
/// back to one of themselves, so no field is found through them.
proof fn lemma_endless_offset(
    mem: Map<u64, u8>,
    class: u64,
    name: &'static str,
    steps: nat,
    depth: nat,
)
    requires
        steps >= 0x1_0000_0000_0000_0000,
        definition_steps(mem, class, steps) is Some,
        depth >= 0x1_0000_0000_0000_0000,
    ensures
        field_offset_within(mem, class, name, depth) == Err::<u64, TraceError>(
            TraceError::ChainTooLong,
        ),
{
    let count: nat = 0x1_0000_0000_0000_0001;
    let visited = Seq::new(count, |i: int| step_at(mem, class, i)->Some_0);
    assert forall|i: int| 0 <= i < count implies #[trigger] step_at(mem, class, i) is Some by {
        lemma_definition_steps_split(mem, class, i as nat, (steps - i) as nat);
        assert((i as nat) + ((steps - i) as nat) == steps);
    }
    if visited.no_duplicates() {
        lemma_distinct_addresses(visited);
    } else {
        let (i, j) = choose|i: int, j: int|
            0 <= i < visited.len() && 0 <= j < visited.len() && i != j && visited[i] == visited[j];
        let (low, high) = if i < j {
            (i, j)
        } else {
            (j, i)
        };
        let again = visited[low];
        assert(step_at(mem, class, low) == Some(again));
        assert(step_at(mem, class, high) == Some(again));
        lemma_definition_steps_split(mem, class, low as nat, (high - low) as nat);
        assert((low as nat) + ((high - low) as nat) == high as nat);
        assert(definition_steps(mem, again, (high - low) as nat) == Some(again));
        lemma_definition_cycle(mem, again, name, (high - low) as nat, (depth - low) as nat);
        lemma_definition_steps_offset(mem, class, name, low as nat, depth);
    }
}

/// An instantiation of a generic class has each field where its definition
/// has it, and fails to have it as its definition does.
pub proof fn lemma_instantiation_has_fields_of_definition(
    mem: Map<u64, u8>,
    class: u64,
    definition: u64,
    name: &'static str,
)
    requires
        kind_of(mem, class) == Ok::<MonoTypeKind, TraceError>(MonoTypeKind::MonoClassGInst),
        generic_definition(mem, class) == Ok::<u64, TraceError>(definition),
    ensures
        field_offset(mem, class, name) == field_offset(mem, definition, name),
{
    let less = (MAX_GENERIC_DEPTH - 1) as nat;
    assert(field_offset_within(mem, class, name, MAX_GENERIC_DEPTH as nat) == field_offset_within(
        mem,
        definition,
        name,
        less,
    ));
    if definition_steps(mem, definition, less) is Some {
        lemma_endless_offset(mem, definition, name, less, less);
        lemma_endless_offset(mem, definition, name, less, MAX_GENERIC_DEPTH as nat);
    } else {
        lemma_ended_offset(mem, definition, name, less);
    }
}

/// The static fields of a class are found through the first domain that has
/// loaded it: where the vtable slots of the domains before `k` are null and
/// that of domain `k` holds `vtable`, the storage is the pointer that follows
/// the method slots of `vtable`.
pub proof fn lemma_static_fields_of_first_loaded_domain(
    mem: Map<u64, u8>,
    class: u64,
    vtable_size: u32,
    info: u64,
    max_domains: u64,
    k: nat,
    vtable: u64,
)
    requires
        fetch_u32(mem, at(class, CLASS_VTABLE_SIZE as int)) == Ok::<u32, TraceError>(vtable_size),
        fetch_u64(mem, at(class, CLASS_RUNTIME_INFO as int)) == Ok::<u64, TraceError>(info),
        fetch_u64(mem, info) == Ok::<u64, TraceError>(max_domains),
        k <= max_domains,
        forall|i: int|
            0 <= i < k ==> #[trigger] fetch_u64(mem, at(info, 8 + 8 * i)) == Ok::<u64, TraceError>(
                0,
            ),
        fetch_u64(mem, at(info, 8 + 8 * (k as int))) == Ok::<u64, TraceError>(vtable),
        vtable != 0,
    ensures
        static_fields_of(mem, class) == fetch_u64(mem, at(vtable, 64 + 8 * (vtable_size as int))),
{
    lemma_vtable_search(mem, class, info, max_domains as nat, k, vtable, 0);
}

/// The search for a vtable from slot `i` on finds the first slot that is not
/// null.
proof fn lemma_vtable_search(
    mem: Map<u64, u8>,
    class: u64,
    info: u64,
    last: nat,
    k: nat,
    vtable: u64,
    i: nat,
)
    requires
        i <= k <= last,
        forall|j: int|
            0 <= j < k ==> #[trigger] fetch_u64(mem, at(info, 8 + 8 * j)) == Ok::<u64, TraceError>(
                0,
            ),
        fetch_u64(mem, at(info, 8 + 8 * (k as int))) == Ok::<u64, TraceError>(vtable),
        vtable != 0,
    ensures
        vtable_search(mem, class, info, i, last) == Ok::<u64, TraceError>(vtable),
    decreases k - i,
{
    if i < k {
        assert(fetch_u64(mem, at(info, 8 + 8 * (i as int))) == Ok::<u64, TraceError>(0));
        lemma_vtable_search(mem, class, info, last, k, vtable, i + 1);
    }
}

/// The tag in the lowest bit of an object's first word does not change the
/// class that is found: where the word is the address `vtable`, which is
/// even, with or without the tag, the class is the word that `vtable` points
/// to.
pub proof fn lemma_tag_is_ignored(mem: Map<u64, u8>, instance: u64, vtable: u64, word: u64)
    requires
        vtable % 2 == 0,
        word == vtable || word == vtable + 1,
        fetch_u64(mem, instance) == Ok::<u64, TraceError>(word),
    ensures
        without_tag(word) == vtable,
        class_of(mem, instance) == fetch_u64(mem, vtable),
{
}

} // verus!
