//! What holds of a walk when the image grows: a result that was reached stays
//! as it is, so a walk through part of the memory gives what a walk through
//! all of it gives.

use vstd::prelude::*;
use vstd::string::StringSliceAdditionalSpecFns;

use crate::celeste::{
    attached, checkpoints_in, cutscene, domain_name_of, element, game_classes, game_domain,
    info_address,
    level_name_at, may_be_in_cutscene, mode_checkpoints, save_counts, snapshot, Celeste, AREAS,
    AREA_COUNT, ASSEMBLY_IMAGE, AUTOSPLITTER_INFO, CELESTE_CLASS, CHECKPOINTS, DOMAIN_ASSEMBLY,
    DOMAIN_LIST, DOMAIN_NAME, ENGINE_CLASS, GAME_DOMAIN, IMAGE_CLASS_CACHE, INSTANCE, IN_CUTSCENE,
    LEVEL_CLASS, LIST_ITEMS, LIST_SIZE, MODES, SAVEDATA_CLASS, SCENE, SET_COUNT, TOTAL_DEATHS,
};
use crate::dump::{AutosplitterInfo, INFO_BLOCK_BYTES};
use crate::error::TraceError;
use crate::memory::{
    at, bytes_at, c_string, c_string_from, fetch, fetch_u32, fetch_u64, fetch_u8, overlay,
    readable, C_STRING_LIMIT,
};
use crate::mono::{
    bucket_search, chain_search, class_name_of, class_named, class_of, field_at, field_offset,
    field_offset_within, field_search, generic_definition, instance_field, instance_u32,
    instance_u64, kind_of, managed_string_units, own_field_offset, static_fields_of, static_u64,
    units_read, vtable_search, without_tag, MonoTypeKind, CACHE_TABLE, CLASS_FIELDS,
    CLASS_FIELD_COUNT, CLASS_GENERIC, CLASS_KIND, CLASS_NAME, CLASS_NEXT, CLASS_RUNTIME_INFO,
    CLASS_VTABLE_SIZE, FIELD_BYTES, FIELD_STRIDE, FIRST_CHAR, MAX_CHAIN_LENGTH, MAX_GENERIC_DEPTH,
    STRING_LENGTH, TABLE_SIZE,
};

verus! {

/// Whether `more` holds every byte that `mem` holds.
pub open spec fn extends(more: Map<u64, u8>, mem: Map<u64, u8>) -> bool {
    forall|a: u64| #[trigger] mem.contains_key(a) ==> more.contains_key(a) && more[a] == mem[a]
}

/// Whether a walk has come to an end: it gave a value, or failed for another
/// reason than a byte that the image lacks.
pub open spec fn settled<T>(r: Result<T, TraceError>) -> bool {
    match r {
        Err(TraceError::Unreadable { .. }) => false,
        _ => true,
    }
}

proof fn lemma_fetch(mem: Map<u64, u8>, more: Map<u64, u8>, addr: u64, len: nat)
    requires
        extends(more, mem),
        settled(fetch(mem, addr, len)),
    ensures
        fetch(more, addr, len) == fetch(mem, addr, len),
{
    assert(readable(mem, addr, len));
    assert forall|i: int| 0 <= i < len implies more.contains_key(#[trigger] at(addr, i)) by {
        assert(mem.contains_key(at(addr, i)));
    }
    assert(bytes_at(more, addr, len) =~= bytes_at(mem, addr, len));
}

proof fn lemma_fetch_u8(mem: Map<u64, u8>, more: Map<u64, u8>, addr: u64)
    requires
        extends(more, mem),
        settled(fetch_u8(mem, addr)),
    ensures
        fetch_u8(more, addr) == fetch_u8(mem, addr),
{
    lemma_fetch(mem, more, addr, 1);
}

proof fn lemma_fetch_u32(mem: Map<u64, u8>, more: Map<u64, u8>, addr: u64)
    requires
        extends(more, mem),
        settled(fetch_u32(mem, addr)),
    ensures
        fetch_u32(more, addr) == fetch_u32(mem, addr),
{
    lemma_fetch(mem, more, addr, 4);
}

proof fn lemma_fetch_u64(mem: Map<u64, u8>, more: Map<u64, u8>, addr: u64)
    requires
        extends(more, mem),
        settled(fetch_u64(mem, addr)),
    ensures
        fetch_u64(more, addr) == fetch_u64(mem, addr),
{
    lemma_fetch(mem, more, addr, 8);
}

proof fn lemma_c_string_from(mem: Map<u64, u8>, more: Map<u64, u8>, addr: u64, i: nat)
    requires
        extends(more, mem),
        settled(c_string_from(mem, addr, i)),
    ensures
        c_string_from(more, addr, i) == c_string_from(mem, addr, i),
    decreases C_STRING_LIMIT - i,
{
    if i < C_STRING_LIMIT && mem.contains_key(at(addr, i as int)) && mem[at(addr, i as int)] != 0 {
        lemma_c_string_from(mem, more, addr, i + 1);
    }
}

proof fn lemma_c_string(mem: Map<u64, u8>, more: Map<u64, u8>, addr: u64)
    requires
        extends(more, mem),
        settled(c_string(mem, addr)),
    ensures
        c_string(more, addr) == c_string(mem, addr),
{
    lemma_c_string_from(mem, more, addr, 0);
}

proof fn lemma_class_name_of(mem: Map<u64, u8>, more: Map<u64, u8>, class: u64)
    requires
        extends(more, mem),
        settled(class_name_of(mem, class)),
    ensures
        class_name_of(more, class) == class_name_of(mem, class),
{
    lemma_fetch_u64(mem, more, at(class, CLASS_NAME as int));
    if let Ok(name_ptr) = fetch_u64(mem, at(class, CLASS_NAME as int)) {
        lemma_c_string(mem, more, name_ptr);
    }
}

proof fn lemma_chain_search(
    mem: Map<u64, u8>,
    more: Map<u64, u8>,
    class: u64,
    name: Seq<u8>,
    left: nat,
)
    requires
        extends(more, mem),
        settled(chain_search(mem, class, name, left)),
    ensures
        chain_search(more, class, name, left) == chain_search(mem, class, name, left),
    decreases left,
{
    if class != 0 && left > 0 {
        lemma_class_name_of(mem, more, class);
        if let Ok(found) = class_name_of(mem, class) {
            if found != name {
                lemma_fetch_u64(mem, more, at(class, CLASS_NEXT as int));
                if let Ok(next) = fetch_u64(mem, at(class, CLASS_NEXT as int)) {
                    lemma_chain_search(mem, more, next, name, (left - 1) as nat);
                }
            }
        }
    }
}

proof fn lemma_bucket_search(
    mem: Map<u64, u8>,
    more: Map<u64, u8>,
    table: u64,
    name: &'static str,
    bucket: nat,
    size: nat,
)
    requires
        extends(more, mem),
        settled(bucket_search(mem, table, name, bucket, size)),
    ensures
        bucket_search(more, table, name, bucket, size) == bucket_search(
            mem,
            table,
            name,
            bucket,
            size,
        ),
    decreases size - bucket,
{
    if bucket < size {
        lemma_fetch_u64(mem, more, at(table, 8 * (bucket as int)));
        if let Ok(head) = fetch_u64(mem, at(table, 8 * (bucket as int))) {
            lemma_chain_search(mem, more, head, name.spec_bytes(), MAX_CHAIN_LENGTH as nat);
            if chain_search(mem, head, name.spec_bytes(), MAX_CHAIN_LENGTH as nat) == Ok::<
                Option<u64>,
                TraceError,
            >(None) {
                lemma_bucket_search(mem, more, table, name, bucket + 1, size);
            }
        }
    }
}

/// A look-up that came to an end in an image comes to the same end in every
/// image that holds more.
pub proof fn lemma_class_named_extends(
    mem: Map<u64, u8>,
    more: Map<u64, u8>,
    class_cache: u64,
    name: &'static str,
)
    requires
        extends(more, mem),
        settled(class_named(mem, class_cache, name)),
    ensures
        class_named(more, class_cache, name) == class_named(mem, class_cache, name),
{
    lemma_fetch_u64(mem, more, at(class_cache, CACHE_TABLE as int));
    if let Ok(table) = fetch_u64(mem, at(class_cache, CACHE_TABLE as int)) {
        lemma_fetch_u32(mem, more, at(table, TABLE_SIZE as int));
        if let Ok(size) = fetch_u32(mem, at(table, TABLE_SIZE as int)) {
            lemma_bucket_search(mem, more, table, name, 0, size as nat);
        }
    }
}

proof fn lemma_kind_of(mem: Map<u64, u8>, more: Map<u64, u8>, class: u64)
    requires
        extends(more, mem),
        settled(kind_of(mem, class)),
    ensures
        kind_of(more, class) == kind_of(mem, class),
{
    lemma_fetch_u8(mem, more, at(class, CLASS_KIND as int));
}

proof fn lemma_field_search(
    mem: Map<u64, u8>,
    more: Map<u64, u8>,
    class: u64,
    fields: u64,
    name: &'static str,
    i: nat,
    count: nat,
)
    requires
        extends(more, mem),
        settled(field_search(mem, class, fields, name, i, count)),
    ensures
        field_search(more, class, fields, name, i, count) == field_search(
            mem,
            class,
            fields,
            name,
            i,
            count,
        ),
    decreases count - i,
{
    if i < count {
        lemma_fetch(mem, more, at(fields, FIELD_STRIDE * i), FIELD_BYTES as nat);
        if let Ok(field) = field_at(mem, fields, i) {
            lemma_c_string(mem, more, field.name);
            if let Ok(found) = c_string(mem, field.name) {
                if found != name.spec_bytes() {
                    lemma_field_search(mem, more, class, fields, name, i + 1, count);
                }
            }
        }
    }
}

proof fn lemma_own_field_offset(
    mem: Map<u64, u8>,
    more: Map<u64, u8>,
    class: u64,
    name: &'static str,
)
    requires
        extends(more, mem),
        settled(own_field_offset(mem, class, name)),
    ensures
        own_field_offset(more, class, name) == own_field_offset(mem, class, name),
{
    lemma_fetch_u32(mem, more, at(class, CLASS_FIELD_COUNT as int));
    if let Ok(count) = fetch_u32(mem, at(class, CLASS_FIELD_COUNT as int)) {
        lemma_fetch_u64(mem, more, at(class, CLASS_FIELDS as int));
        if let Ok(fields) = fetch_u64(mem, at(class, CLASS_FIELDS as int)) {
            lemma_field_search(mem, more, class, fields, name, 0, count as nat);
        }
    }
}

proof fn lemma_generic_definition(mem: Map<u64, u8>, more: Map<u64, u8>, class: u64)
    requires
        extends(more, mem),
        settled(generic_definition(mem, class)),
    ensures
        generic_definition(more, class) == generic_definition(mem, class),
{
    lemma_fetch_u64(mem, more, at(class, CLASS_GENERIC as int));
    if let Ok(generic) = fetch_u64(mem, at(class, CLASS_GENERIC as int)) {
        lemma_fetch_u64(mem, more, generic);
    }
}

proof fn lemma_field_offset_within(
    mem: Map<u64, u8>,
    more: Map<u64, u8>,
    class: u64,
    name: &'static str,
    depth: nat,
)
    requires
        extends(more, mem),
        settled(field_offset_within(mem, class, name, depth)),
    ensures
        field_offset_within(more, class, name, depth) == field_offset_within(
            mem,
            class,
            name,
            depth,
        ),
    decreases depth,
{
    lemma_kind_of(mem, more, class);
    match kind_of(mem, class) {
        Ok(MonoTypeKind::MonoClassGInst) => {
            if depth > 0 {
                lemma_generic_definition(mem, more, class);
                if let Ok(definition) = generic_definition(mem, class) {
                    lemma_field_offset_within(mem, more, definition, name, (depth - 1) as nat);
                }
            }
        },
        Ok(MonoTypeKind::MonoClassDef) | Ok(MonoTypeKind::MonoClassGTD) => {
            lemma_own_field_offset(mem, more, class, name);
        },
        _ => {},
    }
}

/// A search for a field that came to an end in an image comes to the same end
/// in every image that holds more.
pub proof fn lemma_field_offset_extends(
    mem: Map<u64, u8>,
    more: Map<u64, u8>,
    class: u64,
    name: &'static str,
)
    requires
        extends(more, mem),
        settled(field_offset(mem, class, name)),
    ensures
        field_offset(more, class, name) == field_offset(mem, class, name),
{
    lemma_field_offset_within(mem, more, class, name, MAX_GENERIC_DEPTH as nat);
}

proof fn lemma_class_of(mem: Map<u64, u8>, more: Map<u64, u8>, instance: u64)
    requires
        extends(more, mem),
        settled(class_of(mem, instance)),
    ensures
        class_of(more, instance) == class_of(mem, instance),
{
    lemma_fetch_u64(mem, more, instance);
    if let Ok(tagged) = fetch_u64(mem, instance) {
        lemma_fetch_u64(mem, more, without_tag(tagged));
    }
}

proof fn lemma_vtable_search(
    mem: Map<u64, u8>,
    more: Map<u64, u8>,
    class: u64,
    info: u64,
    i: nat,
    last: nat,
)
    requires
        extends(more, mem),
        settled(vtable_search(mem, class, info, i, last)),
    ensures
        vtable_search(more, class, info, i, last) == vtable_search(mem, class, info, i, last),
    decreases last + 1 - i,
{
    if i <= last {
        lemma_fetch_u64(mem, more, at(info, 8 + 8 * (i as int)));
        if fetch_u64(mem, at(info, 8 + 8 * (i as int))) == Ok::<u64, TraceError>(0) {
            lemma_vtable_search(mem, more, class, info, i + 1, last);
        }
    }
}

/// The static storage of a class that was found in an image is found in every
/// image that holds more.
pub proof fn lemma_static_fields_extends(mem: Map<u64, u8>, more: Map<u64, u8>, class: u64)
    requires
        extends(more, mem),
        settled(static_fields_of(mem, class)),
    ensures
        static_fields_of(more, class) == static_fields_of(mem, class),
{
    lemma_fetch_u32(mem, more, at(class, CLASS_VTABLE_SIZE as int));
    if let Ok(vtable_size) = fetch_u32(mem, at(class, CLASS_VTABLE_SIZE as int)) {
        lemma_fetch_u64(mem, more, at(class, CLASS_RUNTIME_INFO as int));
        if let Ok(info) = fetch_u64(mem, at(class, CLASS_RUNTIME_INFO as int)) {
            lemma_fetch_u64(mem, more, info);
            if let Ok(max_domains) = fetch_u64(mem, info) {
                lemma_vtable_search(mem, more, class, info, 0, max_domains as nat);
                if let Ok(vtable) = vtable_search(mem, class, info, 0, max_domains as nat) {
                    lemma_fetch_u64(mem, more, at(vtable, 64 + 8 * (vtable_size as int)));
                }
            }
        }
    }
}

proof fn lemma_static_u64(mem: Map<u64, u8>, more: Map<u64, u8>, class: u64, name: &'static str)
    requires
        extends(more, mem),
        settled(static_u64(mem, class, name)),
    ensures
        static_u64(more, class, name) == static_u64(mem, class, name),
{
    lemma_static_fields_extends(mem, more, class);
    if let Ok(storage) = static_fields_of(mem, class) {
        lemma_field_offset_extends(mem, more, class, name);
        if let Ok(field) = field_offset(mem, class, name) {
            lemma_fetch_u64(mem, more, at(storage, field as int));
        }
    }
}

proof fn lemma_instance_field(
    mem: Map<u64, u8>,
    more: Map<u64, u8>,
    instance: u64,
    name: &'static str,
)
    requires
        extends(more, mem),
        settled(instance_field(mem, instance, name)),
    ensures
        instance_field(more, instance, name) == instance_field(mem, instance, name),
{
    lemma_class_of(mem, more, instance);
    if let Ok(class) = class_of(mem, instance) {
        lemma_field_offset_extends(mem, more, class, name);
    }
}

proof fn lemma_instance_u32(
    mem: Map<u64, u8>,
    more: Map<u64, u8>,
    instance: u64,
    name: &'static str,
)
    requires
        extends(more, mem),
        settled(instance_u32(mem, instance, name)),
    ensures
        instance_u32(more, instance, name) == instance_u32(mem, instance, name),
{
    lemma_instance_field(mem, more, instance, name);
    if let Ok(place) = instance_field(mem, instance, name) {
        lemma_fetch_u32(mem, more, place);
    }
}

proof fn lemma_instance_u64(
    mem: Map<u64, u8>,
    more: Map<u64, u8>,
    instance: u64,
    name: &'static str,
)
    requires
        extends(more, mem),
        settled(instance_u64(mem, instance, name)),
    ensures
        instance_u64(more, instance, name) == instance_u64(mem, instance, name),
{
    lemma_instance_field(mem, more, instance, name);
    if let Ok(place) = instance_field(mem, instance, name) {
        lemma_fetch_u64(mem, more, place);
    }
}

proof fn lemma_managed_string_units(mem: Map<u64, u8>, more: Map<u64, u8>, instance: u64)
    requires
        extends(more, mem),
        settled(managed_string_units(mem, instance)),
    ensures
        managed_string_units(more, instance) == managed_string_units(mem, instance),
{
    lemma_class_of(mem, more, instance);
    if let Ok(class) = class_of(mem, instance) {
        lemma_field_offset_extends(mem, more, class, FIRST_CHAR);
        if let Ok(data) = field_offset(mem, class, FIRST_CHAR) {
            lemma_field_offset_extends(mem, more, class, STRING_LENGTH);
            if let Ok(size) = field_offset(mem, class, STRING_LENGTH) {
                lemma_fetch_u32(mem, more, at(instance, size as int));
                if let Ok(length) = fetch_u32(mem, at(instance, size as int)) {
                    lemma_fetch(mem, more, at(instance, data as int), 2 * units_read(length));
                }
            }
        }
    }
}

proof fn lemma_game_domain(mem: Map<u64, u8>, more: Map<u64, u8>)
    requires
        extends(more, mem),
        settled(game_domain(mem)),
    ensures
        game_domain(more) == game_domain(mem),
{
    lemma_fetch_u64(mem, more, DOMAIN_LIST);
    if let Ok(domains) = fetch_u64(mem, DOMAIN_LIST) {
        lemma_fetch_u64(mem, more, domains);
        if let Ok(first) = fetch_u64(mem, domains) {
            lemma_fetch_u64(mem, more, at(first, DOMAIN_NAME as int));
            if let Ok(name_ptr) = fetch_u64(mem, at(first, DOMAIN_NAME as int)) {
                lemma_c_string(mem, more, name_ptr);
                if domain_name_of(mem, first) == Ok::<Seq<u8>, TraceError>(
                    GAME_DOMAIN.spec_bytes(),
                ) {
                    lemma_fetch_u64(mem, more, at(domains, 8));
                }
            }
        }
    }
}

proof fn lemma_game_classes(mem: Map<u64, u8>, more: Map<u64, u8>, class_cache: u64)
    requires
        extends(more, mem),
        settled(game_classes(mem, class_cache)),
    ensures
        game_classes(more, class_cache) == game_classes(mem, class_cache),
{
    lemma_class_named_extends(mem, more, class_cache, CELESTE_CLASS);
    if class_named(mem, class_cache, CELESTE_CLASS) is Ok {
        lemma_class_named_extends(mem, more, class_cache, SAVEDATA_CLASS);
        if class_named(mem, class_cache, SAVEDATA_CLASS) is Ok {
            lemma_class_named_extends(mem, more, class_cache, ENGINE_CLASS);
            if class_named(mem, class_cache, ENGINE_CLASS) is Ok {
                lemma_class_named_extends(mem, more, class_cache, LEVEL_CLASS);
            }
        }
    }
}

proof fn lemma_info_address(mem: Map<u64, u8>, more: Map<u64, u8>, instance: u64)
    requires
        extends(more, mem),
        settled(info_address(mem, instance)),
    ensures
        info_address(more, instance) == info_address(mem, instance),
{
    lemma_instance_field(mem, more, instance, AUTOSPLITTER_INFO);
}

/// Attaching through part of the memory gives what attaching through all of
/// it gives: once `Celeste::new` has come to an end on an image, it comes to
/// the same end on every image that holds more.
pub proof fn lemma_attached_extends(mem: Map<u64, u8>, more: Map<u64, u8>)
    requires
        extends(more, mem),
        settled(attached(mem)),
    ensures
        attached(more) == attached(mem),
{
    lemma_game_domain(mem, more);
    if let Ok(domain) = game_domain(mem) {
        lemma_fetch_u64(mem, more, at(domain, DOMAIN_ASSEMBLY as int));
        if let Ok(assembly) = fetch_u64(mem, at(domain, DOMAIN_ASSEMBLY as int)) {
            lemma_fetch_u64(mem, more, at(assembly, ASSEMBLY_IMAGE as int));
            if let Ok(image) = fetch_u64(mem, at(assembly, ASSEMBLY_IMAGE as int)) {
                let class_cache = at(image, IMAGE_CLASS_CACHE as int);
                lemma_game_classes(mem, more, class_cache);
                if let Ok(classes) = game_classes(mem, class_cache) {
                    lemma_static_u64(mem, more, classes.0, INSTANCE);
                    if let Ok(instance) = static_u64(mem, classes.0, INSTANCE) {
                        lemma_info_address(mem, more, instance);
                    }
                }
            }
        }
    }
}

proof fn lemma_mode_checkpoints(mem: Map<u64, u8>, more: Map<u64, u8>, area_stats: u64, mode: i32)
    requires
        extends(more, mem),
        settled(mode_checkpoints(mem, area_stats, mode)),
    ensures
        mode_checkpoints(more, area_stats, mode) == mode_checkpoints(mem, area_stats, mode),
{
    lemma_instance_u64(mem, more, area_stats, MODES);
    if let Ok(modes) = instance_u64(mem, area_stats, MODES) {
        lemma_fetch_u64(mem, more, element(modes, mode as int));
        if let Ok(mode_stats) = fetch_u64(mem, element(modes, mode as int)) {
            if mode_stats != 0 {
                lemma_instance_u64(mem, more, mode_stats, CHECKPOINTS);
                if let Ok(set) = instance_u64(mem, mode_stats, CHECKPOINTS) {
                    lemma_instance_u32(mem, more, set, SET_COUNT);
                }
            }
        }
    }
}

proof fn lemma_checkpoints_in(
    mem: Map<u64, u8>,
    more: Map<u64, u8>,
    savedata: u64,
    chapter: i32,
    mode: i32,
)
    requires
        extends(more, mem),
        settled(checkpoints_in(mem, savedata, chapter, mode)),
    ensures
        checkpoints_in(more, savedata, chapter, mode) == checkpoints_in(
            mem,
            savedata,
            chapter,
            mode,
        ),
{
    lemma_instance_u64(mem, more, savedata, AREAS);
    if let Ok(areas) = instance_u64(mem, savedata, AREAS) {
        lemma_instance_u32(mem, more, areas, LIST_SIZE);
        if instance_u32(mem, areas, LIST_SIZE) == Ok::<u32, TraceError>(AREA_COUNT) {
            lemma_instance_u64(mem, more, areas, LIST_ITEMS);
            if let Ok(items) = instance_u64(mem, areas, LIST_ITEMS) {
                lemma_fetch_u64(mem, more, element(items, chapter as int));
                if let Ok(area_stats) = fetch_u64(mem, element(items, chapter as int)) {
                    lemma_mode_checkpoints(mem, more, area_stats, mode);
                }
            }
        }
    }
}

proof fn lemma_save_counts(
    mem: Map<u64, u8>,
    more: Map<u64, u8>,
    savedata_class: u64,
    info: AutosplitterInfo,
)
    requires
        extends(more, mem),
        settled(save_counts(mem, savedata_class, info)),
    ensures
        save_counts(more, savedata_class, info) == save_counts(mem, savedata_class, info),
{
    lemma_static_u64(mem, more, savedata_class, INSTANCE);
    if let Ok(savedata) = static_u64(mem, savedata_class, INSTANCE) {
        if savedata != 0 {
            lemma_instance_u32(mem, more, savedata, TOTAL_DEATHS);
            if instance_u32(mem, savedata, TOTAL_DEATHS) is Ok && info.chapter != -1 {
                lemma_checkpoints_in(mem, more, savedata, info.chapter, info.mode);
            }
        }
    }
}

proof fn lemma_cutscene(
    mem: Map<u64, u8>,
    more: Map<u64, u8>,
    handles: Celeste,
    info: AutosplitterInfo,
)
    requires
        extends(more, mem),
        settled(cutscene(mem, handles, info)),
    ensures
        cutscene(more, handles, info) == cutscene(mem, handles, info),
{
    if may_be_in_cutscene(info) {
        lemma_field_offset_extends(mem, more, handles.engine_class, SCENE);
        if let Ok(scene_field) = field_offset(mem, handles.engine_class, SCENE) {
            lemma_fetch_u64(mem, more, at(handles.instance, scene_field as int));
            if let Ok(scene) = fetch_u64(mem, at(handles.instance, scene_field as int)) {
                lemma_class_of(mem, more, scene);
                if class_of(mem, scene) == Ok::<u64, TraceError>(handles.level_class) {
                    lemma_field_offset_extends(mem, more, handles.level_class, IN_CUTSCENE);
                    if let Ok(flag_field) = field_offset(mem, handles.level_class, IN_CUTSCENE) {
                        lemma_fetch_u8(mem, more, at(scene, flag_field as int));
                    }
                }
            }
        }
    }
}

proof fn lemma_level_name_at(mem: Map<u64, u8>, more: Map<u64, u8>, level: u64)
    requires
        extends(more, mem),
        settled(level_name_at(mem, level)),
    ensures
        level_name_at(more, level) == level_name_at(mem, level),
{
    if level != 0 {
        lemma_managed_string_units(mem, more, level);
    }
}

/// A tick through part of the memory gives what a tick through all of it
/// gives: once `Celeste::get_data` has come to an end on an image, it comes
/// to the same end on every image that holds more.
pub proof fn lemma_snapshot_extends(mem: Map<u64, u8>, more: Map<u64, u8>, handles: Celeste)
    requires
        extends(more, mem),
        settled(snapshot(mem, handles)),
    ensures
        snapshot(more, handles) == snapshot(mem, handles),
{
    lemma_fetch(mem, more, handles.autosplitter_info, INFO_BLOCK_BYTES as nat);
    if let Ok(block) = fetch(mem, handles.autosplitter_info, INFO_BLOCK_BYTES as nat) {
        let info = AutosplitterInfo::decode(block);
        lemma_save_counts(mem, more, handles.savedata_class, info);
        if save_counts(mem, handles.savedata_class, info) is Ok {
            lemma_cutscene(mem, more, handles, info);
            if cutscene(mem, handles, info) is Ok {
                lemma_level_name_at(mem, more, info.level);
            }
        }
    }
}

/// Writing to an image what it holds already, or what it held nothing of,
/// gives an image that holds more.
pub proof fn lemma_overlay_extends(mem: Map<u64, u8>, addr: u64, bytes: Seq<u8>)
    requires
        bytes.len() <= 0x1_0000_0000_0000_0000,
        forall|i: int|
            0 <= i < bytes.len() && mem.contains_key(#[trigger] at(addr, i)) ==> mem[at(addr, i)]
                == bytes[i],
    ensures
        extends(overlay(mem, addr, bytes), mem),
    decreases bytes.len(),
{
    if bytes.len() > 0 {
        let front = bytes.drop_last();
        let n = bytes.len() - 1;
        assert forall|i: int|
            0 <= i < front.len() && mem.contains_key(#[trigger] at(addr, i)) implies mem[at(
            addr,
            i,
        )] == front[i] by {
            assert(front[i] == bytes[i]);
        }
        lemma_overlay_extends(mem, addr, front);
        let before = overlay(mem, addr, front);
        let now = overlay(mem, addr, bytes);
        assert(now == before.insert(at(addr, n), bytes.last()));
        assert forall|a: u64| #[trigger] mem.contains_key(a) implies now.contains_key(a) && now[a]
            == mem[a] by {
            if a == at(addr, n) {
                assert(mem[at(addr, n)] == bytes[n]);
            }
        }
    }
}

} // verus!
