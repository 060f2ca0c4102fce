//! The game's own objects: where they are found at attach time, and what is
//! read from them at each tick.

use vstd::prelude::*;
use vstd::string::StringSliceAdditionalSpecFns;
use vstd::utf8::{decode_utf8, valid_utf8};

use crate::dump::{AutosplitterInfo, Dump, DumpModel, INFO_BLOCK_BYTES};
use crate::error::TraceError;
use crate::memory::{
    at, c_string, fetch, fetch_u64, fetch_u8, lemma_at_at, offset, read_c_string, read_string,
    read_u64, read_u8, slot, MemoryImage,
};
use crate::mono::{
    class_field_offset, class_named, class_of, field_offset, instance_class, instance_field,
    instance_field_address, instance_field_u32, instance_field_u64, instance_u32, instance_u64,
    lookup_class, managed_string_units, read_boxed_string, static_field_u64, static_u64,
};
use crate::text::{all_plain, bytes_equal, lossy_utf16, lossy_utf8, plain_text};

verus! {

/// Where the game's binary keeps the pointer to the list of domains.
pub const DOMAIN_LIST: u64 = 0xA17698;

/// Where the game's binary keeps the pointer to the root domain.
pub const ROOT_DOMAIN: u64 = 0xA17650;

/// Where a domain keeps the pointer to its name, a C string.
pub const DOMAIN_NAME: u64 = 0xD8;

/// Where a domain keeps the pointer to its assembly.
pub const DOMAIN_ASSEMBLY: u64 = 0xD0;

/// Where an assembly keeps the pointer to its image.
pub const ASSEMBLY_IMAGE: u64 = 0x60;

/// Where an image keeps its class cache.
pub const IMAGE_CLASS_CACHE: u64 = 1216;

/// The bytes before the first element of a managed array.
pub const ARRAY_HEADER: u64 = 0x20;

/// The bytes before the fields of a struct that an object holds.
pub const OBJECT_HEADER: u64 = 0x10;

/// The number of areas that the game has.
pub const AREA_COUNT: u32 = 11;

/// The name that the first domain of the game has.
pub const GAME_DOMAIN: &'static str = "Celeste.exe";

/// The class of the game object.
pub const CELESTE_CLASS: &'static str = "Celeste";

/// The class of the save data.
pub const SAVEDATA_CLASS: &'static str = "SaveData";

/// The class that the game object has its scene from.
pub const ENGINE_CLASS: &'static str = "Engine";

/// The class of a scene in which the game is played.
pub const LEVEL_CLASS: &'static str = "Level";

/// The static field that holds the one object of a class.
pub const INSTANCE: &'static str = "Instance";

/// The field of the game object that holds the state of the run.
pub const AUTOSPLITTER_INFO: &'static str = "AutoSplitterInfo";

/// The field of the save data that counts the deaths.
pub const TOTAL_DEATHS: &'static str = "TotalDeaths";

/// The field of the save data that lists the statistics of the areas.
pub const AREAS: &'static str = "Areas";

/// The field of an area's statistics that holds those of its modes.
pub const MODES: &'static str = "Modes";

/// The field of a mode's statistics that holds the set of its checkpoints.
pub const CHECKPOINTS: &'static str = "Checkpoints";

/// The field of a list that holds its length.
pub const LIST_SIZE: &'static str = "_size";

/// The field of a list that holds the array of its elements.
pub const LIST_ITEMS: &'static str = "_items";

/// The field of a set that holds the number of its elements.
pub const SET_COUNT: &'static str = "_count";

/// The field of the engine that holds the current scene.
pub const SCENE: &'static str = "scene";

/// The field of a level that tells whether a cutscene is shown.
pub const IN_CUTSCENE: &'static str = "InCutscene";

/// The addresses that are found once, at attach time, and used at every tick.
#[derive(Clone, Copy, Debug, PartialEq, Eq, Structural)]
pub struct Celeste {
    /// The assembly of the game's domain.
    pub assembly: u64,
    /// The class cache of the image of that assembly.
    pub class_cache: u64,
    /// The class `Celeste`.
    pub celeste_class: u64,
    /// The class `SaveData`.
    pub savedata_class: u64,
    /// The class `Engine`.
    pub engine_class: u64,
    /// The class `Level`.
    pub level_class: u64,
    /// The one object of the game's main class.
    pub instance: u64,
    /// Where that object keeps the block with the state of the run.
    pub autosplitter_info: u64,
}

/// The bytes of the name of the domain at `domain`.
pub open spec fn domain_name_of(mem: Map<u64, u8>, domain: u64) -> Result<Seq<u8>, TraceError> {
    match fetch_u64(mem, at(domain, DOMAIN_NAME as int)) {
        Err(e) => Err(e),
        Ok(name_ptr) => c_string(mem, name_ptr),
    }
}

/// The domain that holds the game's own code: the second of the list, which
/// must start with a domain named `Celeste.exe`.
pub open spec fn game_domain(mem: Map<u64, u8>) -> Result<u64, TraceError> {
    match fetch_u64(mem, DOMAIN_LIST) {
        Err(e) => Err(e),
        Ok(domains) => match fetch_u64(mem, domains) {
            Err(e) => Err(e),
            Ok(first) => match domain_name_of(mem, first) {
                Err(e) => Err(e),
                Ok(name) => if name != GAME_DOMAIN.spec_bytes() {
                    Err(TraceError::NotCeleste)
                } else {
                    fetch_u64(mem, at(domains, 8))
                },
            },
        },
    }
}

/// Where the block with the state of the run lies in the game object at
/// `instance`: behind the object header of the struct that the object's field
/// `AutoSplitterInfo` holds.
pub open spec fn info_address(mem: Map<u64, u8>, instance: u64) -> Result<u64, TraceError> {
    match instance_field(mem, instance, AUTOSPLITTER_INFO) {
        Err(e) => Err(e),
        Ok(field) => Ok(at(field, OBJECT_HEADER as int)),
    }
}

/// The four classes of the game in the class cache at `class_cache`, in the
/// order Celeste, SaveData, Engine, Level.
pub open spec fn game_classes(mem: Map<u64, u8>, class_cache: u64) -> Result<
    (u64, u64, u64, u64),
    TraceError,
> {
    match class_named(mem, class_cache, CELESTE_CLASS) {
        Err(e) => Err(e),
        Ok(celeste) => match class_named(mem, class_cache, SAVEDATA_CLASS) {
            Err(e) => Err(e),
            Ok(savedata) => match class_named(mem, class_cache, ENGINE_CLASS) {
                Err(e) => Err(e),
                Ok(engine) => match class_named(mem, class_cache, LEVEL_CLASS) {
                    Err(e) => Err(e),
                    Ok(level) => Ok((celeste, savedata, engine, level)),
                },
            },
        },
    }
}

/// The handles that attaching to the game in `mem` gives.
pub open spec fn attached(mem: Map<u64, u8>) -> Result<Celeste, TraceError> {
    match game_domain(mem) {
        Err(e) => Err(e),
        Ok(domain) => match fetch_u64(mem, at(domain, DOMAIN_ASSEMBLY as int)) {
            Err(e) => Err(e),
            Ok(assembly) => match fetch_u64(mem, at(assembly, ASSEMBLY_IMAGE as int)) {
                Err(e) => Err(e),
                Ok(image) => {
                    let class_cache = at(image, IMAGE_CLASS_CACHE as int);
                    match game_classes(mem, class_cache) {
                        Err(e) => Err(e),
                        Ok(classes) => match static_u64(mem, classes.0, INSTANCE) {
                            Err(e) => Err(e),
                            Ok(instance) => match info_address(mem, instance) {
                                Err(e) => Err(e),
                                Ok(autosplitter_info) => Ok(
                                    Celeste {
                                        assembly,
                                        class_cache,
                                        celeste_class: classes.0,
                                        savedata_class: classes.1,
                                        engine_class: classes.2,
                                        level_class: classes.3,
                                        instance,
                                        autosplitter_info,
                                    },
                                ),
                            },
                        },
                    }
                },
            },
        },
    }
}

/// The bytes of the name of the domain at `domain`.
pub fn domain_name_bytes(image: &MemoryImage, domain: u64) -> (r: Result<Vec<u8>, TraceError>)
    ensures
        match domain_name_of(image@, domain) {
            Ok(s) => r is Ok && r->Ok_0@ == s,
            Err(e) => r == Err::<Vec<u8>, TraceError>(e),
        },
{
    match read_u64(image, offset(domain, DOMAIN_NAME)) {
        Ok(name_ptr) => read_c_string(image, name_ptr),
        Err(e) => Err(e),
    }
}

/// The name of the domain at `domain`. Bytes that are no valid UTF-8 become
/// U+FFFD.
pub fn domain_name(image: &MemoryImage, domain: u64) -> (r: Result<String, TraceError>)
    ensures
        match domain_name_of(image@, domain) {
            Ok(s) => r is Ok && r->Ok_0@ == lossy_utf8(s) && (valid_utf8(s) ==> r->Ok_0@
                == decode_utf8(s)),
            Err(e) => r == Err::<String, TraceError>(e),
        },
{
    match read_u64(image, offset(domain, DOMAIN_NAME)) {
        Ok(name_ptr) => read_string(image, name_ptr),
        Err(e) => Err(e),
    }
}

/// Where the block with the state of the run lies in the game object at
/// `instance`.
pub fn locate_autosplitter_info(image: &MemoryImage, instance: u64) -> (r: Result<u64, TraceError>)
    ensures
        r == info_address(image@, instance),
{
    match instance_field_address(image, instance, AUTOSPLITTER_INFO) {
        Ok(field) => Ok(offset(field, OBJECT_HEADER)),
        Err(e) => Err(e),
    }
}

impl Celeste {
    /// Finds the domain that holds the game's own code, and fails with
    /// `NotCeleste` where the first domain has another name than the game's.
    pub fn init(image: &MemoryImage) -> (r: Result<u64, TraceError>)
        ensures
            r == game_domain(image@),
    {
        let domains = match read_u64(image, DOMAIN_LIST) {
            Ok(domains) => domains,
            Err(e) => {
                return Err(e);
            },
        };
        let first = match read_u64(image, domains) {
            Ok(first) => first,
            Err(e) => {
                return Err(e);
            },
        };
        let name = match domain_name_bytes(image, first) {
            Ok(name) => name,
            Err(e) => {
                return Err(e);
            },
        };
        if !bytes_equal(name.as_slice(), GAME_DOMAIN.as_bytes()) {
            return Err(TraceError::NotCeleste);
        }
        read_u64(image, offset(domains, 8))
    }

    fn classes(image: &MemoryImage, class_cache: u64) -> (r: Result<
        (u64, u64, u64, u64),
        TraceError,
    >)
        ensures
            r == game_classes(image@, class_cache),
            r matches Ok(classes) ==> classes.0 != 0 && classes.1 != 0 && classes.2 != 0
                && classes.3 != 0,
    {
        let celeste = match lookup_class(image, class_cache, CELESTE_CLASS) {
            Ok(class) => class,
            Err(e) => {
                return Err(e);
            },
        };
        let savedata = match lookup_class(image, class_cache, SAVEDATA_CLASS) {
            Ok(class) => class,
            Err(e) => {
                return Err(e);
            },
        };
        let engine = match lookup_class(image, class_cache, ENGINE_CLASS) {
            Ok(class) => class,
            Err(e) => {
                return Err(e);
            },
        };
        let level = match lookup_class(image, class_cache, LEVEL_CLASS) {
            Ok(class) => class,
            Err(e) => {
                return Err(e);
            },
        };
        Ok((celeste, savedata, engine, level))
    }

    /// Attaches to the game in `image`: finds its domain, its four classes, the
    /// game object and the block with the state of the run.
    ///
    /// Fails with `NotCeleste` for another program, with `ClassNotFound`,
    /// `FieldNotFound`, `UnexpectedClassKind` or `ClassNotLoaded` where the
    /// metadata is not what the game's is, and with `Unreadable` at the first
    /// address that the image lacks.
    pub fn new(image: &MemoryImage) -> (r: Result<Celeste, TraceError>)
        ensures
            r == attached(image@),
            r matches Ok(handles) ==> handles.celeste_class != 0 && handles.savedata_class != 0
                && handles.engine_class != 0 && handles.level_class != 0,
    {
        let domain = match Celeste::init(image) {
            Ok(domain) => domain,
            Err(e) => {
                return Err(e);
            },
        };
        let assembly = match read_u64(image, offset(domain, DOMAIN_ASSEMBLY)) {
            Ok(assembly) => assembly,
            Err(e) => {
                return Err(e);
            },
        };
        let mono_image = match read_u64(image, offset(assembly, ASSEMBLY_IMAGE)) {
            Ok(mono_image) => mono_image,
            Err(e) => {
                return Err(e);
            },
        };
        let class_cache = offset(mono_image, IMAGE_CLASS_CACHE);
        let classes = match Celeste::classes(image, class_cache) {
            Ok(classes) => classes,
            Err(e) => {
                return Err(e);
            },
        };
        let instance = match static_field_u64(image, classes.0, INSTANCE) {
            Ok(instance) => instance,
            Err(e) => {
                return Err(e);
            },
        };
        let autosplitter_info = match locate_autosplitter_info(image, instance) {
            Ok(autosplitter_info) => autosplitter_info,
            Err(e) => {
                return Err(e);
            },
        };
        Ok(
            Celeste {
                assembly,
                class_cache,
                celeste_class: classes.0,
                savedata_class: classes.1,
                engine_class: classes.2,
                level_class: classes.3,
                instance,
                autosplitter_info,
            },
        )
    }
}

/// The address of the element `index` of the managed array at `array`.
pub open spec fn element(array: u64, index: int) -> u64 {
    at(array, ARRAY_HEADER + 8 * index)
}

/// The checkpoints of chapter `chapter` in mode `mode` that the save data at
/// `savedata` knows: the size of the set `Checkpoints` of that mode's
/// statistics. It is 0 where the list of areas has not `AREA_COUNT` entries,
/// and where the mode has no statistics yet.
pub open spec fn checkpoints_in(mem: Map<u64, u8>, savedata: u64, chapter: i32, mode: i32)
    -> Result<u32, TraceError> {
    match instance_u64(mem, savedata, AREAS) {
        Err(e) => Err(e),
        Ok(areas) => match instance_u32(mem, areas, LIST_SIZE) {
            Err(e) => Err(e),
            Ok(size) => if size != AREA_COUNT {
                Ok(0u32)
            } else {
                match instance_u64(mem, areas, LIST_ITEMS) {
                    Err(e) => Err(e),
                    Ok(items) => match fetch_u64(mem, element(items, chapter as int)) {
                        Err(e) => Err(e),
                        Ok(area_stats) => mode_checkpoints(mem, area_stats, mode),
                    },
                }
            },
        },
    }
}

/// The checkpoints of mode `mode` in the statistics of one area.
pub open spec fn mode_checkpoints(mem: Map<u64, u8>, area_stats: u64, mode: i32) -> Result<
    u32,
    TraceError,
> {
    match instance_u64(mem, area_stats, MODES) {
        Err(e) => Err(e),
        Ok(modes) => match fetch_u64(mem, element(modes, mode as int)) {
            Err(e) => Err(e),
            Ok(mode_stats) => if mode_stats == 0 {
                Ok(0u32)
            } else {
                match instance_u64(mem, mode_stats, CHECKPOINTS) {
                    Err(e) => Err(e),
                    Ok(set) => instance_u32(mem, set, SET_COUNT),
                }
            },
        },
    }
}

/// The deaths and the checkpoints that the save data knows, in this order.
/// Both are 0 while the game has no save data; the checkpoints are 0 outside
/// chapters.
pub open spec fn save_counts(mem: Map<u64, u8>, savedata_class: u64, info: AutosplitterInfo)
    -> Result<(u32, u32), TraceError> {
    match static_u64(mem, savedata_class, INSTANCE) {
        Err(e) => Err(e),
        Ok(savedata) => if savedata == 0 {
            Ok((0u32, 0u32))
        } else {
            match instance_u32(mem, savedata, TOTAL_DEATHS) {
                Err(e) => Err(e),
                Ok(deaths) => if info.chapter == -1 {
                    Ok((deaths, 0u32))
                } else {
                    match checkpoints_in(mem, savedata, info.chapter, info.mode) {
                        Err(e) => Err(e),
                        Ok(checkpoints) => Ok((deaths, checkpoints)),
                    }
                },
            }
        },
    }
}

/// Whether the run state `info` allows a cutscene at all: only in a chapter
/// that was started and is not complete.
pub open spec fn may_be_in_cutscene(info: AutosplitterInfo) -> bool {
    info.chapter != -1 && info.chapter_started && !info.chapter_complete
}

/// Whether the game shows a cutscene: the current scene is a level and its
/// flag `InCutscene` is set.
pub open spec fn cutscene(mem: Map<u64, u8>, handles: Celeste, info: AutosplitterInfo) -> Result<
    bool,
    TraceError,
> {
    if !may_be_in_cutscene(info) {
        Ok(false)
    } else {
        match field_offset(mem, handles.engine_class, SCENE) {
            Err(e) => Err(e),
            Ok(scene_field) => match fetch_u64(mem, at(handles.instance, scene_field as int)) {
                Err(e) => Err(e),
                Ok(scene) => match class_of(mem, scene) {
                    Err(e) => Err(e),
                    Ok(class) => if class != handles.level_class {
                        Ok(false)
                    } else {
                        match field_offset(mem, handles.level_class, IN_CUTSCENE) {
                            Err(e) => Err(e),
                            Ok(flag_field) => match fetch_u8(mem, at(scene, flag_field as int)) {
                                Err(e) => Err(e),
                                Ok(byte) => Ok(byte != 0),
                            },
                        }
                    },
                },
            },
        }
    }
}

/// The name of the level that the managed string at `level` holds; empty for
/// the null pointer.
pub open spec fn level_name_at(mem: Map<u64, u8>, level: u64) -> Result<Seq<char>, TraceError> {
    if level == 0 {
        Ok(Seq::empty())
    } else {
        match managed_string_units(mem, level) {
            Err(e) => Err(e),
            Ok(units) => Ok(lossy_utf16(units)),
        }
    }
}

/// Whether `dump` has the level name that the memory spells, where it spells
/// it without surrogates: one character for each code unit of the managed
/// string that the run state points to, as many as its length says, and
/// nothing after them.
pub open spec fn named_plainly(mem: Map<u64, u8>, dump: DumpModel) -> bool {
    dump.autosplitter_info.level != 0 ==> (match managed_string_units(
        mem,
        dump.autosplitter_info.level,
    ) {
        Ok(units) => all_plain(units) ==> dump.level_name == plain_text(units),
        Err(_) => true,
    })
}

/// Whether the checkpoints can be counted as far as the list of areas goes:
/// not where the game has save data and is in a chapter, but the list of
/// areas has another number of entries than `AREA_COUNT`.
pub open spec fn areas_found(mem: Map<u64, u8>, savedata_class: u64, info: AutosplitterInfo)
    -> Result<bool, TraceError> {
    match static_u64(mem, savedata_class, INSTANCE) {
        Err(e) => Err(e),
        Ok(savedata) => if savedata == 0 || info.chapter == -1 {
            Ok(true)
        } else {
            match instance_u64(mem, savedata, AREAS) {
                Err(e) => Err(e),
                Ok(areas) => match instance_u32(mem, areas, LIST_SIZE) {
                    Err(e) => Err(e),
                    Ok(size) => Ok(size == AREA_COUNT),
                },
            }
        },
    }
}

/// What a tick finds in `mem` with the handles `handles`.
pub open spec fn snapshot(mem: Map<u64, u8>, handles: Celeste) -> Result<DumpModel, TraceError> {
    match fetch(mem, handles.autosplitter_info, INFO_BLOCK_BYTES as nat) {
        Err(e) => Err(e),
        Ok(block) => {
            let info = AutosplitterInfo::decode(block);
            match save_counts(mem, handles.savedata_class, info) {
                Err(e) => Err(e),
                Ok(counts) => match cutscene(mem, handles, info) {
                    Err(e) => Err(e),
                    Ok(in_cutscene) => match level_name_at(mem, info.level) {
                        Err(e) => Err(e),
                        Ok(level_name) => Ok(
                            DumpModel {
                                autosplitter_info: info,
                                chapter_checkpoints: counts.1,
                                in_cutscene,
                                death_count: counts.0,
                                level_name,
                            },
                        ),
                    },
                },
            }
        },
    }
}

/// The address of the element `index` of the managed array at `array`.
pub fn element_address(array: u64, index: i32) -> (a: u64)
    ensures
        a == element(array, index as int),
{
    let first: u64 = offset(array, ARRAY_HEADER);
    let bits: u64 = if index >= 0 {
        index as u64
    } else {
        u64::MAX - ((-(index as i64)) as u64) + 1
    };
    let a: u64 = slot(first, bits);
    proof {
        lemma_at_at(array, ARRAY_HEADER as int, 8 * (bits as int));
    }
    a
}

/// Reads the checkpoints of mode `mode` from the statistics of one area.
pub fn read_mode_checkpoints(image: &MemoryImage, area_stats: u64, mode: i32) -> (r: Result<
    u32,
    TraceError,
>)
    ensures
        r == mode_checkpoints(image@, area_stats, mode),
{
    let modes = match instance_field_u64(image, area_stats, MODES) {
        Ok(modes) => modes,
        Err(e) => {
            return Err(e);
        },
    };
    let mode_stats = match read_u64(image, element_address(modes, mode)) {
        Ok(mode_stats) => mode_stats,
        Err(e) => {
            return Err(e);
        },
    };
    if mode_stats == 0 {
        return Ok(0);
    }
    let set = match instance_field_u64(image, mode_stats, CHECKPOINTS) {
        Ok(set) => set,
        Err(e) => {
            return Err(e);
        },
    };
    instance_field_u32(image, set, SET_COUNT)
}

/// Reads the checkpoints of chapter `chapter` in mode `mode` from the save
/// data at `savedata`.
pub fn read_checkpoints(image: &MemoryImage, savedata: u64, chapter: i32, mode: i32) -> (r: Result<
    u32,
    TraceError,
>)
    ensures
        r == checkpoints_in(image@, savedata, chapter, mode),
{
    let areas = match instance_field_u64(image, savedata, AREAS) {
        Ok(areas) => areas,
        Err(e) => {
            return Err(e);
        },
    };
    let size = match instance_field_u32(image, areas, LIST_SIZE) {
        Ok(size) => size,
        Err(e) => {
            return Err(e);
        },
    };
    if size != AREA_COUNT {
        return Ok(0);
    }
    let items = match instance_field_u64(image, areas, LIST_ITEMS) {
        Ok(items) => items,
        Err(e) => {
            return Err(e);
        },
    };
    let area_stats = match read_u64(image, element_address(items, chapter)) {
        Ok(area_stats) => area_stats,
        Err(e) => {
            return Err(e);
        },
    };
    read_mode_checkpoints(image, area_stats, mode)
}

impl Celeste {
    /// Reads the deaths and the checkpoints from the save data, if the game
    /// has any yet.
    pub fn read_save_counts(&self, image: &MemoryImage, info: &AutosplitterInfo) -> (r: Result<
        (u32, u32),
        TraceError,
    >)
        ensures
            r == save_counts(image@, self.savedata_class, *info),
    {
        let savedata = match static_field_u64(image, self.savedata_class, INSTANCE) {
            Ok(savedata) => savedata,
            Err(e) => {
                return Err(e);
            },
        };
        if savedata == 0 {
            return Ok((0, 0));
        }
        let deaths = match instance_field_u32(image, savedata, TOTAL_DEATHS) {
            Ok(deaths) => deaths,
            Err(e) => {
                return Err(e);
            },
        };
        if info.chapter == -1 {
            return Ok((deaths, 0));
        }
        match read_checkpoints(image, savedata, info.chapter, info.mode) {
            Ok(checkpoints) => Ok((deaths, checkpoints)),
            Err(e) => Err(e),
        }
    }

    /// Tells whether the checkpoints can be counted as far as the list of
    /// areas goes. Where they cannot, `get_data` gives 0 checkpoints, as it
    /// does for a mode without statistics; this tells the two apart.
    pub fn areas_found(&self, image: &MemoryImage, info: &AutosplitterInfo) -> (r: Result<
        bool,
        TraceError,
    >)
        ensures
            r == areas_found(image@, self.savedata_class, *info),
    {
        let savedata = match static_field_u64(image, self.savedata_class, INSTANCE) {
            Ok(savedata) => savedata,
            Err(e) => {
                return Err(e);
            },
        };
        if savedata == 0 || info.chapter == -1 {
            return Ok(true);
        }
        let areas = match instance_field_u64(image, savedata, AREAS) {
            Ok(areas) => areas,
            Err(e) => {
                return Err(e);
            },
        };
        match instance_field_u32(image, areas, LIST_SIZE) {
            Ok(size) => Ok(size == AREA_COUNT),
            Err(e) => Err(e),
        }
    }

    /// Tells whether the game shows a cutscene.
    pub fn read_cutscene(&self, image: &MemoryImage, info: &AutosplitterInfo) -> (r: Result<
        bool,
        TraceError,
    >)
        ensures
            r == cutscene(image@, *self, *info),
    {
        if info.chapter == -1 || !info.chapter_started || info.chapter_complete {
            return Ok(false);
        }
        let scene_field = match class_field_offset(image, self.engine_class, SCENE) {
            Ok(scene_field) => scene_field,
            Err(e) => {
                return Err(e);
            },
        };
        let scene = match read_u64(image, offset(self.instance, scene_field)) {
            Ok(scene) => scene,
            Err(e) => {
                return Err(e);
            },
        };
        let class = match instance_class(image, scene) {
            Ok(class) => class,
            Err(e) => {
                return Err(e);
            },
        };
        if class != self.level_class {
            return Ok(false);
        }
        let flag_field = match class_field_offset(image, self.level_class, IN_CUTSCENE) {
            Ok(flag_field) => flag_field,
            Err(e) => {
                return Err(e);
            },
        };
        match read_u8(image, offset(scene, flag_field)) {
            Ok(byte) => Ok(byte != 0),
            Err(e) => Err(e),
        }
    }

    /// Reads what one tick needs from the image.
    ///
    /// The run state is read as one block. Deaths and checkpoints come from
    /// the save data and stay 0 while there is none; the checkpoints also
    /// outside chapters, where the list of areas has not `AREA_COUNT`
    /// entries, and where the mode has no statistics. The cutscene flag is
    /// only looked for in a chapter that was started and is not complete, and
    /// only where the current scene is a level. The level name is empty for a
    /// null pointer.
    pub fn get_data(&self, image: &MemoryImage) -> (r: Result<Dump, TraceError>)
        ensures
            match snapshot(image@, *self) {
                Ok(dump) => r is Ok && r->Ok_0@ == dump,
                Err(e) => r == Err::<Dump, TraceError>(e),
            },
            r matches Ok(dump) ==> named_plainly(image@, dump@),
    {
        let block = match image.read_bytes(self.autosplitter_info, INFO_BLOCK_BYTES) {
            Ok(block) => block,
            Err(e) => {
                return Err(e);
            },
        };
        let info = AutosplitterInfo::from_bytes(block.as_slice());
        let counts = match self.read_save_counts(image, &info) {
            Ok(counts) => counts,
            Err(e) => {
                return Err(e);
            },
        };
        let in_cutscene = match self.read_cutscene(image, &info) {
            Ok(in_cutscene) => in_cutscene,
            Err(e) => {
                return Err(e);
            },
        };
        let level_name = if info.level == 0 {
            String::new()
        } else {
            match read_boxed_string(image, info.level) {
                Ok(level_name) => level_name,
                Err(e) => {
                    return Err(e);
                },
            }
        };
        Ok(
            Dump {
                autosplitter_info: info,
                chapter_checkpoints: counts.1,
                in_cutscene,
                death_count: counts.0,
                level_name,
            },
        )
    }
}

/// Outside chapters no checkpoints are counted and no cutscene is seen: a
/// tick that finds the chapter -1 gives 0 checkpoints and no cutscene,
/// whatever else the memory holds.
pub proof fn lemma_outside_chapters(mem: Map<u64, u8>, handles: Celeste)
    requires
        snapshot(mem, handles) is Ok,
        snapshot(mem, handles)->Ok_0.autosplitter_info.chapter == -1,
    ensures
        snapshot(mem, handles)->Ok_0.chapter_checkpoints == 0,
        !snapshot(mem, handles)->Ok_0.in_cutscene,
{
}

/// Without a level there is no level name: a tick that finds the null pointer
/// for the level gives the empty name.
pub proof fn lemma_no_level_no_name(mem: Map<u64, u8>, handles: Celeste)
    requires
        snapshot(mem, handles) is Ok,
        snapshot(mem, handles)->Ok_0.autosplitter_info.level == 0,
    ensures
        snapshot(mem, handles)->Ok_0.level_name == Seq::<char>::empty(),
{
}

/// Where the list of areas has the wrong size, a tick counts no checkpoints:
/// a tick that came to an end while `areas_found` tells `false` gives 0
/// checkpoints.
pub proof fn lemma_no_areas_no_checkpoints(mem: Map<u64, u8>, handles: Celeste)
    requires
        snapshot(mem, handles) is Ok,
        areas_found(mem, handles.savedata_class, snapshot(mem, handles)->Ok_0.autosplitter_info)
            == Ok::<bool, TraceError>(false),
    ensures
        snapshot(mem, handles)->Ok_0.chapter_checkpoints == 0,
{
}

/// Once a tick has come to an end, `areas_found` comes to an end on the same
/// image: it reads nothing that the tick has not read.
pub proof fn lemma_areas_found_after_tick(mem: Map<u64, u8>, handles: Celeste)
    requires
        snapshot(mem, handles) is Ok,
    ensures
        areas_found(mem, handles.savedata_class, snapshot(mem, handles)->Ok_0.autosplitter_info)
            is Ok,
{
}

} // verus!
