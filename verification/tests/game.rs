use celeste_autosplit::celeste::{
    domain_name, domain_name_bytes, element_address, locate_autosplitter_info, Celeste,
    DOMAIN_LIST,
};
use celeste_autosplit::dump::{AutosplitterInfo, Dump};
use celeste_autosplit::error::TraceError;
use celeste_autosplit::memory::MemoryImage;

/// Lays out the runtime's records in an image, one after the other.
struct Sim {
    image: MemoryImage,
    next: u64,
}

impl Sim {
    fn new() -> Sim {
        Sim { image: MemoryImage::new(), next: 0x10_0000 }
    }

    fn reserve(&mut self, size: u64) -> u64 {
        let addr = self.next;
        self.next += (size + 15) / 16 * 16 + 16;
        self.image.insert(addr, &vec![0u8; size as usize]);
        addr
    }

    fn put_u8(&mut self, addr: u64, v: u8) {
        self.image.insert(addr, &[v]);
    }

    fn put_u32(&mut self, addr: u64, v: u32) {
        self.image.insert(addr, &v.to_le_bytes());
    }

    fn put_u64(&mut self, addr: u64, v: u64) {
        self.image.insert(addr, &v.to_le_bytes());
    }

    fn string(&mut self, s: &str) -> u64 {
        let addr = self.reserve(s.len() as u64 + 1);
        self.image.insert(addr, s.as_bytes());
        addr
    }

    fn class(&mut self, name: &str, kind: u8, fields: &[(&str, u32)]) -> u64 {
        let class = self.reserve(0x100);
        let name_ptr = self.string(name);
        let table = self.reserve(32 * fields.len() as u64);
        for (i, (field, offset)) in fields.iter().enumerate() {
            let entry = table + 32 * i as u64;
            let field_name = self.string(field);
            self.put_u64(entry + 8, field_name);
            self.put_u64(entry + 16, class);
            self.put_u32(entry + 24, *offset);
        }
        self.put_u8(class + 0x24, kind);
        self.put_u64(class + 0x40, name_ptr);
        self.put_u64(class + 0x90, table);
        self.put_u32(class + 0xF0, fields.len() as u32);
        class
    }

    fn generic(&mut self, name: &str, fields: &[(&str, u32)]) -> u64 {
        let definition = self.class(name, 2, fields);
        let class = self.class(name, 3, &[]);
        let link = self.reserve(8);
        self.put_u64(link, definition);
        self.put_u64(class + 0xE0, link);
        class
    }

    fn statics(&mut self, class: u64, storage: u64) {
        let vtable_size = 3u32;
        let vtable = self.reserve(64 + 8 * vtable_size as u64 + 8);
        self.put_u64(vtable, class);
        self.put_u64(vtable + 64 + 8 * vtable_size as u64, storage);
        let info = self.reserve(8 + 16);
        self.put_u64(info, 1);
        self.put_u64(info + 8, 0);
        self.put_u64(info + 16, vtable);
        self.put_u32(class + 0x54, vtable_size);
        self.put_u64(class + 0xC8, info);
    }

    fn object(&mut self, class: u64, size: u64) -> u64 {
        let vtable = self.reserve(8);
        self.put_u64(vtable, class);
        let object = self.reserve(size);
        self.put_u64(object, vtable | 1);
        object
    }

    fn array(&mut self, elements: &[u64]) -> u64 {
        let array = self.reserve(0x20 + 8 * elements.len() as u64);
        for (i, e) in elements.iter().enumerate() {
            self.put_u64(array + 0x20 + 8 * i as u64, *e);
        }
        array
    }

    fn managed_string(&mut self, text: &str) -> u64 {
        let units: Vec<u16> = text.encode_utf16().collect();
        let class = self.class("String", 1, &[("m_stringLength", 0x10), ("m_firstChar", 0x14)]);
        let object = self.object(class, 0x14 + 2 * units.len() as u64);
        self.put_u32(object + 0x10, units.len() as u32);
        for (i, unit) in units.iter().enumerate() {
            self.image.insert(object + 0x14 + 2 * i as u64, &unit.to_le_bytes());
        }
        object
    }
}

const INFO_FIELD: u32 = 0x1A0;
const SCENE_FIELD: u32 = 0x98;
const CUTSCENE_FIELD: u32 = 0x150;
const DEATHS_FIELD: u32 = 0x44;

/// What the game under test looks like.
struct Setup {
    first_domain: &'static str,
    level_class_name: &'static str,
    info: AutosplitterInfo,
    level_name: Option<&'static str>,
    save_data: bool,
    deaths: u32,
    areas: u32,
    /// The checkpoints of each mode of the chapter that `info` names.
    modes: Vec<Option<u32>>,
    scene_is_level: bool,
    cutscene_byte: u8,
}

fn blank_info() -> AutosplitterInfo {
    AutosplitterInfo { chapter: -1, ..AutosplitterInfo::default() }
}

impl Setup {
    fn new() -> Setup {
        Setup {
            first_domain: "Celeste.exe",
            level_class_name: "Level",
            info: blank_info(),
            level_name: None,
            save_data: false,
            deaths: 0,
            areas: 11,
            modes: vec![],
            scene_is_level: true,
            cutscene_byte: 0,
        }
    }
}

/// The addresses that a fixture was built with.
struct Built {
    sim: Sim,
    expected: Celeste,
    scene: u64,
}

fn info_block(info: &AutosplitterInfo) -> Vec<u8> {
    let mut b = vec![0xEEu8; 64];
    b[0..8].copy_from_slice(&info.level.to_le_bytes());
    b[8..12].copy_from_slice(&info.chapter.to_le_bytes());
    b[12..16].copy_from_slice(&info.mode.to_le_bytes());
    b[16] = info.timer_active as u8;
    b[17] = info.chapter_started as u8;
    b[18] = info.chapter_complete as u8;
    b[24..32].copy_from_slice(&info.chapter_time.to_le_bytes());
    b[32..36].copy_from_slice(&info.chapter_strawberries.to_le_bytes());
    b[36] = info.chapter_cassette as u8;
    b[37] = info.chapter_heart as u8;
    b[40..48].copy_from_slice(&info.file_time.to_le_bytes());
    b[48..52].copy_from_slice(&info.file_strawberries.to_le_bytes());
    b[52..56].copy_from_slice(&info.file_cassettes.to_le_bytes());
    b[56..60].copy_from_slice(&info.file_hearts.to_le_bytes());
    b
}

fn build(setup: &Setup) -> Built {
    let mut sim = Sim::new();

    let celeste_class = sim.class("Celeste", 1, &[("Instance", 0), ("AutoSplitterInfo", INFO_FIELD)]);
    let savedata_class = sim.class(
        "SaveData",
        1,
        &[("Instance", 8), ("Areas", 0x30), ("TotalDeaths", DEATHS_FIELD)],
    );
    let engine_class = sim.class("Engine", 1, &[("scene", SCENE_FIELD)]);
    let level_class = sim.class(setup.level_class_name, 1, &[("InCutscene", CUTSCENE_FIELD)]);
    let overworld_class = sim.class("Overworld", 1, &[("InCutscene", 0x10)]);
    let list_class = sim.generic("List`1", &[("_items", 0x10), ("_size", 0x18)]);
    let set_class = sim.generic("HashSet`1", &[("_buckets", 0x10), ("_count", 0x2C)]);
    let area_class = sim.class("AreaStats", 1, &[("ID", 0x10), ("Modes", 0x20)]);
    let mode_class = sim.class("AreaModeStats", 1, &[("Checkpoints", 0x38)]);

    // The class cache lies inside the image record.
    let mono_image = sim.reserve(1216 + 0x30);
    let class_cache = mono_image + 1216;
    let table = sim.reserve(0x20);
    sim.put_u32(table + 0x18, 3);
    sim.put_u64(table, engine_class);
    sim.put_u64(engine_class + 0xF8, overworld_class);
    sim.put_u64(overworld_class + 0xF8, celeste_class);
    sim.put_u64(table + 8, 0);
    sim.put_u64(table + 16, level_class);
    sim.put_u64(level_class + 0xF8, savedata_class);
    sim.put_u64(class_cache + 0x20, table);

    let assembly = sim.reserve(0x100);
    sim.put_u64(assembly + 0x60, mono_image);
    let first_domain = sim.reserve(0x100);
    let first_name = sim.string(setup.first_domain);
    sim.put_u64(first_domain + 0xD8, first_name);
    let second_domain = sim.reserve(0x100);
    let second_name = sim.string("Celeste.exe");
    sim.put_u64(second_domain + 0xD8, second_name);
    sim.put_u64(second_domain + 0xD0, assembly);
    let domains = sim.reserve(16);
    sim.put_u64(domains, first_domain);
    sim.put_u64(domains + 8, second_domain);
    sim.put_u64(DOMAIN_LIST, domains);

    // The game object and the state of the run in it.
    let instance = sim.object(celeste_class, 0x400);
    let celeste_storage = sim.reserve(0x10);
    sim.put_u64(celeste_storage, instance);
    sim.statics(celeste_class, celeste_storage);
    let mut info = setup.info;
    if let Some(name) = setup.level_name {
        info.level = sim.managed_string(name);
    }
    let autosplitter_info = instance + INFO_FIELD as u64 + 0x10;
    sim.image.insert(autosplitter_info, &info_block(&info));

    // The scene.
    let scene = if setup.scene_is_level {
        let scene = sim.object(level_class, 0x200);
        sim.put_u8(scene + CUTSCENE_FIELD as u64, setup.cutscene_byte);
        scene
    } else {
        let scene = sim.object(overworld_class, 0x200);
        sim.put_u8(scene + 0x10, 1);
        sim.put_u8(scene + CUTSCENE_FIELD as u64, 1);
        scene
    };
    sim.put_u64(instance + SCENE_FIELD as u64, scene);

    // The save data.
    let savedata_storage = sim.reserve(0x10);
    sim.statics(savedata_class, savedata_storage);
    if setup.save_data {
        let savedata = sim.object(savedata_class, 0x100);
        sim.put_u64(savedata_storage + 8, savedata);
        sim.put_u32(savedata + DEATHS_FIELD as u64, setup.deaths);
        let mut stats = vec![];
        for area in 0..11 {
            let mut modes = vec![];
            for mode in setup.modes.iter() {
                match mode {
                    Some(count) if area == setup.info.chapter => {
                        let set = sim.object(set_class, 0x40);
                        sim.put_u32(set + 0x2C, *count);
                        let mode_stats = sim.object(mode_class, 0x40);
                        sim.put_u64(mode_stats + 0x38, set);
                        modes.push(mode_stats);
                    },
                    Some(_) => {
                        let set = sim.object(set_class, 0x40);
                        sim.put_u32(set + 0x2C, 99);
                        let mode_stats = sim.object(mode_class, 0x40);
                        sim.put_u64(mode_stats + 0x38, set);
                        modes.push(mode_stats);
                    },
                    None => modes.push(0),
                }
            }
            let modes = sim.array(&modes);
            let area_stats = sim.object(area_class, 0x30);
            sim.put_u64(area_stats + 0x20, modes);
            stats.push(area_stats);
        }
        let items = sim.array(&stats);
        let areas = sim.object(list_class, 0x20);
        sim.put_u64(areas + 0x10, items);
        sim.put_u32(areas + 0x18, setup.areas);
        sim.put_u64(savedata + 0x30, areas);
    }

    let expected = Celeste {
        assembly,
        class_cache,
        celeste_class,
        savedata_class,
        engine_class,
        level_class,
        instance,
        autosplitter_info,
    };
    Built { sim, expected, scene }
}

fn tick(setup: &Setup) -> Result<Dump, TraceError> {
    let built = build(setup);
    let celeste = Celeste::new(&built.sim.image)?;
    assert_eq!(celeste, built.expected);
    celeste.get_data(&built.sim.image)
}

#[test]
fn attaching_finds_the_classes_and_the_game_object() {
    let built = build(&Setup::new());
    assert_eq!(Celeste::init(&built.sim.image).is_ok(), true);
    assert_eq!(Celeste::new(&built.sim.image), Ok(built.expected));
    assert_eq!(
        locate_autosplitter_info(&built.sim.image, built.expected.instance),
        Ok(built.expected.instance + 0x1A0 + 0x10)
    );
    assert_eq!(built.expected.autosplitter_info, built.expected.instance + 0x1B0);
    assert_eq!(DOMAIN_LIST, 0xA17698);
}

#[test]
fn a_domain_is_known_by_its_name() {
    let mut setup = Setup::new();
    setup.first_domain = "First";
    let built = build(&setup);
    let domains = u64::from_le_bytes(
        built.sim.image.read_bytes(DOMAIN_LIST, 8).unwrap().try_into().unwrap(),
    );
    let first =
        u64::from_le_bytes(built.sim.image.read_bytes(domains, 8).unwrap().try_into().unwrap());
    let second = u64::from_le_bytes(
        built.sim.image.read_bytes(domains + 8, 8).unwrap().try_into().unwrap(),
    );
    assert_eq!(domain_name(&built.sim.image, first), Ok("First".to_string()));
    assert_eq!(domain_name_bytes(&built.sim.image, first), Ok(b"First".to_vec()));
    assert_eq!(domain_name(&built.sim.image, second), Ok("Celeste.exe".to_string()));
    assert_eq!(
        domain_name(&built.sim.image, 0x20),
        Err(TraceError::Unreadable { addr: 0xF8, len: 8 })
    );
    let game = build(&Setup::new());
    assert_eq!(Celeste::init(&game.sim.image), Ok(second));
}

#[test]
fn another_program_is_refused() {
    for name in ["Other.exe", "Celeste.ex", "Celeste.exe2", "celeste.exe", ""] {
        let mut setup = Setup::new();
        setup.first_domain = name;
        let built = build(&setup);
        assert_eq!(Celeste::init(&built.sim.image), Err(TraceError::NotCeleste));
        assert_eq!(Celeste::new(&built.sim.image), Err(TraceError::NotCeleste));
    }
}

#[test]
fn a_game_without_one_of_its_classes_is_refused() {
    let mut setup = Setup::new();
    setup.level_class_name = "Lvl";
    let built = build(&setup);
    assert_eq!(Celeste::new(&built.sim.image), Err(TraceError::ClassNotFound { name: "Level" }));
}

#[test]
fn attaching_to_an_empty_image_asks_for_the_list_of_domains() {
    assert_eq!(
        Celeste::new(&MemoryImage::new()),
        Err(TraceError::Unreadable { addr: 0xA17698, len: 8 })
    );
}

#[test]
fn no_save_data_yet() {
    let dump = tick(&Setup::new()).unwrap();
    assert_eq!(
        dump,
        Dump {
            autosplitter_info: AutosplitterInfo { chapter: -1, ..AutosplitterInfo::default() },
            chapter_checkpoints: 0,
            in_cutscene: false,
            death_count: 0,
            level_name: String::new(),
        }
    );
    assert_eq!(dump.level_name(), "");
    let record = dump.as_bytes();
    assert_eq!(record.len(), 184);
    for (i, byte) in record.iter().enumerate() {
        let expected = if (8..12).contains(&i) { 0xFF } else { 0 };
        assert_eq!(*byte, expected, "byte {}", i);
    }
}

#[test]
fn in_a_level_of_chapter_two() {
    let mut setup = Setup::new();
    setup.info.chapter = 2;
    setup.info.mode = 0;
    setup.info.chapter_started = true;
    setup.info.chapter_complete = false;
    setup.level_name = Some("3a-00");
    setup.scene_is_level = true;
    setup.cutscene_byte = 0;
    let dump = tick(&setup).unwrap();
    assert_eq!(dump.in_cutscene, false);
    assert_eq!(dump.level_name(), "3a-00");
    assert_eq!(dump.level_name, "3a-00");
    assert_eq!(dump.autosplitter_info.chapter, 2);
    assert_eq!(dump.autosplitter_info.chapter_started, true);
    assert_ne!(dump.autosplitter_info.level, 0);
    assert_eq!(dump.death_count, 0);
    assert_eq!(dump.chapter_checkpoints, 0);
}

#[test]
fn every_field_of_the_run_state_is_read() {
    let mut setup = Setup::new();
    setup.info = AutosplitterInfo {
        level: 0,
        chapter: 7,
        mode: 2,
        timer_active: true,
        chapter_started: true,
        chapter_complete: true,
        chapter_time: 0x0102_0304_0506_0708,
        chapter_strawberries: -3,
        chapter_cassette: true,
        chapter_heart: true,
        file_time: u64::MAX,
        file_strawberries: i32::MAX,
        file_cassettes: i32::MIN,
        file_hearts: 24,
    };
    let dump = tick(&setup).unwrap();
    assert_eq!(dump.autosplitter_info, setup.info);
    setup.info.timer_active = false;
    setup.info.chapter_heart = false;
    let dump = tick(&setup).unwrap();
    assert_eq!(dump.autosplitter_info, setup.info);
}

#[test]
fn a_list_of_areas_of_the_wrong_size_gives_no_checkpoints() {
    let mut setup = Setup::new();
    setup.info.chapter = 2;
    setup.info.mode = 0;
    setup.save_data = true;
    setup.deaths = 1234;
    setup.areas = 10;
    setup.modes = vec![Some(5), Some(6), Some(7)];
    let dump = tick(&setup).unwrap();
    assert_eq!(dump.death_count, 1234);
    assert_eq!(dump.chapter_checkpoints, 0);
    setup.areas = 12;
    let dump = tick(&setup).unwrap();
    assert_eq!(dump.death_count, 1234);
    assert_eq!(dump.chapter_checkpoints, 0);
}

#[test]
fn a_list_of_areas_of_the_wrong_size_is_told_from_a_mode_without_statistics() {
    let mut setup = Setup::new();
    setup.info.chapter = 2;
    setup.info.mode = 1;
    setup.save_data = true;
    setup.modes = vec![Some(5), None, Some(7)];
    let built = build(&setup);
    let dump = built.expected.get_data(&built.sim.image).unwrap();
    assert_eq!(dump.chapter_checkpoints, 0);
    assert_eq!(built.expected.areas_found(&built.sim.image, &dump.autosplitter_info), Ok(true));

    for size in [0u32, 10, 12, u32::MAX] {
        setup.areas = size;
        let built = build(&setup);
        let dump = built.expected.get_data(&built.sim.image).unwrap();
        assert_eq!(dump.chapter_checkpoints, 0);
        assert_eq!(
            built.expected.areas_found(&built.sim.image, &dump.autosplitter_info),
            Ok(false)
        );
    }

    // Outside chapters and without save data nothing is missed.
    setup.info.chapter = -1;
    let built = build(&setup);
    let dump = built.expected.get_data(&built.sim.image).unwrap();
    assert_eq!(built.expected.areas_found(&built.sim.image, &dump.autosplitter_info), Ok(true));
    setup.info.chapter = 2;
    setup.save_data = false;
    let built = build(&setup);
    let dump = built.expected.get_data(&built.sim.image).unwrap();
    assert_eq!(built.expected.areas_found(&built.sim.image, &dump.autosplitter_info), Ok(true));
    assert_eq!(
        built.expected.areas_found(&MemoryImage::new(), &dump.autosplitter_info),
        Err(TraceError::Unreadable { addr: built.expected.savedata_class + 0x54, len: 4 })
    );
}

#[test]
fn checkpoints_are_counted_for_the_chapter_and_the_mode() {
    for chapter in [0, 2, 10] {
        for mode in 0..3 {
            let mut setup = Setup::new();
            setup.info.chapter = chapter;
            setup.info.mode = mode;
            setup.save_data = true;
            setup.deaths = 77;
            setup.modes = vec![Some(5), Some(6), Some(7)];
            let dump = tick(&setup).unwrap();
            assert_eq!(dump.death_count, 77);
            assert_eq!(dump.chapter_checkpoints, 5 + mode as u32);
        }
    }
}

#[test]
fn a_mode_without_statistics_has_no_checkpoints() {
    let mut setup = Setup::new();
    setup.info.chapter = 4;
    setup.info.mode = 1;
    setup.save_data = true;
    setup.deaths = 9;
    setup.modes = vec![Some(5), None, Some(7)];
    let dump = tick(&setup).unwrap();
    assert_eq!(dump.death_count, 9);
    assert_eq!(dump.chapter_checkpoints, 0);
}

#[test]
fn outside_chapters_only_the_deaths_are_read() {
    let mut setup = Setup::new();
    setup.info.chapter = -1;
    setup.info.chapter_started = true;
    setup.save_data = true;
    setup.deaths = u32::MAX;
    setup.areas = 3;
    setup.cutscene_byte = 1;
    let dump = tick(&setup).unwrap();
    assert_eq!(dump.death_count, u32::MAX);
    assert_eq!(dump.chapter_checkpoints, 0);
    assert_eq!(dump.in_cutscene, false);
}

#[test]
fn a_cutscene_is_seen_in_a_level_of_a_started_chapter() {
    for byte in [1u8, 2, 0x80, 0xFF] {
        let mut setup = Setup::new();
        setup.info.chapter = 1;
        setup.info.chapter_started = true;
        setup.cutscene_byte = byte;
        assert_eq!(tick(&setup).unwrap().in_cutscene, true);
    }
    let mut setup = Setup::new();
    setup.info.chapter = 1;
    setup.info.chapter_started = true;
    setup.cutscene_byte = 0;
    assert_eq!(tick(&setup).unwrap().in_cutscene, false);
}

#[test]
fn no_cutscene_is_looked_for_where_there_can_be_none() {
    let mut setup = Setup::new();
    setup.cutscene_byte = 1;
    setup.info.chapter = 1;
    setup.info.chapter_started = false;
    assert_eq!(tick(&setup).unwrap().in_cutscene, false);
    setup.info.chapter_started = true;
    setup.info.chapter_complete = true;
    assert_eq!(tick(&setup).unwrap().in_cutscene, false);
    setup.info.chapter_complete = false;
    setup.info.chapter = -1;
    assert_eq!(tick(&setup).unwrap().in_cutscene, false);
    // The scene is not even read then.
    setup.info.chapter = 1;
    setup.info.chapter_complete = true;
    let mut built = build(&setup);
    built.sim.put_u64(built.expected.instance + SCENE_FIELD as u64, 0x40);
    let dump = built.expected.get_data(&built.sim.image).unwrap();
    assert_eq!(dump.in_cutscene, false);
    setup.info.chapter_complete = false;
    let mut built = build(&setup);
    built.sim.put_u64(built.expected.instance + SCENE_FIELD as u64, 0x40);
    assert_eq!(
        built.expected.get_data(&built.sim.image),
        Err(TraceError::Unreadable { addr: 0x40, len: 8 })
    );
    assert_ne!(built.scene, 0x40);
}

#[test]
fn a_scene_that_is_no_level_shows_no_cutscene() {
    let mut setup = Setup::new();
    setup.info.chapter = 1;
    setup.info.chapter_started = true;
    setup.scene_is_level = false;
    assert_eq!(tick(&setup).unwrap().in_cutscene, false);
}

#[test]
fn a_tick_without_the_run_state_asks_for_it() {
    let built = build(&Setup::new());
    let mut handles = built.expected;
    handles.autosplitter_info = 0x80;
    assert_eq!(
        handles.get_data(&built.sim.image),
        Err(TraceError::Unreadable { addr: 0x80, len: 64 })
    );
}

#[test]
fn elements_of_a_managed_array_follow_its_header() {
    assert_eq!(element_address(0x1000, 0), 0x1020);
    assert_eq!(element_address(0x1000, 2), 0x1030);
    assert_eq!(element_address(0x1000, 10), 0x1070);
    assert_eq!(element_address(0x1000, -1), 0x1018);
    assert_eq!(element_address(0x1000, i32::MAX), 0x1000 + 0x20 + 8 * (i32::MAX as u64));
    assert_eq!(element_address(0x10, i32::MIN), 0u64.wrapping_sub(0x4_0000_0000) + 0x30);
}

/// Copies to `image` what `source` holds of the range, as far as it holds it
/// without a gap; tells whether it copied anything.
fn copy_range(source: &MemoryImage, image: &mut MemoryImage, addr: u64, len: u64) -> bool {
    let mut bytes = vec![];
    for i in 0..len {
        match source.byte(addr.wrapping_add(i)) {
            Some(b) => bytes.push(b),
            None => break,
        }
    }
    image.insert(addr, &bytes);
    !bytes.is_empty()
}

#[test]
fn an_image_that_is_filled_on_demand_gives_the_same_dump() {
    let mut setup = Setup::new();
    setup.info.chapter = 3;
    setup.info.mode = 1;
    setup.info.chapter_started = true;
    setup.info.chapter_time = 123_456_789;
    setup.level_name = Some("b-02");
    setup.save_data = true;
    setup.deaths = 31;
    setup.modes = vec![Some(2), Some(4)];
    setup.cutscene_byte = 1;
    let built = build(&setup);
    let source = &built.sim.image;
    let whole = Celeste::new(source).unwrap().get_data(source).unwrap();
    assert_eq!(whole.chapter_checkpoints, 4);
    assert_eq!(whole.in_cutscene, true);
    assert_eq!(whole.level_name, "b-02");

    let mut image = MemoryImage::new();
    let mut rounds = 0;
    let celeste = loop {
        match Celeste::new(&image) {
            Ok(celeste) => break celeste,
            Err(TraceError::Unreadable { addr, len }) => {
                assert!(copy_range(source, &mut image, addr, len));
            },
            Err(other) => panic!("{:?}", other),
        }
        rounds += 1;
        assert!(rounds < 10_000);
    };
    assert_eq!(celeste, built.expected);
    let dump = loop {
        match celeste.get_data(&image) {
            Ok(dump) => break dump,
            Err(TraceError::Unreadable { addr, len }) => {
                assert!(copy_range(source, &mut image, addr, len));
            },
            Err(other) => panic!("{:?}", other),
        }
        rounds += 1;
        assert!(rounds < 10_000);
    };
    assert_eq!(dump, whole);
}
