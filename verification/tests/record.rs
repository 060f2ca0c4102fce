use celeste_autosplit::bytes::{
    decode_i32, decode_u16, decode_u32, decode_u64, push_i32, push_u32, push_u64,
};
use celeste_autosplit::dump::{
    push_flag, push_zeros, AutosplitterInfo, Dump, INFO_BLOCK_BYTES, INFO_RECORD_BYTES,
    NAME_BYTES, RECORD_BYTES, RECORD_CHECKPOINTS, RECORD_CUTSCENE, RECORD_DEATHS, RECORD_NAME,
};

fn sample_info() -> AutosplitterInfo {
    AutosplitterInfo {
        level: 0x7F12_3456_789A_BCDE,
        chapter: 5,
        mode: -2,
        timer_active: true,
        chapter_started: false,
        chapter_complete: true,
        chapter_time: 0x0011_2233_4455_6677,
        chapter_strawberries: 17,
        chapter_cassette: false,
        chapter_heart: true,
        file_time: 0xFFEE_DDCC_BBAA_9988,
        file_strawberries: i32::MIN,
        file_cassettes: i32::MAX,
        file_hearts: -1,
    }
}

fn sample_dump(name: &str) -> Dump {
    Dump {
        autosplitter_info: sample_info(),
        chapter_checkpoints: 0xA1B2_C3D4,
        in_cutscene: true,
        death_count: 0x0506_0708,
        level_name: name.to_string(),
    }
}

#[test]
fn numbers_are_written_in_little_endian_order() {
    let mut out = vec![0xAA];
    push_u32(&mut out, 0x0403_0201);
    push_u64(&mut out, 0x0C0B_0A09_0807_0605);
    push_i32(&mut out, -2);
    push_i32(&mut out, 1);
    push_flag(&mut out, true);
    push_flag(&mut out, false);
    push_zeros(&mut out, 2);
    push_zeros(&mut out, 0);
    assert_eq!(
        out,
        vec![
            0xAA, 1, 2, 3, 4, 5, 6, 7, 8, 9, 10, 11, 12, 0xFE, 0xFF, 0xFF, 0xFF, 1, 0, 0, 0, 1, 0,
            0, 0
        ]
    );
}

#[test]
fn numbers_are_read_back_from_any_place() {
    let bytes = [0xAA, 1, 2, 3, 4, 5, 6, 7, 8, 0xFF, 0xFF, 0xFF, 0xFF, 0, 0, 0, 0x80];
    assert_eq!(decode_u16(&bytes, 1), 0x0201);
    assert_eq!(decode_u16(&bytes, 9), 0xFFFF);
    assert_eq!(decode_u32(&bytes, 1), 0x0403_0201);
    assert_eq!(decode_u32(&bytes, 9), u32::MAX);
    assert_eq!(decode_u64(&bytes, 1), 0x0807_0605_0403_0201);
    assert_eq!(decode_u64(&bytes, 9), 0x8000_0000_FFFF_FFFF);
    assert_eq!(decode_i32(&bytes, 1), 0x0403_0201);
    assert_eq!(decode_i32(&bytes, 9), -1);
    assert_eq!(decode_i32(&bytes, 13), i32::MIN);
    assert_eq!(decode_i32(&bytes, 12), 0xFF);
}

#[test]
fn every_number_survives_writing_and_reading() {
    for x in [0u64, 1, 0xFF, 0x100, 0xFFFF_FFFF, 0x1_0000_0000, 0x0123_4567_89AB_CDEF, u64::MAX] {
        let mut out = vec![];
        push_u64(&mut out, x);
        assert_eq!(out, x.to_le_bytes());
        assert_eq!(decode_u64(&out, 0), x);
        let mut out = vec![];
        push_u32(&mut out, x as u32);
        assert_eq!(out, (x as u32).to_le_bytes());
        assert_eq!(decode_u32(&out, 0), x as u32);
        let mut out = vec![];
        push_i32(&mut out, x as i32);
        assert_eq!(out, (x as i32).to_le_bytes());
        assert_eq!(decode_i32(&out, 0), x as i32);
    }
}

#[test]
fn the_run_state_takes_seventy_two_bytes() {
    assert_eq!(INFO_BLOCK_BYTES, 64);
    assert_eq!(INFO_RECORD_BYTES, 72);
    let mut out = vec![];
    sample_info().append_to(&mut out);
    let mut expected = vec![0u8; 72];
    expected[0..8].copy_from_slice(&0x7F12_3456_789A_BCDEu64.to_le_bytes());
    expected[8..12].copy_from_slice(&5i32.to_le_bytes());
    expected[12..16].copy_from_slice(&(-2i32).to_le_bytes());
    expected[16] = 1;
    expected[17] = 0;
    expected[18] = 1;
    expected[24..32].copy_from_slice(&0x0011_2233_4455_6677u64.to_le_bytes());
    expected[32..36].copy_from_slice(&17i32.to_le_bytes());
    expected[36] = 0;
    expected[37] = 1;
    expected[40..48].copy_from_slice(&0xFFEE_DDCC_BBAA_9988u64.to_le_bytes());
    expected[48..52].copy_from_slice(&i32::MIN.to_le_bytes());
    expected[52..56].copy_from_slice(&i32::MAX.to_le_bytes());
    expected[56..60].copy_from_slice(&(-1i32).to_le_bytes());
    assert_eq!(out, expected);
}

#[test]
fn a_record_has_its_fields_at_their_places() {
    assert_eq!(RECORD_BYTES, 184);
    assert_eq!(
        (RECORD_CHECKPOINTS, RECORD_CUTSCENE, RECORD_DEATHS, RECORD_NAME, NAME_BYTES),
        (72, 76, 80, 84, 100)
    );
    let record = sample_dump("3a-00").as_bytes();
    assert_eq!(record.len(), 184);
    let mut state = vec![];
    sample_info().append_to(&mut state);
    assert_eq!(&record[0..72], &state[..]);
    assert_eq!(&record[72..76], &0xA1B2_C3D4u32.to_le_bytes());
    assert_eq!(record[76], 1);
    assert_eq!(&record[77..80], &[0, 0, 0]);
    assert_eq!(&record[80..84], &0x0506_0708u32.to_le_bytes());
    assert_eq!(&record[84..89], b"3a-00");
    assert_eq!(&record[89..184], &[0u8; 95][..]);
}

#[test]
fn a_record_of_nothing_is_all_zero() {
    let record = Dump::default().as_bytes();
    assert_eq!(record, vec![0u8; 184]);
    assert_eq!(Dump::default().level_name(), "");
    assert_eq!(AutosplitterInfo::default().chapter, 0);
}

#[test]
fn a_record_gives_back_the_run_state_bit_for_bit() {
    let mut infos = vec![sample_info(), AutosplitterInfo::default()];
    infos.push(AutosplitterInfo { chapter: -1, ..AutosplitterInfo::default() });
    infos.push(AutosplitterInfo {
        level: u64::MAX,
        chapter: i32::MIN,
        mode: i32::MAX,
        timer_active: true,
        chapter_started: true,
        chapter_complete: true,
        chapter_time: u64::MAX,
        chapter_strawberries: -1,
        chapter_cassette: true,
        chapter_heart: true,
        file_time: 1,
        file_strawberries: 2,
        file_cassettes: 3,
        file_hearts: 4,
    });
    for info in infos {
        for name in ["", "1", "credits-summit", "\u{e9}t\u{e9}"] {
            let dump = Dump {
                autosplitter_info: info,
                chapter_checkpoints: 3,
                in_cutscene: false,
                death_count: 4,
                level_name: name.to_string(),
            };
            let record = dump.as_bytes();
            assert_eq!(AutosplitterInfo::from_bytes(&record), info);
            assert_eq!(AutosplitterInfo::from_bytes(&record[..64]), info);
            assert_eq!(decode_u32(&record, 72), 3);
            assert_eq!(record[76], 0);
            assert_eq!(decode_u32(&record, 80), 4);
            assert_eq!(&record[84..84 + name.len()], name.as_bytes());
            assert!(record[84 + name.len()..].iter().all(|b| *b == 0));
        }
    }
}

#[test]
fn a_flag_is_set_by_any_byte_but_zero() {
    let mut block = vec![0u8; 64];
    for byte in [1u8, 2, 0x7F, 0x80, 0xFF] {
        block[16] = byte;
        block[36] = byte;
        let info = AutosplitterInfo::from_bytes(&block);
        assert_eq!(info.timer_active, true);
        assert_eq!(info.chapter_cassette, true);
        assert_eq!(info.chapter_started, false);
        assert_eq!(info.chapter_complete, false);
        assert_eq!(info.chapter_heart, false);
    }
    // What lies in the gaps between the fields is not read.
    let mut block = vec![0u8; 64];
    for gap in (19..24).chain(38..40).chain(60..64) {
        block[gap] = 0xFF;
    }
    assert_eq!(AutosplitterInfo::from_bytes(&block), AutosplitterInfo::default());
}

#[test]
fn a_name_of_a_hundred_bytes_or_more_fills_its_field() {
    let exact = "a".repeat(100);
    let record = sample_dump(&exact).as_bytes();
    assert_eq!(record.len(), 184);
    assert_eq!(&record[84..184], exact.as_bytes());
    let long = "b".repeat(99) + "cdefgh";
    let record = sample_dump(&long).as_bytes();
    assert_eq!(record.len(), 184);
    assert_eq!(&record[84..183], "b".repeat(99).as_bytes());
    assert_eq!(record[183], b'c');
    let almost = "d".repeat(99);
    let record = sample_dump(&almost).as_bytes();
    assert_eq!(&record[84..183], almost.as_bytes());
    assert_eq!(record[183], 0);
}

#[test]
fn a_name_is_cut_by_bytes_not_by_characters() {
    let name = "x".repeat(99) + "\u{e9}";
    assert_eq!(name.len(), 101);
    let record = sample_dump(&name).as_bytes();
    assert_eq!(record.len(), 184);
    assert_eq!(&record[84..184], &name.as_bytes()[..100]);
    assert_eq!(record[183], 0xC3);
}

#[test]
fn times_are_given_in_milliseconds() {
    let mut info = AutosplitterInfo::default();
    for (ticks, millis) in [
        (0u64, 0u64),
        (9_999, 0),
        (10_000, 1),
        (10_001, 1),
        (19_999, 1),
        (123_456_789, 12_345),
        (u64::MAX, 1_844_674_407_370_955),
    ] {
        info.chapter_time = ticks;
        info.file_time = ticks;
        assert_eq!(info.chapter_time(), millis);
        assert_eq!(info.file_time(), millis);
        assert_eq!(info.chapter_time(), ticks / 10_000);
    }
    info.chapter_time = 50_000;
    info.file_time = 70_000;
    assert_eq!((info.chapter_time(), info.file_time()), (5, 7));
}

#[test]
fn a_copy_of_a_dump_is_the_same_dump() {
    let dump = sample_dump("0x-a1");
    let copy = dump.clone();
    assert_eq!(copy, dump);
    assert_eq!(copy.as_bytes(), dump.as_bytes());
}
