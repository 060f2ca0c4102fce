//! What is read from the game at each tick, and the record it is written as.

use vstd::prelude::*;
use vstd::utf8::encode_utf8;

use crate::bytes::{
    decode_i32, decode_u64, i32_le, le_i32, le_u32, le_u64, lemma_i32_round_trip,
    lemma_u32_round_trip, lemma_u64_round_trip, push_i32, push_u32, push_u64, u32_le, u64_le,
};

verus! {

/// The length in bytes of the block that the game keeps its run state in.
pub const INFO_BLOCK_BYTES: usize = 64;

/// The length in bytes of the part of a record that holds the run state.
pub const INFO_RECORD_BYTES: usize = 72;

/// The length in bytes of the part of a record that holds the level name.
pub const NAME_BYTES: usize = 100;

/// The length in bytes of a record.
pub const RECORD_BYTES: usize = 184;

/// Where a record holds the number of checkpoints.
pub const RECORD_CHECKPOINTS: usize = 72;

/// Where a record holds the cutscene flag.
pub const RECORD_CUTSCENE: usize = 76;

/// Where a record holds the number of deaths.
pub const RECORD_DEATHS: usize = 80;

/// Where a record holds the level name.
pub const RECORD_NAME: usize = 84;

/// One hundredth of a microsecond is the game's unit of time; this many make a
/// millisecond.
pub const TICKS_PER_MILLI: u64 = 10_000;

/// The state of the run, as the game itself keeps it for autosplitters.
#[derive(Clone, Copy, Debug, PartialEq, Eq, Structural)]
pub struct AutosplitterInfo {
    /// Pointer to the managed string that names the current level; 0 if none.
    pub level: u64,
    /// The current chapter; -1 outside chapters.
    pub chapter: i32,
    /// The side of the chapter that is played.
    pub mode: i32,
    pub timer_active: bool,
    pub chapter_started: bool,
    pub chapter_complete: bool,
    /// Time spent in the chapter, in units of 100 ns.
    pub chapter_time: u64,
    /// Strawberries collected in this run of the chapter.
    pub chapter_strawberries: i32,
    pub chapter_cassette: bool,
    pub chapter_heart: bool,
    /// Time spent in the save file, in units of 100 ns.
    pub file_time: u64,
    pub file_strawberries: i32,
    pub file_cassettes: i32,
    pub file_hearts: i32,
}

/// The byte that stands for a flag.
pub open spec fn flag(b: bool) -> u8 {
    if b {
        1
    } else {
        0
    }
}

/// `n` zero bytes.
pub open spec fn zeros(n: nat) -> Seq<u8> {
    Seq::new(n, |i: int| 0u8)
}

impl AutosplitterInfo {
    /// The state that every run starts from: all zero and no flag set.
    pub open spec fn zero() -> AutosplitterInfo {
        AutosplitterInfo {
            level: 0,
            chapter: 0,
            mode: 0,
            timer_active: false,
            chapter_started: false,
            chapter_complete: false,
            chapter_time: 0,
            chapter_strawberries: 0,
            chapter_cassette: false,
            chapter_heart: false,
            file_time: 0,
            file_strawberries: 0,
            file_cassettes: 0,
            file_hearts: 0,
        }
    }

    /// The state that the game's block `b` holds. Each field lies where a C
    /// compiler puts it, and a flag is set where its byte is not zero.
    pub open spec fn decode(b: Seq<u8>) -> AutosplitterInfo {
        AutosplitterInfo {
            level: le_u64(b, 0),
            chapter: le_i32(b, 8),
            mode: le_i32(b, 12),
            timer_active: b[16] != 0,
            chapter_started: b[17] != 0,
            chapter_complete: b[18] != 0,
            chapter_time: le_u64(b, 24),
            chapter_strawberries: le_i32(b, 32),
            chapter_cassette: b[36] != 0,
            chapter_heart: b[37] != 0,
            file_time: le_u64(b, 40),
            file_strawberries: le_i32(b, 48),
            file_cassettes: le_i32(b, 52),
            file_hearts: le_i32(b, 56),
        }
    }

    /// The first 24 bytes of the state in a record: level, chapter, mode and
    /// the three flags of the chapter's progress, then five zero bytes.
    pub open spec fn encode_place(self) -> Seq<u8> {
        u64_le(self.level) + i32_le(self.chapter) + i32_le(self.mode) + seq![
            flag(self.timer_active),
            flag(self.chapter_started),
            flag(self.chapter_complete),
        ] + zeros(5)
    }

    /// The next 16 bytes: the chapter's time, strawberries, cassette and
    /// heart, then two zero bytes.
    pub open spec fn encode_chapter(self) -> Seq<u8> {
        u64_le(self.chapter_time) + i32_le(self.chapter_strawberries) + seq![
            flag(self.chapter_cassette),
            flag(self.chapter_heart),
        ] + zeros(2)
    }

    /// The last 32 bytes: the file's time, strawberries, cassettes and hearts,
    /// then twelve zero bytes.
    pub open spec fn encode_file(self) -> Seq<u8> {
        u64_le(self.file_time) + i32_le(self.file_strawberries) + i32_le(self.file_cassettes)
            + i32_le(self.file_hearts) + zeros(12)
    }

    /// The 72 bytes that a record holds for this state: the fields where a C
    /// compiler puts them, zero in the gaps between them and after them.
    pub open spec fn encode(self) -> Seq<u8> {
        self.encode_place() + self.encode_chapter() + self.encode_file()
    }

    /// Reads the state from the game's block.
    pub fn from_bytes(b: &[u8]) -> (info: AutosplitterInfo)
        requires
            b@.len() >= INFO_BLOCK_BYTES,
        ensures
            info == AutosplitterInfo::decode(b@),
    {
        AutosplitterInfo {
            level: decode_u64(b, 0),
            chapter: decode_i32(b, 8),
            mode: decode_i32(b, 12),
            timer_active: b[16] != 0,
            chapter_started: b[17] != 0,
            chapter_complete: b[18] != 0,
            chapter_time: decode_u64(b, 24),
            chapter_strawberries: decode_i32(b, 32),
            chapter_cassette: b[36] != 0,
            chapter_heart: b[37] != 0,
            file_time: decode_u64(b, 40),
            file_strawberries: decode_i32(b, 48),
            file_cassettes: decode_i32(b, 52),
            file_hearts: decode_i32(b, 56),
        }
    }

    /// The chapter time in milliseconds.
    pub fn chapter_time(&self) -> (ms: u64)
        ensures
            ms == self.chapter_time / TICKS_PER_MILLI,
    {
        self.chapter_time / TICKS_PER_MILLI
    }

    /// The file time in milliseconds.
    pub fn file_time(&self) -> (ms: u64)
        ensures
            ms == self.file_time / TICKS_PER_MILLI,
    {
        self.file_time / TICKS_PER_MILLI
    }
}

impl Default for AutosplitterInfo {
    fn default() -> (info: AutosplitterInfo)
        ensures
            info == AutosplitterInfo::zero(),
    {
        AutosplitterInfo {
            level: 0,
            chapter: 0,
            mode: 0,
            timer_active: false,
            chapter_started: false,
            chapter_complete: false,
            chapter_time: 0,
            chapter_strawberries: 0,
            chapter_cassette: false,
            chapter_heart: false,
            file_time: 0,
            file_strawberries: 0,
            file_cassettes: 0,
            file_hearts: 0,
        }
    }
}

/// Appends `n` zero bytes to `out`.
pub fn push_zeros(out: &mut Vec<u8>, n: usize)
    ensures
        final(out)@ == old(out)@ + zeros(n as nat),
{
    let mut i: usize = 0;
    while i < n
        invariant
            i <= n,
            out@ == old(out)@ + zeros(i as nat),
        decreases n - i,
    {
        out.push(0);
        assert(out@ =~= old(out)@ + zeros((i + 1) as nat));
        i += 1;
    }
}

/// Appends the byte that stands for the flag `b` to `out`.
pub fn push_flag(out: &mut Vec<u8>, b: bool)
    ensures
        final(out)@ == old(out)@ + seq![flag(b)],
{
    out.push(if b { 1 } else { 0 });
    assert(out@ =~= old(out)@ + seq![flag(b)]);
}

impl AutosplitterInfo {
    fn append_place(&self, out: &mut Vec<u8>)
        ensures
            final(out)@ == old(out)@ + self.encode_place(),
            self.encode_place().len() == 24,
    {
        push_u64(out, self.level);
        push_i32(out, self.chapter);
        push_i32(out, self.mode);
        push_flag(out, self.timer_active);
        push_flag(out, self.chapter_started);
        push_flag(out, self.chapter_complete);
        push_zeros(out, 5);
        assert(out@ =~= old(out)@ + self.encode_place());
    }

    fn append_chapter(&self, out: &mut Vec<u8>)
        ensures
            final(out)@ == old(out)@ + self.encode_chapter(),
            self.encode_chapter().len() == 16,
    {
        push_u64(out, self.chapter_time);
        push_i32(out, self.chapter_strawberries);
        push_flag(out, self.chapter_cassette);
        push_flag(out, self.chapter_heart);
        push_zeros(out, 2);
        assert(out@ =~= old(out)@ + self.encode_chapter());
    }

    fn append_file(&self, out: &mut Vec<u8>)
        ensures
            final(out)@ == old(out)@ + self.encode_file(),
            self.encode_file().len() == 32,
    {
        push_u64(out, self.file_time);
        push_i32(out, self.file_strawberries);
        push_i32(out, self.file_cassettes);
        push_i32(out, self.file_hearts);
        push_zeros(out, 12);
        assert(out@ =~= old(out)@ + self.encode_file());
    }

    /// Appends the 72 bytes that a record holds for this state to `out`.
    pub fn append_to(&self, out: &mut Vec<u8>)
        ensures
            final(out)@ == old(out)@ + self.encode(),
            self.encode().len() == INFO_RECORD_BYTES,
    {
        self.append_place(out);
        self.append_chapter(out);
        self.append_file(out);
        assert(out@ =~= old(out)@ + self.encode());
    }
}

/// What one tick found, with the level name as text.
pub struct DumpModel {
    pub autosplitter_info: AutosplitterInfo,
    pub chapter_checkpoints: u32,
    pub in_cutscene: bool,
    pub death_count: u32,
    pub level_name: Seq<char>,
}

/// The 100 bytes that a record holds for a level name whose UTF-8 bytes are
/// `name`: the first 100 of them, and zero bytes after a shorter name.
pub open spec fn name_field(name: Seq<u8>) -> Seq<u8> {
    if name.len() >= NAME_BYTES {
        name.take(NAME_BYTES as int)
    } else {
        name + zeros((NAME_BYTES - name.len()) as nat)
    }
}

impl DumpModel {
    /// The 112 bytes of a record after the run state: the checkpoints, the
    /// cutscene flag and three zero bytes, the deaths, and the level name.
    pub open spec fn encode_tail(self) -> Seq<u8> {
        u32_le(self.chapter_checkpoints) + seq![flag(self.in_cutscene)] + zeros(3) + u32_le(
            self.death_count,
        ) + name_field(encode_utf8(self.level_name))
    }

    /// The record that this tick is written as.
    pub open spec fn encode(self) -> Seq<u8> {
        self.autosplitter_info.encode() + self.encode_tail()
    }
}

/// What one tick found.
#[derive(Debug, PartialEq, Eq)]
pub struct Dump {
    pub autosplitter_info: AutosplitterInfo,
    /// The checkpoints ever reached in the current chapter and mode.
    pub chapter_checkpoints: u32,
    pub in_cutscene: bool,
    pub death_count: u32,
    /// The name of the current level; empty where there is none.
    pub level_name: String,
}

impl View for Dump {
    type V = DumpModel;

    open spec fn view(&self) -> DumpModel {
        DumpModel {
            autosplitter_info: self.autosplitter_info,
            chapter_checkpoints: self.chapter_checkpoints,
            in_cutscene: self.in_cutscene,
            death_count: self.death_count,
            level_name: self.level_name@,
        }
    }
}

impl Dump {
    /// The name of the current level; empty where there is none.
    pub fn level_name(&self) -> (name: String)
        ensures
            name@ == self@.level_name,
    {
        self.level_name.clone()
    }

    /// The record that this tick is written as, `RECORD_BYTES` long: the run
    /// state, the checkpoints, the cutscene flag and three zero bytes, the
    /// deaths, and the level name in 100 bytes.
    pub fn as_bytes(&self) -> (data: Vec<u8>)
        ensures
            data@ == self@.encode(),
            data@.len() == RECORD_BYTES,
    {
        let mut data: Vec<u8> = Vec::with_capacity(RECORD_BYTES);
        self.autosplitter_info.append_to(&mut data);
        let ghost state = data@;
        assert(state =~= self.autosplitter_info.encode());
        push_u32(&mut data, self.chapter_checkpoints);
        push_flag(&mut data, self.in_cutscene);
        push_zeros(&mut data, 3);
        push_u32(&mut data, self.death_count);
        let ghost head = data@;
        let name = self.level_name.as_str().as_bytes();
        let kept: usize = if name.len() < NAME_BYTES {
            name.len()
        } else {
            NAME_BYTES
        };
        let mut i: usize = 0;
        while i < kept
            invariant
                i <= kept,
                kept <= name@.len(),
                data@ == head + name@.take(i as int),
            decreases kept - i,
        {
            data.push(name[i]);
            assert(data@ =~= head + name@.take((i + 1) as int));
            i += 1;
        }
        push_zeros(&mut data, NAME_BYTES - kept);
        assert(name@.take(kept as int) + zeros((NAME_BYTES - kept) as nat) =~= name_field(name@));
        assert(data@ =~= state + self@.encode_tail());
        data
    }
}

impl Clone for Dump {
    fn clone(&self) -> (copy: Dump)
        ensures
            copy@ == self@,
    {
        Dump {
            autosplitter_info: self.autosplitter_info,
            chapter_checkpoints: self.chapter_checkpoints,
            in_cutscene: self.in_cutscene,
            death_count: self.death_count,
            level_name: self.level_name.clone(),
        }
    }
}

impl Default for Dump {
    fn default() -> (dump: Dump)
        ensures
            dump@.autosplitter_info == AutosplitterInfo::zero(),
            dump@.chapter_checkpoints == 0,
            !dump@.in_cutscene,
            dump@.death_count == 0,
            dump@.level_name == Seq::<char>::empty(),
    {
        Dump {
            autosplitter_info: AutosplitterInfo::default(),
            chapter_checkpoints: 0,
            in_cutscene: false,
            death_count: 0,
            level_name: String::new(),
        }
    }
}

/// The 72 bytes of a run state decode to that state again, wherever they are
/// followed by other bytes.
pub proof fn lemma_info_round_trip(info: AutosplitterInfo, rest: Seq<u8>)
    ensures
        info.encode().len() == INFO_RECORD_BYTES,
        AutosplitterInfo::decode(info.encode() + rest) == info,
{
    let b = info.encode() + rest;
    assert(info.encode().len() == 72);
    assert(b.subrange(0, 8) =~= u64_le(info.level));
    assert(b.subrange(8, 12) =~= i32_le(info.chapter));
    assert(b.subrange(12, 16) =~= i32_le(info.mode));
    assert(b.subrange(24, 32) =~= u64_le(info.chapter_time));
    assert(b.subrange(32, 36) =~= i32_le(info.chapter_strawberries));
    assert(b.subrange(40, 48) =~= u64_le(info.file_time));
    assert(b.subrange(48, 52) =~= i32_le(info.file_strawberries));
    assert(b.subrange(52, 56) =~= i32_le(info.file_cassettes));
    assert(b.subrange(56, 60) =~= i32_le(info.file_hearts));
    lemma_u64_round_trip(info.level, b, 0);
    lemma_i32_round_trip(info.chapter, b, 8);
    lemma_i32_round_trip(info.mode, b, 12);
    lemma_u64_round_trip(info.chapter_time, b, 24);
    lemma_i32_round_trip(info.chapter_strawberries, b, 32);
    lemma_u64_round_trip(info.file_time, b, 40);
    lemma_i32_round_trip(info.file_strawberries, b, 48);
    lemma_i32_round_trip(info.file_cassettes, b, 52);
    lemma_i32_round_trip(info.file_hearts, b, 56);
    assert(b[16] == flag(info.timer_active));
    assert(b[17] == flag(info.chapter_started));
    assert(b[18] == flag(info.chapter_complete));
    assert(b[36] == flag(info.chapter_cassette));
    assert(b[37] == flag(info.chapter_heart));
}

/// What follows the run state in a record gives back what it was written
/// from.
proof fn lemma_tail_round_trip(dump: DumpModel)
    ensures
        dump.encode_tail().len() == 112,
        le_u32(dump.encode_tail(), 0) == dump.chapter_checkpoints,
        (dump.encode_tail()[4] != 0) == dump.in_cutscene,
        le_u32(dump.encode_tail(), 8) == dump.death_count,
        forall|i: int|
            0 <= i < NAME_BYTES ==> #[trigger] dump.encode_tail()[12 + i] == name_field(
                encode_utf8(dump.level_name),
            )[i],
{
    let name = encode_utf8(dump.level_name);
    let tail = dump.encode_tail();
    assert(name_field(name).len() == NAME_BYTES);
    assert(tail.len() == 112);
    assert(tail.subrange(0, 4) =~= u32_le(dump.chapter_checkpoints));
    assert(tail.subrange(8, 12) =~= u32_le(dump.death_count));
    lemma_u32_round_trip(dump.chapter_checkpoints, tail, 0);
    lemma_u32_round_trip(dump.death_count, tail, 8);
    assert(tail[4] == flag(dump.in_cutscene));
}

/// In a sequence made of two, the second part starts where the first ends.
proof fn lemma_second_part(first: Seq<u8>, second: Seq<u8>)
    ensures
        forall|i: int|
            0 <= i < second.len() ==> #[trigger] (first + second)[first.len() + i] == second[i],
{
}

/// A record gives back what it was written from: the run state bit for bit,
/// the checkpoints, the cutscene flag and the deaths; and its last 100 bytes
/// are the UTF-8 bytes of the level name, as far as they fit, with only zero
/// bytes after them.
pub proof fn lemma_record_round_trip(dump: DumpModel)
    ensures
        dump.encode().len() == RECORD_BYTES,
        AutosplitterInfo::decode(dump.encode()) == dump.autosplitter_info,
        le_u32(dump.encode(), RECORD_CHECKPOINTS as int) == dump.chapter_checkpoints,
        (dump.encode()[RECORD_CUTSCENE as int] != 0) == dump.in_cutscene,
        le_u32(dump.encode(), RECORD_DEATHS as int) == dump.death_count,
        forall|i: int|
            0 <= i < NAME_BYTES ==> #[trigger] dump.encode()[RECORD_NAME + i] == (if i
                < encode_utf8(dump.level_name).len() {
                encode_utf8(dump.level_name)[i]
            } else {
                0u8
            }),
{
    let state = dump.autosplitter_info.encode();
    let tail = dump.encode_tail();
    let name = encode_utf8(dump.level_name);
    lemma_info_round_trip(dump.autosplitter_info, tail);
    lemma_tail_round_trip(dump);
    lemma_second_part(state, tail);
    let r = state + tail;
    assert forall|i: int| 0 <= i < 112 implies #[trigger] r[72 + i] == tail[i] by {
        assert(r[state.len() + i] == tail[i]);
    }
    assert(r[72 + 0int] == tail[0] && r[72 + 1int] == tail[1]);
    assert(r[72 + 2int] == tail[2] && r[72 + 3int] == tail[3]);
    assert(r[72 + 4int] == tail[4]);
    assert(r[72 + 8int] == tail[8] && r[72 + 9int] == tail[9]);
    assert(r[72 + 10int] == tail[10] && r[72 + 11int] == tail[11]);
    assert forall|i: int| 0 <= i < NAME_BYTES implies #[trigger] r[RECORD_NAME + i] == (if i
        < name.len() {
        name[i]
    } else {
        0u8
    }) by {
        assert(r[72 + (12 + i)] == tail[12 + i]);
    }
}

} // verus!
