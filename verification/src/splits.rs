//! The splits of a run: when each is reached, and how it is shown.

use vstd::prelude::*;
use vstd::string::StringExecFns;

use crate::dump::{Dump, DumpModel, TICKS_PER_MILLI};
use crate::text::{append_signed, debug_duration, duration_debug, signed_decimal};
use crate::util::{format_time_with_units, time_with_units_text};

verus! {

/// What has to happen in a chapter for a split to be reached.
#[derive(Debug, PartialEq, Eq)]
pub enum SplitKind {
    /// The chapter's heart is collected.
    Heart,
    /// The chapter's cassette is collected.
    Casette,
    /// This many strawberries are collected in the chapter.
    Berries(i32),
    /// The level of this name is entered.
    Level(String),
    /// The chapter is complete.
    ChapterComplete,
}

/// One split of a run.
#[derive(Debug, PartialEq, Eq)]
pub struct Split {
    pub name: Option<String>,
    pub chapter: i32,
    pub split_kind: SplitKind,
}

/// The splits of a run that is under way.
#[derive(Debug)]
pub struct CurrentSplits {
    /// The splits that were reached, each with the chapter time in
    /// milliseconds at which it was.
    pub completed_splits: Vec<(Split, u64)>,
    /// The splits that are still to be reached, the next one first.
    pub todo_splits: Vec<Split>,
}

/// The splits of a run, as they are kept in a file.
#[derive(Debug)]
pub struct Splits {
    pub split_mode: (String, i32),
    pub splits: Vec<Split>,
}

/// The time that a dump shows for the chapter, in milliseconds.
pub open spec fn chapter_millis(dump: DumpModel) -> u64 {
    dump.autosplitter_info.chapter_time / TICKS_PER_MILLI
}

impl Clone for SplitKind {
    fn clone(&self) -> (copy: SplitKind)
        ensures
            copy == *self,
    {
        match self {
            SplitKind::Heart => SplitKind::Heart,
            SplitKind::Casette => SplitKind::Casette,
            SplitKind::Berries(count) => SplitKind::Berries(*count),
            SplitKind::Level(name) => SplitKind::Level(name.clone()),
            SplitKind::ChapterComplete => SplitKind::ChapterComplete,
        }
    }
}

impl Clone for Split {
    fn clone(&self) -> (copy: Split)
        ensures
            copy == *self,
    {
        let name = match &self.name {
            Some(name) => Some(name.clone()),
            None => None,
        };
        Split { name, chapter: self.chapter, split_kind: self.split_kind.clone() }
    }
}

impl SplitKind {
    /// Whether this has happened in the chapter that `dump` shows.
    pub open spec fn holds_in(self, dump: DumpModel) -> bool {
        match self {
            SplitKind::Heart => dump.autosplitter_info.chapter_heart,
            SplitKind::Casette => dump.autosplitter_info.chapter_cassette,
            SplitKind::Berries(count) => dump.autosplitter_info.chapter_strawberries == count,
            SplitKind::Level(name) => dump.level_name == name@,
            SplitKind::ChapterComplete => dump.autosplitter_info.chapter_complete,
        }
    }

    /// The words for this kind of split in a list of splits.
    pub open spec fn info_text(self) -> Seq<char> {
        match self {
            SplitKind::Heart => "Heart"@,
            SplitKind::Casette => "Casette"@,
            SplitKind::Berries(count) => signed_decimal(count as int) + " Berries"@,
            SplitKind::Level(room) => "Room "@ + room@,
            SplitKind::ChapterComplete => "Complete"@,
        }
    }

    /// The word for this kind of split in the timer; a level is shown by its
    /// name. Strawberries are shown in a way of their own.
    pub open spec fn timer_text(self) -> Seq<char> {
        match self {
            SplitKind::Heart => "Heart"@,
            SplitKind::Casette => "Casette"@,
            SplitKind::Berries(_) => Seq::empty(),
            SplitKind::Level(level) => level@,
            SplitKind::ChapterComplete => "Complete"@,
        }
    }

    /// The words for this kind of split in a list of splits.
    fn info(&self) -> (text: String)
        ensures
            text@ == self.info_text(),
    {
        match self {
            SplitKind::Heart => "Heart".to_owned(),
            SplitKind::Casette => "Casette".to_owned(),
            SplitKind::Berries(count) => {
                let mut text = String::new();
                append_signed(&mut text, *count);
                text.append(" Berries");
                assert(text@ =~= self.info_text());
                text
            },
            SplitKind::Level(room) => {
                let mut text = "Room ".to_owned();
                text.append(room.as_str());
                text
            },
            SplitKind::ChapterComplete => "Complete".to_owned(),
        }
    }
}

impl Split {
    /// Whether `dump` shows that this split is reached: the game is in the
    /// split's chapter, and there what the split asks for has happened.
    pub open spec fn reached_in(self, dump: DumpModel) -> bool {
        dump.autosplitter_info.chapter == self.chapter && self.split_kind.holds_in(dump)
    }

    /// The split in full: its name on a line of its own, if it has one, then
    /// the chapter and what has to happen there.
    pub open spec fn long_text(self) -> Seq<char> {
        (match self.name {
            Some(name) => name@ + "\n  "@,
            None => Seq::empty(),
        }) + "Cp. "@ + signed_decimal(self.chapter as int) + " "@ + self.split_kind.info_text()
    }

    /// The split in short: its name, or without one the chapter and what has
    /// to happen there.
    pub open spec fn short_text(self) -> Seq<char> {
        match self.name {
            Some(name) => name@,
            None => "Cp. "@ + signed_decimal(self.chapter as int) + " "@
                + self.split_kind.info_text(),
        }
    }

    /// The split while it is still to be reached: its name, or without one
    /// the strawberries of the file against those asked for, or the chapter
    /// and what has to happen there.
    pub open spec fn incomplete_text(self, dump: DumpModel) -> Seq<char> {
        match self.name {
            Some(name) => name@,
            None => match self.split_kind {
                SplitKind::Berries(count) => signed_decimal(
                    dump.autosplitter_info.file_strawberries as int,
                ) + "/"@ + signed_decimal(count as int) + " Berries"@,
                _ => "Ch."@ + signed_decimal(self.chapter as int) + ": "@
                    + self.split_kind.timer_text(),
            },
        }
    }

    /// The split once it was reached at `finish_time` milliseconds, where
    /// `shown` is that time as the standard library prints a duration: its
    /// name and the time in minutes and seconds, or without a name the
    /// strawberries or the chapter and what happened there, and `shown`.
    pub open spec fn complete_text(self, finish_time: u64, shown: Seq<char>) -> Seq<char> {
        match self.name {
            Some(name) => name@ + " = "@ + time_with_units_text(finish_time),
            None => match self.split_kind {
                SplitKind::Berries(count) => signed_decimal(count as int) + "/"@ + signed_decimal(
                    count as int,
                ) + " Berries = "@ + shown,
                _ => "Ch."@ + signed_decimal(self.chapter as int) + ": "@
                    + self.split_kind.timer_text() + " = "@ + shown,
            },
        }
    }

    /// Tells whether `info` shows that this split is reached.
    pub fn is_accomplished(&self, info: &Dump) -> (reached: bool)
        ensures
            reached == self.reached_in(info@),
    {
        if info.autosplitter_info.chapter == self.chapter {
            match &self.split_kind {
                SplitKind::Level(level) => *level == info.level_name,
                SplitKind::Heart => info.autosplitter_info.chapter_heart,
                SplitKind::Casette => info.autosplitter_info.chapter_cassette,
                SplitKind::Berries(count) => *count == info.autosplitter_info.chapter_strawberries,
                SplitKind::ChapterComplete => info.autosplitter_info.chapter_complete,
            }
        } else {
            false
        }
    }

    /// Appends `Cp. `, the chapter, a blank and the kind of split to `out`.
    fn append_chapter_and_kind(&self, out: &mut String)
        ensures
            final(out)@ == old(out)@ + "Cp. "@ + signed_decimal(self.chapter as int) + " "@
                + self.split_kind.info_text(),
    {
        out.append("Cp. ");
        append_signed(out, self.chapter);
        out.append(" ");
        let info = self.split_kind.info();
        out.append(info.as_str());
    }

    /// The split in full.
    pub fn display_long(&self) -> (text: String)
        ensures
            text@ == self.long_text(),
    {
        let mut text = match &self.name {
            Some(name) => {
                let mut text = name.clone();
                text.append("\n  ");
                text
            },
            None => String::new(),
        };
        self.append_chapter_and_kind(&mut text);
        assert(text@ =~= self.long_text());
        text
    }

    /// The split in short.
    pub fn display_short(&self) -> (text: String)
        ensures
            text@ == self.short_text(),
    {
        match &self.name {
            Some(name) => name.clone(),
            None => {
                let mut text = String::new();
                self.append_chapter_and_kind(&mut text);
                assert(text@ =~= self.short_text());
                text
            },
        }
    }

    /// Appends `Ch.`, the chapter, a colon, a blank and the word for the kind
    /// of split to `out`.
    fn append_timer_line(&self, out: &mut String)
        requires
            !(self.split_kind is Berries),
        ensures
            final(out)@ == old(out)@ + "Ch."@ + signed_decimal(self.chapter as int) + ": "@
                + self.split_kind.timer_text(),
    {
        out.append("Ch.");
        append_signed(out, self.chapter);
        out.append(": ");
        match &self.split_kind {
            SplitKind::Level(level) => out.append(level.as_str()),
            SplitKind::Heart => out.append("Heart"),
            SplitKind::Casette => out.append("Casette"),
            SplitKind::ChapterComplete => out.append("Complete"),
            SplitKind::Berries(_) => {},
        }
    }

    /// The split while it is still to be reached.
    pub fn display_incomplete(&self, info: &Dump) -> (text: String)
        ensures
            text@ == self.incomplete_text(info@),
    {
        match &self.name {
            Some(name) => name.clone(),
            None => {
                let mut text = String::new();
                match &self.split_kind {
                    SplitKind::Berries(count) => {
                        append_signed(&mut text, info.autosplitter_info.file_strawberries);
                        text.append("/");
                        append_signed(&mut text, *count);
                        text.append(" Berries");
                    },
                    _ => {
                        self.append_timer_line(&mut text);
                    },
                }
                assert(text@ =~= self.incomplete_text(info@));
                text
            },
        }
    }

    /// The split once it was reached at `finish_time` milliseconds, with that
    /// time already written as the standard library prints a duration.
    pub fn display_complete_with(&self, finish_time: u64, shown: &str) -> (text: String)
        ensures
            text@ == self.complete_text(finish_time, shown@),
    {
        match &self.name {
            Some(name) => {
                let mut text = name.clone();
                text.append(" = ");
                let time = format_time_with_units(finish_time);
                text.append(time.as_str());
                text
            },
            None => {
                let mut text = String::new();
                match &self.split_kind {
                    SplitKind::Berries(count) => {
                        append_signed(&mut text, *count);
                        text.append("/");
                        append_signed(&mut text, *count);
                        text.append(" Berries = ");
                    },
                    _ => {
                        self.append_timer_line(&mut text);
                        text.append(" = ");
                    },
                }
                text.append(shown);
                assert(text@ =~= self.complete_text(finish_time, shown@));
                text
            },
        }
    }
}

impl Split {
    /// The split once it was reached at `finish_time` milliseconds.
    pub fn display_complete(&self, finish_time: u64) -> (text: String)
        ensures
            text@ == self.complete_text(finish_time, duration_debug(finish_time)),
    {
        let shown = debug_duration(finish_time);
        self.display_complete_with(finish_time, shown.as_str())
    }
}

/// The splits of a run that is under way, as sequences.
pub struct SplitsModel {
    pub completed: Seq<(Split, u64)>,
    pub todo: Seq<Split>,
}

/// How many splits at the start of `todo` are reached in `dump`, one after the
/// other.
pub open spec fn reached_count(todo: Seq<Split>, dump: DumpModel) -> nat
    decreases todo.len(),
{
    if todo.len() == 0 || !todo[0].reached_in(dump) {
        0
    } else {
        1 + reached_count(todo.drop_first(), dump)
    }
}

/// `splits`, each with the time `millis`.
pub open spec fn stamped(splits: Seq<Split>, millis: u64) -> Seq<(Split, u64)> {
    Seq::new(splits.len(), |i: int| (splits[i], millis))
}

/// The splits alone of a list of reached splits.
pub open spec fn splits_of(completed: Seq<(Split, u64)>) -> Seq<Split> {
    Seq::new(completed.len(), |i: int| completed[i].0)
}

impl SplitsModel {
    /// The state after a tick that found `dump`: the splits at the start of
    /// the to-do list that are reached in `dump` have moved to the end of the
    /// reached ones, in their order, each with the chapter time of `dump`.
    pub open spec fn step(self, dump: DumpModel) -> SplitsModel {
        let n = reached_count(self.todo, dump) as int;
        SplitsModel {
            completed: self.completed + stamped(self.todo.take(n), chapter_millis(dump)),
            todo: self.todo.skip(n),
        }
    }

    /// The state after the ticks that found `dumps`, one after the other.
    pub open spec fn run(self, dumps: Seq<DumpModel>) -> SplitsModel
        decreases dumps.len(),
    {
        if dumps.len() == 0 {
            self
        } else {
            self.step(dumps[0]).run(dumps.drop_first())
        }
    }
}

impl View for CurrentSplits {
    type V = SplitsModel;

    open spec fn view(&self) -> SplitsModel {
        SplitsModel { completed: self.completed_splits@, todo: self.todo_splits@ }
    }
}

impl CurrentSplits {
    /// A run of which no split is reached yet.
    pub fn new(splits: Vec<Split>) -> (current: CurrentSplits)
        ensures
            current@.completed == Seq::<(Split, u64)>::empty(),
            current@.todo == splits@,
    {
        CurrentSplits { completed_splits: Vec::new(), todo_splits: splits }
    }

    /// Moves the splits that `dump` shows as reached from the to-do list to
    /// the reached ones: the first of the list while it is reached, each with
    /// the chapter time of `dump` in milliseconds. Returns how many moved.
    pub fn advance(&mut self, dump: &Dump) -> (moved: usize)
        ensures
            final(self)@ == old(self)@.step(dump@),
            moved == reached_count(old(self)@.todo, dump@),
    {
        let millis = dump.autosplitter_info.chapter_time();
        let mut moved: usize = 0;
        while self.todo_splits.len() > 0 && self.todo_splits[0].is_accomplished(dump)
            invariant
                moved + self.todo_splits.len() == old(self).todo_splits.len(),
                millis == chapter_millis(dump@),
                self@.todo == old(self)@.todo.skip(moved as int),
                self@.completed == old(self)@.completed + stamped(
                    old(self)@.todo.take(moved as int),
                    millis,
                ),
                reached_count(old(self)@.todo, dump@) == moved + reached_count(self@.todo, dump@),
            decreases self.todo_splits.len(),
        {
            let ghost before = self@;
            let split = self.todo_splits.remove(0);
            self.completed_splits.push((split, millis));
            proof {
                let all = old(self)@.todo;
                assert(split == all[moved as int]);
                assert(self@.todo =~= all.skip(moved + 1));
                assert(before.todo.drop_first() =~= self@.todo);
                assert(self@.completed =~= old(self)@.completed + stamped(
                    all.take(moved + 1),
                    millis,
                ));
            }
            moved = moved + 1;
        }
        moved
    }
}

/// What holds of the splits after any number of ticks: the reached splits
/// followed by those to do are the splits in their first order, so the reached
/// ones are a prefix of them; what was reached before stays as it was; each
/// split that the ticks moved was reached in one of their dumps and carries
/// the chapter time of that dump; and the split that is next to do is not
/// reached in the last dump, so the prefix is as long as it can be.
pub proof fn lemma_run_completes_longest_prefix(start: SplitsModel, dumps: Seq<DumpModel>)
    ensures
        splits_of(start.run(dumps).completed) + start.run(dumps).todo == splits_of(start.completed)
            + start.todo,
        start.completed.len() <= start.run(dumps).completed.len(),
        start.run(dumps).completed.take(start.completed.len() as int) == start.completed,
        forall|i: int|
            start.completed.len() <= i < start.run(dumps).completed.len() ==> exists|j: int|
                0 <= j < dumps.len() && (#[trigger] start.run(dumps).completed[i]).0.reached_in(
                    dumps[j],
                ) && start.run(dumps).completed[i].1 == chapter_millis(dumps[j]),
        dumps.len() > 0 && start.run(dumps).todo.len() > 0 ==> !start.run(dumps).todo[0].reached_in(
            dumps.last(),
        ),
    decreases dumps.len(),
{
    if dumps.len() == 0 {
        assert(start.completed.take(start.completed.len() as int) =~= start.completed);
    } else {
        let dump = dumps[0];
        let next = start.step(dump);
        let rest = dumps.drop_first();
        let end = next.run(rest);
        let n = reached_count(start.todo, dump) as int;
        lemma_reached_count(start.todo, dump);
        lemma_run_completes_longest_prefix(next, rest);
        assert(splits_of(next.completed) + next.todo =~= splits_of(start.completed) + start.todo);
        assert(end.completed.take(start.completed.len() as int) =~= start.completed) by {
            assert(next.completed.take(start.completed.len() as int) =~= start.completed);
            assert(end.completed.take(next.completed.len() as int) == next.completed);
            assert forall|i: int| 0 <= i < start.completed.len() implies end.completed[i]
                == start.completed[i] by {
                assert(end.completed.take(next.completed.len() as int)[i] == next.completed[i]);
            }
        }
        assert forall|i: int| start.completed.len() <= i < end.completed.len() implies exists|
            j: int,
        |
            0 <= j < dumps.len() && (#[trigger] end.completed[i]).0.reached_in(dumps[j])
                && end.completed[i].1 == chapter_millis(dumps[j]) by {
            if i < next.completed.len() {
                assert(end.completed.take(next.completed.len() as int)[i] == next.completed[i]);
                let k = i - start.completed.len();
                assert(next.completed[i] == (start.todo[k], chapter_millis(dump)));
                assert(start.todo[k].reached_in(dumps[0]));
            } else {
                let j = choose|j: int|
                    0 <= j < rest.len() && end.completed[i].0.reached_in(rest[j])
                        && end.completed[i].1 == chapter_millis(rest[j]);
                assert(rest[j] == dumps[j + 1]);
            }
        }
        if rest.len() == 0 {
            assert(end == next);
        } else {
            assert(rest.last() == dumps.last());
        }
    }
}

/// The splits that `reached_count` counts are reached, and the one after them
/// is not.
proof fn lemma_reached_count(todo: Seq<Split>, dump: DumpModel)
    ensures
        reached_count(todo, dump) <= todo.len(),
        forall|k: int| 0 <= k < reached_count(todo, dump) ==> (#[trigger] todo[k]).reached_in(dump),
        reached_count(todo, dump) < todo.len() ==> !todo[reached_count(todo, dump) as int].reached_in(
            dump,
        ),
    decreases todo.len(),
{
    if todo.len() > 0 && todo[0].reached_in(dump) {
        let rest = todo.drop_first();
        lemma_reached_count(rest, dump);
        assert forall|k: int| 0 <= k < reached_count(todo, dump) implies (#[trigger] todo[k]).reached_in(
            dump,
        ) by {
            if k > 0 {
                assert(rest[k - 1] == todo[k]);
            }
        }
        if reached_count(todo, dump) < todo.len() {
            assert(rest[reached_count(rest, dump) as int] == todo[reached_count(todo, dump) as int]);
        }
    }
}

/// The kinds of split in the order in which an editor offers them.
pub const KIND_LABELS: [&'static str; 5] = ["Chapter Complete", "Heart", "Casette", "Berries", "Room"];

/// The place of the strawberries among the kinds that an editor offers.
pub const CHOICE_BERRIES: usize = 3;

/// The place of the room among the kinds that an editor offers.
pub const CHOICE_ROOM: usize = 4;

/// The name that a split gets from what was typed for it: none where nothing
/// was typed.
pub open spec fn name_of(input: Seq<char>) -> Option<Seq<char>> {
    if input.len() == 0 {
        None
    } else {
        Some(input)
    }
}

/// The name that a split gets from what was typed for it.
pub fn name_from_input(input: String) -> (name: Option<String>)
    ensures
        match name_of(input@) {
            Some(text) => name is Some && name->Some_0@ == text,
            None => name is None,
        },
{
    if input.as_str().unicode_len() == 0 {
        None
    } else {
        Some(input)
    }
}

/// The kind of split that stands at place `choice` of `KIND_LABELS`, with
/// `berries` as the number of strawberries and `room` as the name of the
/// level where the kind asks for one; none for a place outside the list.
pub fn kind_from_choice(choice: usize, berries: i32, room: String) -> (kind: Option<SplitKind>)
    ensures
        choice == 0 ==> kind == Some(SplitKind::ChapterComplete),
        choice == 1 ==> kind == Some(SplitKind::Heart),
        choice == 2 ==> kind == Some(SplitKind::Casette),
        choice == CHOICE_BERRIES ==> kind == Some(SplitKind::Berries(berries)),
        choice == CHOICE_ROOM ==> kind == Some(SplitKind::Level(room)),
        choice > 4 ==> kind is None,
{
    if choice == 0 {
        Some(SplitKind::ChapterComplete)
    } else if choice == 1 {
        Some(SplitKind::Heart)
    } else if choice == 2 {
        Some(SplitKind::Casette)
    } else if choice == CHOICE_BERRIES {
        Some(SplitKind::Berries(berries))
    } else if choice == CHOICE_ROOM {
        Some(SplitKind::Level(room))
    } else {
        None
    }
}

/// Whether every number in `order` is a place of a list of `len` entries.
pub open spec fn all_within(order: Seq<usize>, len: nat) -> bool {
    forall|i: int| 0 <= i < order.len() ==> (#[trigger] order[i]) < len
}

/// The entries of `splits` at the places that `order` names, in the order of
/// `order`.
pub open spec fn picked(splits: Seq<Split>, order: Seq<usize>) -> Seq<Split> {
    Seq::new(order.len(), |i: int| splits[order[i] as int])
}

impl Splits {
    /// Appends a split.
    pub fn add(&mut self, split: Split)
        ensures
            final(self).splits@ == old(self).splits@.push(split),
            final(self).split_mode == old(self).split_mode,
    {
        self.splits.push(split);
    }

    /// Takes the split at place `idx` out of the list; `None`, and nothing
    /// changed, where the list has no such place.
    pub fn delete(&mut self, idx: usize) -> (removed: Option<Split>)
        ensures
            final(self).split_mode == old(self).split_mode,
            idx < old(self).splits@.len() ==> removed == Some(old(self).splits@[idx as int])
                && final(self).splits@ == old(self).splits@.remove(idx as int),
            idx >= old(self).splits@.len() ==> removed is None && final(self).splits@ == old(
                self,
            ).splits@,
    {
        if idx < self.splits.len() {
            Some(self.splits.remove(idx))
        } else {
            None
        }
    }

    /// Puts `split` in the place `idx` of the list, instead of the split that
    /// was there; returns that one, or `None`, with nothing changed, where
    /// the list has no such place.
    pub fn replace(&mut self, idx: usize, split: Split) -> (replaced: Option<Split>)
        ensures
            final(self).split_mode == old(self).split_mode,
            idx < old(self).splits@.len() ==> replaced == Some(old(self).splits@[idx as int])
                && final(self).splits@ == old(self).splits@.update(idx as int, split),
            idx >= old(self).splits@.len() ==> replaced is None && final(self).splits@ == old(
                self,
            ).splits@,
    {
        if idx < self.splits.len() {
            let before = self.splits.remove(idx);
            self.splits.insert(idx, split);
            assert(self.splits@ =~= old(self).splits@.update(idx as int, split));
            Some(before)
        } else {
            None
        }
    }

    /// Puts the splits in the order that `order` gives: the new list holds,
    /// for each number in `order`, the split that was at that place. Where a
    /// number in `order` is no place of the list, nothing changes and the
    /// result is `false`.
    pub fn reorder(&mut self, order: &Vec<usize>) -> (done: bool)
        ensures
            final(self).split_mode == old(self).split_mode,
            done == all_within(order@, old(self).splits@.len()),
            done ==> final(self).splits@ == picked(old(self).splits@, order@),
            !done ==> final(self).splits@ == old(self).splits@,
    {
        let mut next: Vec<Split> = Vec::new();
        let mut i: usize = 0;
        while i < order.len()
            invariant
                i <= order.len(),
                self.splits@ == old(self).splits@,
                self.split_mode == old(self).split_mode,
                all_within(order@.take(i as int), self.splits@.len()),
                next@ == picked(self.splits@, order@.take(i as int)),
            decreases order.len() - i,
        {
            let place = order[i];
            if place >= self.splits.len() {
                return false;
            }
            next.push(self.splits[place].clone());
            proof {
                let now = order@.take(i + 1);
                assert forall|j: int| 0 <= j < now.len() implies (#[trigger] now[j])
                    < self.splits@.len() by {
                    if j < i {
                        assert(order@.take(i as int)[j] == now[j]);
                    }
                }
                assert(next@ =~= picked(self.splits@, now));
            }
            i += 1;
        }
        assert(order@.take(order@.len() as int) =~= order@);
        self.splits = next;
        true
    }
}

} // verus!
