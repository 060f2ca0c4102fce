//! The screen of the timer: what is shown for one tick.

use vstd::prelude::*;
use vstd::string::StringExecFns;

use crate::dump::{Dump, DumpModel, TICKS_PER_MILLI};
use crate::splits::{CurrentSplits, Split, SplitsModel};
use crate::term::{styled_line, ColorName, TermColor};
use crate::text::{append_decimal, append_signed, decimal, duration_debug, signed_decimal};
use crate::util::{format_time, time_text};

verus! {

/// The heading above the splits that were reached.
pub const COMPLETED_HEADING: &'static str =
    "\n################\nCompleted Splits\n################\n";

/// The heading above the splits that are still to be reached.
pub const TODO_HEADING: &'static str = "\n###########\nTODO Splits\n###########\n";

/// A palette colour as a text or background colour.
pub open spec fn named(name: ColorName) -> Option<TermColor> {
    Some(TermColor::Name(name))
}

/// The four lines at the top of the screen: chapter and room, chapter time,
/// file time and deaths.
pub open spec fn status_text(dump: DumpModel) -> Seq<char> {
    styled_line(
        "Chapter "@ + signed_decimal(dump.autosplitter_info.chapter as int) + " room "@
            + dump.level_name,
        named(ColorName::Yellow),
        None,
    ) + styled_line(
        "Chapter time: "@ + time_text(dump.autosplitter_info.chapter_time / TICKS_PER_MILLI),
        named(ColorName::Green),
        None,
    ) + styled_line(
        "File time: "@ + time_text(dump.autosplitter_info.file_time / TICKS_PER_MILLI),
        named(ColorName::BrightMagenta),
        None,
    ) + styled_line("Deaths: "@ + decimal(dump.death_count as nat), named(ColorName::Red), None)
}

/// One line for each of the first `count` splits that were reached.
pub open spec fn completed_text(completed: Seq<(Split, u64)>, count: nat) -> Seq<char>
    decreases count,
{
    if count == 0 {
        Seq::empty()
    } else {
        let entry = completed[count - 1];
        completed_text(completed, (count - 1) as nat) + styled_line(
            entry.0.complete_text(entry.1, duration_debug(entry.1)),
            named(ColorName::White),
            None,
        )
    }
}

/// One line for each of the first `count` splits that are still to be
/// reached.
pub open spec fn todo_text(todo: Seq<Split>, dump: DumpModel, count: nat) -> Seq<char>
    decreases count,
{
    if count == 0 {
        Seq::empty()
    } else {
        todo_text(todo, dump, (count - 1) as nat) + styled_line(
            todo[count - 1].incomplete_text(dump),
            named(ColorName::White),
            None,
        )
    }
}

/// The whole screen: the status, the reached splits under their heading, and
/// the splits to do under theirs.
pub open spec fn screen_text(dump: DumpModel, splits: SplitsModel) -> Seq<char> {
    status_text(dump) + styled_line(
        COMPLETED_HEADING@,
        named(ColorName::White),
        named(ColorName::Gray),
    ) + completed_text(splits.completed, splits.completed.len()) + styled_line(
        TODO_HEADING@,
        named(ColorName::White),
        named(ColorName::Gray),
    ) + todo_text(splits.todo, dump, splits.todo.len())
}

/// The four lines at the top of the screen.
pub fn status_lines(dump: &Dump) -> (text: String)
    ensures
        text@ == status_text(dump@),
{
    let mut place = "Chapter ".to_owned();
    append_signed(&mut place, dump.autosplitter_info.chapter);
    place.append(" room ");
    place.append(dump.level_name.as_str());
    let mut chapter_time = "Chapter time: ".to_owned();
    chapter_time.append(format_time(dump.autosplitter_info.chapter_time()).as_str());
    let mut file_time = "File time: ".to_owned();
    file_time.append(format_time(dump.autosplitter_info.file_time()).as_str());
    let mut deaths = "Deaths: ".to_owned();
    append_decimal(&mut deaths, dump.death_count as u64);
    let mut text = crate::term::writeln(place.as_str(), Some(TermColor::Name(ColorName::Yellow)), None);
    text.append(crate::term::writeln(chapter_time.as_str(), Some(TermColor::Name(ColorName::Green)), None).as_str());
    text.append(
        crate::term::writeln(file_time.as_str(), Some(TermColor::Name(ColorName::BrightMagenta)), None).as_str(),
    );
    text.append(crate::term::writeln(deaths.as_str(), Some(TermColor::Name(ColorName::Red)), None).as_str());
    text
}

/// One line for each split that was reached.
pub fn completed_lines(splits: &CurrentSplits) -> (text: String)
    ensures
        text@ == completed_text(splits@.completed, splits@.completed.len()),
{
    let mut text = String::new();
    let mut i: usize = 0;
    while i < splits.completed_splits.len()
        invariant
            i <= splits.completed_splits.len(),
            text@ == completed_text(splits@.completed, i as nat),
        decreases splits.completed_splits.len() - i,
    {
        let line = splits.completed_splits[i].0.display_complete(splits.completed_splits[i].1);
        text.append(crate::term::writeln(line.as_str(), Some(TermColor::Name(ColorName::White)), None).as_str());
        i += 1;
    }
    text
}

/// One line for each split that is still to be reached.
pub fn todo_lines(splits: &CurrentSplits, dump: &Dump) -> (text: String)
    ensures
        text@ == todo_text(splits@.todo, dump@, splits@.todo.len()),
{
    let mut text = String::new();
    let mut i: usize = 0;
    while i < splits.todo_splits.len()
        invariant
            i <= splits.todo_splits.len(),
            text@ == todo_text(splits@.todo, dump@, i as nat),
        decreases splits.todo_splits.len() - i,
    {
        let line = splits.todo_splits[i].display_incomplete(dump);
        text.append(crate::term::writeln(line.as_str(), Some(TermColor::Name(ColorName::White)), None).as_str());
        i += 1;
    }
    text
}

/// What the timer shows for one tick, after the screen was cleared.
pub fn timer_screen(dump: &Dump, splits: &CurrentSplits) -> (text: String)
    ensures
        text@ == screen_text(dump@, splits@),
{
    let mut text = status_lines(dump);
    text.append(
        crate::term::writeln(
            COMPLETED_HEADING,
            Some(TermColor::Name(ColorName::White)),
            Some(TermColor::Name(ColorName::Gray)),
        ).as_str(),
    );
    text.append(completed_lines(splits).as_str());
    text.append(
        crate::term::writeln(
            TODO_HEADING,
            Some(TermColor::Name(ColorName::White)),
            Some(TermColor::Name(ColorName::Gray)),
        ).as_str(),
    );
    text.append(todo_lines(splits, dump).as_str());
    text
}

} // verus!
