use celeste_autosplit::dump::{AutosplitterInfo, Dump};
use celeste_autosplit::splits::{
    kind_from_choice, name_from_input, CurrentSplits, Split, SplitKind, Splits, CHOICE_BERRIES,
    CHOICE_ROOM, KIND_LABELS,
};
use celeste_autosplit::timer::{completed_lines, status_lines, timer_screen, todo_lines};
use std::time::Duration;

fn split(name: Option<&str>, chapter: i32, kind: SplitKind) -> Split {
    Split { name: name.map(|n| n.to_string()), chapter, split_kind: kind }
}

fn dump_in(chapter: i32) -> Dump {
    Dump {
        autosplitter_info: AutosplitterInfo { chapter, ..AutosplitterInfo::default() },
        ..Dump::default()
    }
}

fn all_kinds() -> Vec<SplitKind> {
    vec![
        SplitKind::Heart,
        SplitKind::Casette,
        SplitKind::Berries(5),
        SplitKind::Level("3a-00".to_string()),
        SplitKind::ChapterComplete,
    ]
}

#[test]
fn berries_split_on_chapter_two() {
    let mut dump = dump_in(2);
    dump.autosplitter_info.chapter_strawberries = 5;
    assert_eq!(split(None, 2, SplitKind::Berries(5)).is_accomplished(&dump), true);
    assert_eq!(split(None, 3, SplitKind::Berries(5)).is_accomplished(&dump), false);
    assert_eq!(split(None, 2, SplitKind::Berries(4)).is_accomplished(&dump), false);
    assert_eq!(split(None, 2, SplitKind::Berries(6)).is_accomplished(&dump), false);
    dump.autosplitter_info.chapter_strawberries = 6;
    assert_eq!(split(None, 2, SplitKind::Berries(5)).is_accomplished(&dump), false);
}

#[test]
fn heart_and_chapter_complete_at_once() {
    let mut dump = dump_in(7);
    dump.autosplitter_info.chapter_heart = true;
    dump.autosplitter_info.chapter_complete = true;
    dump.autosplitter_info.chapter_time = 9_876_543_210;
    let mut splits = CurrentSplits::new(vec![
        split(None, 7, SplitKind::Heart),
        split(None, 7, SplitKind::ChapterComplete),
    ]);
    assert_eq!(splits.advance(&dump), 2);
    assert_eq!(splits.todo_splits, vec![]);
    assert_eq!(
        splits.completed_splits,
        vec![
            (split(None, 7, SplitKind::Heart), 987_654),
            (split(None, 7, SplitKind::ChapterComplete), 987_654),
        ]
    );
}

#[test]
fn each_kind_of_split_is_reached_by_its_own_sign_only() {
    for (i, kind) in all_kinds().into_iter().enumerate() {
        let s = split(None, 4, kind);
        assert_eq!(s.is_accomplished(&dump_in(4)), false);
        for j in 0..5 {
            let mut dump = dump_in(4);
            match j {
                0 => dump.autosplitter_info.chapter_heart = true,
                1 => dump.autosplitter_info.chapter_cassette = true,
                2 => dump.autosplitter_info.chapter_strawberries = 5,
                3 => dump.level_name = "3a-00".to_string(),
                _ => dump.autosplitter_info.chapter_complete = true,
            }
            assert_eq!(s.is_accomplished(&dump), i == j);
            dump.autosplitter_info.chapter = 5;
            assert_eq!(s.is_accomplished(&dump), false);
            dump.autosplitter_info.chapter = -1;
            assert_eq!(s.is_accomplished(&dump), false);
        }
    }
}

#[test]
fn a_split_is_reached_exactly_when_chapter_and_sign_agree() {
    let names = ["", "3a-00", "3a-0", "3A-00"];
    for chapter in [-1, 0, 4] {
        for bits in 0..8u32 {
            for berries in [0, 5] {
                for name in names {
                    let mut dump = dump_in(chapter);
                    dump.autosplitter_info.chapter_heart = bits & 1 != 0;
                    dump.autosplitter_info.chapter_cassette = bits & 2 != 0;
                    dump.autosplitter_info.chapter_complete = bits & 4 != 0;
                    dump.autosplitter_info.chapter_strawberries = berries;
                    dump.level_name = name.to_string();
                    let here = chapter == 4;
                    let expected = [
                        here && bits & 1 != 0,
                        here && bits & 2 != 0,
                        here && berries == 5,
                        here && name == "3a-00",
                        here && bits & 4 != 0,
                    ];
                    for (kind, expected) in all_kinds().into_iter().zip(expected) {
                        assert_eq!(split(None, 4, kind).is_accomplished(&dump), expected);
                    }
                }
            }
        }
    }
}

#[test]
fn other_flags_of_the_run_state_reach_no_split() {
    let mut dump = dump_in(4);
    dump.autosplitter_info.timer_active = true;
    dump.autosplitter_info.chapter_started = true;
    dump.autosplitter_info.file_strawberries = 5;
    dump.autosplitter_info.file_cassettes = 1;
    dump.autosplitter_info.file_hearts = 1;
    dump.in_cutscene = true;
    dump.chapter_checkpoints = 5;
    dump.death_count = 5;
    for kind in all_kinds() {
        assert_eq!(split(Some("named"), 4, kind).is_accomplished(&dump), false);
    }
}

#[test]
fn only_the_splits_at_the_head_of_the_list_move() {
    let todo = vec![
        split(Some("first"), 1, SplitKind::ChapterComplete),
        split(None, 1, SplitKind::Heart),
        split(None, 2, SplitKind::Berries(3)),
        split(None, 1, SplitKind::ChapterComplete),
    ];
    let mut splits = CurrentSplits::new(todo.clone());
    assert_eq!(splits.completed_splits, vec![]);
    assert_eq!(splits.todo_splits, todo);

    // The heart is there but the chapter is not complete: nothing moves.
    let mut dump = dump_in(1);
    dump.autosplitter_info.chapter_heart = true;
    dump.autosplitter_info.chapter_time = 10_000;
    assert_eq!(splits.advance(&dump), 0);
    assert_eq!(splits.completed_splits, vec![]);
    assert_eq!(splits.todo_splits, todo);

    // Complete: the first two move, the last one waits behind the berries.
    dump.autosplitter_info.chapter_complete = true;
    dump.autosplitter_info.chapter_time = 25_000;
    assert_eq!(splits.advance(&dump), 2);
    assert_eq!(splits.completed_splits, vec![(todo[0].clone(), 2), (todo[1].clone(), 2)]);
    assert_eq!(splits.todo_splits, vec![todo[2].clone(), todo[3].clone()]);
    assert_eq!(splits.advance(&dump), 0);

    let mut dump = dump_in(2);
    dump.autosplitter_info.chapter_strawberries = 3;
    dump.autosplitter_info.chapter_time = 39_999;
    assert_eq!(splits.advance(&dump), 1);
    assert_eq!(
        splits.completed_splits,
        vec![(todo[0].clone(), 2), (todo[1].clone(), 2), (todo[2].clone(), 3)]
    );
    assert_eq!(splits.todo_splits, vec![todo[3].clone()]);

    let mut dump = dump_in(1);
    dump.autosplitter_info.chapter_complete = true;
    dump.autosplitter_info.chapter_time = 70_000;
    assert_eq!(splits.advance(&dump), 1);
    assert_eq!(splits.todo_splits, vec![]);
    assert_eq!(splits.completed_splits.len(), 4);
    assert_eq!(splits.completed_splits[3], (todo[3].clone(), 7));
    assert_eq!(splits.advance(&dump), 0);
}

#[test]
fn a_scripted_run_completes_the_longest_prefix() {
    let todo: Vec<Split> = (1..=6).map(|c| split(None, c, SplitKind::ChapterComplete)).collect();
    // Chapter complete is seen for the chapters 1, 2, 2, 4, 3, 4 at the times
    // 1 to 6: chapter 4 is passed over while chapter 3 is still to do.
    let script = [(1, 1u64), (2, 2), (2, 3), (4, 4), (3, 5), (4, 6)];
    let mut splits = CurrentSplits::new(todo.clone());
    for (chapter, millis) in script {
        let mut dump = dump_in(chapter);
        dump.autosplitter_info.chapter_complete = true;
        dump.autosplitter_info.chapter_time = millis * 10_000;
        splits.advance(&dump);
    }
    assert_eq!(
        splits.completed_splits,
        vec![
            (todo[0].clone(), 1),
            (todo[1].clone(), 2),
            (todo[2].clone(), 5),
            (todo[3].clone(), 6),
        ]
    );
    assert_eq!(splits.todo_splits, vec![todo[4].clone(), todo[5].clone()]);
}

#[test]
fn nothing_moves_from_an_empty_list() {
    let mut splits = CurrentSplits::new(vec![]);
    assert_eq!(splits.advance(&dump_in(1)), 0);
    assert_eq!(splits.completed_splits, vec![]);
    assert_eq!(splits.todo_splits, vec![]);
}

#[test]
fn a_split_is_shown_in_full() {
    assert_eq!(split(None, 2, SplitKind::Heart).display_long(), "Cp. 2 Heart");
    assert_eq!(split(None, 2, SplitKind::Casette).display_long(), "Cp. 2 Casette");
    assert_eq!(split(None, 10, SplitKind::Berries(12)).display_long(), "Cp. 10 12 Berries");
    assert_eq!(
        split(None, 3, SplitKind::Level("3a-00".to_string())).display_long(),
        "Cp. 3 Room 3a-00"
    );
    assert_eq!(split(None, -1, SplitKind::ChapterComplete).display_long(), "Cp. -1 Complete");
    assert_eq!(
        split(Some("Forsaken City"), 1, SplitKind::ChapterComplete).display_long(),
        "Forsaken City\n  Cp. 1 Complete"
    );
    assert_eq!(
        split(Some(""), i32::MIN, SplitKind::Berries(i32::MIN)).display_long(),
        "\n  Cp. -2147483648 -2147483648 Berries"
    );
}

#[test]
fn a_split_is_shown_in_short() {
    assert_eq!(split(None, 2, SplitKind::Heart).display_short(), "Cp. 2 Heart");
    assert_eq!(split(None, 0, SplitKind::Berries(0)).display_short(), "Cp. 0 0 Berries");
    assert_eq!(
        split(None, 9, SplitKind::Level("a-00".to_string())).display_short(),
        "Cp. 9 Room a-00"
    );
    assert_eq!(
        split(None, i32::MAX, SplitKind::ChapterComplete).display_short(),
        "Cp. 2147483647 Complete"
    );
    assert_eq!(split(Some("Core"), 9, SplitKind::Heart).display_short(), "Core");
    assert_eq!(split(Some(""), 9, SplitKind::Heart).display_short(), "");
}

#[test]
fn a_split_to_do_is_shown_with_what_is_missing() {
    let mut dump = dump_in(1);
    dump.autosplitter_info.file_strawberries = 7;
    dump.autosplitter_info.chapter_strawberries = 2;
    assert_eq!(split(None, 2, SplitKind::Heart).display_incomplete(&dump), "Ch.2: Heart");
    assert_eq!(split(None, 2, SplitKind::Casette).display_incomplete(&dump), "Ch.2: Casette");
    assert_eq!(
        split(None, 2, SplitKind::ChapterComplete).display_incomplete(&dump),
        "Ch.2: Complete"
    );
    assert_eq!(
        split(None, 2, SplitKind::Level("3a-00".to_string())).display_incomplete(&dump),
        "Ch.2: 3a-00"
    );
    assert_eq!(split(None, 2, SplitKind::Berries(20)).display_incomplete(&dump), "7/20 Berries");
    assert_eq!(split(Some("B"), 2, SplitKind::Berries(20)).display_incomplete(&dump), "B");
}

#[test]
fn a_reached_split_is_shown_with_its_time() {
    for millis in [0u64, 1, 999, 1_000, 1_500, 61_007, 754_321, 3_600_000, u64::MAX / 1000] {
        let shown = format!("{:#?}", Duration::from_millis(millis));
        let m = millis / 1000 / 60;
        let s = millis / 1000 % 60;
        let ms = millis % 1000;
        assert_eq!(
            split(None, 2, SplitKind::Heart).display_complete(millis),
            format!("Ch.2: Heart = {}", shown)
        );
        assert_eq!(
            split(None, 3, SplitKind::Level("3a-00".to_string())).display_complete(millis),
            format!("Ch.3: 3a-00 = {}", shown)
        );
        assert_eq!(
            split(None, 2, SplitKind::Berries(20)).display_complete(millis),
            format!("20/20 Berries = {}", shown)
        );
        assert_eq!(
            split(Some("Summit"), 7, SplitKind::ChapterComplete).display_complete(millis),
            format!("Summit = {:0>2}m {:0>2}.{:0>3}s", m, s, ms)
        );
    }
    assert_eq!(split(None, 2, SplitKind::Casette).display_complete(1_500), "Ch.2: Casette = 1.5s");
    assert_eq!(
        split(None, 2, SplitKind::ChapterComplete).display_complete(7),
        "Ch.2: Complete = 7ms"
    );
    assert_eq!(
        split(Some("Summit"), 7, SplitKind::Heart).display_complete(754_321),
        "Summit = 12m 34.321s"
    );
    assert_eq!(
        split(None, 2, SplitKind::Heart).display_complete_with(5, "five"),
        "Ch.2: Heart = five"
    );
    assert_eq!(
        split(Some("S"), 2, SplitKind::Heart).display_complete_with(5, "five"),
        "S = 00m 00.005s"
    );
}

#[test]
fn a_typed_name_that_is_empty_is_no_name() {
    assert_eq!(name_from_input(String::new()), None);
    assert_eq!(name_from_input("a".to_string()), Some("a".to_string()));
    assert_eq!(name_from_input(" ".to_string()), Some(" ".to_string()));
}

#[test]
fn kinds_are_chosen_by_their_place_in_the_list() {
    assert_eq!(KIND_LABELS, ["Chapter Complete", "Heart", "Casette", "Berries", "Room"]);
    assert_eq!((CHOICE_BERRIES, CHOICE_ROOM), (3, 4));
    let room = || "3a-00".to_string();
    assert_eq!(kind_from_choice(0, 9, room()), Some(SplitKind::ChapterComplete));
    assert_eq!(kind_from_choice(1, 9, room()), Some(SplitKind::Heart));
    assert_eq!(kind_from_choice(2, 9, room()), Some(SplitKind::Casette));
    assert_eq!(kind_from_choice(3, 9, room()), Some(SplitKind::Berries(9)));
    assert_eq!(kind_from_choice(4, 9, room()), Some(SplitKind::Level(room())));
    assert_eq!(kind_from_choice(5, 9, room()), None);
    assert_eq!(kind_from_choice(usize::MAX, 9, room()), None);
}

fn three_splits() -> Splits {
    Splits {
        split_mode: ("any%".to_string(), 1),
        splits: vec![
            split(Some("a"), 1, SplitKind::Heart),
            split(Some("b"), 2, SplitKind::Casette),
            split(Some("c"), 3, SplitKind::Berries(1)),
        ],
    }
}

#[test]
fn splits_are_added_deleted_and_replaced_by_place() {
    let start = three_splits();
    let mut splits = three_splits();
    let d = split(None, 4, SplitKind::ChapterComplete);
    splits.add(d.clone());
    assert_eq!(splits.splits.len(), 4);
    assert_eq!(splits.splits[3], d);
    assert_eq!(&splits.splits[..3], &start.splits[..]);
    assert_eq!(splits.delete(1), Some(start.splits[1].clone()));
    assert_eq!(splits.splits, vec![start.splits[0].clone(), start.splits[2].clone(), d.clone()]);
    assert_eq!(splits.delete(3), None);
    assert_eq!(splits.splits.len(), 3);
    let e = split(Some("e"), 5, SplitKind::Level("e-00".to_string()));
    assert_eq!(splits.replace(0, e.clone()), Some(start.splits[0].clone()));
    assert_eq!(splits.splits, vec![e.clone(), start.splits[2].clone(), d.clone()]);
    assert_eq!(splits.replace(3, e.clone()), None);
    assert_eq!(splits.splits, vec![e, start.splits[2].clone(), d]);
    assert_eq!(splits.split_mode, ("any%".to_string(), 1));
}

#[test]
fn splits_are_put_in_a_new_order() {
    let start = three_splits();
    let mut splits = three_splits();
    assert_eq!(splits.reorder(&vec![2, 0, 1]), true);
    assert_eq!(
        splits.splits,
        vec![start.splits[2].clone(), start.splits[0].clone(), start.splits[1].clone()]
    );
    assert_eq!(splits.reorder(&vec![0, 1, 3]), false);
    assert_eq!(
        splits.splits,
        vec![start.splits[2].clone(), start.splits[0].clone(), start.splits[1].clone()]
    );
    assert_eq!(splits.reorder(&vec![1, 1]), true);
    assert_eq!(splits.splits, vec![start.splits[0].clone(), start.splits[0].clone()]);
    assert_eq!(splits.reorder(&vec![]), true);
    assert_eq!(splits.splits, vec![]);
    assert_eq!(splits.reorder(&vec![0]), false);
    assert_eq!(splits.split_mode, ("any%".to_string(), 1));
}

#[test]
fn the_screen_shows_the_status_and_both_lists() {
    let mut dump = dump_in(3);
    dump.autosplitter_info.chapter_time = 7_543_210_000;
    dump.autosplitter_info.file_time = 36_000_000_000;
    dump.autosplitter_info.file_strawberries = 4;
    dump.death_count = 42;
    dump.level_name = "s0".to_string();
    let splits = CurrentSplits {
        completed_splits: vec![
            (split(Some("One"), 1, SplitKind::ChapterComplete), 61_000),
            (split(None, 2, SplitKind::Heart), 1_500),
        ],
        todo_splits: vec![
            split(None, 3, SplitKind::Berries(9)),
            split(None, 3, SplitKind::ChapterComplete),
        ],
    };
    let line = |text: &str, code: &str| format!("\x1B[{}m{}\x1B[0m\x1B[37m\n\x1B[0m", code, text);
    let heading =
        |text: &str| format!("\x1B[37m\x1B[100m{}\x1B[0m\x1B[37m\n\x1B[0m", text);
    let status = line("Chapter 3 room s0", "33")
        + &line("Chapter time: 12:34.321", "32")
        + &line("File time: 60:00.000", "95")
        + &line("Deaths: 42", "31");
    let completed = line("One = 01m 01.000s", "37") + &line("Ch.2: Heart = 1.5s", "37");
    let todo = line("4/9 Berries", "37") + &line("Ch.3: Complete", "37");
    assert_eq!(status_lines(&dump), status);
    assert_eq!(completed_lines(&splits), completed);
    assert_eq!(todo_lines(&splits, &dump), todo);
    assert_eq!(
        timer_screen(&dump, &splits),
        status.clone()
            + &heading("\n################\nCompleted Splits\n################\n")
            + &completed
            + &heading("\n###########\nTODO Splits\n###########\n")
            + &todo
    );
    let none = CurrentSplits::new(vec![]);
    assert_eq!(
        timer_screen(&dump, &none),
        status
            + &heading("\n################\nCompleted Splits\n################\n")
            + &heading("\n###########\nTODO Splits\n###########\n")
    );
}
