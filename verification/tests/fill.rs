use celeste_autosplit::error::TraceError;
use celeste_autosplit::fill::{after_copy, page_span, Filler, Step, PAGE};

#[test]
fn a_walk_that_asks_for_memory_is_followed_by_a_copy() {
    let mut filler = Filler::new();
    assert_eq!(filler.last, None);
    let asked: Result<u32, TraceError> = Err(TraceError::Unreadable { addr: 0x1000, len: 8 });
    assert_eq!(filler.after_walk(asked), Step::Copy { addr: 0x1000, len: 8 });
    assert_eq!(filler.last, Some((0x1000, 8)));
    let other: Result<u32, TraceError> = Err(TraceError::Unreadable { addr: 0x1000, len: 4 });
    assert_eq!(filler.after_walk(other), Step::Copy { addr: 0x1000, len: 4 });
    assert_eq!(filler.last, Some((0x1000, 4)));
    let back: Result<u32, TraceError> = Err(TraceError::Unreadable { addr: 0x1000, len: 8 });
    assert_eq!(filler.after_walk(back), Step::Copy { addr: 0x1000, len: 8 });
    assert_eq!(filler.last, Some((0x1000, 8)));
}

#[test]
fn a_walk_that_asks_twice_for_the_same_is_given_up() {
    let mut filler = Filler::new();
    let asked: Result<u32, TraceError> = Err(TraceError::Unreadable { addr: 0x2000, len: 100 });
    assert_eq!(filler.after_walk(asked), Step::Copy { addr: 0x2000, len: 100 });
    assert_eq!(filler.after_walk(asked), Step::Done(asked));
    assert_eq!(filler.last, Some((0x2000, 100)));
}

#[test]
fn any_other_end_of_a_walk_is_the_end() {
    let mut filler = Filler::new();
    assert_eq!(filler.after_walk(Ok(7u32)), Step::Done(Ok(7)));
    assert_eq!(filler.last, None);
    let ends: [TraceError; 6] = [
        TraceError::NotCeleste,
        TraceError::ClassNotFound { name: "Level" },
        TraceError::FieldNotFound { class: 1, name: "scene" },
        TraceError::UnexpectedClassKind { class: 2 },
        TraceError::ClassNotLoaded { class: 3 },
        TraceError::ChainTooLong,
    ];
    for end in ends {
        let result: Result<u32, TraceError> = Err(end);
        assert_eq!(filler.after_walk(result), Step::Done(result));
        assert_eq!(filler.last, None);
    }
    let asked: Result<u32, TraceError> = Err(TraceError::Unreadable { addr: 9, len: 1 });
    assert_eq!(filler.after_walk(asked), Step::Copy { addr: 9, len: 1 });
    assert_eq!(filler.after_walk(Ok(7u32)), Step::Done(Ok(7)));
    assert_eq!(filler.last, Some((9, 1)));
}

#[test]
fn a_copy_that_brought_nothing_is_the_end() {
    assert_eq!(after_copy(0x3000, 8, 0), Some(TraceError::Unreadable { addr: 0x3000, len: 8 }));
    assert_eq!(after_copy(0x3000, 8, 1), None);
    assert_eq!(after_copy(0x3000, 8, 8), None);
    assert_eq!(after_copy(0x3000, 8, 4096), None);
}

#[test]
fn memory_is_copied_in_whole_pages() {
    assert_eq!(PAGE, 4096);
    assert_eq!(page_span(0x1000, 8), Some((0x1000, 0x2000)));
    assert_eq!(page_span(0x1000, 0), Some((0x1000, 0x1000)));
    assert_eq!(page_span(0x1000, 0x1000), Some((0x1000, 0x2000)));
    assert_eq!(page_span(0x1000, 0x1001), Some((0x1000, 0x3000)));
    assert_eq!(page_span(0x1FF9, 8), Some((0x1000, 0x3000)));
    assert_eq!(page_span(0x1FF8, 8), Some((0x1000, 0x2000)));
    assert_eq!(page_span(0xA17698, 8), Some((0xA17000, 0xA18000)));
    assert_eq!(page_span(0, 1), Some((0, 0x1000)));
    assert_eq!(page_span(u64::MAX - 0xFFF, 1), None);
    assert_eq!(page_span(u64::MAX - 0x1FFF, 0x1000), Some((u64::MAX - 0x1FFF, u64::MAX - 0xFFF)));
    assert_eq!(page_span(u64::MAX, 1), None);
    assert_eq!(page_span(8, u64::MAX), None);
}
