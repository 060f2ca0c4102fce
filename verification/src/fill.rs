//! The rule by which an image is filled: what follows a walk that asked for
//! memory, and when to give up.

use vstd::prelude::*;

use crate::error::TraceError;

verus! {

/// The size of the pages in which memory is copied around what a walk asked
/// for.
pub const PAGE: u64 = 0x1000;

/// What the one who fills an image does next.
#[derive(Debug, PartialEq, Eq)]
pub enum Step<T> {
    /// The walk has come to this end.
    Done(Result<T, TraceError>),
    /// The walk asked for this range: copy it into the image and walk again.
    Copy { addr: u64, len: u64 },
}

/// What a walk last asked for.
#[derive(Clone, Copy, Debug, PartialEq, Eq)]
pub struct Filler {
    /// The range that the walk before this one asked for, start and length.
    pub last: Option<(u64, u64)>,
}

/// What follows a walk that gave `result`, when the walk before it asked for
/// `last`: a walk that asks for memory is followed by a copy of that memory,
/// unless it asks for what was asked for just before, which the copy did not
/// bring; any other end of a walk is the end.
pub open spec fn step_after<T>(last: Option<(u64, u64)>, result: Result<T, TraceError>) -> Step<T> {
    match result {
        Err(TraceError::Unreadable { addr, len }) => if last == Some((addr, len)) {
            Step::Done(result)
        } else {
            Step::Copy { addr, len }
        },
        _ => Step::Done(result),
    }
}

/// What a walk that gave `result` leaves as the range last asked for.
pub open spec fn last_after<T>(last: Option<(u64, u64)>, result: Result<T, TraceError>) -> Option<
    (u64, u64),
> {
    match step_after(last, result) {
        Step::Copy { addr, len } => Some((addr, len)),
        Step::Done(_) => last,
    }
}

/// The pages that hold the `len` bytes from `addr` on: where the first of
/// them starts and where the last of them ends. None where they would end
/// behind the last address.
pub open spec fn pages_around(addr: u64, len: u64) -> Option<(u64, u64)> {
    if addr + len + PAGE - 1 > u64::MAX {
        None
    } else {
        Some(
            (
                (addr - addr % PAGE) as u64,
                (addr + len + PAGE - 1 - (addr + len + PAGE - 1) % (PAGE as int)) as u64,
            ),
        )
    }
}

impl Filler {
    /// Before the first walk.
    pub fn new() -> (filler: Filler)
        ensures
            filler.last is None,
    {
        Filler { last: None }
    }

    /// Decides what follows a walk that gave `result`.
    pub fn after_walk<T>(&mut self, result: Result<T, TraceError>) -> (step: Step<T>)
        ensures
            step == step_after(old(self).last, result),
            final(self).last == last_after(old(self).last, result),
    {
        match result {
            Err(TraceError::Unreadable { addr, len }) => {
                let again = match self.last {
                    Some(last) => last.0 == addr && last.1 == len,
                    None => false,
                };
                if again {
                    Step::Done(Err(TraceError::Unreadable { addr, len }))
                } else {
                    self.last = Some((addr, len));
                    Step::Copy { addr, len }
                }
            },
            other => Step::Done(other),
        }
    }
}

/// Decides what follows a copy that brought `copied` bytes of the range that
/// was asked for: nothing where it brought any, so that the walk goes on; the
/// end where it brought none.
pub fn after_copy(addr: u64, len: u64, copied: usize) -> (end: Option<TraceError>)
    ensures
        copied > 0 ==> end is None,
        copied == 0 ==> end == Some(TraceError::Unreadable { addr, len }),
{
    if copied == 0 {
        Some(TraceError::Unreadable { addr, len })
    } else {
        None
    }
}

/// The pages that hold the `len` bytes from `addr` on.
pub fn page_span(addr: u64, len: u64) -> (span: Option<(u64, u64)>)
    ensures
        span == pages_around(addr, len),
        span matches Some(pages) ==> pages.0 % PAGE == 0 && pages.1 % PAGE == 0 && pages.0 <= addr
            && addr + len <= pages.1 && addr - pages.0 < PAGE && pages.1 - (addr + len) < PAGE,
{
    let start: u64 = addr - addr % PAGE;
    match addr.checked_add(len) {
        None => None,
        Some(end) => match end.checked_add(PAGE - 1) {
            None => None,
            Some(padded) => Some((start, padded - padded % PAGE)),
        },
    }
}

} // verus!
