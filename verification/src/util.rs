//! Splitting and printing of run times.

use vstd::prelude::*;
use vstd::string::StringExecFns;

use crate::text::{append_padded, padded};

verus! {

/// Minutes, seconds within the minute and milliseconds within the second of a
/// time given in milliseconds.
pub open spec fn m_s_ms(millis: u64) -> (u64, u64, u32) {
    ((millis / 1000 / 60) as u64, (millis / 1000 % 60) as u64, (millis % 1000) as u32)
}

/// Splits a time in milliseconds into whole minutes, seconds and milliseconds.
pub fn duration_to_m_s_ms(millis: u64) -> (parts: (u64, u64, u32))
    ensures
        parts == m_s_ms(millis),
        parts.0 * 60_000 + parts.1 * 1000 + parts.2 == millis,
        parts.1 < 60,
        parts.2 < 1000,
{
    let secs: u64 = millis / 1000;
    let m: u64 = secs / 60;
    let s: u64 = secs % 60;
    let ms: u32 = (millis % 1000) as u32;
    (m, s, ms)
}

/// A time as minutes, seconds and milliseconds: `mm:ss.mmm`, with more digits
/// for the minutes where two are not enough.
pub open spec fn time_text(millis: u64) -> Seq<char> {
    let parts = m_s_ms(millis);
    padded(parts.0 as nat, 2) + ":"@ + padded(parts.1 as nat, 2) + "."@ + padded(parts.2 as nat, 3)
}

/// A time as minutes and seconds with their units: `mmm ss.mmms`.
pub open spec fn time_with_units_text(millis: u64) -> Seq<char> {
    let parts = m_s_ms(millis);
    padded(parts.0 as nat, 2) + "m "@ + padded(parts.1 as nat, 2) + "."@ + padded(
        parts.2 as nat,
        3,
    ) + "s"@
}

/// Writes a time in milliseconds as `mm:ss.mmm`.
pub fn format_time(millis: u64) -> (text: String)
    ensures
        text@ == time_text(millis),
{
    let (m, s, ms) = duration_to_m_s_ms(millis);
    let mut text = String::new();
    append_padded(&mut text, m, 2);
    text.append(":");
    append_padded(&mut text, s, 2);
    text.append(".");
    append_padded(&mut text, ms as u64, 3);
    assert(text@ =~= time_text(millis));
    text
}

/// Writes a time in milliseconds as `mmm ss.mmms`.
pub fn format_time_with_units(millis: u64) -> (text: String)
    ensures
        text@ == time_with_units_text(millis),
{
    let (m, s, ms) = duration_to_m_s_ms(millis);
    let mut text = String::new();
    append_padded(&mut text, m, 2);
    text.append("m ");
    append_padded(&mut text, s, 2);
    text.append(".");
    append_padded(&mut text, ms as u64, 3);
    text.append("s");
    assert(text@ =~= time_with_units_text(millis));
    text
}

} // verus!
