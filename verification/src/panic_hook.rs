//! What is said and done when the process panics.

use crate::text;
use vstd::prelude::*;
use vstd::string::*;

verus! {

/// How long the flush is waited for, in milliseconds.
pub const FLUSH_TIMEOUT_MS: u64 = 250;

/// Registers the way to flush the state. The first one stays: a second backend in
/// one process does not happen, and is ignored.
pub fn set_emergency_flush<T>(slot: &mut Option<T>, flush: T)
    ensures
        *final(slot) == match *old(slot) {
            Some(first) => Some(first),
            None => Some(flush),
        },
{
    if slot.is_none() {
        *slot = Some(flush);
    }
}

/// Where a panic happened.
pub open spec fn location_text(place: Option<(Seq<char>, u32, u32)>) -> Seq<char> {
    match place {
        Some((file, line, column)) => file + ":"@ + text::decimal(line as nat) + ":"@
            + text::decimal(column as nat),
        None => "<unknown location>"@,
    }
}

/// The place of a panic as text: file, line and column, if they are known.
pub fn describe_location(place: Option<(&str, u32, u32)>) -> (text: String)
    ensures
        text@ == location_text(
            match place {
                Some((file, line, column)) => Some((file@, line, column)),
                None => None,
            },
        ),
{
    match place {
        Some((file, line, column)) => {
            let mut text = String::from_str(file);
            text.append(":");
            let line_text = text::decimal_of(line as u64);
            text.append(line_text.as_str());
            text.append(":");
            let column_text = text::decimal_of(column as u64);
            text.append(column_text.as_str());
            text
        },
        None => String::from_str("<unknown location>"),
    }
}

/// The message of a panic: what it carries, if that is text.
pub fn panic_message(payload: Option<String>) -> (message: String)
    ensures
        match payload {
            Some(text) => message == text,
            None => message@ == "<non-string panic payload>"@,
        },
{
    match payload {
        Some(text) => text,
        None => String::from_str("<non-string panic payload>"),
    }
}

/// What came of the flush.
#[derive(Debug, Clone, Copy, PartialEq, Eq, Structural)]
pub enum FlushReport {
    NothingToFlush,
    Flushed,
    NotConfirmed,
}

/// What is reported of the flush: `confirmed` is the answer of the backend, and
/// `None` when there is no backend to ask.
pub fn flush_state(confirmed: Option<bool>) -> (report: FlushReport)
    ensures
        report == match confirmed {
            None => FlushReport::NothingToFlush,
            Some(true) => FlushReport::Flushed,
            Some(false) => FlushReport::NotConfirmed,
        },
{
    match confirmed {
        None => FlushReport::NothingToFlush,
        Some(true) => FlushReport::Flushed,
        Some(false) => FlushReport::NotConfirmed,
    }
}

/// A place is told by its file, and behind it the line before the column, both in
/// decimal.
pub proof fn place_is_told_by_line_and_column(file: Seq<char>, line: u32, column: u32)
    ensures
        ({
            let told = location_text(Some((file, line, column)));
            let behind = told.skip(file.len() as int);
            let width = text::decimal(line as nat).len() as int;
            &&& told.take(file.len() as int) == file
            &&& behind[0] == ':'
            &&& text::decimal_value(behind.subrange(1, 1 + width)) == Some(line as int)
            &&& behind[1 + width] == ':'
            &&& text::decimal_value(behind.skip(2 + width)) == Some(column as int)
        }),
        location_text(None) == "<unknown location>"@,
{
    reveal_strlit(":");
    text::decimal_reads_back(line as nat);
    text::decimal_reads_back(column as nat);
    let told = location_text(Some((file, line, column)));
    let behind = told.skip(file.len() as int);
    let width = text::decimal(line as nat).len() as int;
    assert(told.take(file.len() as int) =~= file);
    assert(behind.subrange(1, 1 + width) =~= text::decimal(line as nat));
    assert(behind.skip(2 + width) =~= text::decimal(column as nat));
}

} // verus!
