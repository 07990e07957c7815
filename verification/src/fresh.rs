//! What a store draws from outside for each new note and revision: random
//! identifiers and the time.
use vstd::prelude::*;
use crate::note::{NoteID, Revision};

verus! {

/// A point in time of the system clock, as the standard library holds it.
#[verifier::external_type_specification]
#[verifier::external_body]
pub struct ExSystemTime(std::time::SystemTime);

/// Whether `c` is a digit or a letter from `a` to `f`.
pub open spec fn is_lower_hex(c: char) -> bool {
    ('0' <= c && c <= '9') || ('a' <= c && c <= 'f')
}

/// Whether `text` has the form of a hyphenated UUID in lower case: 36
/// characters, a hyphen at the places 8, 13, 18 and 23, and a hexadecimal
/// digit in lower case at every other place.
pub open spec fn is_hyphenated_uuid(text: Seq<char>) -> bool {
    &&& text.len() == 36
    &&& forall|i: int|
        0 <= i < 36 ==> if i == 8 || i == 13 || i == 18 || i == 23 {
            #[trigger] text[i] == '-'
        } else {
            is_lower_hex(text[i])
        }
}

/// The text of a new random identifier: what `uuid::Uuid::new_v4` returns, in
/// the hyphenated form of `Uuid::to_hyphenated`, as its `to_string` writes
/// it.
///
/// Which identifier comes is not claimed: it differs from call to call. Its
/// form is claimed, as the encoding of the hyphenated adapter fixes it for
/// every identifier: 36 characters, hyphens after the groups of 8, 4, 4 and 4
/// digits, and digits from the lower-case table elsewhere. The call panics
/// where the operating system gives no random bytes.
#[verifier::external_body]
fn random_uuid() -> (text: String)
    ensures
        is_hyphenated_uuid(text@),
{
    uuid::Uuid::new_v4().to_hyphenated().to_string()
}

/// The time of the system clock: what `std::time::SystemTime::now` returns.
///
/// Nothing is claimed of it: it depends on the clock.
#[verifier::external_body]
fn system_now() -> (now: std::time::SystemTime) {
    std::time::SystemTime::now()
}

/// How long after the Unix epoch `time` lies: what
/// `SystemTime::duration_since` returns for `UNIX_EPOCH`; `None` where it
/// returns an error, which it does for a time before the epoch.
///
/// Nothing is claimed of the result.
#[verifier::external_body]
fn since_epoch(time: &std::time::SystemTime) -> (elapsed: Option<std::time::Duration>) {
    time.duration_since(std::time::UNIX_EPOCH).ok()
}

/// A duration in whole nanoseconds: what `Duration::as_nanos` returns.
///
/// Nothing is claimed of the number.
#[verifier::external_body]
fn nanoseconds(elapsed: &std::time::Duration) -> (nanos: u128) {
    elapsed.as_nanos()
}

/// What a clock reads that stands `elapsed` nanoseconds after the Unix
/// epoch; zero for a clock that stands before the epoch, for which there is
/// no such number.
pub open spec fn reading_of(elapsed: Option<u128>) -> u128 {
    match elapsed {
        Some(nanos) => nanos,
        None => 0,
    }
}

/// The time that a store takes from a clock that stands `elapsed`
/// nanoseconds after the Unix epoch: see [`reading_of`].
pub fn clock_reading(elapsed: Option<u128>) -> (now: u128)
    ensures
        now == reading_of(elapsed),
{
    match elapsed {
        Some(nanos) => nanos,
        None => 0,
    }
}

/// A new random identity for a note, in the form of a hyphenated UUID.
/// Which one comes is not promised: whoever takes it tests whether it is
/// free.
pub fn get_new_noteid() -> (id: NoteID)
    ensures
        is_hyphenated_uuid(id@),
{
    NoteID::new(random_uuid())
}

/// A new random identity for a revision, in the form of a hyphenated UUID.
/// Which one comes is not promised: whoever takes it tests whether it is
/// free.
pub fn get_new_revision() -> (revision: Revision)
    ensures
        is_hyphenated_uuid(revision@),
{
    Revision::new(random_uuid())
}

/// The time now, in nanoseconds since the Unix epoch, as [`clock_reading`]
/// takes it from the system clock. What the clock says is not promised.
pub fn get_now() -> u128 {
    let elapsed = match since_epoch(&system_now()) {
        Some(elapsed) => Some(nanoseconds(&elapsed)),
        None => None,
    };
    clock_reading(elapsed)
}

} // verus!
