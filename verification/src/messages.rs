//! The error messages of the session operations, built exactly as the
//! operation contracts state them.

use vstd::prelude::*;

verus! {

use vstd::string::StringExecFns;
use crate::text::has_prefix;

/// The message reported by every operation that was given a session
/// identifier not present in the registry.
pub open spec fn not_found_msg_spec(id: Seq<char>) -> Seq<char> {
    "PTY not found: "@ + id
}

/// The message reported when handing bytes to a session's write queue
/// failed; `detail` describes the failure.
pub open spec fn write_failed_msg_spec(detail: Seq<char>) -> Seq<char> {
    "Write failed: "@ + detail
}

/// The message reported when the geometry change on the master handle
/// failed; `detail` describes the failure.
pub open spec fn resize_failed_msg_spec(detail: Seq<char>) -> Seq<char> {
    "Resize failed: "@ + detail
}

/// Builds the "not found" error message for a session identifier.
pub fn not_found_msg(id: &str) -> (r: String)
    ensures
        r@ == not_found_msg_spec(id@),
{
    let mut m = String::from_str("PTY not found: ");
    m.append(id);
    m
}

/// Builds the write-failure error message around a detail string.
pub fn write_failed_msg(detail: &str) -> (r: String)
    ensures
        r@ == write_failed_msg_spec(detail@),
{
    let mut m = String::from_str("Write failed: ");
    m.append(detail);
    m
}

/// Builds the resize-failure error message around a detail string.
pub fn resize_failed_msg(detail: &str) -> (r: String)
    ensures
        r@ == resize_failed_msg_spec(detail@),
{
    let mut m = String::from_str("Resize failed: ");
    m.append(detail);
    m
}

/// A "not found" message never reads as a write failure, whatever the
/// identifier and the detail: the two reports cannot be confused.
pub proof fn lemma_messages_distinct(id: Seq<char>, detail: Seq<char>)
    ensures
        not_found_msg_spec(id) != write_failed_msg_spec(detail),
        not_found_msg_spec(id) != resize_failed_msg_spec(detail),
{
    reveal_strlit("PTY not found: ");
    reveal_strlit("Write failed: ");
    reveal_strlit("Resize failed: ");
    assert(not_found_msg_spec(id)[0] == 'P');
    assert(write_failed_msg_spec(detail)[0] == 'W');
    assert(resize_failed_msg_spec(detail)[0] == 'R');
}

/// A message that starts with the write-failure prefix is never the
/// "not found" message.
pub proof fn lemma_write_failed_not_not_found(id: Seq<char>, m: Seq<char>)
    requires
        has_prefix(m, "Write failed: "@),
    ensures
        m != not_found_msg_spec(id),
{
    reveal_strlit("PTY not found: ");
    reveal_strlit("Write failed: ");
    assert(m[0] == m.take("Write failed: "@.len() as int)[0]);
    assert(m[0] == 'W');
    assert(not_found_msg_spec(id)[0] == 'P');
}

} // verus!
