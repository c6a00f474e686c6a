//! What to make of the status that the graphics library reports after it has
//! compiled, linked or validated a shader program.

use vstd::prelude::*;

verus! {

/// The uniform location of the projection matrix.
pub const MATRIX_PROJECTION: i32 = 0;

/// The uniform location of the model matrix.
pub const MATRIX_MODEL: i32 = 1;

/// The attribute location of the vertex position.
pub const ATTR_POISTION: i32 = 0;

/// The attribute location of the texture coordinate.
pub const ATTR_TEXTURE: i32 = 1;

/// The attribute location of the vertex normal.
pub const ATTR_NORMAL: i32 = 2;

/// The status that stands for failure.
pub const STATUS_FALSE: i32 = 0;

/// The status that stands for success.
pub const STATUS_TRUE: i32 = 1;

/// What to do with the information log of a shader or program.
#[derive(Clone, Copy, Debug, PartialEq, Eq, Structural)]
pub enum Verdict {
    /// Go on; there is nothing to show.
    Accept,
    /// Go on, and show the log.
    AcceptWithLog,
    /// Give up, with the log as the reason.
    Reject,
}

/// After a compilation: a shader that left a log is rejected if its status
/// is failure and accepted with its log otherwise. A shader that left no
/// log is accepted whatever its status.
pub fn compiled(status: i32, log_len: i32) -> (verdict: Verdict)
    ensures
        verdict == if log_len == 0 {
            Verdict::Accept
        } else if status == STATUS_FALSE {
            Verdict::Reject
        } else {
            Verdict::AcceptWithLog
        },
{
    if log_len != 0 {
        if status == STATUS_FALSE {
            Verdict::Reject
        } else {
            Verdict::AcceptWithLog
        }
    } else {
        Verdict::Accept
    }
}

/// After linking: a program is accepted only with the status of success.
pub fn linked(status: i32) -> (verdict: Verdict)
    ensures
        verdict == if status == STATUS_TRUE {
            Verdict::Accept
        } else {
            Verdict::Reject
        },
{
    if status != STATUS_TRUE {
        Verdict::Reject
    } else {
        Verdict::Accept
    }
}

/// After validation: a program is rejected if its status is not success and
/// it left a log.
pub fn validated(status: i32, log_len: i32) -> (verdict: Verdict)
    ensures
        verdict == if status != STATUS_TRUE && log_len > 0 {
            Verdict::Reject
        } else {
            Verdict::Accept
        },
{
    if status != STATUS_TRUE && log_len > 0 {
        Verdict::Reject
    } else {
        Verdict::Accept
    }
}

} // verus!
