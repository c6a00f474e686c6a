//! Identifiers and the messages of the control channel.

use vstd::prelude::*;

verus! {

/// Names an object of the scene graph. Zero names no object.
pub type ObjectKey = u32;

/// The key that stands for "no scene" and "no camera".
pub const NO_OBJECT: ObjectKey = 0;

/// Names one drawlist of the pool: its index, below the pool size.
pub type DrawlistId = usize;

/// Names the channel on which the sender of a message expects its reply.
/// A worker announces itself under the same name every time.
pub type ReplyId = u64;

/// A message on the control channel. `S` is the scene snapshot.
#[derive(Debug)]
pub enum RenderCommand<S> {
    /// A new scene snapshot, with the scene and the camera to draw.
    Update(S, ObjectKey, ObjectKey),
    /// A worker is ready for a drawlist and awaits it on the named channel.
    Waiting(ReplyId),
    /// A worker has prepared the named drawlist and gives it back.
    Complete(DrawlistId),
    /// A request for the compute resource, which is granted once.
    Setup(ReplyId),
    /// A request to shut down, to be acknowledged on the named channel.
    Finish(ReplyId),
}

} // verus!
