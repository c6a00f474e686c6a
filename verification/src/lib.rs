//! Verified scheduling core of a three-stage renderer: scene snapshots come in
//! over a control channel, workers prepare drawlists off the graphics thread,
//! and a single coordinator, the only owner of the graphics context, submits
//! them.
//!
//! Nothing here touches a channel, a thread or the graphics context. The
//! coordinator and the worker are state machines: the caller receives a
//! message, hands it to `step`, and carries out the action that comes back.
//!
//! - `model` defines the coordinator as a mathematical state machine and
//!   `coordinator` implements it; `worker` does both for the worker task.
//! - `validity` proves the invariant of the coordinator and `safety` what
//!   follows from it: single ownership of every drawlist, conservation of
//!   the pool, no lost work, atomic updates, and a shutdown that is
//!   acknowledged once, when no worker is left.
//! - `system` puts the coordinator, the workers and the messages between
//!   them together. `fit` proves that no run of the whole ends in a
//!   violation of the protocol, `progress` that a shutdown comes to an end.
//! - `db` keeps the two latest snapshots and the ledger of resident graphics
//!   resources; `config`, `light`, `material` and `shader` hold the decisions
//!   that the graphics code around the core rests on.

mod clock;
pub mod command;
pub mod config;
pub mod coordinator;
pub mod db;
pub mod drawlist;
pub mod fit;
pub mod light;
pub mod material;
pub mod model;
pub mod progress;
pub mod safety;
pub mod shader;
pub mod system;
pub mod validity;
pub mod worker;

pub use command::{DrawlistId, ObjectKey, RenderCommand, ReplyId};
pub use config::Config;
