//! By-value memory storage without by-value memory access.
//!
//! A contract holds a value. Its owner can lend the value out to visitors, who read and write
//! it through references that have no lifetime, and gets it back when the last of them is gone.
//!
//! - `contract` is the memory of one lent value, and what each operation does to it.
//! - `views`, `reference` and `borrow` are the hands it goes through: the owner that waits, the
//!   owner that has the value to itself, and the visitors. `collections` has an owner that keeps
//!   the memory on the heap.
//! - `protocol` takes the operations apart into the indivisible accesses that they consist of,
//!   for memory that threads share; `access` makes one of them, on any kind of counter, and
//!   `atomic` on a counter that threads share.
//! - `pool` runs tasks that are spawned into it.
//! - `history`, `holders`, `system` and `poll_run` state what holds of all of this together: over
//!   the life of a contract, among those who have a handle on it, among threads, and over the
//!   polls of a pool.
//! - `wakers`, `kept`, `channel` and `tasks` have what is taken for granted of the wakers, of
//!   values that are not dropped, of the channel that tasks come through and of the set that
//!   they run in.
pub mod access;
pub mod atomic;
pub mod borrow;
pub mod channel;
pub mod collections;
pub mod contract;
pub mod history;
pub mod holders;
mod kept;
pub mod poll_run;
pub mod pool;
pub mod protocol;
pub mod reference;
pub mod system;
pub mod tasks;
pub mod views;
pub mod wakers;

pub use borrow::{Borrow, Share};
pub use contract::{Contract, WakerSlot};
pub use pool::{Anchor, Pool, SpawnError, Spawner};
pub use reference::{Ref, RefMut, UpgRef};
pub use views::{OwnerView, UniqueView, VisitorView};
