//! The decisions behind InstaLock: which champion to pick or ban, when to start
//! the queue, what the overlay shows and how a relay room keeps its timers.
//!
//! Nothing here touches the network, the disk or the clock. Snapshots, settings
//! and messages go in; verdicts, requests and payloads come out.

pub mod actions;
pub mod appearance;
pub mod auto_queue;
pub mod champions;
pub mod draft;
pub mod engine;
pub mod json;
pub mod launcher;
pub mod lcu;
pub mod lol_state;
pub mod mode;
pub mod names;
pub mod overlay;
pub mod panel;
pub mod phases;
pub mod queue;
pub mod queues;
pub mod relay;
pub mod selection;
pub mod settings;
pub mod spells;
pub mod summoners;
pub mod sync;
pub mod text;
pub mod time;
pub mod update;
