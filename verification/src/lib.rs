//! Reads the state of a running Celeste game out of its memory, for timers
//! that split by themselves.
//!
//! The game runs on the Mono runtime. Its state is found by walking through
//! the runtime's metadata: from the list of domains to the class cache, from
//! the names of classes and fields to their addresses, and from there to the
//! game's objects.
//!
//! The library never touches the process itself. It walks through a
//! [`memory::MemoryImage`], a partial copy of the memory, and where the image
//! lacks a byte the walk ends with [`error::TraceError::Unreadable`], which
//! names the range that is missing. Whoever owns the process copies that range
//! into the image and walks again, by the rule in `fill`; `image_laws` shows
//! that the walk then gives what it would give on the whole memory.
//!
//! - `memory`, `bytes`, `fill`: images, addresses and the numbers and strings in
//!   them, and how an image is filled.
//! - `mono`, `mono_laws`: classes, fields, static storage and objects.
//! - `celeste`: the game's own classes, and what is read from them at a tick.
//! - `dump`: the result of a tick, and the record it is written as.
//! - `splits`, `timer`, `term`, `util`: the splits of a run and how they are
//!   shown.
//! - `pid`: which process is the game.

pub mod bytes;
pub mod celeste;
pub mod dump;
pub mod error;
pub mod fill;
pub mod image_laws;
pub mod memory;
pub mod mono;
pub mod mono_laws;
pub mod pid;
pub mod splits;
pub mod term;
pub mod text;
pub mod timer;
pub mod util;
