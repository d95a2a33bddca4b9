//! Buddy, a command-line assistant that knows the machine it runs on: its
//! decisions, its rules, and the texts that it sends and prints.
//!
//! Everything here works on plain values. What comes from the outside (arguments,
//! settings, rows of the database, replies of services and programs) is handed in,
//! and what is to be done outside is handed out.
//!
//! - The command line: [`cli`] reads it, [`settings`] the environment, and
//!   [`session`] says step by step what is done for a command.
//! - The snapshot: [`scan`] walks the filesystem, and [`store`] makes the bounded
//!   view of what was found.
//! - The model: [`chat`] writes requests and takes answers, [`screen`] captures the
//!   screen, and [`voice`] has answers spoken.
//! - Releases: [`update`] finds the latest one by its [`version`].
//! - OBS: [`obs`] plans scenes, [`apply`] puts them into OBS, and [`vision`] has
//!   them judged.
//! - [`skillastic`] hands actions to a backend, and [`report`] tells about Buddy
//!   itself.
//! - Below all of these: [`text`], [`number`], [`base64`], [`json`] and [`error`].

pub mod apply;
pub mod base64;
pub mod chat;
pub mod cli;
pub mod error;
pub mod json;
pub mod number;
pub mod obs;
pub mod report;
pub mod scan;
pub mod screen;
pub mod session;
pub mod settings;
pub mod skillastic;
pub mod store;
pub mod text;
pub mod update;
pub mod version;
pub mod vision;
pub mod voice;
