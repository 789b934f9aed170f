//! The decision core of a music bot that drives several Discord accounts at once.
//!
//! Everything that talks to Discord, Lavalink or the network lives in the application; this
//! crate holds the state those conversations act on and decides, reply by reply, what happens
//! next.

pub mod bots;
pub mod config;
pub mod context;
pub mod discord;
pub mod event_handler;
pub mod guild;
pub mod guild_handler;
pub mod ids;
pub mod lavalink_handler;
pub mod lavalink_supervisor;
pub mod message_manager;
pub mod multi_key_map;
pub mod net;
pub mod player;
pub mod player_manager;
pub mod scheduler;
pub mod task_handle;
pub mod text;
pub mod time;
pub mod track;
pub mod voice_handler;
