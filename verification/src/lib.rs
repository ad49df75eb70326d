//! Core logic of a desktop pet theatre: the pet's state machine, the
//! timeline that dispatches scripted actions, frame animation, and the
//! decisions the window loop takes on each message, tick and pointer event.

pub mod animation;
pub mod clock;
pub mod config;
pub mod ipc;
pub mod llm;
pub mod scripting;
pub mod stage;
pub mod state_machine;
pub mod texture;
pub mod timeline;
