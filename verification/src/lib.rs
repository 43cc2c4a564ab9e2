//! Screen recording core: verified decisions, arithmetic and state machines.
pub mod audio;
pub mod capture;
pub mod channel;
pub mod consts;
pub mod convert;
pub mod counter;
pub mod disk;
pub mod encoder;
pub mod engine;
pub mod error;
pub mod mf;
pub mod picture;
pub mod rounding;
pub mod scheduler;
pub mod share;
pub mod shell;
pub mod text;
pub mod time;
pub mod verify;
