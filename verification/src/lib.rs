//! Shared-memory channels between processes of one machine.
//!
//! A channel is two rings in a shared file, one for either direction, each with one writer
//! and one reader. The library decides what to write, what was read and what to do next;
//! its caller maps the file, loads and stores the shared words, sleeps and wakes.

pub mod bootstrap;
pub mod channel;
pub mod circular;
pub mod connection;
pub mod error;
pub mod header;
pub mod laws;
pub mod listener;
pub mod pipe;
pub mod platform;
pub mod promises;
pub mod publish;
pub mod record;
pub mod ring;
pub mod text;
pub mod tokio;
pub mod wait;
pub mod wakeup;

pub use channel::{Channel, ChannelConfig, Role};
pub use connection::{RecvHalf, SendHalf, ShmemConnection};
pub use error::{Error, Result};
pub use header::ChannelState;
pub use listener::ShmemListener;
pub use ring::DEFAULT_RING_DATA_SIZE;
pub use wait::{SpinOnly, SpinThenWait, WaitStrategy};
