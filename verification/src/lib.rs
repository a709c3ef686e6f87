//! Registers, clipboards and requests of a Wayland clipboard manager that works
//! like the registers of Vim.

/// Maps that keep the order in which their keys were first stored
pub mod assoc;
/// Text building blocks
pub mod text;
/// Addresses of registers
pub mod address;
/// Error handling
pub mod error;
/// A [`Register`](register::Register) is a map from MIME types to data buffers
pub mod register;
/// A [`Pincer`](pincer::Pincer) manages several registers.
pub mod pincer;
/// Manage data related to a Wayland seat
pub mod seat;
/// Answer requests
pub mod daemon;
/// Make sense of responses
pub mod client;
/// Follow the seats of the Wayland compositor
pub mod clipboard;
/// What holds of several operations together
pub mod laws;
/// What callers can rely on: laws on calls, on what goes into them and on what comes out
pub mod behaviour;
