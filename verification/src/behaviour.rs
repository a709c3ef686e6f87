/// Maps that keep the order of their keys
pub mod assoc;
/// Addresses, and how numbers are written
pub mod address;
/// Registers and what they hold
pub mod register;
/// The registers of one seat
pub mod pincer;
/// Requests, and what is answered
pub mod daemon;
/// What a user is shown
pub mod client;
/// The clipboards of the compositor's seats
pub mod clipboard;
/// What is known of one seat
pub mod seat;
