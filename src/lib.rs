//! Room state, message buffering and page logic of a desktop Matrix chat client.
//!
//! The pages take messages and give back commands: the client around them
//! performs each command (a login, a request to the homeserver, a download) and
//! hands its outcome back as a message.

pub mod clock;
pub mod database;
pub mod elementary;
pub mod home;
pub mod login;
pub mod media;
pub mod message;
pub mod room;
pub mod screens;
pub mod session;
pub mod subscriber;
pub mod theme;
pub mod verify;
