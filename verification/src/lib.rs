//! Membership tracking and turn confirmation for a group-chat queue.
//!
//! A bot sits in group chats and remembers which member it has seen in which chat. A
//! member may ask for their turn; once they confirm, the bot has them removed from every
//! chat it knows them in.
//!
//! The crate decides and keeps the books; it neither talks to the messaging platform nor
//! to a store. Its caller hands it one parsed [`event::Event`] at a time:
//!
//! - [`interpreter::interpret`] turns the event into a plan of [`interpreter::Step`]s:
//!   changes to the membership index and [`action::Action`]s for the platform.
//! - [`index::MembershipIndex`] is the index itself, held in memory, and
//!   [`engine::handle_event`] answers an event against it from start to end.
//! - A caller that keeps the index elsewhere carries the steps out there; [`layout`] says
//!   how the index is laid out in a store of named sets, and [`confirm::resolve_confirm`]
//!   takes the chats that were read back.
//! - [`wording`] holds the texts.

pub mod action;
pub mod confirm;
pub mod engine;
pub mod event;
pub mod ident;
pub mod index;
pub mod interpreter;
pub mod layout;
pub mod wording;
