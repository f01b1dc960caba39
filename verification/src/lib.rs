//! Core logic of the Pointeuse time tracker: the timer state machine, the
//! cross-device live-session codec, the XML-RPC value model and wire format,
//! the reminder and reconciler decisions, and the small policies around them.

pub mod text;
pub mod error;
pub mod timer;
pub mod devicesync;
pub mod outbox;
pub mod reminder;
pub mod settings;
pub mod sync;
pub mod cache;
pub mod credentials;
pub mod xmlrpc;
pub mod decimal;
pub mod xmlwrite;
pub mod xmlread;
pub mod odoo;
pub mod models;
pub mod attendance;
pub mod auth;
pub mod analysis;
pub mod tasks;
pub mod timelog;
pub mod manual;
pub mod calendar;
pub mod laws;
pub mod display;
pub mod updater;
pub mod persistence;
pub mod readback;
