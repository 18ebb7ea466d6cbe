//! A small multi-user chat service: registration, password login, expiring
//! sessions, a time-filtered message history and a live feed.
//!
//! [`service::ChatApp`] is the service. It holds the store
//! ([`database::Database`]), the sessions ([`session::AuthSessionManager`])
//! and the feed ([`broadcast::MessageBroadcast`]). The modules
//! [`transport`] and [`remote`] hold the two sides of the wire, and
//! [`client`], [`screens`], [`ui`] and [`menu`] the state of the programs
//! that people use.
//!
//! Contracts speak of what a value stands for, its view: the `*View` types
//! and the functions over them, most of them in [`store_model`],
//! [`session`], [`broadcast`] and [`service`]. What holds of the service as
//! a whole is proved in [`laws`].

pub mod auth;
pub mod broadcast;
pub mod client;
pub mod clock;
pub mod collections;
pub mod database;
pub mod errors;
pub mod laws;
pub mod menu;
pub mod models;
pub mod remote;
pub mod screens;
pub mod service;
pub mod session;
pub mod store_model;
pub mod text;
pub mod token;
pub mod transport;
pub mod ui;

pub use crate::database::{change_username, check_password, create_message, create_user};
pub use crate::database::{delete_user, get_all_users, get_messages, get_user_by_id};
pub use crate::database::{get_user_by_name, set_password, MessageFilter};
pub use crate::errors::{AppError, DbError};
pub use crate::service::ChatApp;
pub use crate::token::LoginToken;
