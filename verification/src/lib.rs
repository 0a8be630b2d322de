//! Marketplace backend: users, listings with images and reviews, and a chat
//! about listings with unread counters, typing flags and fan-out to the
//! clients that are connected.
//!
//! The state is an explicit value, `market::Marketplace`, and every request
//! is a verified function on it that takes the identity of the caller and,
//! where it stamps a record, the time. Each record has a view made of
//! sequences, maps and numbers; each request has a spec function on the views
//! that says what it hands back and what state it leaves, and the executable
//! function is proved to do just that.
//!
//! - `text`, `string_map`, `validation`: texts, maps keyed by text, and the
//!   rules for the texts of users and listings.
//! - `category`, `config`, `user`, `listing`, `review`: the records.
//! - `chat`, `coherence`: messages, conversations, the store that finds them
//!   again, and what holds of the store as a whole.
//! - `handlers`, `websocket`: connected clients and the choice of the
//!   clients that an event goes to.
//! - `market`, `accounts`, `offers`, `images`, `reviewing`, `conversing`:
//!   the marketplace and its requests.
//! - `standards`: the fixed answers to a wallet.
//! - `theorems`: what the contracts add up to.

pub mod accounts;
pub mod category;
pub mod chat;
pub mod coherence;
pub mod config;
pub mod conversing;
pub mod handlers;
pub mod images;
pub mod listing;
pub mod market;
pub mod offers;
pub mod review;
pub mod reviewing;
pub mod standards;
pub mod string_map;
pub mod text;
pub mod theorems;
pub mod user;
pub mod validation;
pub mod websocket;
