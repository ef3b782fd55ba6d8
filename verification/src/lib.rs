//! Verified core of a logistics tracker for EVE Online groups: MultiBuy
//! parsing, authorization decisions, item/claim state machines and the
//! small pieces of policy that sit between the HTTP layer and the database.

pub mod auth;
pub mod budget;
pub mod cipher;
pub mod citadels;
pub mod config;
pub mod contracts;
pub mod corps;
pub mod decimal;
pub mod detail;
pub mod domain;
pub mod errors;
pub mod extract;
pub mod fulfillment;
pub mod groups;
pub mod health;
pub mod jwt;
pub mod list_items;
pub mod lists;
pub mod markets;
pub mod multibuy;
pub mod numeric;
pub mod principals;
pub mod request_tx;
pub mod runs;
pub mod settlement;
pub mod text;
pub mod tokens;
pub mod type_resolution;
pub mod webhook;
