//! Decisions of a browser-automation daemon, with their contracts proved.
pub mod auth;
pub mod cdp;
pub mod confirm;
pub mod fetch;
pub mod glob;
pub mod har;
pub mod input;
pub mod json;
pub mod launch;
pub mod laws;
pub mod login;
pub mod number;
pub mod options;
pub mod outside;
pub mod requests;
pub mod routes;
pub mod swipe;
pub mod text;
pub mod upgrade;
