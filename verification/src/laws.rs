//! What the operations are for, stated of the functions that carry them out: each law
//! speaks of any result that a call may have, in terms of what goes into the call.
pub mod auth;
pub mod cdp;
pub mod confirm;
pub mod fetch;
pub mod har;
pub mod input;
pub mod launch;
pub mod login;
pub mod options;
pub mod requests;
pub mod routes;
pub mod swipe;
pub mod text;
pub mod upgrade;
