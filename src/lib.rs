//! Session and credential core of an account service: session tokens and
//! their encodings, password hashing, session and account tables, and the
//! request guard and authentication flows built on them.

pub mod accounts;
pub mod auth;
pub mod password;
pub mod session;
pub mod token;
