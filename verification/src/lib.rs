//! Credential issuance, renewal and brute-force defence for a small
//! multi-tenant link service, together with the service's own rules for
//! links, clicks and abuse reports.
//!
//! The parts, leaves first:
//! - `security`: the password policy, the failed-login ledger with its
//!   lockout, and the sweep of rows that no longer matter;
//! - `auth::jwt`: signed access tokens that expire, and refresh tokens;
//! - `auth::middleware`: the guard that lets a request pass if it carries a
//!   valid identity, or a valid and elevated one;
//! - `db`, `links`, `reports`: the data store, held in memory, with the
//!   constraints of its schema;
//! - `handlers`: what each endpoint decides and does to the store;
//! - `url`, `config`, `text`, `ordering`, `seqs`: what the others rest on.
//!
//! Every function states what it returns over the views of its arguments.
//! What depends on the clock or on chance is drawn at one place and handed
//! to a function that is exact about what it does with it. Calls into other
//! crates are confined to small wrappers whose contracts are taken on trust
//! and say so in their documentation.

pub mod auth;
pub mod config;
pub mod db;
pub mod handlers;
pub mod links;
pub mod models;
pub mod ordering;
pub mod reports;
pub mod security;
pub mod seqs;
pub mod text;
pub mod url;
