//! Core of a small user-management web site: an in-memory model of the
//! `users` table with create / read / delete, routing of request paths to
//! handlers and static assets, JSON rendering of user rows, and the
//! pending-migration selection of the startup migration runner.
//!
//! All I/O (the listener, the on-disk asset directory, the real database
//! connection) lives outside this crate; the functions here take plain
//! values and return plain values, with contracts over their mathematical
//! views.

pub mod json;
pub mod migrate;
pub mod numtext;
pub mod routes;
pub mod store;
