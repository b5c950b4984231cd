//! The deciding half of a desktop shell's backend.
//!
//! The shell lists directories, searches a project tree for files by a
//! fuzzy query, creates directories, and talks to GitHub, all on behalf of
//! a user interface. This crate holds what those commands decide: which
//! path a request means and whether the workspace admits it, what a
//! listing says of an entry, how well a file matches a query and in which
//! order matches are returned, which repository a remote points to, what a
//! reply from GitHub comes to. It reads no file and opens no connection;
//! the caller does that and reports what it found.
//!
//! Every function states what it returns, and the proof that it does is
//! part of the code. The few that call into another crate say what is
//! taken on trust there. Contracts speak of texts as sequences of
//! characters and of paths as texts with `/` between their components.
//!
//! - [`resolve`] turns a requested path into one to canonicalize, and
//!   admits a canonical path only inside a workspace root.
//! - [`listing`] describes the entries of one directory.
//! - [`fuzzy`] scores a candidate against a query.
//! - [`search`] walks a tree breadth first and gathers candidates;
//!   [`ranking`] orders them.
//! - [`create`] plans and confirms a new directory.
//! - [`remote`], [`pulls`] and [`auth`] hold the rules of the GitHub
//!   commands.
//! - [`paths`] and [`text`] are the groundwork.

pub mod auth;
pub mod create;
pub mod error;
pub mod fuzzy;
pub mod github;
pub mod hits;
pub mod home;
pub mod listing;
pub mod logging;
pub mod paths;
pub mod pulls;
pub mod ranking;
pub mod remote;
pub mod resolve;
pub mod search;
pub mod settings;
pub mod text;
