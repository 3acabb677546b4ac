//! A gateway in front of a media-catalog provider: it turns the provider's
//! loosely typed answers into stable records and keeps, per session, the
//! profiles, favorites, playback positions and the home feed.
//!
//! The upstream side: `extra` holds the parameters of a request and the
//! rules by which fields are read, `json` the documents, `number` the
//! numbers in them, `get` the catalog records and the requests for them.
//!
//! The store side: `database` holds the tables and what is valid of them,
//! `rows` and `select` the way rows are found, `entities` the rows.
//! `login`, `info`, `avatar`, `favorite`, `watching` and `home` are the
//! operations, each with the change that it makes to the tables written
//! out as a function of the tables before it.

pub mod address;
pub mod api_error;
pub mod avatar;
pub mod database;
pub mod entities;
pub mod extra;
pub mod favorite;
pub mod get;
pub mod home;
pub mod info;
pub mod json;
pub mod link;
pub mod login;
pub mod number;
pub mod rank;
pub mod rows;
pub mod search;
pub mod select;
pub mod token;
pub mod watching;
