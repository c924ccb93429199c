//! A file-backed todo list: records, their JSON form, the list with its
//! search and removal rules, the steps that keep the backing file in line with
//! the list, and the pick list from which one record is chosen.
//!
//! Everything here works on plain values. Opening files, reading the
//! keyboard and printing are left to the program that uses this library.

pub mod command;
pub mod decimal;
pub mod error;
pub mod file;
pub mod fingerprint;
pub mod item;
pub mod json;
pub mod order;
pub mod path;
pub mod selector;
pub mod store;
pub mod text;
