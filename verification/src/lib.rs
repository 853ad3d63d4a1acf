//! Assume-role settings from a profile-style configuration file.
//!
//! A profile of the shared configuration file names a role to assume and
//! the profile whose credentials assume it. This library holds the rules
//! for finding that file and that profile, for reading the file, for
//! turning a profile into the settings of the chain of credential
//! providers, and for keeping the chain once it is built.
//!
//! - [`text`] and [`line`]: the syntax of one line.
//! - [`config`]: profiles and their properties.
//! - [`parser`]: the profiles that the lines of a file define.
//! - [`location`]: which file, and which profile of it.
//! - [`chain`]: from a profile to the settings of the chain.
//! - [`provider`]: the slot that keeps the chain, and what a request does.
//! - [`error`]: the failures.
//!
//! The library reads no file, no variable and no clock: callers hand it
//! what they found, and act on what it decides.

pub mod chain;
pub mod config;
pub mod error;
pub mod line;
pub mod location;
pub mod parser;
pub mod provider;
pub mod text;
