//! Certificate management for a certbot host: name normalization, request
//! validation, certbot command lines, renewal-config and log parsing, live
//! directory repair decisions and the in-memory task registry.
use vstd::prelude::*;

pub mod app;
pub mod scripts;
pub mod text;

verus! {

} // verus!
