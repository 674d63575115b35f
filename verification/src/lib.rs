//! Verified core of a zero-copy model runner for unified-memory APUs.

#![allow(non_camel_case_types)]

use vstd::prelude::*;

pub mod backend;
pub mod bytes;
pub mod container;
pub mod doctor;
pub mod engine;
pub mod frontend_laws;
pub mod memory;
pub mod model_cli;
pub mod session;
pub mod session_laws;
pub mod string_map;
pub mod synth_cli;
pub mod text;
pub mod text_laws;
pub mod uapi;
pub mod uapi_laws;

verus! {

}
