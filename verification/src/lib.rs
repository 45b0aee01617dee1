//! The verified core of a CviTek TPU inference backend.
//!
//! Everything here works on plain values. Driving the runtime itself, and the arithmetic on
//! `f32`, belong to the program around the library; a float reaches it as its bit pattern.
#![allow(unused_imports)]

pub mod backend;
pub mod descriptor;
pub mod error;
pub mod format;
pub mod laws;
pub mod link;
pub mod load;
pub mod names;
pub mod pass;
pub mod quantise;
pub mod scale;
pub mod tensor;
pub mod tensor_map;
pub mod text;
pub mod transfer;
