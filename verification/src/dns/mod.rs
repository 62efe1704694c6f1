//! The addresses of a host: how they are written, how they are answered, and in which order they
//! are handed out.
//!
//! There are three ways to hand them out. `ip_addrs` sorts them, begins at an offset, and ends once
//! each was handed out; connections use it. `shifted` takes them out of their places, from an index
//! on. `sequential` keeps the order of the answer.
pub mod ip_addrs;
pub mod laws;
pub mod literal;
pub mod records;
pub mod rotation;
pub mod sequential;
pub mod shifted;
pub mod written;
