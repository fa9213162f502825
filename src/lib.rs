//! Authentication primitives: password hashing with scheme agility,
//! stateless signed tokens, and the byte encodings they rest on.

pub mod b58;
pub mod b64;
pub mod ctx;
pub mod envs;
pub mod hex;
pub mod mac;
pub mod model;
pub mod pwd;
mod text;
pub mod time;
pub mod token;
