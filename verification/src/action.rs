//! The actions that need nothing but the library: what they compute, apart
//! from any waiting or sending that running them involves.

pub mod crypto;
pub mod dubbo;
pub mod echo;
pub mod jsonapi;
pub mod redis;
pub mod registry;
pub mod sleep;
pub mod url_decode;
