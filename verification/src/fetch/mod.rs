//! What a request needs before it can be sent.

pub mod login;
