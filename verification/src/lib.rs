//! The request-dispatch core of a small user service: it reads the text of one
//! request, decides which of the five operations on users is meant, says
//! which statement the storage has to run, and turns what the storage
//! reported into the reply.

pub mod handlers;
pub mod json;
pub mod number;
pub mod request;
pub mod response;
pub mod table;
pub mod text;
pub mod user;
