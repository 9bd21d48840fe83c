//! Resolves a GUID carried in a request's subdomain to a URL held in an
//! in-memory lookup table, with a small method/path router in front.

pub mod guid;
pub mod table;
pub mod request;
pub mod handler;
pub mod router;
pub mod landing;
