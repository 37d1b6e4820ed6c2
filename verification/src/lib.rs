//! Request routing for a data-retrieval protocol server: an ordered list of
//! resolvers maps an identifier to a storage backend and a location in it,
//! and the outcome of a request is rendered as a status code and a JSON body.

pub mod defaults;
pub mod http_types;
pub mod pattern;
pub mod resolver;
pub mod response;
pub mod storage;
pub mod template;
