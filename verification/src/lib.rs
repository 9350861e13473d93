//! Typed client core for a chat-platform service with a REST API and a
//! resumable WebSocket gateway: the response-envelope request pipeline, the
//! paged-list retrieval engine, and the gateway-address codec that carries
//! authentication, compression and resume state through a connection URL.

pub mod client;
pub mod envelope;
pub mod error;
pub mod gateway;
pub mod json;
pub mod pagination;
pub mod text;
