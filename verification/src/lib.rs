//! Client-side fetching of web resources: the request and response model, the
//! CORS-preflight cache, the fetch algorithm as a state machine that a driver
//! feeds with what the transport reports, and the bookkeeping of the loads
//! that hold back a document's load event.

pub mod bluetooth;
pub mod cors;
pub mod cors_cache;
pub mod data_url;
pub mod devtools;
pub mod document_loader;
pub mod fetch;
pub mod headers;
pub mod laws;
pub mod media_type;
pub mod method;
pub mod referrer;
pub mod request;
pub mod resequence;
pub mod response;
pub mod target;
pub mod text;
pub mod transport;
pub mod web_url;
