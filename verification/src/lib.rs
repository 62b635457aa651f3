//! A verified model of a small user-resource service: the data model, a
//! reference store with exact semantics, the handlers' result-to-response
//! mapping, and the routing table with its id parser.

pub mod model;
pub mod response;
pub mod router;
pub mod service;
pub mod store;
