//! Building blocks for describing the HTTP response a mock server should
//! return once a stubbed expectation matches a request.
//!
//! The central type is [`ResponseTemplate`]: a declarative status / headers /
//! body triple, built fluently and finally turned into a concrete
//! `http_types::Response` by [`ResponseTemplate::generate_response`].

pub mod headers;
pub mod laws;
pub mod response;
pub mod response_template;
pub mod status;

pub use response_template::ResponseTemplate;
