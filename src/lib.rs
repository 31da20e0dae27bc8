//! A static file server's request pipeline: mapping a request path to a file
//! under a root directory, deciding on redirects, post-processing responses
//! (markdown, plain-text MIME types, directory listings) and turning failures
//! into HTTP error responses.
pub mod codec;
pub mod error;
pub mod ext;
pub mod laws;
pub mod path;
pub mod pipeline;
pub mod response;
pub mod serve;
pub mod sort;
pub mod text;
