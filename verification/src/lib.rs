//! HTTP Basic authentication for `reqwest` request builders, with the header
//! value built by this crate so that it is available on every target.

pub mod encoding;
pub mod header;
pub mod request;

pub use header::basic_auth_header;
pub use request::ReqwestExt;
