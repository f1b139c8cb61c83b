//! A minimal HTTP/1.1 request builder: classify a URL's scheme, extract the
//! hostname and path by a slash-counting scan, and render the wire-format
//! request line and headers. The network transport itself lives outside the
//! verified library; it consumes the rendered bytes and the target address
//! that this crate produces.

pub mod methods;
pub mod request;
