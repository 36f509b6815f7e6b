//! A small static-file web server core: the request-to-response pipeline
//! of a file server that falls back to an index document, assigns a
//! cache-control policy by file type, negotiates the content type of the
//! custom `htmd` document format, and stamps a server identification header.
//!
//! The pipeline works on plain values - the request's URL path and `Accept`
//! header, the resolved file response, the chosen index document's bytes -
//! so that every decision it makes is specified and machine-checked. The
//! surrounding program does the listening, the file-system probing and the
//! reading, and hands the results in.

pub mod handler;
pub mod response;
pub mod text;
