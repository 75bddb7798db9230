//! A minimal HTTP/1.x request-line server library.
//!
//! The library parses the request line and header block of an incoming
//! request, splits the URI into a path and query parameters, resolves the
//! path through a registry of callbacks, and renders the status-line
//! response.  Everything here is plain computation on strings and maps;
//! the sockets and threads that drive it live in the surrounding binary.

pub mod callback_handler;
pub mod header;
pub mod method;
pub mod pathmatcher;
pub mod request_data;
pub mod response_writer;
pub mod server;
pub mod status_code;
pub mod text;
pub mod uri_parser;
pub mod url_matcher;
