//! An RDF graph served as Gemtext over the Gemini protocol.
//!
//! A request names a subject. The `request` module classifies it: a lookup
//! in the local graph, or a fetch of a web URL through the proxy. The
//! `store` module holds a graph as triples of texts and describes a
//! subject from it. The `gemtext` module renders a description. The
//! `connection` module ties the three together as decisions on plain
//! values, and leaves reading, fetching and writing to its caller.
//!
//! Executable functions state what they return over sequences of
//! characters. Two things are done by other crates and are believed, not
//! proved: percent-encoding and percent-decoding (`encoding`), and the
//! parsing of Turtle (`turtle`). A document goes to the parser only where
//! it nests its annotations no deeper than the library allows (`nesting`).

pub mod connection;
pub mod encoding;
pub mod gemtext;
pub mod nesting;
pub mod order;
pub mod request;
pub mod store;
pub mod text;
pub mod turtle;
