//! A caching HTTP proxy that keeps the bodies of matching successful `GET` answers in files.
//!
//! The library decides; what surrounds it reads and writes files, talks to the client and to the
//! backend, and waits. [`proxy`] and [`fetch`] say step by step what is done with a request, and
//! [`runs`] and [`disk`] what holds of all the steps together. The other modules hold the parts: [`paths`] finds
//! the file for a request path, [`staging`] the temporary file beside it, [`cached`] answers from a
//! file, [`reply`] from the backend, [`headers`] picks the header fields that pass, [`in_flight`]
//! has each file fetched by one request at a time, and [`config`] holds the settings.

pub mod cached;
pub mod config;
pub mod disk;
pub mod fetch;
pub mod headers;
pub mod in_flight;
pub mod paths;
pub mod proxy;
pub mod reply;
pub mod runs;
pub mod staging;
pub mod text;
