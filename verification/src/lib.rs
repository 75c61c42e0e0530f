//! Reading structured log events from the Windows event-logging service:
//! a compiler from declarative filter specifications to the native XPath
//! query grammar, and the verified decision logic of the subscription
//! lifecycle (start-flag selection, benign-versus-fatal error
//! classification, the probe-then-fill buffer protocol, and ordered,
//! idempotent resource teardown).

pub mod error;
pub mod event;
pub mod filter;
pub mod reader;
pub mod text;
pub mod xmlscan;
