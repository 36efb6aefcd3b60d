//! A lightweight, embeddable tracer: it tracks nested units of work
//! ("spans") for a single logical trace, encodes each span on closure into
//! an OpenTelemetry-compatible protobuf wire format, and batches the
//! encoded bytes for best-effort datagram export.

mod encode;
mod errbuf;
mod escape;
mod export;
mod header;
mod host;
mod span;
mod trace;

pub use errbuf::write_error_buffer;
pub use escape::escape;
pub use export::ExportBuffer;
pub use export::MAX_DATAGRAM_PAYLOAD;
pub use header::split_str;
pub use header::InvalidKeyValue;
pub use header::KeyValue;
pub use trace::Trace;
pub use trace::TraceError;
