//! Guest-side SDK for the otelwasm plugin ABI: the status model, the registry
//! of buffers handed to the host, the HTTP and socket helpers, and the
//! runtimes that drive a user's traces processor, exporter or receiver.

pub mod host;
pub mod memory;
pub mod runtime;
pub mod socket;
pub mod status;
pub mod text;

pub use host::{get_plugin_config_json, get_shutdown_requested, set_result_traces, set_status_reason};
pub use memory::{allocate, take_ownership, Allocations};
pub use runtime::{ExporterRuntime, LogsReceiverRuntime, ReceiverRuntime, ReceiverStep, Reply, Runtime, TelemetryExporterRuntime};
pub use runtime::{LogsReceiver, TelemetryExporter};
pub use runtime::{TracesExporter, TracesProcessor, TracesReceiver};
pub use socket::http_get_body;
pub use socket::http_get_status;
pub use socket::http_post_status;
pub use socket::{SocketAddress, SocketError, TcpStream};
pub use status::{Status, StatusCode};

use vstd::prelude::*;

verus! {

/// Bit of the supported-telemetry mask that stands for metrics.
pub const TELEMETRY_TYPE_METRICS: i32 = 0x01;

/// Bit of the supported-telemetry mask that stands for logs.
pub const TELEMETRY_TYPE_LOGS: i32 = 0x02;

/// Bit of the supported-telemetry mask that stands for traces.
pub const TELEMETRY_TYPE_TRACES: i32 = 0x04;

} // verus!
