use otelwasm_rust_sdk::runtime::{
    parse_plugin_config, receiver_step, status_to_code, traces_to_reply, Signal,
};
use otelwasm_rust_sdk::{
    Allocations, ExporterRuntime, LogsReceiver, LogsReceiverRuntime, ReceiverRuntime, ReceiverStep,
    Runtime, Status, StatusCode, TelemetryExporter, TelemetryExporterRuntime, TracesExporter,
    TracesProcessor, TracesReceiver, TELEMETRY_TYPE_LOGS, TELEMETRY_TYPE_METRICS,
    TELEMETRY_TYPE_TRACES,
};
use serde_json::Value;

#[derive(Default)]
struct Upper {
    config: Option<Value>,
}

impl TracesProcessor for Upper {
    fn start(&mut self, config: Value) -> Result<(), Status> {
        if config.is_null() {
            return Err(Status::error("plugin config is required"));
        }
        self.config = Some(config);
        Ok(())
    }

    fn consume_traces(&mut self, data: &[u8]) -> Result<Option<Vec<u8>>, Status> {
        if data.is_empty() {
            return Ok(None);
        }
        Ok(Some(data.iter().map(|b| b.to_ascii_uppercase()).collect()))
    }
}

#[test]
fn status_to_code_values() {
    let ok = status_to_code(Ok(()));
    assert_eq!((ok.code, ok.status_reason, ok.result_traces), (0, None, None));
    let err = status_to_code(Err(Status::error("bad")));
    assert_eq!(err.code, 1);
    assert_eq!(err.status_reason.as_deref(), Some("bad"));
    let silent = status_to_code(Err(Status::error("")));
    assert_eq!((silent.code, silent.status_reason), (1, None));
    let odd = status_to_code(Err(Status { code: StatusCode::Success, reason: "x".to_string() }));
    assert_eq!((odd.code, odd.status_reason.as_deref()), (0, Some("x")));
}

#[test]
fn traces_reply_values() {
    let r = traces_to_reply(Ok(Some(vec![7])));
    assert_eq!((r.code, r.status_reason, r.result_traces), (0, None, Some(vec![7])));
    let r = traces_to_reply(Ok(None));
    assert_eq!((r.code, r.result_traces), (0, None));
    let r = traces_to_reply(Err(Status::error("no")));
    assert_eq!((r.code, r.status_reason.as_deref()), (1, Some("no")));
}

#[test]
fn plugin_config_parsing() {
    assert!(parse_plugin_config(Ok(Vec::new())).unwrap().is_null());
    let v = parse_plugin_config(Ok(br#"{"a": 1}"#.to_vec())).unwrap();
    assert_eq!(v["a"], 1);
    let err = parse_plugin_config(Ok(b"{oops".to_vec())).unwrap_err();
    assert_eq!(err.code, StatusCode::Error);
    assert!(err.reason.starts_with("failed to parse plugin config JSON: "));
    assert!(err.reason.len() > "failed to parse plugin config JSON: ".len());
    let err = parse_plugin_config(Err("host failed".to_string())).unwrap_err();
    assert_eq!(err.reason, "host failed");
}

#[test]
fn processor_start_paths() {
    let mut rt: Runtime<Upper> = Runtime::new();
    let r = rt.start(Err("no config".to_string()));
    assert_eq!((r.code, r.status_reason.as_deref()), (1, Some("no config")));
    let r = rt.start(Ok(Vec::new()));
    assert_eq!((r.code, r.status_reason.as_deref()), (1, Some("plugin config is required")));
    let r = rt.start(Ok(br#"{"k":"v"}"#.to_vec()));
    assert_eq!((r.code, r.status_reason), (0, None));
    let r = rt.shutdown();
    assert_eq!(r.code, 0);
}

#[test]
fn processor_consumes_pinned_payload() {
    let mut rt: Runtime<Upper> = Runtime::new();
    let mut allocations = Allocations::new();
    allocations.insert(11, b"abc".to_vec());
    let r = rt.consume_traces(&mut allocations, 11, 3);
    assert_eq!((r.code, r.status_reason, r.result_traces), (0, None, Some(b"ABC".to_vec())));
    let r = rt.consume_traces(&mut allocations, 11, 3);
    assert_eq!((r.code, r.status_reason.as_deref()), (1, Some("unknown allocation pointer: 11")));
    let r = rt.consume_traces(&mut allocations, 0, 0);
    assert_eq!((r.code, r.result_traces), (0, None));
}

#[derive(Default)]
struct Strict;

impl TracesExporter for Strict {
    fn export_traces(&mut self, data: &[u8]) -> Result<(), Status> {
        if data == b"ok" {
            Ok(())
        } else {
            Err(Status::error(""))
        }
    }
}

#[test]
fn exporter_paths() {
    let mut rt: ExporterRuntime<Strict> = ExporterRuntime::new();
    assert_eq!(rt.start(Ok(Vec::new())).code, 0);
    let mut allocations = Allocations::new();
    allocations.insert(3, b"ok".to_vec());
    allocations.insert(4, b"no".to_vec());
    assert_eq!(rt.consume_traces(&mut allocations, 3, 2).code, 0);
    let r = rt.consume_traces(&mut allocations, 4, 2);
    assert_eq!((r.code, r.status_reason), (1, None));
    let r = rt.consume_traces(&mut allocations, 0, 5);
    assert_eq!(r.status_reason.as_deref(), Some("invalid pointer/size"));
}

#[derive(Default)]
struct Countdown {
    left: u8,
}

impl TracesReceiver for Countdown {
    fn start(&mut self, _config: Value) -> Result<(), Status> {
        self.left = 2;
        Ok(())
    }

    fn produce_traces(&mut self) -> Result<Option<Vec<u8>>, Status> {
        if self.left == 0 {
            return Ok(None);
        }
        self.left -= 1;
        Ok(Some(vec![self.left]))
    }
}

#[test]
fn receiver_loop_steps() {
    let mut rt: ReceiverRuntime<Countdown> = ReceiverRuntime::new();
    assert_eq!(rt.start(Ok(Vec::new())).code, 0);
    assert!(matches!(rt.poll_traces_receiver(true), ReceiverStep::Finish(None)));
    assert!(matches!(rt.poll_traces_receiver(false), ReceiverStep::Emit(v) if v == vec![1]));
    assert!(matches!(rt.poll_traces_receiver(false), ReceiverStep::Emit(v) if v == vec![0]));
    assert!(matches!(rt.poll_traces_receiver(false), ReceiverStep::Finish(None)));
}

#[test]
fn receiver_step_on_failure() {
    assert!(matches!(
        receiver_step(Err(Status::error("down"))),
        ReceiverStep::Finish(Some(r)) if r == "down"
    ));
    assert!(matches!(receiver_step(Err(Status::error(""))), ReceiverStep::Finish(None)));
}

#[derive(Default)]
struct AllSignals;

impl TelemetryExporter for AllSignals {
    const SUPPORTED_TELEMETRY: i32 = TELEMETRY_TYPE_TRACES | TELEMETRY_TYPE_METRICS | TELEMETRY_TYPE_LOGS;

    fn export_traces(&mut self, _data: &[u8]) -> Result<(), Status> {
        Ok(())
    }

    fn export_metrics(&mut self, _data: &[u8]) -> Result<(), Status> {
        Err(Status::error("metrics refused"))
    }

    fn export_logs(&mut self, _data: &[u8]) -> Result<(), Status> {
        Err(Status::error("logs refused"))
    }
}

#[test]
fn telemetry_exporter_routes_signals() {
    assert_eq!(AllSignals::SUPPORTED_TELEMETRY, 7);
    let mut rt: TelemetryExporterRuntime<AllSignals> = TelemetryExporterRuntime::new();
    let mut allocations = Allocations::new();
    allocations.insert(1, vec![1]);
    allocations.insert(2, vec![2]);
    allocations.insert(3, vec![3]);
    assert_eq!(rt.consume_traces(&mut allocations, 1, 1).code, 0);
    assert_eq!(
        rt.consume_metrics(&mut allocations, 2, 1).status_reason.as_deref(),
        Some("metrics refused")
    );
    assert_eq!(
        rt.consume(Signal::Logs, &mut allocations, 3, 1).status_reason.as_deref(),
        Some("logs refused")
    );
}

#[derive(Default)]
struct OneLog {
    done: bool,
}

impl LogsReceiver for OneLog {
    fn produce_logs(&mut self) -> Result<Option<Vec<u8>>, Status> {
        if self.done {
            return Err(Status::error("exhausted"));
        }
        self.done = true;
        Ok(Some(b"log".to_vec()))
    }
}

#[test]
fn logs_receiver_steps() {
    let mut rt: LogsReceiverRuntime<OneLog> = LogsReceiverRuntime::new();
    assert!(matches!(rt.poll_logs_receiver(false), ReceiverStep::Emit(v) if v == b"log".to_vec()));
    assert!(matches!(rt.poll_logs_receiver(false), ReceiverStep::Finish(Some(r)) if r == "exhausted"));
    assert!(matches!(rt.poll_logs_receiver(true), ReceiverStep::Finish(None)));
    assert_eq!(rt.shutdown().code, 0);
}
