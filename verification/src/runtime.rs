//! The runtimes that sit between the host's ABI calls and a user's traces
//! processor, exporter or receiver.
//!
//! Each entry point takes what the host supplied (the configuration bytes, a
//! pinned payload, whether shutdown was requested) and returns a [`Reply`]:
//! the status code for the host, the reason to report (if any) and the traces
//! to hand back (if any). Performing those host calls is the caller's part.

use crate::memory::{take_ownership, take_ownership_spec, Allocations};
use crate::status::{Status, StatusCode};
use serde_json::Value;
use vstd::prelude::*;

verus! {

/// `serde_json::Value`: the parsed plugin configuration, carried to the
/// user's `start` without being looked into.
#[verifier::external_type_specification]
#[verifier::external_body]
pub struct ExValue(serde_json::Value);

/// A traces processor: receives traces and may hand back modified traces.
pub trait TracesProcessor: Default + Send + 'static {
    /// By default, starting accepts any configuration and succeeds.
    fn start(&mut self, config: Value) -> (r: Result<(), Status>)
        default_ensures
            r is Ok,
            *final(self) == *old(self),
    {
        Ok(())
    }

    fn consume_traces(&mut self, data: &[u8]) -> Result<Option<Vec<u8>>, Status>;

    /// By default, shutting down succeeds and changes nothing.
    fn shutdown(&mut self) -> (r: Result<(), Status>)
        default_ensures
            r is Ok,
            *final(self) == *old(self),
    {
        Ok(())
    }
}

/// A traces exporter: receives traces and sends them elsewhere.
pub trait TracesExporter: Default + Send + 'static {
    /// By default, starting accepts any configuration and succeeds.
    fn start(&mut self, config: Value) -> (r: Result<(), Status>)
        default_ensures
            r is Ok,
            *final(self) == *old(self),
    {
        Ok(())
    }

    fn export_traces(&mut self, data: &[u8]) -> Result<(), Status>;

    /// By default, shutting down succeeds and changes nothing.
    fn shutdown(&mut self) -> (r: Result<(), Status>)
        default_ensures
            r is Ok,
            *final(self) == *old(self),
    {
        Ok(())
    }
}

/// A traces receiver: produces traces until it has none left.
pub trait TracesReceiver: Default + Send + 'static {
    /// By default, starting accepts any configuration and succeeds.
    fn start(&mut self, config: Value) -> (r: Result<(), Status>)
        default_ensures
            r is Ok,
            *final(self) == *old(self),
    {
        Ok(())
    }

    fn produce_traces(&mut self) -> Result<Option<Vec<u8>>, Status>;

    /// By default, shutting down succeeds and changes nothing.
    fn shutdown(&mut self) -> (r: Result<(), Status>)
        default_ensures
            r is Ok,
            *final(self) == *old(self),
    {
        Ok(())
    }
}

/// An exporter of any of the three signals; `SUPPORTED_TELEMETRY` is the mask
/// of `TELEMETRY_TYPE_*` bits it accepts.
pub trait TelemetryExporter: Default + Send + 'static {
    const SUPPORTED_TELEMETRY: i32;

    /// By default, starting accepts any configuration and succeeds.
    fn start(&mut self, config: Value) -> (r: Result<(), Status>)
        default_ensures
            r is Ok,
            *final(self) == *old(self),
    {
        Ok(())
    }

    fn export_traces(&mut self, data: &[u8]) -> Result<(), Status>;

    fn export_metrics(&mut self, data: &[u8]) -> Result<(), Status>;

    fn export_logs(&mut self, data: &[u8]) -> Result<(), Status>;

    /// By default, shutting down succeeds and changes nothing.
    fn shutdown(&mut self) -> (r: Result<(), Status>)
        default_ensures
            r is Ok,
            *final(self) == *old(self),
    {
        Ok(())
    }
}

/// A logs receiver: produces logs until it has none left.
pub trait LogsReceiver: Default + Send + 'static {
    /// By default, starting accepts any configuration and succeeds.
    fn start(&mut self, config: Value) -> (r: Result<(), Status>)
        default_ensures
            r is Ok,
            *final(self) == *old(self),
    {
        Ok(())
    }

    fn produce_logs(&mut self) -> Result<Option<Vec<u8>>, Status>;

    /// By default, shutting down succeeds and changes nothing.
    fn shutdown(&mut self) -> (r: Result<(), Status>)
        default_ensures
            r is Ok,
            *final(self) == *old(self),
    {
        Ok(())
    }
}

/// What the guest answers the host for one ABI call.
pub struct Reply {
    /// The status code returned from the call.
    pub code: i32,
    /// The reason to report with `set_status_reason`, if any.
    pub status_reason: Option<String>,
    /// The traces to hand over with `set_result_traces`, if any.
    pub result_traces: Option<Vec<u8>>,
}

/// `reply` reports success and nothing else.
pub open spec fn reports_success(reply: &Reply) -> bool {
    &&& reply.code == StatusCode::Success.spec_value()
    &&& reply.status_reason is None
    &&& reply.result_traces is None
}

/// `reply` reports the status `code` with `reason`; an empty reason is not reported.
pub open spec fn reports_status(reply: &Reply, code: StatusCode, reason: Seq<char>) -> bool {
    &&& reply.code == code.spec_value()
    &&& if reason.len() > 0 {
        reply.status_reason matches Some(r) && r@ == reason
    } else {
        reply.status_reason is None
    }
    &&& reply.result_traces is None
}

/// `reply` reports success and hands `traces` to the host.
pub open spec fn reports_traces(reply: &Reply, traces: Seq<u8>) -> bool {
    &&& reply.code == StatusCode::Success.spec_value()
    &&& reply.status_reason is None
    &&& reply.result_traces matches Some(t) && t@ == traces
}

/// `reply` is what some status gives: a code that stands for a status, a reason
/// only when non-empty, and no traces.
pub open spec fn is_status_reply(reply: &Reply) -> bool {
    &&& (reply.code == StatusCode::Success.spec_value() || reply.code
        == StatusCode::Error.spec_value())
    &&& reply.status_reason matches Some(r) ==> r@.len() > 0
    &&& reply.result_traces is None
}

/// `reply` is what `status_to_code` gives for `result`.
pub open spec fn status_reply(reply: &Reply, result: Result<(), Status>) -> bool {
    match result {
        Ok(()) => reports_success(reply),
        Err(status) => reports_status(reply, status.code, status.reason@),
    }
}

/// `reply` is what `traces_to_reply` gives for `result`.
pub open spec fn traces_reply(reply: &Reply, result: Result<Option<Vec<u8>>, Status>) -> bool {
    match result {
        Ok(Some(out)) => reports_traces(reply, out@),
        Ok(None) => reports_success(reply),
        Err(status) => reports_status(reply, status.code, status.reason@),
    }
}

/// The reason of `status` when there is one to report.
pub fn report_status_reason(status: &Status) -> (r: Option<String>)
    ensures
        status.reason@.len() > 0 ==> (r matches Some(s) && s@ == status.reason@),
        status.reason@.len() == 0 ==> r is None,
{
    if status.reason.as_str().unicode_len() > 0 {
        Some(status.reason.clone())
    } else {
        None
    }
}

/// The reply for the outcome of a call that returns no data: success is code
/// 0; a failure is its status code, with its reason reported when not empty.
pub fn status_to_code(result: Result<(), Status>) -> (reply: Reply)
    ensures
        match result {
            Ok(()) => reports_success(&reply),
            Err(status) => reports_status(&reply, status.code, status.reason@),
        },
{
    match result {
        Ok(()) => Reply { code: StatusCode::Success.value(), status_reason: None, result_traces: None },
        Err(status) => {
            let status_reason = report_status_reason(&status);
            Reply { code: status.code.value(), status_reason, result_traces: None }
        },
    }
}

/// The reply for the outcome of a call that may produce traces: produced
/// traces are handed to the host with code 0, no traces is plain success, a
/// failure is reported as by `status_to_code`.
pub fn traces_to_reply(result: Result<Option<Vec<u8>>, Status>) -> (reply: Reply)
    ensures
        match result {
            Ok(Some(out)) => reports_traces(&reply, out@),
            Ok(None) => reports_success(&reply),
            Err(status) => reports_status(&reply, status.code, status.reason@),
        },
{
    match result {
        Ok(Some(out)) => Reply {
            code: StatusCode::Success.value(),
            status_reason: None,
            result_traces: Some(out),
        },
        Ok(None) => status_to_code(Ok(())),
        Err(status) => status_to_code(Err(status)),
    }
}

/// `serde_json::from_slice::<Value>` on `bytes`: the parsed value, or the
/// `Display` text of the parse error.
pub uninterp spec fn json_from_slice(bytes: Seq<u8>) -> Result<Value, Seq<char>>;

/// `serde_json::from_slice::<Value>`; the error is turned into its text.
#[verifier::external_body]
fn parse_json_value(bytes: &[u8]) -> (r: Result<Value, String>)
    ensures
        match r {
            Ok(v) => json_from_slice(bytes@) == Ok::<Value, Seq<char>>(v),
            Err(e) => json_from_slice(bytes@) == Err::<Value, Seq<char>>(e@),
        },
{
    serde_json::from_slice::<Value>(bytes).map_err(|err| err.to_string())
}

/// The bytes of the JSON text `null`.
pub open spec fn json_null_text() -> Seq<u8> {
    seq![110u8, 117u8, 108u8, 108u8]
}

/// The JSON text that stands for the configuration `bytes`: an empty
/// configuration is read as `null`.
pub open spec fn config_text(bytes: Seq<u8>) -> Seq<u8> {
    if bytes.len() == 0 {
        json_null_text()
    } else {
        bytes
    }
}

/// Why the configuration the host supplied cannot be used, if it cannot.
pub open spec fn plugin_config_error(config_json: Result<Vec<u8>, String>) -> Option<Seq<char>> {
    match config_json {
        Err(e) => Some(e@),
        Ok(bytes) => match json_from_slice(config_text(bytes@)) {
            Ok(_) => None,
            Err(msg) => Some("failed to parse plugin config JSON: "@ + msg),
        },
    }
}

/// Turns the configuration the host supplied into a JSON value: no bytes is
/// read as the JSON text `null`, other bytes are parsed as JSON, and a host
/// failure is an error status carrying the host's message.
pub fn parse_plugin_config(config_json: Result<Vec<u8>, String>) -> (r: Result<Value, Status>)
    ensures
        match plugin_config_error(config_json) {
            Some(msg) => r matches Err(s) && s.code == StatusCode::Error && s.reason@ == msg,
            None => r is Ok,
        },
        config_json matches Ok(bytes) ==> (r is Ok ==> json_from_slice(config_text(bytes@))
            == Ok::<Value, Seq<char>>(r->Ok_0)),
{
    match config_json {
        Err(e) => Err(Status::error_owned(e)),
        Ok(bytes) => {
            let text: Vec<u8> = if bytes.len() == 0 {
                vec![110u8, 117u8, 108u8, 108u8]
            } else {
                bytes
            };
            assert(text@ =~= config_text(bytes@));
            match parse_json_value(text.as_slice()) {
                Ok(v) => Ok(v),
                Err(e) => {
                    let mut reason = String::from_str("failed to parse plugin config JSON: ");
                    reason.append(e.as_str());
                    Err(Status::error_owned(reason))
                },
            }
        },
    }
}

/// `config` is what `parse_plugin_config` made of `config_json`: the JSON
/// value its text parses to (`null` for no bytes).
pub open spec fn config_handed(config_json: Result<Vec<u8>, String>, config: Value) -> bool {
    match config_json {
        Ok(bytes) => json_from_slice(config_text(bytes@)) == Ok::<Value, Seq<char>>(config),
        Err(_) => false,
    }
}

/// Configuration bytes that are not empty are parsed exactly as they are: the
/// value handed to a plugin's `start` is what serde_json makes of those very
/// bytes, and the configuration is unusable exactly when they do not parse.
pub proof fn lemma_nonempty_config_parsed_as_is(bytes: Vec<u8>, config: Value)
    requires
        bytes@.len() > 0,
    ensures
        config_handed(Ok(bytes), config) <==> json_from_slice(bytes@) == Ok::<Value, Seq<char>>(
            config,
        ),
        plugin_config_error(Ok(bytes)) is None <==> json_from_slice(bytes@) is Ok,
{
}

/// An empty configuration is handed on as the value of the JSON text `null`.
pub proof fn lemma_empty_config_is_null(bytes: Vec<u8>, config: Value)
    requires
        bytes@.len() == 0,
    ensures
        config_handed(Ok(bytes), config) <==> json_from_slice(seq![110u8, 117u8, 108u8, 108u8])
            == Ok::<Value, Seq<char>>(config),
{
}

/// Drives a [`TracesProcessor`].
pub struct Runtime<P: TracesProcessor> {
    processor: P,
}

impl<P: TracesProcessor> Runtime<P> {
    /// The processor this runtime drives.
    pub closed spec fn processor(&self) -> P {
        self.processor
    }

    /// A runtime driving a processor made by `P::default()`.
    pub fn new() -> (rt: Self)
        ensures
            call_ensures(P::default, (), rt.processor()),
    {
        Self { processor: P::default() }
    }

    /// Starts the processor with the configuration the host supplied. A
    /// configuration that cannot be used is reported and the processor is left
    /// untouched; otherwise the parsed configuration is handed to its `start`,
    /// whose answer decides the reply.
    pub fn start(&mut self, config_json: Result<Vec<u8>, String>) -> (reply: Reply)
        ensures
            plugin_config_error(config_json) matches Some(msg) ==> (reports_status(
                &reply,
                StatusCode::Error,
                msg,
            ) && final(self).processor() == old(self).processor()),
            plugin_config_error(config_json) is None ==> exists|
                x: &mut P,
                config: Value,
                r: Result<(), Status>,
            |
                #![trigger call_ensures(P::start, (x, config), r)]
                *x == old(self).processor() && *final(x) == final(self).processor() && config_handed(
                    config_json,
                    config,
                ) && call_ensures(P::start, (x, config), r) && status_reply(&reply, r),
            is_status_reply(&reply),
    {
        let config = match parse_plugin_config(config_json) {
            Ok(config) => config,
            Err(status) => return status_to_code(Err(status)),
        };
        let r = self.processor.start(config);
        status_to_code(r)
    }

    /// Shuts the processor down; its answer decides the reply.
    pub fn shutdown(&mut self) -> (reply: Reply)
        ensures
            is_status_reply(&reply),
            exists|x: &mut P, r: Result<(), Status>|
                #![trigger call_ensures(P::shutdown, (x,), r)]
                *x == old(self).processor() && *final(x) == final(self).processor() && call_ensures(
                    P::shutdown,
                    (x,),
                    r,
                ) && status_reply(&reply, r),
    {
        let r = self.processor.shutdown();
        status_to_code(r)
    }

    /// Takes the payload pinned under `data_ptr` and gives it to the processor;
    /// traces it hands back go to the host. When the take fails the processor
    /// is left untouched.
    pub fn consume_traces(&mut self, allocations: &mut Allocations, data_ptr: i32, data_size: i32) -> (reply: Reply)
        ensures
            final(allocations)@ == take_ownership_spec(old(allocations)@, data_ptr, data_size).1,
            take_ownership_spec(old(allocations)@, data_ptr, data_size).0 matches Err(msg)
                ==> (reports_status(&reply, StatusCode::Error, msg) && final(self).processor() == old(
                self,
            ).processor()),
            take_ownership_spec(old(allocations)@, data_ptr, data_size).0 matches Ok(payload)
                ==> exists|x: &mut P, data: &[u8], r: Result<Option<Vec<u8>>, Status>|
                #![trigger call_ensures(P::consume_traces, (x, data), r)]
                *x == old(self).processor() && *final(x) == final(self).processor() && data@
                    == payload && call_ensures(P::consume_traces, (x, data), r) && traces_reply(
                    &reply,
                    r,
                ),
            is_status_reply(&reply) || (reply.code == StatusCode::Success.spec_value()
                && reply.status_reason is None && reply.result_traces is Some),
    {
        let data = match take_ownership(allocations, data_ptr, data_size) {
            Ok(data) => data,
            Err(status) => return status_to_code(Err(status)),
        };
        let result = self.processor.consume_traces(data.as_slice());
        traces_to_reply(result)
    }
}

/// Drives a [`TracesExporter`].
pub struct ExporterRuntime<E: TracesExporter> {
    exporter: E,
}

impl<E: TracesExporter> ExporterRuntime<E> {
    /// The exporter this runtime drives.
    pub closed spec fn exporter(&self) -> E {
        self.exporter
    }

    /// A runtime driving a exporter made by `E::default()`.
    pub fn new() -> (rt: Self)
        ensures
            call_ensures(E::default, (), rt.exporter()),
    {
        Self { exporter: E::default() }
    }

    /// Starts the exporter with the configuration the host supplied. A
    /// configuration that cannot be used is reported and the exporter is left
    /// untouched; otherwise the parsed configuration is handed to its `start`,
    /// whose answer decides the reply.
    pub fn start(&mut self, config_json: Result<Vec<u8>, String>) -> (reply: Reply)
        ensures
            plugin_config_error(config_json) matches Some(msg) ==> (reports_status(
                &reply,
                StatusCode::Error,
                msg,
            ) && final(self).exporter() == old(self).exporter()),
            plugin_config_error(config_json) is None ==> exists|
                x: &mut E,
                config: Value,
                r: Result<(), Status>,
            |
                #![trigger call_ensures(E::start, (x, config), r)]
                *x == old(self).exporter() && *final(x) == final(self).exporter() && config_handed(
                    config_json,
                    config,
                ) && call_ensures(E::start, (x, config), r) && status_reply(&reply, r),
            is_status_reply(&reply),
    {
        let config = match parse_plugin_config(config_json) {
            Ok(config) => config,
            Err(status) => return status_to_code(Err(status)),
        };
        let r = self.exporter.start(config);
        status_to_code(r)
    }

    /// Shuts the exporter down; its answer decides the reply.
    pub fn shutdown(&mut self) -> (reply: Reply)
        ensures
            is_status_reply(&reply),
            exists|x: &mut E, r: Result<(), Status>|
                #![trigger call_ensures(E::shutdown, (x,), r)]
                *x == old(self).exporter() && *final(x) == final(self).exporter() && call_ensures(
                    E::shutdown,
                    (x,),
                    r,
                ) && status_reply(&reply, r),
    {
        let r = self.exporter.shutdown();
        status_to_code(r)
    }

    /// Takes the payload pinned under `data_ptr` and gives it to the exporter,
    /// whose answer decides the reply. When the take fails the exporter is
    /// left untouched.
    pub fn consume_traces(&mut self, allocations: &mut Allocations, data_ptr: i32, data_size: i32) -> (reply: Reply)
        ensures
            final(allocations)@ == take_ownership_spec(old(allocations)@, data_ptr, data_size).1,
            take_ownership_spec(old(allocations)@, data_ptr, data_size).0 matches Err(msg)
                ==> (reports_status(&reply, StatusCode::Error, msg) && final(self).exporter() == old(
                self,
            ).exporter()),
            take_ownership_spec(old(allocations)@, data_ptr, data_size).0 matches Ok(payload)
                ==> exists|x: &mut E, data: &[u8], r: Result<(), Status>|
                #![trigger call_ensures(E::export_traces, (x, data), r)]
                *x == old(self).exporter() && *final(x) == final(self).exporter() && data@
                    == payload && call_ensures(E::export_traces, (x, data), r) && status_reply(
                    &reply,
                    r,
                ),
            is_status_reply(&reply),
    {
        let data = match take_ownership(allocations, data_ptr, data_size) {
            Ok(data) => data,
            Err(status) => return status_to_code(Err(status)),
        };
        let r = self.exporter.export_traces(data.as_slice());
        status_to_code(r)
    }
}

/// What a receiver loop does next.
pub enum ReceiverStep {
    /// Hand these traces to the host, then ask again.
    Emit(Vec<u8>),
    /// Stop, reporting this reason first if there is one.
    Finish(Option<String>),
}

/// `step` is what `receiver_step` gives for `result`.
pub open spec fn step_for(step: ReceiverStep, result: Result<Option<Vec<u8>>, Status>) -> bool {
    match result {
        Ok(Some(out)) => step matches ReceiverStep::Emit(t) && t@ == out@,
        Ok(None) => step matches ReceiverStep::Finish(None),
        Err(status) => step matches ReceiverStep::Finish(r) && (status.reason@.len() > 0 ==> (
        r matches Some(s) && s@ == status.reason@)) && (status.reason@.len() == 0 ==> r is None),
    }
}

/// The step that follows what a receiver produced: produced traces are
/// emitted, nothing left ends the loop, a failure ends it with its reason.
pub fn receiver_step(result: Result<Option<Vec<u8>>, Status>) -> (step: ReceiverStep)
    ensures
        step_for(step, result),
{
    match result {
        Ok(Some(out)) => ReceiverStep::Emit(out),
        Ok(None) => ReceiverStep::Finish(None),
        Err(status) => ReceiverStep::Finish(report_status_reason(&status)),
    }
}

/// Drives a [`TracesReceiver`].
pub struct ReceiverRuntime<R: TracesReceiver> {
    receiver: R,
}

impl<R: TracesReceiver> ReceiverRuntime<R> {
    /// The receiver this runtime drives.
    pub closed spec fn receiver(&self) -> R {
        self.receiver
    }

    /// A runtime driving a receiver made by `R::default()`.
    pub fn new() -> (rt: Self)
        ensures
            call_ensures(R::default, (), rt.receiver()),
    {
        Self { receiver: R::default() }
    }

    /// Starts the receiver with the configuration the host supplied. A
    /// configuration that cannot be used is reported and the receiver is left
    /// untouched; otherwise the parsed configuration is handed to its `start`,
    /// whose answer decides the reply.
    pub fn start(&mut self, config_json: Result<Vec<u8>, String>) -> (reply: Reply)
        ensures
            plugin_config_error(config_json) matches Some(msg) ==> (reports_status(
                &reply,
                StatusCode::Error,
                msg,
            ) && final(self).receiver() == old(self).receiver()),
            plugin_config_error(config_json) is None ==> exists|
                x: &mut R,
                config: Value,
                r: Result<(), Status>,
            |
                #![trigger call_ensures(R::start, (x, config), r)]
                *x == old(self).receiver() && *final(x) == final(self).receiver() && config_handed(
                    config_json,
                    config,
                ) && call_ensures(R::start, (x, config), r) && status_reply(&reply, r),
            is_status_reply(&reply),
    {
        let config = match parse_plugin_config(config_json) {
            Ok(config) => config,
            Err(status) => return status_to_code(Err(status)),
        };
        let r = self.receiver.start(config);
        status_to_code(r)
    }

    /// Shuts the receiver down; its answer decides the reply.
    pub fn shutdown(&mut self) -> (reply: Reply)
        ensures
            is_status_reply(&reply),
            exists|x: &mut R, r: Result<(), Status>|
                #![trigger call_ensures(R::shutdown, (x,), r)]
                *x == old(self).receiver() && *final(x) == final(self).receiver() && call_ensures(
                    R::shutdown,
                    (x,),
                    r,
                ) && status_reply(&reply, r),
    {
        let r = self.receiver.shutdown();
        status_to_code(r)
    }

    /// One round of the receiver loop: once shutdown is requested the loop
    /// ends and the receiver is left untouched; otherwise the receiver is asked
    /// for traces and its answer decides the step, as `receiver_step` says.
    pub fn poll_traces_receiver(&mut self, shutdown_requested: bool) -> (step: ReceiverStep)
        ensures
            shutdown_requested ==> (step matches ReceiverStep::Finish(None) && final(self).receiver()
                == old(self).receiver()),
            !shutdown_requested ==> exists|x: &mut R, r: Result<Option<Vec<u8>>, Status>|
                #![trigger call_ensures(R::produce_traces, (x,), r)]
                *x == old(self).receiver() && *final(x) == final(self).receiver() && call_ensures(
                    R::produce_traces,
                    (x,),
                    r,
                ) && step_for(step, r),
            step matches ReceiverStep::Finish(Some(reason)) ==> reason@.len() > 0,
    {
        if shutdown_requested {
            return ReceiverStep::Finish(None);
        }
        let produced = self.receiver.produce_traces();
        receiver_step(produced)
    }
}

/// Which signal a payload carries.
#[derive(Clone, Copy, Debug, PartialEq, Eq, Structural)]
pub enum Signal {
    Traces,
    Metrics,
    Logs,
}

/// `r` is what the exporter method for `signal` answered, called on `x` with `data`.
pub open spec fn exported<E: TelemetryExporter>(
    signal: Signal,
    x: &mut E,
    data: &[u8],
    r: Result<(), Status>,
) -> bool {
    match signal {
        Signal::Traces => call_ensures(E::export_traces, (x, data), r),
        Signal::Metrics => call_ensures(E::export_metrics, (x, data), r),
        Signal::Logs => call_ensures(E::export_logs, (x, data), r),
    }
}

/// Drives a [`TelemetryExporter`].
pub struct TelemetryExporterRuntime<E: TelemetryExporter> {
    exporter: E,
}

impl<E: TelemetryExporter> TelemetryExporterRuntime<E> {
    /// The exporter this runtime drives.
    pub closed spec fn exporter(&self) -> E {
        self.exporter
    }

    /// A runtime driving a exporter made by `E::default()`.
    pub fn new() -> (rt: Self)
        ensures
            call_ensures(E::default, (), rt.exporter()),
    {
        Self { exporter: E::default() }
    }

    /// Starts the exporter with the configuration the host supplied. A
    /// configuration that cannot be used is reported and the exporter is left
    /// untouched; otherwise the parsed configuration is handed to its `start`,
    /// whose answer decides the reply.
    pub fn start(&mut self, config_json: Result<Vec<u8>, String>) -> (reply: Reply)
        ensures
            plugin_config_error(config_json) matches Some(msg) ==> (reports_status(
                &reply,
                StatusCode::Error,
                msg,
            ) && final(self).exporter() == old(self).exporter()),
            plugin_config_error(config_json) is None ==> exists|
                x: &mut E,
                config: Value,
                r: Result<(), Status>,
            |
                #![trigger call_ensures(E::start, (x, config), r)]
                *x == old(self).exporter() && *final(x) == final(self).exporter() && config_handed(
                    config_json,
                    config,
                ) && call_ensures(E::start, (x, config), r) && status_reply(&reply, r),
            is_status_reply(&reply),
    {
        let config = match parse_plugin_config(config_json) {
            Ok(config) => config,
            Err(status) => return status_to_code(Err(status)),
        };
        let r = self.exporter.start(config);
        status_to_code(r)
    }

    /// Shuts the exporter down; its answer decides the reply.
    pub fn shutdown(&mut self) -> (reply: Reply)
        ensures
            is_status_reply(&reply),
            exists|x: &mut E, r: Result<(), Status>|
                #![trigger call_ensures(E::shutdown, (x,), r)]
                *x == old(self).exporter() && *final(x) == final(self).exporter() && call_ensures(
                    E::shutdown,
                    (x,),
                    r,
                ) && status_reply(&reply, r),
    {
        let r = self.exporter.shutdown();
        status_to_code(r)
    }

    /// Takes the payload pinned under `data_ptr` and gives it to the exporter method for `signal`,
    /// whose answer decides the reply. When the take fails the exporter is
    /// left untouched.
    pub fn consume(&mut self, signal: Signal, allocations: &mut Allocations, data_ptr: i32, data_size: i32) -> (reply: Reply)
        ensures
            final(allocations)@ == take_ownership_spec(old(allocations)@, data_ptr, data_size).1,
            take_ownership_spec(old(allocations)@, data_ptr, data_size).0 matches Err(msg)
                ==> (reports_status(&reply, StatusCode::Error, msg) && final(self).exporter() == old(
                self,
            ).exporter()),
            take_ownership_spec(old(allocations)@, data_ptr, data_size).0 matches Ok(payload)
                ==> exists|x: &mut E, data: &[u8], r: Result<(), Status>|
                #![trigger call_ensures(E::export_traces, (x, data), r)]
                #![trigger call_ensures(E::export_metrics, (x, data), r)]
                #![trigger call_ensures(E::export_logs, (x, data), r)]
                *x == old(self).exporter() && *final(x) == final(self).exporter() && data@
                    == payload && exported(signal, x, data, r) && status_reply(&reply, r),
            is_status_reply(&reply),
    {
        let data = match take_ownership(allocations, data_ptr, data_size) {
            Ok(data) => data,
            Err(status) => return status_to_code(Err(status)),
        };
        let result = match signal {
            Signal::Traces => self.exporter.export_traces(data.as_slice()),
            Signal::Metrics => self.exporter.export_metrics(data.as_slice()),
            Signal::Logs => self.exporter.export_logs(data.as_slice()),
        };
        status_to_code(result)
    }

    /// Takes the payload pinned under `data_ptr` and gives it to `export_traces`,
    /// whose answer decides the reply. When the take fails the exporter is
    /// left untouched.
    pub fn consume_traces(&mut self, allocations: &mut Allocations, data_ptr: i32, data_size: i32) -> (reply: Reply)
        ensures
            final(allocations)@ == take_ownership_spec(old(allocations)@, data_ptr, data_size).1,
            take_ownership_spec(old(allocations)@, data_ptr, data_size).0 matches Err(msg)
                ==> (reports_status(&reply, StatusCode::Error, msg) && final(self).exporter() == old(
                self,
            ).exporter()),
            take_ownership_spec(old(allocations)@, data_ptr, data_size).0 matches Ok(payload)
                ==> exists|x: &mut E, data: &[u8], r: Result<(), Status>|
                #![trigger call_ensures(E::export_traces, (x, data), r)]
                *x == old(self).exporter() && *final(x) == final(self).exporter() && data@
                    == payload && call_ensures(E::export_traces, (x, data), r) && status_reply(&reply, r),
            is_status_reply(&reply),
    {
        self.consume(Signal::Traces, allocations, data_ptr, data_size)
    }

    /// Takes the payload pinned under `data_ptr` and gives it to `export_metrics`,
    /// whose answer decides the reply. When the take fails the exporter is
    /// left untouched.
    pub fn consume_metrics(&mut self, allocations: &mut Allocations, data_ptr: i32, data_size: i32) -> (reply: Reply)
        ensures
            final(allocations)@ == take_ownership_spec(old(allocations)@, data_ptr, data_size).1,
            take_ownership_spec(old(allocations)@, data_ptr, data_size).0 matches Err(msg)
                ==> (reports_status(&reply, StatusCode::Error, msg) && final(self).exporter() == old(
                self,
            ).exporter()),
            take_ownership_spec(old(allocations)@, data_ptr, data_size).0 matches Ok(payload)
                ==> exists|x: &mut E, data: &[u8], r: Result<(), Status>|
                #![trigger call_ensures(E::export_metrics, (x, data), r)]
                *x == old(self).exporter() && *final(x) == final(self).exporter() && data@
                    == payload && call_ensures(E::export_metrics, (x, data), r) && status_reply(&reply, r),
            is_status_reply(&reply),
    {
        self.consume(Signal::Metrics, allocations, data_ptr, data_size)
    }

    /// Takes the payload pinned under `data_ptr` and gives it to `export_logs`,
    /// whose answer decides the reply. When the take fails the exporter is
    /// left untouched.
    pub fn consume_logs(&mut self, allocations: &mut Allocations, data_ptr: i32, data_size: i32) -> (reply: Reply)
        ensures
            final(allocations)@ == take_ownership_spec(old(allocations)@, data_ptr, data_size).1,
            take_ownership_spec(old(allocations)@, data_ptr, data_size).0 matches Err(msg)
                ==> (reports_status(&reply, StatusCode::Error, msg) && final(self).exporter() == old(
                self,
            ).exporter()),
            take_ownership_spec(old(allocations)@, data_ptr, data_size).0 matches Ok(payload)
                ==> exists|x: &mut E, data: &[u8], r: Result<(), Status>|
                #![trigger call_ensures(E::export_logs, (x, data), r)]
                *x == old(self).exporter() && *final(x) == final(self).exporter() && data@
                    == payload && call_ensures(E::export_logs, (x, data), r) && status_reply(&reply, r),
            is_status_reply(&reply),
    {
        self.consume(Signal::Logs, allocations, data_ptr, data_size)
    }
}

/// Drives a [`LogsReceiver`].
pub struct LogsReceiverRuntime<R: LogsReceiver> {
    receiver: R,
}

impl<R: LogsReceiver> LogsReceiverRuntime<R> {
    /// The receiver this runtime drives.
    pub closed spec fn receiver(&self) -> R {
        self.receiver
    }

    /// A runtime driving a receiver made by `R::default()`.
    pub fn new() -> (rt: Self)
        ensures
            call_ensures(R::default, (), rt.receiver()),
    {
        Self { receiver: R::default() }
    }

    /// Starts the receiver with the configuration the host supplied. A
    /// configuration that cannot be used is reported and the receiver is left
    /// untouched; otherwise the parsed configuration is handed to its `start`,
    /// whose answer decides the reply.
    pub fn start(&mut self, config_json: Result<Vec<u8>, String>) -> (reply: Reply)
        ensures
            plugin_config_error(config_json) matches Some(msg) ==> (reports_status(
                &reply,
                StatusCode::Error,
                msg,
            ) && final(self).receiver() == old(self).receiver()),
            plugin_config_error(config_json) is None ==> exists|
                x: &mut R,
                config: Value,
                r: Result<(), Status>,
            |
                #![trigger call_ensures(R::start, (x, config), r)]
                *x == old(self).receiver() && *final(x) == final(self).receiver() && config_handed(
                    config_json,
                    config,
                ) && call_ensures(R::start, (x, config), r) && status_reply(&reply, r),
            is_status_reply(&reply),
    {
        let config = match parse_plugin_config(config_json) {
            Ok(config) => config,
            Err(status) => return status_to_code(Err(status)),
        };
        let r = self.receiver.start(config);
        status_to_code(r)
    }

    /// Shuts the receiver down; its answer decides the reply.
    pub fn shutdown(&mut self) -> (reply: Reply)
        ensures
            is_status_reply(&reply),
            exists|x: &mut R, r: Result<(), Status>|
                #![trigger call_ensures(R::shutdown, (x,), r)]
                *x == old(self).receiver() && *final(x) == final(self).receiver() && call_ensures(
                    R::shutdown,
                    (x,),
                    r,
                ) && status_reply(&reply, r),
    {
        let r = self.receiver.shutdown();
        status_to_code(r)
    }

    /// One round of the receiver loop: once shutdown is requested the loop
    /// ends and the receiver is left untouched; otherwise the receiver is asked
    /// for logs and its answer decides the step, as `receiver_step` says.
    pub fn poll_logs_receiver(&mut self, shutdown_requested: bool) -> (step: ReceiverStep)
        ensures
            shutdown_requested ==> (step matches ReceiverStep::Finish(None) && final(self).receiver()
                == old(self).receiver()),
            !shutdown_requested ==> exists|x: &mut R, r: Result<Option<Vec<u8>>, Status>|
                #![trigger call_ensures(R::produce_logs, (x,), r)]
                *x == old(self).receiver() && *final(x) == final(self).receiver() && call_ensures(
                    R::produce_logs,
                    (x,),
                    r,
                ) && step_for(step, r),
            step matches ReceiverStep::Finish(Some(reason)) ==> reason@.len() > 0,
    {
        if shutdown_requested {
            return ReceiverStep::Finish(None);
        }
        let produced = self.receiver.produce_logs();
        receiver_step(produced)
    }
}

} // verus!
