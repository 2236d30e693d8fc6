use otelwasm_rust_sdk::host::{next_config_fetch, ConfigFetch, PLUGIN_CONFIG_INITIAL_LIMIT};
use otelwasm_rust_sdk::{
    get_plugin_config_json, get_shutdown_requested, set_result_traces, set_status_reason,
};

#[test]
fn host_has_no_configuration_here() {
    assert_eq!(
        get_plugin_config_json().unwrap_err(),
        "get_plugin_config_json is only available on wasm32"
    );
}

#[test]
fn host_never_requests_shutdown_here() {
    assert!(!get_shutdown_requested());
    set_result_traces(&[1, 2, 3]);
    set_status_reason("ignored");
}

#[test]
fn config_fetch_keeps_reported_prefix() {
    match next_config_fetch(vec![1, 2, 3, 4], 2) {
        ConfigFetch::Done(Ok(bytes)) => assert_eq!(bytes, vec![1, 2]),
        _ => panic!("expected the configuration"),
    }
    match next_config_fetch(vec![5, 6], 2) {
        ConfigFetch::Done(Ok(bytes)) => assert_eq!(bytes, vec![5, 6]),
        _ => panic!("expected the configuration"),
    }
}

#[test]
fn config_fetch_empty_configuration() {
    assert!(matches!(
        next_config_fetch(vec![0; 8], 0),
        ConfigFetch::Done(Ok(bytes)) if bytes.is_empty()
    ));
}

#[test]
fn config_fetch_retries_with_larger_buffer() {
    assert!(matches!(
        next_config_fetch(vec![0; PLUGIN_CONFIG_INITIAL_LIMIT], 1000),
        ConfigFetch::Retry(1000)
    ));
}

#[test]
fn config_fetch_negative_size() {
    match next_config_fetch(vec![0; 4], -3) {
        ConfigFetch::Done(Err(msg)) => {
            assert_eq!(msg, "otelwasm_get_plugin_config returned a negative size: -3")
        }
        _ => panic!("expected an error"),
    }
}
