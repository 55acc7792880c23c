//! Tests of the sink dispatcher: fixed ordering, per-sink failure isolation,
//! trimming, and the native priority numbers.

use logpipe::dispatch::{plan_dispatch, DispatchStep, LoggerConfig, SinkSelection};
use logpipe::level::LogLevel;

fn config(selection: SinkSelection, tag: &[u8]) -> LoggerConfig {
    LoggerConfig { selection, tag: tag.to_vec() }
}

#[test]
fn both_sinks_native_fires_before_bridge() {
    let steps = plan_dispatch(&config(SinkSelection::Both, b"T"), &b"hello".to_vec());
    assert_eq!(
        steps,
        vec![
            DispatchStep::EmitNative {
                priority: 4,
                tag: b"T".to_vec(),
                message: b"hello".to_vec(),
            },
            DispatchStep::InvokeBridge { message: b"hello".to_vec() },
        ]
    );
}

#[test]
fn native_only_plans_a_single_emit() {
    let steps = plan_dispatch(&config(SinkSelection::NativeOnly, b"tag"), &b"line".to_vec());
    assert_eq!(
        steps,
        vec![DispatchStep::EmitNative {
            priority: 4,
            tag: b"tag".to_vec(),
            message: b"line".to_vec(),
        }]
    );
}

#[test]
fn bridge_only_plans_a_single_invocation() {
    let steps = plan_dispatch(&config(SinkSelection::BridgeOnly, b"tag"), &b"line".to_vec());
    assert_eq!(steps, vec![DispatchStep::InvokeBridge { message: b"line".to_vec() }]);
}

#[test]
fn nul_byte_skips_native_but_bridge_still_receives_the_line() {
    let line = b"a\x00b".to_vec();
    let steps = plan_dispatch(&config(SinkSelection::Both, b"T"), &line);
    assert_eq!(steps, vec![DispatchStep::InvokeBridge { message: b"a\x00b".to_vec() }]);
}

#[test]
fn nul_byte_under_native_only_drops_the_line_entirely() {
    let line = b"\x00".to_vec();
    let steps = plan_dispatch(&config(SinkSelection::NativeOnly, b"T"), &line);
    assert!(steps.is_empty());
}

#[test]
fn trailing_terminators_are_trimmed_for_both_sinks() {
    let steps = plan_dispatch(&config(SinkSelection::Both, b"T"), &b"x\r".to_vec());
    assert_eq!(
        steps,
        vec![
            DispatchStep::EmitNative { priority: 4, tag: b"T".to_vec(), message: b"x".to_vec() },
            DispatchStep::InvokeBridge { message: b"x".to_vec() },
        ]
    );
}

#[test]
fn interior_terminator_bytes_are_kept() {
    let steps = plan_dispatch(&config(SinkSelection::BridgeOnly, b"T"), &b"a\rb".to_vec());
    assert_eq!(steps, vec![DispatchStep::InvokeBridge { message: b"a\rb".to_vec() }]);
}

#[test]
fn priority_numbers_match_the_platform() {
    assert_eq!(LogLevel::Error.android_priority(), 6);
    assert_eq!(LogLevel::Warn.android_priority(), 5);
    assert_eq!(LogLevel::Info.android_priority(), 4);
    assert_eq!(LogLevel::Debug.android_priority(), 3);
    assert_eq!(LogLevel::Trace.android_priority(), 2);
}
