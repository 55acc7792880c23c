//! Tests of the redirect engine: the background task's reaction to channel
//! reads, end to end from raw bytes to dispatch steps.

use logpipe::dispatch::{DispatchStep, LoggerConfig, SinkSelection};
use logpipe::engine::Engine;

fn engine(selection: SinkSelection, tag: &[u8]) -> Engine {
    Engine::new(LoggerConfig { selection, tag: tag.to_vec() })
}

#[test]
fn hello_through_both_sinks_native_first() {
    let mut engine = engine(SinkSelection::Both, b"T");
    let steps = engine.on_read(b"hello\n");
    assert_eq!(
        steps,
        vec![
            DispatchStep::EmitNative {
                priority: 4,
                tag: b"T".to_vec(),
                message: b"hello".to_vec(),
            },
            DispatchStep::InvokeBridge { message: b"hello".to_vec() },
        ]
    );
    assert!(engine.running_now());
}

#[test]
fn lines_are_dispatched_in_arrival_order() {
    let mut engine = engine(SinkSelection::BridgeOnly, b"T");
    let steps = engine.on_read(b"a\nb\n");
    assert_eq!(
        steps,
        vec![
            DispatchStep::InvokeBridge { message: b"a".to_vec() },
            DispatchStep::InvokeBridge { message: b"b".to_vec() },
        ]
    );
}

#[test]
fn partial_line_waits_for_its_terminator() {
    let mut engine = engine(SinkSelection::NativeOnly, b"T");
    assert!(engine.on_read(b"hel").is_empty());
    assert_eq!(engine.pending_len(), 3);
    let steps = engine.on_read(b"lo\n");
    assert_eq!(
        steps,
        vec![DispatchStep::EmitNative {
            priority: 4,
            tag: b"T".to_vec(),
            message: b"hello".to_vec(),
        }]
    );
    assert_eq!(engine.pending_len(), 0);
}

#[test]
fn zero_length_read_terminates_the_task() {
    let mut engine = engine(SinkSelection::Both, b"T");
    assert!(engine.running_now());
    let steps = engine.on_read(b"");
    assert!(steps.is_empty());
    assert!(!engine.running_now());
    let after = engine.on_read(b"late\n");
    assert!(after.is_empty());
    assert!(!engine.running_now());
}

#[test]
fn nul_line_reaches_only_the_bridge() {
    let mut engine = engine(SinkSelection::Both, b"T");
    let steps = engine.on_read(b"a\x00b\n");
    assert_eq!(steps, vec![DispatchStep::InvokeBridge { message: b"a\x00b".to_vec() }]);
}
