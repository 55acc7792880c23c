//! Redirecting a process's standard streams into logging sinks: the verified
//! core of the engine.
//!
//! The engine's job is to take the raw byte stream that lands in a private
//! channel (after the process's stdout/stderr descriptors have been repointed
//! at it), frame it into discrete lines, and fan each line out to the
//! configured sinks in a fixed order. Everything that decides — framing,
//! trimming, sink selection, ordering — lives here and is verified. The
//! platform edges (the pipe, the descriptor duplication, the background
//! thread, the native log call, the managed-runtime bridge) are performed by
//! the surrounding application code, which feeds this engine plain bytes and
//! carries out the dispatch steps it returns.

pub mod dispatch;
pub mod engine;
pub mod framer;
pub mod level;
