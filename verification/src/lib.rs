//! Orchestration layer of a language server for a document markup language:
//! it turns the line-oriented output of external command-line tools (a
//! typesetting compiler, a style linter, a spell checker) into structured,
//! position-addressed diagnostics, rate-limits linter invocations, aggregates
//! per-document diagnostics, and manages progress reporting and cancellation
//! for in-flight builds.
//!
//! - [`builds`]: build status, compiler invocation, the per-build progress
//!   session with paired begin/end notifications, and the cancellation
//!   registry;
//! - [`diagnostics`]: the two rate-limited linters with their verified line
//!   grammars, and the per-document aggregate;
//! - [`capabilities`]: the client capability flags the server reads;
//! - [`token`], [`uri`], [`diag`], [`cache`], [`text`]: the supporting data
//!   model and text scanning.
//!
//! The library holds every decision; the surrounding runtime only spawns
//! processes, moves bytes, and performs the notifications the library hands
//! it.

pub mod builds;
pub mod cache;
pub mod capabilities;
pub mod diag;
pub mod diagnostics;
pub mod text;
pub mod token;
pub mod uri;

pub use builds::{
    BuildManager, BuildOptions, BuildPhase, BuildResult, BuildSession, BuildStatus, ClientAction,
    RunOutcome,
};
pub use capabilities::ClientCapabilities;
pub use diag::{Diagnostic, DiagnosticSeverity, DiagnosticView, Position, Range};
pub use token::{ProgressToken, TokenView};
pub use diagnostics::english::EnglishDiagnosticsProvider;
pub use diagnostics::latex::LatexDiagnosticsProvider;
pub use diagnostics::DiagnosticsManager;
pub use uri::Uri;
