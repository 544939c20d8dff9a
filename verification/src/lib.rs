//! A verified core for a "grate": a supervising process that jails a sandboxed
//! "cage" process inside a virtual filesystem root, tracks each cage's working
//! directory in software, rewrites filesystem paths embedded in system-call
//! arguments (including AF_UNIX socket addresses), and coordinates the
//! fork / register / signal / exec / wait lifecycle that installs the call
//! interceptors before the cage runs untrusted code.
//!
//! All effects (cross-space memory copies, relaying the real call, handler
//! registration) go through the [`runtime::CageRuntime`] capability, so the
//! decision logic here is pure, fully specified, and testable without a real
//! sandboxing runtime.

pub mod context;
pub mod cwd;
pub mod errors;
pub mod handlers;
pub mod lifecycle;
pub mod paths;
pub mod runtime;
pub mod sockaddr;

pub use errors::GrateError;
pub use lifecycle::GrateBuilder;
