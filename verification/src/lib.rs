//! A single-process TLS-terminating server core: the per-connection state
//! machine driven by readiness events, the reactor's connection table, and
//! the HTTP request/response logic, all with verified contracts. The
//! surrounding process (sockets, the poller, the TLS session itself) hands
//! these functions plain values and performs the actions they decide on.

pub mod conn;
pub mod http;
pub mod server;
