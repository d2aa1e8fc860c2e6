//! A tunnel-relay server core: agents register an endpoint name and keep a
//! pool of idle connections open; public requests addressed to
//! `<endpoint>.<domain>` are routed to one of that endpoint's connections.
pub mod dispatch;
pub mod host;
pub mod pool;
pub mod registry;
