//! Core of a CAN-bus gateway daemon and of the control protocol of its
//! home-automation companion: the wire formats, the rules by which frames are
//! routed and hooks are run, and the request bookkeeping of server and client.
//!
//! The bus side: [`can`] models frames and the envelopes that carry them,
//! [`reactor`] routes envelopes between the uplink and the clients, [`uplink`]
//! turns envelopes into frames of the bus and back, [`hook`] runs programs
//! for frames, [`subscription`] hands messages to subscribers, and
//! [`legacy`], [`encap`] and [`gateway`] speak the framing of the serial
//! gateway.
//!
//! The control side: [`proto`] is the wire protocol, [`server`] the
//! dispatcher of requests, [`driver`] and [`devices`] set the server up from
//! its configuration, and [`client`] matches responses to requests.

pub mod can;
pub mod client;
pub mod devices;
pub mod driver;
pub mod encap;
pub mod gateway;
pub mod hook;
pub mod legacy;
pub mod proto;
pub mod reactor;
pub mod server;
pub mod subscription;
pub mod uplink;
