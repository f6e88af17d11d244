//! Test support for a DHT's transport layers: a test peer, a test shadower
//! (a byte-shift stand-in for encryption, with its header protocol and key
//! sharing), tunnel test configurations, a cache of reply writers keyed by
//! cache id, and route providers over test routes.
pub mod peer;
pub mod shadow;
pub mod tunnel;
pub mod tunnel_new;
