//! A protocol-first SDK for building Grafana backend plugins, with the
//! decisions it takes proved by Verus.
//!
//! - [`backend`] holds the types a plugin works with: the Grafana
//!   configuration and its feature toggles, admission control and resource
//!   conversion messages, the instance cache, and automatic mTLS support.
//! - [`pluginv2`] holds the wire messages exchanged with Grafana.
//! - [`buildinfo`] describes a plugin's identity and version.
//! - [`httpclient`] builds an HTTP client from a set of options.
pub mod backend;
pub mod buildinfo;
pub mod httpclient;
pub mod pluginv2;
