//! Build-time introspection support: a call-site ledger, a correlation-token
//! synthesizer, a second-pass command builder, an output correlator, an
//! artifact selector and an entry-point resolver, each with a verified
//! contract.

pub mod artifact;
pub mod correlate;
pub mod entrypoint;
pub mod ledger;
pub mod second_pass;
pub mod text;
pub mod token;
