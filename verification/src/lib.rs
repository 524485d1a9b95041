//! An in-process metrics registry core: a polymorphic metric capability, a
//! label-keyed metric family with get-or-create semantics, and an encoder
//! that walks a registry and produces a canonical exchange document.

pub mod encoding;
pub mod exchange;
pub mod metrics;
pub mod registry;
