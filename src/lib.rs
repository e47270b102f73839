//! A verified model of a small cross-boundary plugin protocol: the tagged values
//! that cross between host and plugin, the schema a plugin declares, the host's
//! argument marshaling and result unmarshaling, and an example plugin whose
//! entry point validates its arguments before it computes.
pub mod value;
pub mod parse;
pub mod marshal;
pub mod plugin;
pub mod host;
