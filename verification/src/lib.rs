//! Configuration model for a pipeline of named transformation steps.
//!
//! A step names a transformation to invoke, an optional historical-lookback
//! window, and a key-sorted mapping of parameter names to canonically encoded
//! values.  Parameter values may arrive as plain strings, objects or
//! sequences; the normalizer erases that authoring-time ambiguity.

pub mod config;
pub mod error;
pub mod lookback;
pub mod order;
pub mod outside;
pub mod params;
pub mod raw;
pub mod step;
pub mod value;

pub use config::TransformationConfig;
pub use error::DecodeError;
pub use lookback::{AgeDuration, Lookback};
pub use params::ParamMap;
pub use step::TransformationStep;
pub use value::JsonString;
