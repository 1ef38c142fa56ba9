//! What learned evaluators need from the library: the layout of their input
//! and a registry of the models that are known.

pub mod features;
pub mod model_registry;
