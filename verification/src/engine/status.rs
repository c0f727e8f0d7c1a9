//! Readiness of a cached model file (presence + non-empty).
use vstd::prelude::*;

use crate::engine::catalog::{ModelId, ModelSpec};
use crate::engine::paths::{model_path_spec, CacheLayout};

verus! {

#[derive(Debug, PartialEq, Eq)]
pub enum ModelStatus {
    Missing { expected: String },
    Present { path: String, bytes: u64 },
}

impl ModelStatus {
    pub open spec fn is_ready_spec(&self) -> bool {
        match self {
            ModelStatus::Present { bytes, .. } => *bytes > 0,
            ModelStatus::Missing { .. } => false,
        }
    }

    /// Present and non-empty.
    pub fn is_ready(&self) -> (r: bool)
        ensures
            r == self.is_ready_spec(),
    {
        match self {
            ModelStatus::Present { bytes, .. } => *bytes > 0,
            ModelStatus::Missing { .. } => false,
        }
    }
}

/// Status of the file at `path`, given what the file system reported:
/// `Some(len)` when a regular file of `len` bytes is there, `None` otherwise.
pub fn file_status_from(path: String, observed_len: Option<u64>) -> (s: ModelStatus)
    ensures
        match observed_len {
            Some(len) => s matches ModelStatus::Present { path: p, bytes } && p@ == path@ && bytes
                == len,
            None => s matches ModelStatus::Missing { expected } && expected@ == path@,
        },
{
    match observed_len {
        Some(len) => ModelStatus::Present { path, bytes: len },
        None => ModelStatus::Missing { expected: path },
    }
}

/// Status of the model's file in the layout, given what the file system
/// reported for that path (see [`file_status_from`]).
pub fn model_status(layout: &CacheLayout, id: ModelId, observed_len: Option<u64>) -> (s:
    ModelStatus)
    ensures
        match observed_len {
            Some(len) => s matches ModelStatus::Present { path, bytes } && path@ == model_path_spec(
                layout@,
                ModelSpec::for_id_spec(id),
            ) && bytes == len,
            None => s matches ModelStatus::Missing { expected } && expected@ == model_path_spec(
                layout@,
                ModelSpec::for_id_spec(id),
            ),
        },
{
    let spec = ModelSpec::for_id(id);
    let path = layout.model_path(&spec);
    file_status_from(path, observed_len)
}

/// True when the model's file exists and is non-empty.
pub fn model_fully_ready(layout: &CacheLayout, id: ModelId, observed_len: Option<u64>) -> (r: bool)
    ensures
        r == (observed_len matches Some(len) && len > 0),
{
    model_status(layout, id, observed_len).is_ready()
}

} // verus!
