//! Checks and choices made when a chat or serve session is launched.
use vstd::prelude::*;

use crate::agent::consent::ToolRisk;
use crate::engine::catalog::ModelId;
use crate::engine::status::ModelStatus;
use crate::text::{concat2, concat3};

verus! {

/// The consent ceiling of a session: medium-risk (file) tools run without a
/// prompt only when allowed.
pub fn consent_ceiling(allow_fs: bool) -> (r: ToolRisk)
    ensures
        r == if allow_fs {
            ToolRisk::Medium
        } else {
            ToolRisk::Low
        },
{
    if allow_fs {
        ToolRisk::Medium
    } else {
        ToolRisk::Low
    }
}

/// Why the chat model cannot be loaded, if it cannot.
pub open spec fn launch_error_spec(id: ModelId, status: ModelStatus) -> Option<Seq<char>> {
    match status {
        ModelStatus::Present { bytes, .. } if bytes > 0 => None,
        ModelStatus::Missing { expected } => Some(
            "model not ready at "@ + expected@ + ". Run: loco download "@ + id.name(),
        ),
        ModelStatus::Present { path, .. } => Some("model file is empty: "@ + path@),
    }
}

pub fn model_launch_error(id: ModelId, status: &ModelStatus) -> (r: Option<String>)
    ensures
        match r {
            Some(m) => launch_error_spec(id, *status) == Some(m@),
            None => launch_error_spec(id, *status).is_none(),
        },
{
    match status {
        ModelStatus::Present { bytes, .. } if *bytes > 0 => None,
        ModelStatus::Missing { expected } => {
            let head = concat3("model not ready at ", expected.as_str(), ". Run: loco download ");
            Some(concat2(head.as_str(), id.as_str()))
        },
        ModelStatus::Present { path, .. } => Some(concat2("model file is empty: ", path.as_str())),
    }
}

} // verus!
