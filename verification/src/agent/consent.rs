//! Tool consent gate for agent turns.
use vstd::prelude::*;

use crate::text::str_eq;

verus! {

/// Risk class for tool execution prompts.
#[derive(Debug, Clone, Copy, PartialEq, Eq, PartialOrd, Ord, Structural)]
pub enum ToolRisk {
    /// Built-in low-impact tools (clock, notes, stats).
    Low,
    /// Local filesystem or similar.
    Medium,
    /// Network / OAuth / destructive writes.
    High,
}

impl Default for ToolRisk {
    fn default() -> (r: Self)
        ensures
            r == ToolRisk::Low,
    {
        ToolRisk::Low
    }
}

impl ToolRisk {
    /// Position in the order Low < Medium < High.
    pub open spec fn rank(self) -> nat {
        match self {
            ToolRisk::Low => 0,
            ToolRisk::Medium => 1,
            ToolRisk::High => 2,
        }
    }

    fn rank_exec(self) -> (r: u8)
        ensures
            r == self.rank(),
    {
        match self {
            ToolRisk::Low => 0,
            ToolRisk::Medium => 1,
            ToolRisk::High => 2,
        }
    }

    /// `self` is at most as risky as `other`.
    pub fn at_most(self, other: ToolRisk) -> (r: bool)
        ensures
            r == (self.rank() <= other.rank()),
    {
        self.rank_exec() <= other.rank_exec()
    }

    pub open spec fn name(self) -> Seq<char> {
        match self {
            ToolRisk::Low => "low"@,
            ToolRisk::Medium => "medium"@,
            ToolRisk::High => "high"@,
        }
    }

    pub fn as_str(self) -> (r: &'static str)
        ensures
            r@ == self.name(),
    {
        match self {
            ToolRisk::Low => "low",
            ToolRisk::Medium => "medium",
            ToolRisk::High => "high",
        }
    }

    /// The risk class of a tool by name: the built-ins are low, the sandboxed
    /// file tools medium, and everything else (network, unknown) high.
    pub open spec fn for_tool_spec(name: Seq<char>) -> ToolRisk {
        if name == "get_current_time"@ || name == "note_write"@ || name == "note_read"@ || name
            == "session_stats"@ {
            ToolRisk::Low
        } else if name == "fs_list"@ || name == "fs_move"@ || name == "fs_rename"@ {
            ToolRisk::Medium
        } else {
            ToolRisk::High
        }
    }

    pub fn for_tool(name: &str) -> (r: ToolRisk)
        ensures
            r == ToolRisk::for_tool_spec(name@),
    {
        if str_eq(name, "get_current_time") || str_eq(name, "note_write") || str_eq(
            name,
            "note_read",
        ) || str_eq(name, "session_stats") {
            ToolRisk::Low
        } else if str_eq(name, "fs_list") || str_eq(name, "fs_move") || str_eq(name, "fs_rename") {
            ToolRisk::Medium
        } else {
            ToolRisk::High
        }
    }
}

/// Decide whether a tool may run for this turn.
pub trait ToolConsent {
    fn allow(
        &mut self,
        name: &str,
        args: &serde_json::Map<String, serde_json::Value>,
        risk: ToolRisk,
    ) -> bool;
}

/// Allows only an explicit name list (tests / locked-down shells).
#[derive(Debug, Clone)]
pub struct AllowListedTools {
    pub names: Vec<String>,
}

impl ToolConsent for AllowListedTools {
    fn allow(
        &mut self,
        name: &str,
        _args: &serde_json::Map<String, serde_json::Value>,
        _risk: ToolRisk,
    ) -> (r: bool)
        ensures
            r == exists|i: int| 0 <= i < old(self).names@.len() && #[trigger] old(self).names@[i]@ == name@,
            *final(self) == *old(self),
    {
        let mut i: usize = 0;
        while i < self.names.len()
            invariant
                i <= self.names.len(),
                forall|k: int| 0 <= k < i ==> #[trigger] self.names@[k]@ != name@,
            decreases self.names.len() - i,
        {
            if str_eq(self.names[i].as_str(), name) {
                assert(self.names@[i as int]@ == name@);
                return true;
            }
            i = i + 1;
        }
        false
    }
}

/// Auto-allow tools at or below a risk ceiling.
#[derive(Debug, Clone, Copy)]
pub struct AllowUpTo {
    pub max: ToolRisk,
}

impl Default for AllowUpTo {
    fn default() -> (r: Self)
        ensures
            r.max == ToolRisk::Low,
    {
        AllowUpTo { max: ToolRisk::Low }
    }
}

impl ToolConsent for AllowUpTo {
    fn allow(
        &mut self,
        _name: &str,
        _args: &serde_json::Map<String, serde_json::Value>,
        risk: ToolRisk,
    ) -> (r: bool)
        ensures
            r == (risk.rank() <= old(self).max.rank()),
            *final(self) == *old(self),
    {
        risk.at_most(self.max)
    }
}

/// Auto-allow low risk; deny medium/high (CLI default until interactive prompts land).
#[derive(Debug, Default, Clone, Copy)]
pub struct AllowLowRiskOnly;

impl ToolConsent for AllowLowRiskOnly {
    fn allow(
        &mut self,
        name: &str,
        args: &serde_json::Map<String, serde_json::Value>,
        risk: ToolRisk,
    ) -> (r: bool)
        ensures
            r == (risk == ToolRisk::Low),
            *final(self) == *old(self),
    {
        let mut gate = AllowUpTo { max: ToolRisk::Low };
        gate.allow(name, args, risk)
    }
}


/// A tool outside the built-in and file lists (network, unknown) is allowed
/// by a risk ceiling only when that ceiling is `High`.
pub proof fn law_unknown_tools_need_high_ceiling(name: Seq<char>, max: ToolRisk)
    requires
        ToolRisk::for_tool_spec(name) == ToolRisk::High,
    ensures
        (ToolRisk::for_tool_spec(name).rank() <= max.rank()) <==> max == ToolRisk::High,
{
}

} // verus!
