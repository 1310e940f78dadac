//! The dropdown filter enumerations of the task table: status and priority.
//!
//! Each enumeration exposes a display label, its fixed variant order, and
//! conversions to and from a dropdown index.

use vstd::prelude::*;

verus! {

/// The task-status filter choices, in dropdown order.
#[derive(Debug, Clone, Copy, PartialEq, Eq, Structural)]
pub enum StatusFilter {
    All,
    Pending,
    Completed,
    Waiting,
    Deleted,
}

/// The fixed dropdown order of the status choices.
pub open spec fn status_variants() -> Seq<StatusFilter> {
    seq![
        StatusFilter::All,
        StatusFilter::Pending,
        StatusFilter::Completed,
        StatusFilter::Waiting,
        StatusFilter::Deleted,
    ]
}

/// The dropdown index of a status choice.
pub open spec fn status_index(f: StatusFilter) -> int {
    match f {
        StatusFilter::All => 0,
        StatusFilter::Pending => 1,
        StatusFilter::Completed => 2,
        StatusFilter::Waiting => 3,
        StatusFilter::Deleted => 4,
    }
}

impl StatusFilter {
    /// The display label of this choice.
    pub fn as_str(&self) -> (r: &'static str)
        ensures
            r@ == (match *self {
                StatusFilter::All => "All"@,
                StatusFilter::Pending => "Pending"@,
                StatusFilter::Completed => "Completed"@,
                StatusFilter::Waiting => "Waiting"@,
                StatusFilter::Deleted => "Deleted"@,
            }),
    {
        match self {
            Self::All => "All",
            Self::Pending => "Pending",
            Self::Completed => "Completed",
            Self::Waiting => "Waiting",
            Self::Deleted => "Deleted",
        }
    }

    /// Every choice, in dropdown order.
    pub fn all_variants() -> (r: Vec<Self>)
        ensures
            r@ == status_variants(),
    {
        let r = vec![Self::All, Self::Pending, Self::Completed, Self::Waiting, Self::Deleted];
        proof {
            assert(r@ =~= status_variants());
        }
        r
    }

    /// The choice at a dropdown index; out-of-range indices fall back to the
    /// default.
    pub fn from_index(index: usize) -> (r: Self)
        ensures
            r == (if index < status_variants().len() {
                status_variants()[index as int]
            } else {
                StatusFilter::Pending
            }),
    {
        match index {
            0 => Self::All,
            1 => Self::Pending,
            2 => Self::Completed,
            3 => Self::Waiting,
            4 => Self::Deleted,
            _ => Self::Pending,
        }
    }

    /// The dropdown index of this choice.
    pub fn to_index(&self) -> (r: usize)
        ensures
            r == status_index(*self),
    {
        match self {
            Self::All => 0,
            Self::Pending => 1,
            Self::Completed => 2,
            Self::Waiting => 3,
            Self::Deleted => 4,
        }
    }
}

impl Default for StatusFilter {
    /// Pending tasks are shown by default.
    fn default() -> (r: Self)
        ensures
            r == StatusFilter::Pending,
    {
        Self::Pending
    }
}

/// Indexing round-trip for status choices: every choice is found again at
/// its own dropdown index.
pub proof fn lemma_status_index_round_trip(f: StatusFilter)
    ensures
        status_variants()[status_index(f)] == f,
{
}

/// The task-priority filter choices, in dropdown order.
#[derive(Debug, Clone, Copy, PartialEq, Eq, Structural)]
pub enum PriorityFilter {
    All,
    High,
    Medium,
    Low,
    NoPriority,
}

/// The fixed dropdown order of the priority choices.
pub open spec fn priority_variants() -> Seq<PriorityFilter> {
    seq![
        PriorityFilter::All,
        PriorityFilter::High,
        PriorityFilter::Medium,
        PriorityFilter::Low,
        PriorityFilter::NoPriority,
    ]
}

/// The dropdown index of a priority choice.
pub open spec fn priority_index(f: PriorityFilter) -> int {
    match f {
        PriorityFilter::All => 0,
        PriorityFilter::High => 1,
        PriorityFilter::Medium => 2,
        PriorityFilter::Low => 3,
        PriorityFilter::NoPriority => 4,
    }
}

impl PriorityFilter {
    /// The display label of this choice.
    pub fn as_str(&self) -> (r: &'static str)
        ensures
            r@ == (match *self {
                PriorityFilter::All => "All"@,
                PriorityFilter::High => "High (H)"@,
                PriorityFilter::Medium => "Medium (M)"@,
                PriorityFilter::Low => "Low (L)"@,
                PriorityFilter::NoPriority => "None"@,
            }),
    {
        match self {
            Self::All => "All",
            Self::High => "High (H)",
            Self::Medium => "Medium (M)",
            Self::Low => "Low (L)",
            Self::NoPriority => "None",
        }
    }

    /// Every choice, in dropdown order.
    pub fn all_variants() -> (r: Vec<Self>)
        ensures
            r@ == priority_variants(),
    {
        let r = vec![Self::All, Self::High, Self::Medium, Self::Low, Self::NoPriority];
        proof {
            assert(r@ =~= priority_variants());
        }
        r
    }

    /// The choice at a dropdown index; out-of-range indices fall back to the
    /// default.
    pub fn from_index(index: usize) -> (r: Self)
        ensures
            r == (if index < priority_variants().len() {
                priority_variants()[index as int]
            } else {
                PriorityFilter::All
            }),
    {
        match index {
            0 => Self::All,
            1 => Self::High,
            2 => Self::Medium,
            3 => Self::Low,
            4 => Self::NoPriority,
            _ => Self::All,
        }
    }

    /// The dropdown index of this choice.
    pub fn to_index(&self) -> (r: usize)
        ensures
            r == priority_index(*self),
    {
        match self {
            Self::All => 0,
            Self::High => 1,
            Self::Medium => 2,
            Self::Low => 3,
            Self::NoPriority => 4,
        }
    }
}

impl Default for PriorityFilter {
    /// All priorities are shown by default.
    fn default() -> (r: Self)
        ensures
            r == PriorityFilter::All,
    {
        Self::All
    }
}

/// Indexing round-trip for priority choices: every choice is found again at
/// its own dropdown index.
pub proof fn lemma_priority_index_round_trip(f: PriorityFilter)
    ensures
        priority_variants()[priority_index(f)] == f,
{
}

} // verus!
