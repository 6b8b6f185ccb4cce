//! Decisions of the state-snapshot loader.
//!
//! Reading the chain store and walking the trie are the node
//! collaborator's work; which block bounds the snapshot is decided
//! here, one lookup at a time.

use vstd::prelude::*;

verus! {

/// Which state the snapshot loader binds to.
#[derive(Clone, Copy, Debug, PartialEq, Eq, Structural)]
pub enum LoadTrieMode {
    /// Load latest state
    Latest,
    /// Load prev state at some height
    Height(u64),
    /// Load the prev state of the last final block from some height
    LastFinalFromHeight(u64),
}

/// What the chain store reports for a candidate height.
#[derive(Clone, Copy, Debug, PartialEq, Eq, Structural)]
pub enum CandidateBlock {
    /// No block stands at the candidate height.
    Missing,
    /// A block stands there, and its last final block has this height.
    LastFinalHeight(u64),
}

/// The next move of the search for a final block.
#[derive(Clone, Copy, Debug, PartialEq, Eq, Structural)]
pub enum SearchStep {
    /// The candidate's last final block is the one to load.
    Found { final_height: u64 },
    /// Ask the store about the next height.
    Advance { next_height: u64 },
    /// No final block of at least the target height exists below the
    /// chain head.
    NoFinalBlock,
}

/// One step of the search for the first final block at or after the
/// target height: candidates walk upward from just above the target and
/// the search fails once they reach the chain head.
pub open spec fn spec_last_final_search_step(
    target: u64,
    current: u64,
    head: u64,
    candidate: CandidateBlock,
) -> SearchStep {
    if current >= head {
        SearchStep::NoFinalBlock
    } else {
        match candidate {
            CandidateBlock::Missing => SearchStep::Advance { next_height: (current + 1) as u64 },
            CandidateBlock::LastFinalHeight(final_height) => if final_height >= target {
                SearchStep::Found { final_height }
            } else {
                SearchStep::Advance { next_height: (current + 1) as u64 }
            },
        }
    }
}

/// Decides the next move of the last-final search, given what the chain
/// store reported for the current candidate height.
pub fn last_final_search_step(
    target: u64,
    current: u64,
    head: u64,
    candidate: CandidateBlock,
) -> (step: SearchStep)
    ensures
        step == spec_last_final_search_step(target, current, head, candidate),
{
    if current >= head {
        return SearchStep::NoFinalBlock;
    }
    match candidate {
        CandidateBlock::Missing => SearchStep::Advance { next_height: current + 1 },
        CandidateBlock::LastFinalHeight(final_height) => {
            if final_height >= target {
                SearchStep::Found { final_height }
            } else {
                SearchStep::Advance { next_height: current + 1 }
            }
        },
    }
}

} // verus!
