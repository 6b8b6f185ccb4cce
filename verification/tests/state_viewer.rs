use indexer_for_wallet::state_viewer::{last_final_search_step, CandidateBlock, SearchStep};

#[test]
fn a_candidate_at_or_past_the_head_ends_the_search() {
    assert_eq!(
        last_final_search_step(10, 20, 20, CandidateBlock::Missing),
        SearchStep::NoFinalBlock
    );
    assert_eq!(
        last_final_search_step(10, 25, 20, CandidateBlock::LastFinalHeight(15)),
        SearchStep::NoFinalBlock
    );
}

#[test]
fn a_missing_block_advances_to_the_next_height() {
    assert_eq!(
        last_final_search_step(10, 11, 20, CandidateBlock::Missing),
        SearchStep::Advance { next_height: 12 }
    );
}

#[test]
fn a_final_block_at_or_after_the_target_is_found() {
    assert_eq!(
        last_final_search_step(10, 11, 20, CandidateBlock::LastFinalHeight(10)),
        SearchStep::Found { final_height: 10 }
    );
    assert_eq!(
        last_final_search_step(10, 13, 20, CandidateBlock::LastFinalHeight(12)),
        SearchStep::Found { final_height: 12 }
    );
}

#[test]
fn a_final_block_before_the_target_advances() {
    assert_eq!(
        last_final_search_step(10, 11, 20, CandidateBlock::LastFinalHeight(9)),
        SearchStep::Advance { next_height: 12 }
    );
}
