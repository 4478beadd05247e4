use matlog::authority::AuthorityManage;
use matlog::proposal::{Proposal, ProposalCollector};
use matlog::voteset::{FollowerVote, SignedFollowerVote, Step, VoteCollector, VoteSet};

#[test]
fn authority_manage_new_test() {
    let mut au = AuthorityManage::new();
    au.receive_authorities_list(1, &[1], &[1]);
    au.catch_up();
    assert_eq!(au.validator_n(), 1);
    au.receive_authorities_list(2, &[1], &[1, 2]);
    au.catch_up();
    assert_eq!(au.validator_n(), 2);
}

#[test]
fn proposal_new_test() {
    let mut proposals = ProposalCollector::new();
    let (h, r) = (1, 2);
    let count = 4;
    let length = 1000;
    for i in 0..length {
        proposals.add(h, r, Proposal::new(i % count));
    }
    proposals.catch_up();
    let list = proposals.get_proposal(1, 2).unwrap();
    assert_eq!(list.len(), length as usize);
}

#[test]
fn voteset_new_test() {
    let mut votes = VoteCollector::new();
    let (h, r, s) = (1, 2, Step::Propose);
    let count = 4;
    for i in 0..1000u64 {
        votes.add(
            i % count,
            &SignedFollowerVote {
                sig: Vec::new(),
                vote: FollowerVote { height: h, round: r, step: s, hash: Some(i) },
            },
        );
    }
    votes.catch_up();
    let voteset = votes.get_voteset(h, r, s).unwrap();
    for (sender, sign_vote) in voteset.votes_by_sender {
        println!("address: {:?}, sign_vote: {:?}", sender, sign_vote);
    }
    for (hash, count) in voteset.votes_by_proposal {
        println!("hash: {:?}, count: {}", hash, count);
    }
    assert_eq!(count, voteset.count);
}

#[test]
fn latest_snapshot_wins() {
    let mut au = AuthorityManage::new();
    au.receive_authorities_list(1, &[1], &[1]);
    au.catch_up();
    au.receive_authorities_list(2, &[1], &[1, 2]);
    au.catch_up();
    let entity = au.get_authority_entity();
    assert_eq!(entity.height, 2);
    assert_eq!(entity.validators, vec![1, 2]);
    assert_eq!(entity.authorities, vec![1]);
}

#[test]
fn unchanged_lists_are_not_reappended() {
    let mut au = AuthorityManage::new();
    au.receive_authorities_list(1, &[3, 4], &[5]);
    au.catch_up();
    // The same lists at a later height are recognized as current and ignored.
    au.receive_authorities_list(9, &[3, 4], &[5]);
    au.catch_up();
    let entity = au.get_authority_entity();
    assert_eq!(entity.height, 1);
    assert_eq!(au.validator_n(), 1);
}

#[test]
fn empty_log_yields_empty_snapshot() {
    let au = AuthorityManage::new();
    let entity = au.get_authority_entity();
    assert_eq!(entity.height, 0);
    assert!(entity.authorities.is_empty());
    assert!(entity.validators.is_empty());
    assert_eq!(au.validator_n(), 0);
}

#[test]
fn first_vote_wins_after_convergence() {
    let mut votes = VoteCollector::new();
    let vote = |hash: u64| SignedFollowerVote {
        sig: vec![1, 2, 3],
        vote: FollowerVote { height: 1, round: 2, step: Step::Prevote, hash: Some(hash) },
    };
    votes.add(7, &vote(10));
    votes.add(7, &vote(20));
    votes.catch_up();
    let voteset = votes.get_voteset(1, 2, Step::Prevote).unwrap();
    assert_eq!(voteset.count, 1);
    assert_eq!(voteset.votes_by_sender.len(), 1);
    assert_eq!(voteset.votes_by_sender[0].0, 7);
    assert_eq!(voteset.votes_by_sender[0].1.vote.hash, Some(10));
    assert_eq!(voteset.votes_by_sender[0].1.sig, vec![1, 2, 3]);
    assert_eq!(voteset.votes_by_proposal, vec![(10, 1)]);
}

#[test]
fn no_read_your_write() {
    let mut votes = VoteCollector::new();
    votes.add(
        1,
        &SignedFollowerVote {
            sig: Vec::new(),
            vote: FollowerVote { height: 1, round: 0, step: Step::Propose, hash: Some(5) },
        },
    );
    // No catch-up: the appended vote is not visible yet.
    let voteset = votes.get_voteset(1, 0, Step::Propose).unwrap();
    assert_eq!(voteset.count, 0);
    assert!(voteset.votes_by_sender.is_empty());
    assert!(voteset.votes_by_proposal.is_empty());

    let mut proposals = ProposalCollector::new();
    proposals.add(1, 2, Proposal::new(9));
    assert_eq!(proposals.get_proposal(1, 2).unwrap().len(), 0);
    proposals.catch_up();
    assert_eq!(proposals.get_proposal(1, 2).unwrap().len(), 1);
}

#[test]
fn initialize_clears_previous_records() {
    let mut proposals = ProposalCollector::new();
    for i in 0..10 {
        proposals.add(4, 4, Proposal::new(i));
    }
    proposals.catch_up();
    assert_eq!(proposals.get_proposal(4, 4).unwrap().len(), 10);
    proposals.initialize();
    proposals.catch_up();
    assert_eq!(proposals.get_proposal(4, 4).unwrap().len(), 0);

    let mut votes = VoteCollector::new();
    votes.add(
        2,
        &SignedFollowerVote {
            sig: Vec::new(),
            vote: FollowerVote { height: 3, round: 0, step: Step::Commit, hash: None },
        },
    );
    votes.catch_up();
    assert_eq!(votes.get_voteset(3, 0, Step::Commit).unwrap().count, 1);
    votes.initialize();
    votes.catch_up();
    assert_eq!(votes.get_voteset(3, 0, Step::Commit).unwrap().count, 0);
}

#[test]
fn proposals_keep_every_record_per_key() {
    let mut proposals = ProposalCollector::new();
    proposals.add(1, 2, Proposal::new(8));
    proposals.add(1, 2, Proposal::new(8));
    proposals.add(1, 3, Proposal::new(8));
    proposals.catch_up();
    let list = proposals.get_proposal(1, 2).unwrap();
    assert_eq!(list.len(), 2);
    assert_eq!(list[0].proposal.hash, 8);
    assert_eq!(list[0].height, 1);
    assert_eq!(list[0].round, 2);
    assert_eq!(proposals.get_proposal(1, 3).unwrap().len(), 1);
    assert_eq!(proposals.get_proposal(2, 2).unwrap().len(), 0);
}

#[test]
fn voteset_ignores_duplicate_sender() {
    let mut vs = VoteSet::new();
    let sv = SignedFollowerVote {
        sig: Vec::new(),
        vote: FollowerVote { height: 1, round: 1, step: Step::Precommit, hash: Some(3) },
    };
    assert!(vs.add(1, &sv));
    assert!(!vs.add(1, &sv));
    assert_eq!(vs.count, 1);
    assert_eq!(vs.votes_by_proposal, vec![(3, 1)]);
}

#[test]
fn voteset_tallies_by_hash_and_skips_abstentions() {
    let mut vs = VoteSet::new();
    let vote = |hash: Option<u64>| SignedFollowerVote {
        sig: Vec::new(),
        vote: FollowerVote { height: 1, round: 1, step: Step::Prevote, hash },
    };
    vs.add(1, &vote(Some(3)));
    vs.add(2, &vote(Some(3)));
    vs.add(3, &vote(Some(4)));
    vs.add(4, &vote(None));
    assert_eq!(vs.count, 4);
    assert_eq!(vs.votes_by_proposal, vec![(3, 2), (4, 1)]);
}
