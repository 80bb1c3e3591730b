use raft_kv::raft::{
    election_timed_out, majority_of, AppendEntries, AppendResponse, ElectionStep, Heartbeat, LogEntry,
    ProposeStep, RaftMessage, RaftNode, RaftState, Role, VoteRequest, VoteResponse,
};
use raft_kv::store::KvStore;

fn node(id: u64, peers: usize) -> RaftNode {
    let addrs: Vec<String> = (0..peers).map(|i| format!("127.0.0.1:{}", 9100 + i)).collect();
    RaftNode::new(id, 9000 + id as u16, addrs, KvStore::new())
}

fn entry(term: u64, index: u64, key: &str, value: &str, is_delete: bool) -> LogEntry {
    LogEntry { term, index, key: key.to_string(), value: value.to_string(), is_delete }
}

fn append(term: u64, e: LogEntry, leader_commit: u64) -> RaftMessage {
    RaftMessage::AppendEntries(AppendEntries { term, leader_id: 1, entry: e, leader_commit })
}

#[test]
fn new_state_is_a_follower_in_term_zero() {
    for (id, timeout) in [(1u64, 4000u64), (2, 5000), (3, 6000)] {
        let s = RaftState::new(id);
        assert_eq!(s.id, id);
        assert_eq!(s.role, Role::Follower);
        assert_eq!(s.current_term, 0);
        assert_eq!(s.voted_for, None);
        assert_eq!(s.election_timeout_ms, timeout);
        assert!(s.log.is_empty());
        assert_eq!(s.commit_index, 0);
        assert_eq!(s.last_applied, 0);
        assert!(s.match_index.is_empty());
    }
}

#[test]
fn new_node_keeps_its_settings() {
    let n = node(2, 2);
    assert_eq!(n.port, 9002);
    assert_eq!(n.peers.len(), 2);
    assert_eq!(n.state.id, 2);
    assert_eq!(n.store.get("x"), None);
}

#[test]
fn majority_sizes() {
    assert_eq!(majority_of(0), 1);
    assert_eq!(majority_of(1), 2);
    assert_eq!(majority_of(2), 2);
    assert_eq!(majority_of(3), 3);
    assert_eq!(majority_of(4), 3);
}

#[test]
fn election_timer_rule() {
    assert!(election_timed_out(Role::Follower, 4000, 4000));
    assert!(election_timed_out(Role::Candidate, 5000, 4000));
    assert!(!election_timed_out(Role::Follower, 3999, 4000));
    assert!(!election_timed_out(Role::Leader, 99999, 4000));
}

#[test]
fn fresh_node_is_not_due_and_leader_never_is() {
    let mut n = node(1, 2);
    assert!(!n.state.election_due());
    n.state.role = Role::Leader;
    n.state.election_timeout_ms = 0;
    assert!(!n.state.election_due());
    n.state.role = Role::Follower;
    assert!(n.state.election_due());
    n.state.restart_timer();
    assert_eq!(n.state.role, Role::Follower);
}

#[test]
fn heartbeat_from_current_or_newer_term_makes_a_follower() {
    let mut n = node(1, 2);
    n.state.role = Role::Candidate;
    n.state.current_term = 3;
    n.state.voted_for = Some(1);
    let r = n.handle_message(RaftMessage::Heartbeat(Heartbeat { term: 3, leader_id: 2 }));
    assert_eq!(r, None);
    assert_eq!(n.state.role, Role::Follower);
    assert_eq!(n.state.current_term, 3);
    assert_eq!(n.state.voted_for, Some(1));
    n.handle_message(RaftMessage::Heartbeat(Heartbeat { term: 5, leader_id: 2 }));
    assert_eq!(n.state.current_term, 5);
    assert_eq!(n.state.voted_for, None);
}

#[test]
fn leader_messages_restart_the_timer_at_the_given_time() {
    let mut n = node(1, 2);
    n.state.current_term = 2;
    let start = n.state.last_heartbeat;
    let later = start + std::time::Duration::from_millis(500);
    n.handle_message_at(RaftMessage::Heartbeat(Heartbeat { term: 1, leader_id: 2 }), later);
    assert_eq!(n.state.last_heartbeat, start);
    n.handle_message_at(RaftMessage::VoteRequest(VoteRequest { term: 3, candidate_id: 2 }), later);
    assert_eq!(n.state.last_heartbeat, start);
    n.handle_message_at(RaftMessage::Heartbeat(Heartbeat { term: 3, leader_id: 2 }), later);
    assert_eq!(n.state.last_heartbeat, later);
    let later2 = later + std::time::Duration::from_millis(500);
    n.handle_message_at(append(3, entry(3, 1, "a", "b", false), 0), later2);
    assert_eq!(n.state.last_heartbeat, later2);
    let later3 = later2 + std::time::Duration::from_millis(500);
    n.state.restart_timer_at(later3);
    assert_eq!(n.state.last_heartbeat, later3);
    assert_eq!(n.state.current_term, 3);
}

#[test]
fn heartbeat_from_older_term_is_ignored() {
    let mut n = node(1, 2);
    n.state.role = Role::Leader;
    n.state.current_term = 4;
    let r = n.handle_message(RaftMessage::Heartbeat(Heartbeat { term: 3, leader_id: 2 }));
    assert_eq!(r, None);
    assert_eq!(n.state.role, Role::Leader);
    assert_eq!(n.state.current_term, 4);
}

#[test]
fn vote_is_granted_once_per_term() {
    let mut n = node(1, 2);
    let r = n.handle_message(RaftMessage::VoteRequest(VoteRequest { term: 1, candidate_id: 2 }));
    assert_eq!(r, Some(RaftMessage::VoteResponse(VoteResponse { term: 1, granted: true })));
    assert_eq!(n.state.voted_for, Some(2));
    let r = n.handle_message(RaftMessage::VoteRequest(VoteRequest { term: 1, candidate_id: 2 }));
    assert_eq!(r, Some(RaftMessage::VoteResponse(VoteResponse { term: 1, granted: true })));
    let r = n.handle_message(RaftMessage::VoteRequest(VoteRequest { term: 1, candidate_id: 3 }));
    assert_eq!(r, Some(RaftMessage::VoteResponse(VoteResponse { term: 1, granted: false })));
    assert_eq!(n.state.voted_for, Some(2));
}

#[test]
fn newer_term_vote_request_resets_the_vote() {
    let mut n = node(1, 2);
    n.state.role = Role::Leader;
    n.state.current_term = 2;
    n.state.voted_for = Some(1);
    let r = n.handle_message(RaftMessage::VoteRequest(VoteRequest { term: 3, candidate_id: 3 }));
    assert_eq!(r, Some(RaftMessage::VoteResponse(VoteResponse { term: 3, granted: true })));
    assert_eq!(n.state.role, Role::Follower);
    assert_eq!(n.state.voted_for, Some(3));
}

#[test]
fn older_term_vote_request_is_denied() {
    let mut n = node(1, 2);
    n.state.current_term = 5;
    let r = n.handle_message(RaftMessage::VoteRequest(VoteRequest { term: 4, candidate_id: 2 }));
    assert_eq!(r, Some(RaftMessage::VoteResponse(VoteResponse { term: 5, granted: false })));
    assert_eq!(n.state.voted_for, None);
}

#[test]
fn append_from_older_term_is_refused() {
    let mut n = node(2, 2);
    n.state.current_term = 3;
    n.state.log.push(entry(3, 1, "a", "1", false));
    let r = n.handle_message(append(2, entry(2, 2, "b", "2", false), 0));
    assert_eq!(
        r,
        Some(RaftMessage::AppendResponse(AppendResponse { term: 3, success: false, match_index: 1 }))
    );
    assert_eq!(n.state.log.len(), 1);
    assert_eq!(n.store.get("b"), None);
}

#[test]
fn accepted_entry_is_logged_and_applied() {
    let mut n = node(2, 2);
    n.state.role = Role::Candidate;
    let r = n.handle_message(append(1, entry(1, 1, "name", "alice", false), 0));
    assert_eq!(
        r,
        Some(RaftMessage::AppendResponse(AppendResponse { term: 1, success: true, match_index: 1 }))
    );
    assert_eq!(n.state.role, Role::Follower);
    assert_eq!(n.state.current_term, 1);
    assert_eq!(n.state.log, vec![entry(1, 1, "name", "alice", false)]);
    assert_eq!(n.store.get("name"), Some("alice".to_string()));
    assert_eq!(n.state.commit_index, 0);
    let r = n.handle_message(append(1, entry(1, 2, "name", "", true), 9));
    assert_eq!(
        r,
        Some(RaftMessage::AppendResponse(AppendResponse { term: 1, success: true, match_index: 2 }))
    );
    assert_eq!(n.store.get("name"), None);
    assert_eq!(n.state.commit_index, 2);
    n.handle_message(append(1, entry(1, 3, "x", "y", false), 2));
    assert_eq!(n.state.commit_index, 2);
    n.handle_message(append(1, entry(1, 4, "x", "z", false), 3));
    assert_eq!(n.state.commit_index, 3);
}

#[test]
fn responses_need_no_answer() {
    let mut n = node(1, 2);
    let r = n.handle_message(RaftMessage::VoteResponse(VoteResponse { term: 9, granted: true }));
    assert_eq!(r, None);
    let r = n.handle_message(RaftMessage::AppendResponse(AppendResponse { term: 9, success: true, match_index: 3 }));
    assert_eq!(r, None);
    assert_eq!(n.state.current_term, 0);
}

#[test]
fn only_the_leader_sends_heartbeats() {
    let mut n = node(3, 2);
    assert_eq!(n.heartbeat(), None);
    n.state.role = Role::Leader;
    n.state.current_term = 7;
    assert_eq!(n.heartbeat(), Some(RaftMessage::Heartbeat(Heartbeat { term: 7, leader_id: 3 })));
}

#[test]
fn follower_refuses_proposals() {
    let mut n = node(1, 2);
    assert!(n.propose_begin("k".to_string(), "v".to_string(), false).is_none());
    assert!(n.state.log.is_empty());
    assert_eq!(n.store.get("k"), None);
}

#[test]
fn proposal_committed_by_a_majority() {
    let mut n = node(1, 2);
    n.state.role = Role::Leader;
    n.state.current_term = 2;
    let mut p = n.propose_begin("name".to_string(), "alice".to_string(), false).unwrap();
    assert_eq!(p.entry, entry(2, 1, "name", "alice", false));
    assert_eq!(n.state.log.len(), 1);
    let step = n.propose_step(&p);
    assert_eq!(
        step,
        ProposeStep::Send {
            peer: "127.0.0.1:9100".to_string(),
            msg: append(2, entry(2, 1, "name", "alice", false), 0),
        }
    );
    n.propose_reply(
        &mut p,
        Some(RaftMessage::AppendResponse(AppendResponse { term: 2, success: true, match_index: 1 })),
    );
    assert_eq!(p.confirmations, 2);
    assert_eq!(n.state.match_index.get("127.0.0.1:9100"), Some(&1));
    match n.propose_step(&p) {
        ProposeStep::Send { peer, .. } => assert_eq!(peer, "127.0.0.1:9101"),
        other => panic!("unexpected {:?}", other),
    }
    n.propose_reply(&mut p, None);
    assert_eq!(p.confirmations, 2);
    assert_eq!(n.propose_step(&p), ProposeStep::Finished(true));
    assert_eq!(n.state.commit_index, 1);
    assert_eq!(n.state.last_applied, 1);
    assert_eq!(n.store.get("name"), Some("alice".to_string()));
}

#[test]
fn proposal_without_majority_is_neither_committed_nor_applied() {
    let mut n = node(1, 2);
    n.state.role = Role::Leader;
    n.state.current_term = 1;
    let mut p = n.propose_begin("k".to_string(), "v".to_string(), false).unwrap();
    n.propose_reply(
        &mut p,
        Some(RaftMessage::AppendResponse(AppendResponse { term: 1, success: false, match_index: 0 })),
    );
    n.propose_reply(&mut p, Some(RaftMessage::VoteResponse(VoteResponse { term: 1, granted: true })));
    assert_eq!(p.confirmations, 1);
    assert_eq!(n.propose_step(&p), ProposeStep::Finished(false));
    assert_eq!(n.state.commit_index, 0);
    assert_eq!(n.store.get("k"), None);
    assert!(n.state.match_index.is_empty());
}

#[test]
fn delete_proposal_removes_the_key() {
    let mut n = node(1, 0);
    n.store.set("k", "v");
    n.state.role = Role::Leader;
    let p = n.propose_begin("k".to_string(), String::new(), true).unwrap();
    assert_eq!(n.propose_step(&p), ProposeStep::Finished(true));
    assert_eq!(n.store.get("k"), None);
}

#[test]
fn election_won_with_a_majority() {
    let mut n = node(1, 2);
    n.state.current_term = 4;
    let mut e = n.election_begin();
    assert_eq!(e.term, 5);
    assert_eq!(e.votes, 1);
    assert_eq!(n.state.role, Role::Candidate);
    assert_eq!(n.state.current_term, 5);
    assert_eq!(n.state.voted_for, Some(1));
    assert_eq!(
        n.election_step(&e),
        ElectionStep::Send {
            peer: "127.0.0.1:9100".to_string(),
            msg: RaftMessage::VoteRequest(VoteRequest { term: 5, candidate_id: 1 }),
        }
    );
    n.election_reply(&mut e, Some(RaftMessage::VoteResponse(VoteResponse { term: 5, granted: true })));
    assert_eq!(e.votes, 2);
    n.election_reply(&mut e, None);
    assert_eq!(n.election_step(&e), ElectionStep::Finished(true));
    assert_eq!(n.state.role, Role::Leader);
}

#[test]
fn lone_node_does_not_become_leader() {
    let mut n = node(3, 2);
    let mut e = n.election_begin();
    n.election_reply(&mut e, None);
    n.election_reply(&mut e, None);
    assert_eq!(n.election_step(&e), ElectionStep::Finished(false));
    assert_eq!(n.state.role, Role::Candidate);
}

#[test]
fn denied_votes_do_not_count() {
    let mut n = node(3, 2);
    let mut e = n.election_begin();
    n.election_reply(&mut e, Some(RaftMessage::VoteResponse(VoteResponse { term: 1, granted: false })));
    n.election_reply(&mut e, Some(RaftMessage::VoteResponse(VoteResponse { term: 1, granted: false })));
    assert_eq!(e.votes, 1);
    assert_eq!(n.election_step(&e), ElectionStep::Finished(false));
}

#[test]
fn newer_term_in_a_vote_answer_ends_the_election() {
    let mut n = node(1, 2);
    let mut e = n.election_begin();
    n.election_reply(&mut e, Some(RaftMessage::VoteResponse(VoteResponse { term: 8, granted: false })));
    assert!(e.stepped_down);
    assert_eq!(n.state.role, Role::Follower);
    assert_eq!(n.state.current_term, 8);
    assert_eq!(n.state.voted_for, None);
    assert_eq!(n.election_step(&e), ElectionStep::Finished(false));
    assert_eq!(n.state.role, Role::Follower);
}

#[test]
fn election_lost_when_term_moved_on() {
    let mut n = node(1, 1);
    let mut e = n.election_begin();
    n.election_reply(&mut e, Some(RaftMessage::VoteResponse(VoteResponse { term: 1, granted: true })));
    n.handle_message(RaftMessage::Heartbeat(Heartbeat { term: 2, leader_id: 2 }));
    assert_eq!(n.election_step(&e), ElectionStep::Finished(false));
    assert_eq!(n.state.role, Role::Follower);
}
