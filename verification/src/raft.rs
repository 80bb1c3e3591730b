//! The Raft rules of one node: its persistent and volatile state, how it
//! answers the messages of its peers, and the rounds it runs as a leader
//! (replicating a write) and as a candidate (collecting votes).
use vstd::prelude::*;
use vstd::hash_map::StringHashMap;
use tokio::time::Instant;
use crate::clock::{elapsed_ms, instant_now};
use crate::store::KvStore;

verus! {

/// A candidate asks for a vote in `term`.
#[derive(Debug, Clone, PartialEq, Eq)]
pub struct VoteRequest {
    pub term: u64,
    pub candidate_id: u64,
}

/// The answer to a vote request.
#[derive(Debug, Clone, PartialEq, Eq)]
pub struct VoteResponse {
    pub term: u64,
    pub granted: bool,
}

/// A leader tells its peers that it is alive.
#[derive(Debug, Clone, PartialEq, Eq)]
pub struct Heartbeat {
    pub term: u64,
    pub leader_id: u64,
}

/// One write in the replicated log.
#[derive(Debug, PartialEq, Eq)]
pub struct LogEntry {
    pub term: u64,
    pub index: u64,
    pub key: String,
    pub value: String,
    pub is_delete: bool,
}

impl Clone for LogEntry {
    fn clone(&self) -> (r: Self)
        ensures
            r == *self,
    {
        LogEntry {
            term: self.term,
            index: self.index,
            key: self.key.clone(),
            value: self.value.clone(),
            is_delete: self.is_delete,
        }
    }
}

/// A leader hands one entry to a follower.
#[derive(Debug, Clone, PartialEq, Eq)]
pub struct AppendEntries {
    pub term: u64,
    pub leader_id: u64,
    pub entry: LogEntry,
    pub leader_commit: u64,
}

/// A follower's answer to `AppendEntries`.
#[derive(Debug, Clone, PartialEq, Eq)]
pub struct AppendResponse {
    pub term: u64,
    pub success: bool,
    pub match_index: u64,
}

/// Everything nodes send each other.
#[derive(Debug, Clone, PartialEq, Eq)]
pub enum RaftMessage {
    VoteRequest(VoteRequest),
    VoteResponse(VoteResponse),
    Heartbeat(Heartbeat),
    AppendEntries(AppendEntries),
    AppendResponse(AppendResponse),
}

/// The part a node plays in the current term.
#[derive(Debug, Clone, Copy, PartialEq, Eq, Structural)]
pub enum Role {
    Follower,
    Candidate,
    Leader,
}

/// The state of one node.
pub struct RaftState {
    pub id: u64,
    pub role: Role,
    pub current_term: u64,
    pub voted_for: Option<u64>,
    pub last_heartbeat: Instant,
    pub election_timeout_ms: u64,
    pub log: Vec<LogEntry>,
    pub commit_index: u64,
    pub last_applied: u64,
    pub match_index: StringHashMap<u64>,
}

/// The state of a node as the rules see it (the clock reading aside).
pub struct RaftView {
    pub id: u64,
    pub role: Role,
    pub current_term: u64,
    pub voted_for: Option<u64>,
    pub election_timeout_ms: u64,
    pub log: Seq<LogEntry>,
    pub commit_index: u64,
    pub last_applied: u64,
    pub match_index: Map<Seq<char>, u64>,
}

impl View for RaftState {
    type V = RaftView;

    open spec fn view(&self) -> RaftView {
        RaftView {
            id: self.id,
            role: self.role,
            current_term: self.current_term,
            voted_for: self.voted_for,
            election_timeout_ms: self.election_timeout_ms,
            log: self.log@,
            commit_index: self.commit_index,
            last_applied: self.last_applied,
            match_index: self.match_index@,
        }
    }
}

/// How many nodes, this one included, make a majority of a cluster in
/// which a node has `peers` peers.
pub open spec fn majority(peers: nat) -> nat {
    ((peers + 1) / 2 + 1) as nat
}

/// The election timeout of node `id`, in milliseconds.
pub open spec fn timeout_for(id: u64) -> int {
    3000 + id * 1000
}

/// The contents of a store after `e` is applied to contents `m`.
pub open spec fn apply_entry(m: Map<Seq<char>, Seq<char>>, e: LogEntry) -> Map<Seq<char>, Seq<char>> {
    if e.is_delete {
        m.remove(e.key@)
    } else {
        m.insert(e.key@, e.value@)
    }
}

/// A node whose term is raised to `term` when `term` is newer than its own:
/// it then forgets its vote and follows.
pub open spec fn adopt_term(s: RaftView, term: u64) -> RaftView {
    if term > s.current_term {
        RaftView { current_term: term, voted_for: None, role: Role::Follower, ..s }
    } else {
        s
    }
}

/// Whether a node in state `s` grants the vote that `req` asks for.
pub open spec fn grants_vote(s: RaftView, req: VoteRequest) -> bool {
    let t = adopt_term(s, req.term);
    req.term >= t.current_term && (t.voted_for is None || t.voted_for == Some(req.candidate_id))
}

/// The state after a node in state `s` answers `req`.
pub open spec fn after_vote_request(s: RaftView, req: VoteRequest) -> RaftView {
    let t = adopt_term(s, req.term);
    if grants_vote(s, req) {
        RaftView { voted_for: Some(req.candidate_id), ..t }
    } else {
        t
    }
}

/// The state after a node in state `s` hears heartbeat `hb`: a leader of
/// the current or a newer term makes it a follower; a newer term also
/// clears its vote, while the vote of the current term stands.
pub open spec fn after_heartbeat(s: RaftView, hb: Heartbeat) -> RaftView {
    if hb.term > s.current_term {
        RaftView { current_term: hb.term, role: Role::Follower, voted_for: None, ..s }
    } else if hb.term == s.current_term {
        RaftView { role: Role::Follower, ..s }
    } else {
        s
    }
}

/// The commit index after a follower whose log is `len` long learns that
/// the leader has committed up to `leader_commit`.
pub open spec fn follower_commit(commit: u64, leader_commit: u64, len: u64) -> u64 {
    if leader_commit > commit {
        if leader_commit < len {
            leader_commit
        } else {
            len
        }
    } else {
        commit
    }
}

/// The state after a node in state `s` accepts or refuses `ae`.
pub open spec fn after_append(s: RaftView, ae: AppendEntries) -> RaftView {
    if ae.term < s.current_term {
        s
    } else {
        let log = s.log.push(ae.entry);
        RaftView {
            current_term: ae.term,
            role: Role::Follower,
            log: log,
            commit_index: follower_commit(s.commit_index, ae.leader_commit, log.len() as u64),
            ..s
        }
    }
}

/// The answer of a node in state `s` to `ae`.
pub open spec fn append_reply(s: RaftView, ae: AppendEntries) -> AppendResponse {
    if ae.term < s.current_term {
        AppendResponse { term: s.current_term, success: false, match_index: s.log.len() as u64 }
    } else {
        AppendResponse { term: ae.term, success: true, match_index: (s.log.len() + 1) as u64 }
    }
}

/// The state after a node in state `s` handles `msg`.
pub open spec fn after_message(s: RaftView, msg: RaftMessage) -> RaftView {
    match msg {
        RaftMessage::Heartbeat(hb) => after_heartbeat(s, hb),
        RaftMessage::VoteRequest(req) => after_vote_request(s, req),
        RaftMessage::AppendEntries(ae) => after_append(s, ae),
        _ => s,
    }
}

/// The store contents after a node in state `s`, with store contents `m`,
/// handles `msg`: an accepted entry is applied.
pub open spec fn store_after_message(s: RaftView, m: Map<Seq<char>, Seq<char>>, msg: RaftMessage) -> Map<Seq<char>, Seq<char>> {
    match msg {
        RaftMessage::AppendEntries(ae) => if ae.term < s.current_term {
            m
        } else {
            apply_entry(m, ae.entry)
        },
        _ => m,
    }
}

/// What a node in state `s` answers to `msg`.
pub open spec fn reply_to(s: RaftView, msg: RaftMessage) -> Option<RaftMessage> {
    match msg {
        RaftMessage::VoteRequest(req) => Some(RaftMessage::VoteResponse(VoteResponse {
            term: after_vote_request(s, req).current_term,
            granted: grants_vote(s, req),
        })),
        RaftMessage::AppendEntries(ae) => Some(RaftMessage::AppendResponse(append_reply(s, ae))),
        _ => None,
    }
}

/// Whether handling `msg` in state `s` restarts the election timer: a
/// heartbeat or an entry from a leader whose term is not behind.
pub open spec fn restarts_timer(s: RaftView, msg: RaftMessage) -> bool {
    match msg {
        RaftMessage::Heartbeat(hb) => hb.term >= s.current_term,
        RaftMessage::AppendEntries(ae) => ae.term >= s.current_term,
        _ => false,
    }
}

/// The state of node `id` when it starts: a follower in term 0 with an
/// empty log.
pub open spec fn initial_view(id: u64) -> RaftView {
    RaftView {
        id: id,
        role: Role::Follower,
        current_term: 0,
        voted_for: None,
        election_timeout_ms: timeout_for(id) as u64,
        log: Seq::empty(),
        commit_index: 0,
        last_applied: 0,
        match_index: Map::empty(),
    }
}

/// The commit index points into the log.
pub open spec fn commit_in_log(s: RaftView) -> bool {
    s.commit_index <= s.log.len()
}

impl RaftState {
    /// A follower in term 0 with an empty log, whose election timeout grows
    /// with its id so that nodes time out one after another.
    pub fn new(id: u64) -> (s: Self)
        requires
            timeout_for(id) <= u64::MAX,
        ensures
            s@ == initial_view(id),
    {
        let election_timeout_ms: u64 = 3000 + (id * 1000);
        let s = RaftState {
            id,
            role: Role::Follower,
            current_term: 0,
            voted_for: None,
            last_heartbeat: instant_now(),
            election_timeout_ms,
            log: Vec::new(),
            commit_index: 0,
            last_applied: 0,
            match_index: StringHashMap::new(),
        };
        assert(s@.log =~= Seq::<LogEntry>::empty());
        s
    }

    /// Whether the election timer has run out for a node that is not the
    /// leader. How long ago the last heartbeat was is read from the clock:
    /// the result is the timer rule applied to that reading, whatever it was.
    pub fn election_due(&self) -> (r: bool)
        ensures
            exists|elapsed: u64| r == #[trigger] timer_expired(self.role, elapsed, self.election_timeout_ms),
            r ==> self.role != Role::Leader,
            self.role != Role::Leader && self.election_timeout_ms == 0 ==> r,
    {
        let elapsed = elapsed_ms(&self.last_heartbeat);
        self.election_due_after(elapsed)
    }

    /// Whether the election timer has run out for a node whose last
    /// heartbeat was `elapsed_ms` milliseconds ago: it has, exactly when the
    /// node is not the leader and that much time is at least its timeout.
    pub fn election_due_after(&self, elapsed_ms: u64) -> (r: bool)
        ensures
            r == (self.role != Role::Leader && elapsed_ms >= self.election_timeout_ms),
            r == timer_expired(self.role, elapsed_ms, self.election_timeout_ms),
    {
        election_timed_out(self.role, elapsed_ms, self.election_timeout_ms)
    }

    /// Restarts the election timer at clock reading `now`; the rest of the
    /// state is unchanged.
    pub fn restart_timer_at(&mut self, now: Instant)
        ensures
            final(self)@ == old(self)@,
            final(self).last_heartbeat == now,
    {
        self.last_heartbeat = now;
    }

    /// Restarts the election timer at the time the clock reads now; the rest
    /// of the state is unchanged.
    pub fn restart_timer(&mut self)
        ensures
            final(self)@ == old(self)@,
    {
        let now = instant_now();
        self.restart_timer_at(now);
    }
}

/// Whether a node in `role`, whose last heartbeat was `elapsed` milliseconds
/// ago and whose timeout is `timeout` milliseconds, starts an election.
pub open spec fn timer_expired(role: Role, elapsed: u64, timeout: u64) -> bool {
    role != Role::Leader && elapsed >= timeout
}

/// Whether a node in `role`, whose last heartbeat was `elapsed_ms` ago and
/// whose timeout is `timeout_ms`, starts an election.
pub fn election_timed_out(role: Role, elapsed_ms: u64, timeout_ms: u64) -> (r: bool)
    ensures
        r == timer_expired(role, elapsed_ms, timeout_ms),
{
    role != Role::Leader && elapsed_ms >= timeout_ms
}

/// The number of nodes that make a majority when a node has `peers` peers.
pub fn majority_of(peers: usize) -> (r: usize)
    ensures
        r == majority(peers as nat),
{
    peers / 2 + peers % 2 + 1
}

/// Applies a committed or replicated entry to the store.
pub fn apply_to_store(store: &mut KvStore, e: &LogEntry)
    ensures
        final(store)@ == apply_entry(old(store)@, *e),
        !e.is_delete ==> final(store)@ == old(store)@.insert(e.key@, e.value@),
        e.is_delete ==> final(store)@ == old(store)@.remove(e.key@),
{
    if e.is_delete {
        store.delete(e.key.as_str());
    } else {
        store.set(e.key.as_str(), e.value.as_str());
    }
}

/// One node: its state, the Raft addresses of its peers, its own Raft port
/// and the store it applies writes to.
pub struct RaftNode {
    pub state: RaftState,
    pub peers: Vec<String>,
    pub port: u16,
    pub store: KvStore,
}

/// A write that a leader has appended to its own log and is replicating.
pub struct Proposal {
    pub entry: LogEntry,
    pub confirmations: usize,
    pub next_peer: usize,
}

impl Proposal {
    /// The peers before `next_peer` have been asked, and each confirmation
    /// beyond the leader's own came from one of them.
    pub open spec fn wf(&self, peers: nat) -> bool {
        &&& self.next_peer <= peers
        &&& 1 <= self.confirmations <= self.next_peer + 1
    }
}

/// What a leader does next with a proposal.
#[derive(Debug, PartialEq, Eq)]
pub enum ProposeStep {
    /// Send `msg` to the peer at address `peer`, and hand back its answer.
    Send { peer: String, msg: RaftMessage },
    /// The round is over; whether a majority stored the entry.
    Finished(bool),
}

/// An election that a candidate is running.
pub struct Election {
    pub term: u64,
    pub candidate_id: u64,
    pub votes: usize,
    pub next_peer: usize,
    pub stepped_down: bool,
}

impl Election {
    /// The peers before `next_peer` have been asked, and each vote beyond
    /// the candidate's own came from one of them.
    pub open spec fn wf(&self, peers: nat) -> bool {
        &&& self.next_peer <= peers
        &&& 1 <= self.votes <= self.next_peer + 1
    }
}

/// What a candidate does next in an election.
#[derive(Debug, PartialEq, Eq)]
pub enum ElectionStep {
    /// Send `msg` to the peer at address `peer`, and hand back its answer.
    Send { peer: String, msg: RaftMessage },
    /// The election is over; whether this node became the leader.
    Finished(bool),
}

impl RaftNode {
    /// A node that starts as a follower, with `peers` as the Raft addresses
    /// of the other nodes.
    pub fn new(id: u64, port: u16, peers: Vec<String>, store: KvStore) -> (n: Self)
        requires
            timeout_for(id) <= u64::MAX,
        ensures
            n.state@ == initial_view(id),
            n.peers@ == peers@,
            n.port == port,
            n.store@ == store@,
    {
        RaftNode { state: RaftState::new(id), peers, port, store }
    }
    /// Handles one message from a peer, at clock reading `now`, and gives
    /// the answer to send back, if the message calls for one. An entry that
    /// is accepted is appended to the log and applied to the store; a
    /// heartbeat or entry from a leader whose term is not behind restarts
    /// the election timer at `now`.
    pub fn handle_message_at(&mut self, msg: RaftMessage, now: Instant) -> (r: Option<RaftMessage>)
        ensures
            final(self).state@ == after_message(old(self).state@, msg),
            final(self).store@ == store_after_message(old(self).state@, old(self).store@, msg),
            r == reply_to(old(self).state@, msg),
            final(self).peers@ == old(self).peers@,
            final(self).port == old(self).port,
            restarts_timer(old(self).state@, msg) ==> final(self).state.last_heartbeat == now,
            !restarts_timer(old(self).state@, msg) ==> final(self).state.last_heartbeat
                == old(self).state.last_heartbeat,
            old(self).state@.log.is_prefix_of(final(self).state@.log),
            final(self).state@.log.len() <= old(self).state@.log.len() + 1,
            commit_in_log(old(self).state@) ==> commit_in_log(final(self).state@)
                && old(self).state.commit_index <= final(self).state.commit_index,
    {
        match msg {
            RaftMessage::Heartbeat(hb) => {
                if hb.term >= self.state.current_term {
                    if hb.term > self.state.current_term {
                        self.state.voted_for = None;
                    }
                    self.state.current_term = hb.term;
                    self.state.role = Role::Follower;
                    self.state.last_heartbeat = now;
                }
                None
            },
            RaftMessage::VoteRequest(req) => {
                if req.term > self.state.current_term {
                    self.state.current_term = req.term;
                    self.state.voted_for = None;
                    self.state.role = Role::Follower;
                }
                let free = match self.state.voted_for {
                    None => true,
                    Some(v) => v == req.candidate_id,
                };
                let granted = req.term >= self.state.current_term && free;
                if granted {
                    self.state.voted_for = Some(req.candidate_id);
                }
                Some(RaftMessage::VoteResponse(VoteResponse { term: self.state.current_term, granted }))
            },
            RaftMessage::AppendEntries(ae) => {
                if ae.term < self.state.current_term {
                    return Some(
                        RaftMessage::AppendResponse(
                            AppendResponse {
                                term: self.state.current_term,
                                success: false,
                                match_index: self.state.log.len() as u64,
                            },
                        ),
                    );
                }
                self.state.current_term = ae.term;
                self.state.role = Role::Follower;
                self.state.last_heartbeat = now;
                let term = ae.term;
                let leader_commit = ae.leader_commit;
                let entry = ae.entry;
                apply_to_store(&mut self.store, &entry);
                self.state.log.push(entry);
                let match_index = self.state.log.len() as u64;
                if leader_commit > self.state.commit_index {
                    self.state.commit_index = if leader_commit < match_index {
                        leader_commit
                    } else {
                        match_index
                    };
                }
                Some(RaftMessage::AppendResponse(AppendResponse { term, success: true, match_index }))
            },
            RaftMessage::VoteResponse(_) => None,
            RaftMessage::AppendResponse(_) => None,
        }
    }

    /// Handles one message from a peer and gives the answer to send back,
    /// if the message calls for one; the election timer, where the message
    /// restarts it, restarts at the time the clock reads now.
    pub fn handle_message(&mut self, msg: RaftMessage) -> (r: Option<RaftMessage>)
        ensures
            final(self).state@ == after_message(old(self).state@, msg),
            final(self).store@ == store_after_message(old(self).state@, old(self).store@, msg),
            r == reply_to(old(self).state@, msg),
            final(self).peers@ == old(self).peers@,
            final(self).port == old(self).port,
            !restarts_timer(old(self).state@, msg) ==> final(self).state.last_heartbeat
                == old(self).state.last_heartbeat,
            old(self).state@.log.is_prefix_of(final(self).state@.log),
            final(self).state@.log.len() <= old(self).state@.log.len() + 1,
            commit_in_log(old(self).state@) ==> commit_in_log(final(self).state@)
                && old(self).state.commit_index <= final(self).state.commit_index,
    {
        let now = instant_now();
        self.handle_message_at(msg, now)
    }
    /// The heartbeat a leader sends its peers; a node that is not the
    /// leader sends none.
    pub fn heartbeat(&self) -> (r: Option<RaftMessage>)
        ensures
            r == (if self.state.role == Role::Leader {
                Some(RaftMessage::Heartbeat(Heartbeat { term: self.state.current_term, leader_id: self.state.id }))
            } else {
                None
            }),
    {
        if self.state.role == Role::Leader {
            Some(RaftMessage::Heartbeat(Heartbeat { term: self.state.current_term, leader_id: self.state.id }))
        } else {
            None
        }
    }

    /// Starts replicating a write. A node that is not the leader refuses
    /// (`None`) and changes nothing; the leader appends the entry to its own
    /// log at the next index and counts itself as the first confirmation.
    pub fn propose_begin(&mut self, key: String, value: String, is_delete: bool) -> (r: Option<Proposal>)
        requires
            old(self).state.log.len() < u64::MAX,
        ensures
            old(self).state.role != Role::Leader ==> {
                &&& r is None
                &&& final(self).state@ == old(self).state@
            },
            old(self).state.role == Role::Leader ==> {
                let entry = LogEntry {
                    term: old(self).state.current_term,
                    index: (old(self).state.log.len() + 1) as u64,
                    key: key,
                    value: value,
                    is_delete: is_delete,
                };
                &&& r == Some(Proposal { entry: entry, confirmations: 1, next_peer: 0 })
                &&& final(self).state@ == (RaftView { log: old(self).state@.log.push(entry), ..old(self).state@ })
            },
            final(self).store@ == old(self).store@,
            final(self).peers@ == old(self).peers@,
            final(self).port == old(self).port,
            final(self).state.last_heartbeat == old(self).state.last_heartbeat,
    {
        if self.state.role != Role::Leader {
            return None;
        }
        let next_index = self.state.log.len() as u64 + 1;
        let entry = LogEntry { term: self.state.current_term, index: next_index, key, value, is_delete };
        self.state.log.push(entry.clone());
        Some(Proposal { entry, confirmations: 1, next_peer: 0 })
    }

    /// The next move of a leader replicating `p`. While peers remain to be
    /// asked, it is the entry to send to the next one, with the leader's
    /// current commit index, and nothing changes. Once every peer has been
    /// asked, the entry is committed and applied to the store if a majority
    /// stored it, and the result is whether it was committed.
    pub fn propose_step(&mut self, p: &Proposal) -> (r: ProposeStep)
        requires
            p.wf(old(self).peers.len() as nat),
        ensures
            final(self).peers@ == old(self).peers@,
            final(self).port == old(self).port,
            final(self).state.last_heartbeat == old(self).state.last_heartbeat,
            p.next_peer < old(self).peers.len() ==> {
                &&& r == ProposeStep::Send {
                    peer: old(self).peers@[p.next_peer as int],
                    msg: RaftMessage::AppendEntries(AppendEntries {
                        term: p.entry.term,
                        leader_id: old(self).state.id,
                        entry: p.entry,
                        leader_commit: old(self).state.commit_index,
                    }),
                }
                &&& final(self).state@ == old(self).state@
                &&& final(self).store@ == old(self).store@
            },
            p.next_peer >= old(self).peers.len() ==> {
                let committed = p.confirmations >= majority(old(self).peers.len() as nat);
                &&& r == ProposeStep::Finished(committed)
                &&& final(self).state@ == (if committed {
                    RaftView { commit_index: p.entry.index, last_applied: p.entry.index, ..old(self).state@ }
                } else {
                    old(self).state@
                })
                &&& final(self).store@ == (if committed {
                    apply_entry(old(self).store@, p.entry)
                } else {
                    old(self).store@
                })
            },
            commit_in_log(old(self).state@) && p.entry.index <= old(self).state.log.len()
                ==> commit_in_log(final(self).state@),
    {
        if p.next_peer < self.peers.len() {
            let msg = RaftMessage::AppendEntries(AppendEntries {
                term: p.entry.term,
                leader_id: self.state.id,
                entry: p.entry.clone(),
                leader_commit: self.state.commit_index,
            });
            return ProposeStep::Send { peer: self.peers[p.next_peer].clone(), msg };
        }
        let majority = majority_of(self.peers.len());
        let committed = p.confirmations >= majority;
        if committed {
            self.state.commit_index = p.entry.index;
            self.state.last_applied = p.entry.index;
            apply_to_store(&mut self.store, &p.entry);
        }
        ProposeStep::Finished(committed)
    }

    /// Takes the answer of the peer that `p` was sent to last (`None` when
    /// it could not be reached or sent something else). A successful
    /// `AppendResponse` counts as a confirmation and records how far that
    /// peer's log matches; the round moves on to the next peer either way.
    pub fn propose_reply(&mut self, p: &mut Proposal, reply: Option<RaftMessage>)
        requires
            old(p).wf(old(self).peers.len() as nat),
            old(p).next_peer < old(self).peers.len(),
            old(self).peers.len() < usize::MAX,
        ensures
            final(p).wf(final(self).peers.len() as nat),
            final(p).entry == old(p).entry,
            final(p).next_peer == old(p).next_peer + 1,
            final(self).peers@ == old(self).peers@,
            final(self).port == old(self).port,
            final(self).store@ == old(self).store@,
            final(self).state.last_heartbeat == old(self).state.last_heartbeat,
            match reply {
                Some(RaftMessage::AppendResponse(resp)) if resp.success => {
                    &&& final(p).confirmations == old(p).confirmations + 1
                    &&& final(self).state@ == (RaftView {
                        match_index: old(self).state@.match_index.insert(
                            old(self).peers@[old(p).next_peer as int]@,
                            resp.match_index,
                        ),
                        ..old(self).state@
                    })
                },
                _ => {
                    &&& final(p).confirmations == old(p).confirmations
                    &&& final(self).state@ == old(self).state@
                },
            },
    {
        if let Some(RaftMessage::AppendResponse(resp)) = reply {
            if resp.success {
                p.confirmations = p.confirmations + 1;
                let peer = self.peers[p.next_peer].clone();
                self.state.match_index.insert(peer, resp.match_index);
            }
        }
        p.next_peer = p.next_peer + 1;
    }
    /// Starts an election: the node becomes a candidate in the next term
    /// and votes for itself.
    pub fn election_begin(&mut self) -> (e: Election)
        requires
            old(self).state.current_term < u64::MAX,
        ensures
            final(self).state@ == (RaftView {
                role: Role::Candidate,
                current_term: (old(self).state.current_term + 1) as u64,
                voted_for: Some(old(self).state.id),
                ..old(self).state@
            }),
            e == (Election {
                term: (old(self).state.current_term + 1) as u64,
                candidate_id: old(self).state.id,
                votes: 1,
                next_peer: 0,
                stepped_down: false,
            }),
            final(self).peers@ == old(self).peers@,
            final(self).port == old(self).port,
            final(self).store@ == old(self).store@,
            final(self).state.last_heartbeat == old(self).state.last_heartbeat,
    {
        self.state.role = Role::Candidate;
        self.state.current_term = self.state.current_term + 1;
        self.state.voted_for = Some(self.state.id);
        Election {
            term: self.state.current_term,
            candidate_id: self.state.id,
            votes: 1,
            next_peer: 0,
            stepped_down: false,
        }
    }

    /// The next move of a candidate running `e`. An election in which the
    /// candidate stepped down is over and lost. While peers remain to be
    /// asked, it is the vote request for the next one, and nothing changes.
    /// Once every peer has been asked, the node becomes the leader if a
    /// majority voted for it and it is still the candidate of that term.
    pub fn election_step(&mut self, e: &Election) -> (r: ElectionStep)
        requires
            e.wf(old(self).peers.len() as nat),
        ensures
            final(self).peers@ == old(self).peers@,
            final(self).port == old(self).port,
            final(self).store@ == old(self).store@,
            final(self).state.last_heartbeat == old(self).state.last_heartbeat,
            e.stepped_down ==> r == ElectionStep::Finished(false) && final(self).state@ == old(self).state@,
            !e.stepped_down && e.next_peer < old(self).peers.len() ==> {
                &&& r == ElectionStep::Send {
                    peer: old(self).peers@[e.next_peer as int],
                    msg: RaftMessage::VoteRequest(VoteRequest { term: e.term, candidate_id: e.candidate_id }),
                }
                &&& final(self).state@ == old(self).state@
            },
            !e.stepped_down && e.next_peer >= old(self).peers.len() ==> {
                let won = e.votes >= majority(old(self).peers.len() as nat)
                    && old(self).state.role == Role::Candidate
                    && old(self).state.current_term == e.term;
                &&& r == ElectionStep::Finished(won)
                &&& final(self).state@ == (if won {
                    RaftView { role: Role::Leader, ..old(self).state@ }
                } else {
                    old(self).state@
                })
            },
    {
        if e.stepped_down {
            return ElectionStep::Finished(false);
        }
        if e.next_peer < self.peers.len() {
            let msg = RaftMessage::VoteRequest(VoteRequest { term: e.term, candidate_id: e.candidate_id });
            return ElectionStep::Send { peer: self.peers[e.next_peer].clone(), msg };
        }
        let majority = majority_of(self.peers.len());
        let won = e.votes >= majority && self.state.role == Role::Candidate && self.state.current_term == e.term;
        if won {
            self.state.role = Role::Leader;
        }
        ElectionStep::Finished(won)
    }

    /// Takes the answer of the peer that the last vote request of `e` went
    /// to (`None` when it could not be reached or sent something else). An
    /// answer from a newer term makes the node a follower of that term with
    /// no vote, and ends the election; a granted vote is counted; the
    /// election moves on to the next peer.
    pub fn election_reply(&mut self, e: &mut Election, reply: Option<RaftMessage>)
        requires
            old(e).wf(old(self).peers.len() as nat),
            !old(e).stepped_down,
            old(e).next_peer < old(self).peers.len(),
            old(self).peers.len() < usize::MAX,
        ensures
            final(e).wf(final(self).peers.len() as nat),
            final(e).term == old(e).term,
            final(e).candidate_id == old(e).candidate_id,
            final(e).next_peer == old(e).next_peer + 1,
            final(self).peers@ == old(self).peers@,
            final(self).port == old(self).port,
            final(self).store@ == old(self).store@,
            final(self).state.last_heartbeat == old(self).state.last_heartbeat,
            match reply {
                Some(RaftMessage::VoteResponse(resp)) => if resp.term > old(e).term {
                    &&& final(e).stepped_down
                    &&& final(e).votes == old(e).votes
                    &&& final(self).state@ == (RaftView {
                        current_term: resp.term,
                        role: Role::Follower,
                        voted_for: None,
                        ..old(self).state@
                    })
                } else {
                    &&& !final(e).stepped_down
                    &&& final(e).votes == old(e).votes + if resp.granted { 1usize } else { 0usize }
                    &&& final(self).state@ == old(self).state@
                },
                _ => {
                    &&& !final(e).stepped_down
                    &&& final(e).votes == old(e).votes
                    &&& final(self).state@ == old(self).state@
                },
            },
    {
        if let Some(RaftMessage::VoteResponse(resp)) = reply {
            if resp.term > e.term {
                self.state.current_term = resp.term;
                self.state.role = Role::Follower;
                self.state.voted_for = None;
                e.stepped_down = true;
            } else if resp.granted {
                e.votes = e.votes + 1;
            }
        }
        e.next_peer = e.next_peer + 1;
    }
}

/// Any two majorities of the same cluster share at least one node, so two
/// candidates cannot both collect a majority of the votes of one term, and
/// a committed write is held by a node of every later majority. A majority
/// is never more than the whole cluster.
pub proof fn lemma_majorities_overlap(peers: nat)
    ensures
        2 * majority(peers) > peers + 1,
        peers >= 1 ==> majority(peers) <= peers + 1,
{
}

/// A node that has at least one peer cannot become leader, nor commit a
/// write, on its own vote or confirmation alone.
pub proof fn lemma_lone_node_has_no_majority(peers: nat)
    ensures
        peers >= 1 ==> 1 < majority(peers),
{
}

/// Handling a message never moves a node back to an older term, never
/// makes it the leader, and never removes or changes an entry of its log:
/// the log either stays as it was or grows by the one entry it accepted.
pub proof fn lemma_message_keeps_term_role_and_log(s: RaftView, msg: RaftMessage)
    ensures
        after_message(s, msg).current_term >= s.current_term,
        after_message(s, msg).role == s.role || after_message(s, msg).role == Role::Follower,
        after_message(s, msg).log == s.log || (msg matches RaftMessage::AppendEntries(ae)
            && after_message(s, msg).log == s.log.push(ae.entry)),
        s.log.is_prefix_of(after_message(s, msg).log),
{
    let t = after_message(s, msg);
    if let RaftMessage::AppendEntries(ae) = msg {
        if ae.term >= s.current_term {
            assert(t.log.subrange(0, s.log.len() as int) =~= s.log);
        }
    }
}

/// While the commit index points into the log, handling a message keeps it
/// there and never lowers it (for any log whose length a `u64` can count
/// past by one, as every log in memory is).
pub proof fn lemma_message_keeps_commit(s: RaftView, msg: RaftMessage)
    requires
        commit_in_log(s),
        s.log.len() < u64::MAX,
    ensures
        commit_in_log(after_message(s, msg)),
        after_message(s, msg).commit_index >= s.commit_index,
{
}

/// Within one term a node votes for one candidate only: once it has
/// granted a vote, any message leaves that vote in place until the term
/// changes, and a request of the same term from another candidate is
/// refused.
pub proof fn lemma_one_vote_per_term(s: RaftView, req: VoteRequest, msg: RaftMessage, other: VoteRequest)
    requires
        grants_vote(s, req),
        after_message(after_vote_request(s, req), msg).current_term == req.term,
        other.term == req.term,
        other.candidate_id != req.candidate_id,
    ensures
        after_message(after_vote_request(s, req), msg).voted_for == Some(req.candidate_id),
        !grants_vote(after_message(after_vote_request(s, req), msg), other),
{
}

/// A follower that accepts an entry changes its store exactly as the leader
/// changes its own when it commits that entry, so stores that agreed
/// before agree after.
pub proof fn lemma_replicas_apply_alike(s: RaftView, m: Map<Seq<char>, Seq<char>>, ae: AppendEntries)
    requires
        ae.term >= s.current_term,
    ensures
        store_after_message(s, m, RaftMessage::AppendEntries(ae)) == apply_entry(m, ae.entry),
        after_message(s, RaftMessage::AppendEntries(ae)).log.last() == ae.entry,
{
}

/// Applying a write leaves a store in which a read of its key gives the
/// written value, whether or not the key held a value before; applying a
/// delete leaves a store in which a read of its key finds nothing. Either
/// way every other key reads as before, and the keys present are the old
/// ones with the written key added or the deleted key taken out.
pub proof fn lemma_apply_entry_reads(m: Map<Seq<char>, Seq<char>>, e: LogEntry, other: Seq<char>)
    ensures
        !e.is_delete ==> apply_entry(m, e).contains_key(e.key@) && apply_entry(m, e)[e.key@] == e.value@,
        !e.is_delete ==> apply_entry(m, e).dom() == m.dom().insert(e.key@),
        e.is_delete ==> !apply_entry(m, e).contains_key(e.key@),
        e.is_delete ==> apply_entry(m, e).dom() == m.dom().remove(e.key@),
        other != e.key@ ==> (apply_entry(m, e).contains_key(other) == m.contains_key(other)),
        other != e.key@ && m.contains_key(other) ==> apply_entry(m, e)[other] == m[other],
{
    assert(!e.is_delete ==> apply_entry(m, e).dom() =~= m.dom().insert(e.key@));
    assert(e.is_delete ==> apply_entry(m, e).dom() =~= m.dom().remove(e.key@));
}

/// A heartbeat from a leader whose term is not behind makes the node a
/// follower in that term, whatever its role was, and needs no answer; a
/// newer term clears its vote and the current term keeps it. A heartbeat
/// from an older term changes nothing.
pub proof fn lemma_heartbeat_makes_follower(s: RaftView, hb: Heartbeat)
    ensures
        hb.term >= s.current_term ==> {
            let t = after_message(s, RaftMessage::Heartbeat(hb));
            &&& t.role == Role::Follower
            &&& t.current_term == hb.term
            &&& t.log == s.log
            &&& t.commit_index == s.commit_index
        },
        hb.term > s.current_term ==> after_message(s, RaftMessage::Heartbeat(hb)).voted_for is None,
        hb.term == s.current_term ==> after_message(s, RaftMessage::Heartbeat(hb)).voted_for == s.voted_for,
        hb.term < s.current_term ==> after_message(s, RaftMessage::Heartbeat(hb)) == s,
        reply_to(s, RaftMessage::Heartbeat(hb)) is None,
{
}

/// A vote request from a newer term makes the node a follower in that term,
/// whatever its role was, and the vote is granted to that candidate and
/// recorded; the answer carries the new term. A request from an older term
/// is refused and changes nothing.
pub proof fn lemma_newer_vote_request_makes_follower(s: RaftView, req: VoteRequest)
    ensures
        req.term > s.current_term ==> {
            let t = after_message(s, RaftMessage::VoteRequest(req));
            &&& t.role == Role::Follower
            &&& t.current_term == req.term
            &&& t.voted_for == Some(req.candidate_id)
            &&& t.log == s.log
            &&& reply_to(s, RaftMessage::VoteRequest(req)) == Some(
                RaftMessage::VoteResponse(VoteResponse { term: req.term, granted: true }),
            )
        },
        req.term < s.current_term ==> {
            &&& after_message(s, RaftMessage::VoteRequest(req)) == s
            &&& reply_to(s, RaftMessage::VoteRequest(req)) == Some(
                RaftMessage::VoteResponse(VoteResponse { term: s.current_term, granted: false }),
            )
        },
{
}

/// An entry from a leader whose term is not behind is accepted: the node
/// becomes a follower in that term, whatever its role was, appends the
/// entry after the entries it had, applies it to its store (so a write is
/// read back with its value), and answers with success and its new log
/// length. An entry from an older term is refused and changes nothing.
pub proof fn lemma_append_entries_accepted(s: RaftView, m: Map<Seq<char>, Seq<char>>, ae: AppendEntries)
    ensures
        ae.term >= s.current_term ==> {
            let t = after_message(s, RaftMessage::AppendEntries(ae));
            let m2 = store_after_message(s, m, RaftMessage::AppendEntries(ae));
            &&& t.role == Role::Follower
            &&& t.current_term == ae.term
            &&& t.voted_for == s.voted_for
            &&& t.log.len() == s.log.len() + 1
            &&& t.log.last() == ae.entry
            &&& t.log.subrange(0, s.log.len() as int) == s.log
            &&& (!ae.entry.is_delete ==> m2.contains_key(ae.entry.key@) && m2[ae.entry.key@] == ae.entry.value@)
            &&& (ae.entry.is_delete ==> !m2.contains_key(ae.entry.key@))
            &&& reply_to(s, RaftMessage::AppendEntries(ae)) == Some(
                RaftMessage::AppendResponse(AppendResponse {
                    term: ae.term,
                    success: true,
                    match_index: (s.log.len() + 1) as u64,
                }),
            )
        },
        ae.term < s.current_term ==> {
            &&& after_message(s, RaftMessage::AppendEntries(ae)) == s
            &&& store_after_message(s, m, RaftMessage::AppendEntries(ae)) == m
            &&& reply_to(s, RaftMessage::AppendEntries(ae)) == Some(
                RaftMessage::AppendResponse(AppendResponse {
                    term: s.current_term,
                    success: false,
                    match_index: s.log.len() as u64,
                }),
            )
        },
{
    if ae.term >= s.current_term {
        let t = after_message(s, RaftMessage::AppendEntries(ae));
        assert(t.log.subrange(0, s.log.len() as int) =~= s.log);
    }
}

/// The election timer runs out only for a node that is not the leader, it
/// runs out once the time since the last heartbeat reaches the timeout, and
/// once run out it stays run out as more time passes.
pub proof fn lemma_timer_rule(role: Role, elapsed: u64, later: u64, timeout: u64)
    ensures
        role == Role::Leader ==> !timer_expired(role, elapsed, timeout),
        role != Role::Leader && elapsed >= timeout ==> timer_expired(role, elapsed, timeout),
        elapsed < timeout ==> !timer_expired(role, elapsed, timeout),
        timer_expired(role, elapsed, timeout) && elapsed <= later ==> timer_expired(role, later, timeout),
{
}

} // verus!
