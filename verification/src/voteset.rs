//! Signed follower votes, deduplicated per (height, round, step, voter).
//!
//! The log itself deduplicates nothing: every vote is appended. The view
//! applies a distinct-on over the rows in ingestion order, so for a given
//! (height, round, step) a voter's first vote is authoritative and later
//! votes from the same voter for the same key are discarded — first wins,
//! not last. The surviving votes are aggregated into a `VoteSet`: one entry
//! per sender, and a tally of votes per proposed hash.

use vstd::prelude::*;
use vstd::pervasive::VecAdditionalExecFns;
use vstd::string::StringExecFns;
use crate::interface::MaterializeOperator;
use crate::Address;

verus! {

/// A phase of one consensus round.
#[derive(Clone, Copy, PartialEq, Eq, Structural, Debug)]
pub enum Step {
    Propose,
    Prevote,
    Precommit,
    Commit,
}

/// What a follower voted for: a proposal hash, or none to signal abstention.
#[derive(Clone, Copy, PartialEq, Eq, Debug)]
pub struct FollowerVote {
    pub height: u64,
    pub round: u64,
    pub step: Step,
    pub hash: Option<u64>,
}

/// A follower vote together with its signature bytes. The signature is
/// carried, never inspected.
#[derive(Clone, Debug)]
pub struct SignedFollowerVote {
    pub sig: Vec<u8>,
    pub vote: FollowerVote,
}

/// One appended vote record: who voted, and the signed vote.
#[derive(Clone, Debug)]
pub struct VoteEntity {
    pub address: Address,
    pub vote: SignedFollowerVote,
}

/// Field-for-field agreement of a stored record with a sender and a vote.
pub open spec fn vote_entity_like(e: VoteEntity, sender: Address, sv: SignedFollowerVote) -> bool {
    &&& e.address == sender
    &&& e.vote.vote == sv.vote
    &&& e.vote.sig@ == sv.sig@
}

/// Whether a record carries the given key.
pub open spec fn vote_matches(e: VoteEntity, height: u64, round: u64, step: Step) -> bool {
    &&& e.vote.vote.height == height
    &&& e.vote.vote.round == round
    &&& e.vote.vote.step == step
}

/// The records of `s` that carry the given key, in order.
pub open spec fn matching_votes(s: Seq<VoteEntity>, height: u64, round: u64, step: Step) -> Seq<
    VoteEntity,
>
    decreases s.len(),
{
    if s.len() == 0 {
        Seq::<VoteEntity>::empty()
    } else {
        let rest = matching_votes(s.drop_last(), height, round, step);
        if vote_matches(s.last(), height, round, step) {
            rest.push(s.last())
        } else {
            rest
        }
    }
}

/// Whether some record of `s` was sent by `a`.
pub open spec fn has_addr(s: Seq<VoteEntity>, a: Address) -> bool {
    exists|i: int| 0 <= i < s.len() && s[i].address == a
}

/// First wins: keeps each sender's earliest record and drops every later
/// one — the view's distinct-on policy over ingestion order.
pub open spec fn dedup_votes(s: Seq<VoteEntity>) -> Seq<VoteEntity>
    decreases s.len(),
{
    if s.len() == 0 {
        Seq::<VoteEntity>::empty()
    } else {
        let rest = dedup_votes(s.drop_last());
        if has_addr(s.drop_last(), s.last().address) {
            rest
        } else {
            rest.push(s.last())
        }
    }
}

/// Deduplication keeps exactly the voters: a sender appears among the
/// surviving records if and only if some record of theirs was appended.
pub proof fn lemma_dedup_addrs(s: Seq<VoteEntity>, a: Address)
    ensures
        has_addr(dedup_votes(s), a) == has_addr(s, a),
    decreases s.len(),
{
    if s.len() > 0 {
        lemma_dedup_addrs(s.drop_last(), a);
        assert(s.last() == s[s.len() - 1]);
        assert forall|i: int| 0 <= i < s.len() - 1 implies s.drop_last()[i] == s[i] by {}
        let rest = dedup_votes(s.drop_last());
        if has_addr(s.drop_last(), s.last().address) {
            if has_addr(s, a) && !has_addr(s.drop_last(), a) {
                let i = choose|i: int| 0 <= i < s.len() && s[i].address == a;
                assert(i == s.len() - 1);
                assert(has_addr(s.drop_last(), a));
            }
        } else {
            assert(rest.push(s.last())[rest.len() as int] == s.last());
            assert forall|i: int| 0 <= i < rest.len() implies rest.push(s.last())[i] == rest[i] by {}
            if has_addr(s, a) {
                let i = choose|i: int| 0 <= i < s.len() && s[i].address == a;
                if i < s.len() - 1 {
                    assert(has_addr(s.drop_last(), a));
                } else {
                    assert(has_addr(rest.push(s.last()), a));
                }
            }
            if has_addr(rest.push(s.last()), a) {
                let i = choose|i: int|
                    0 <= i < rest.push(s.last()).len() && rest.push(s.last())[i].address == a;
                if i < rest.len() {
                    assert(has_addr(rest, a));
                } else {
                    assert(has_addr(s, a));
                }
            }
        }
    }
}

/// Distinct senders among the aggregated entries.
pub open spec fn distinct_senders(ps: Seq<(Address, SignedFollowerVote)>) -> bool {
    forall|i: int, j: int| 0 <= i < j < ps.len() ==> ps[i].0 != ps[j].0
}

/// Whether an aggregated entry for sender `a` exists.
pub open spec fn has_sender(ps: Seq<(Address, SignedFollowerVote)>, a: Address) -> bool {
    exists|i: int| 0 <= i < ps.len() && ps[i].0 == a
}

/// Distinct hashes among the tallied entries.
pub open spec fn distinct_hashes(t: Seq<(u64, u64)>) -> bool {
    forall|i: int, j: int| 0 <= i < j < t.len() ==> t[i].0 != t[j].0
}

/// The position of hash `h` among the tallied entries, or -1.
pub open spec fn find_hash(t: Seq<(u64, u64)>, h: u64) -> int
    decreases t.len(),
{
    if t.len() == 0 {
        -1
    } else if t.last().0 == h {
        t.len() - 1
    } else {
        find_hash(t.drop_last(), h)
    }
}

/// What one more surviving vote does to the tally: nothing for an
/// abstention, otherwise the vote's hash gains one, entering at count 1.
pub open spec fn bump(t: Seq<(u64, u64)>, h: Option<u64>) -> Seq<(u64, u64)> {
    match h {
        None => t,
        Some(hh) => {
            let i = find_hash(t, hh);
            if i < 0 {
                t.push((hh, 1u64))
            } else {
                t.update(i, (hh, (t[i].1 + 1) as u64))
            }
        },
    }
}

/// The tally of the surviving votes of `s`, hash by hash, in order of first
/// appearance.
pub open spec fn tally(s: Seq<VoteEntity>) -> Seq<(u64, u64)>
    decreases s.len(),
{
    if s.len() == 0 {
        Seq::<(u64, u64)>::empty()
    } else {
        bump(tally(s.drop_last()), s.last().vote.vote.hash)
    }
}

proof fn lemma_find_hash(t: Seq<(u64, u64)>, h: u64)
    ensures
        find_hash(t, h) == -1 ==> forall|i: int| 0 <= i < t.len() ==> t[i].0 != h,
        find_hash(t, h) != -1 ==> 0 <= find_hash(t, h) < t.len() && t[find_hash(t, h)].0 == h,
    decreases t.len(),
{
    if t.len() > 0 {
        lemma_find_hash(t.drop_last(), h);
        assert(t.last() == t[t.len() - 1]);
        assert forall|i: int| 0 <= i < t.len() - 1 implies t.drop_last()[i] == t[i] by {}
    }
}

proof fn lemma_find_hash_at(t: Seq<(u64, u64)>, h: u64, k: int)
    requires
        distinct_hashes(t),
        0 <= k < t.len(),
        t[k].0 == h,
    ensures
        find_hash(t, h) == k,
    decreases t.len(),
{
    assert(t.last() == t[t.len() - 1]);
    if k < t.len() - 1 {
        assert(t[k].0 != t[t.len() - 1].0);
        assert forall|i: int| 0 <= i < t.len() - 1 implies t.drop_last()[i] == t[i] by {}
        assert forall|i: int, j: int|
            0 <= i < j < t.drop_last().len() implies t.drop_last()[i].0 != t.drop_last()[j].0 by {
            assert(t.drop_last()[i] == t[i]);
            assert(t.drop_last()[j] == t[j]);
        }
        lemma_find_hash_at(t.drop_last(), h, k);
    }
}

/// Copies signature bytes.
fn copy_bytes(v: &Vec<u8>) -> (r: Vec<u8>)
    ensures
        r@ == v@,
{
    let mut r: Vec<u8> = Vec::new();
    let mut i: usize = 0;
    while i < v.len()
        invariant
            i <= v.len(),
            r@ == v@.take(i as int),
        decreases v.len() - i,
    {
        r.push(v[i]);
        proof {
            assert(r@ =~= v@.take(i + 1));
        }
        i += 1;
    }
    proof {
        assert(v@.take(v@.len() as int) =~= v@);
    }
    r
}

/// The aggregation the consensus layer reads: the surviving votes grouped by
/// sender, the tally of votes per proposed hash, and how many senders voted.
#[derive(Debug)]
pub struct VoteSet {
    pub votes_by_sender: Vec<(Address, SignedFollowerVote)>,
    pub votes_by_proposal: Vec<(u64, u64)>,
    pub count: u64,
}

impl VoteSet {
    pub open spec fn wf(self) -> bool {
        &&& self.count == self.votes_by_sender@.len()
        &&& distinct_senders(self.votes_by_sender@)
        &&& distinct_hashes(self.votes_by_proposal@)
        &&& forall|i: int|
            0 <= i < self.votes_by_proposal@.len() ==> 1 <= (
            #[trigger] self.votes_by_proposal@[i]).1 <= self.count
    }

    /// Entry-for-entry agreement of the senders with a sequence of records.
    pub open spec fn models_senders(self, s: Seq<VoteEntity>) -> bool {
        &&& self.votes_by_sender@.len() == s.len()
        &&& forall|i: int|
            0 <= i < s.len() ==> {
                let p = (#[trigger] self.votes_by_sender@[i]);
                &&& p.0 == s[i].address
                &&& p.1.vote == s[i].vote.vote
                &&& p.1.sig@ == s[i].vote.sig@
            }
    }

    /// An empty aggregation.
    pub fn new() -> (vs: VoteSet)
        ensures
            vs.wf(),
            vs.votes_by_sender@ == Seq::<(Address, SignedFollowerVote)>::empty(),
            vs.votes_by_proposal@ == Seq::<(u64, u64)>::empty(),
            vs.count == 0,
    {
        VoteSet { votes_by_sender: Vec::new(), votes_by_proposal: Vec::new(), count: 0 }
    }

    /// Adds one vote, unless its sender is already present: the first vote
    /// of a sender is kept and every later one is ignored. A fresh sender's
    /// vote joins the sender entries and, unless it abstained, raises its
    /// hash's tally by one.
    pub fn add(&mut self, sender: Address, sign_vote: &SignedFollowerVote) -> (fresh: bool)
        requires
            old(self).wf(),
        ensures
            final(self).wf(),
            fresh == !has_sender(old(self).votes_by_sender@, sender),
            !fresh ==> *final(self) == *old(self),
            fresh ==> {
                &&& final(self).votes_by_sender@.len() == old(self).votes_by_sender@.len() + 1
                &&& final(self).votes_by_sender@.take(old(self).votes_by_sender@.len() as int)
                    == old(self).votes_by_sender@
                &&& final(self).votes_by_sender@.last().0 == sender
                &&& final(self).votes_by_sender@.last().1.vote == sign_vote.vote
                &&& final(self).votes_by_sender@.last().1.sig@ == sign_vote.sig@
                &&& final(self).votes_by_proposal@ == bump(
                    old(self).votes_by_proposal@,
                    sign_vote.vote.hash,
                )
                &&& final(self).count == old(self).count + 1
            },
    {
        let n = self.votes_by_sender.len();
        let mut i: usize = 0;
        #[verifier::loop_isolation(false)]
        while i < n
            invariant
                i <= n,
                n == self.votes_by_sender@.len(),
                forall|j: int| 0 <= j < i ==> (#[trigger] self.votes_by_sender@[j]).0 != sender,
            decreases n - i,
        {
            if self.votes_by_sender[i].0 == sender {
                return false;
            }
            i += 1;
        }
        assert(!has_sender(self.votes_by_sender@, sender));
        let ghost old_pairs = self.votes_by_sender@;
        let ghost old_tally = self.votes_by_proposal@;
        let entity_vote = SignedFollowerVote { sig: copy_bytes(&sign_vote.sig), vote: sign_vote.vote };
        self.votes_by_sender.push((sender, entity_vote));
        self.count = self.votes_by_sender.len() as u64;
        proof {
            assert(self.votes_by_sender@.take(old_pairs.len() as int) =~= old_pairs);
        }
        match sign_vote.vote.hash {
            None => {
                proof {
                    assert(self.votes_by_proposal@ == bump(old_tally, sign_vote.vote.hash));
                }
            },
            Some(h) => {
                let m = self.votes_by_proposal.len();
                let mut k: usize = 0;
                let mut found = false;
                let mut idx: usize = 0;
                #[verifier::loop_isolation(false)]
                while k < m
                    invariant
                        k <= m,
                        m == self.votes_by_proposal@.len(),
                        found ==> idx < k && (#[trigger] self.votes_by_proposal@[idx as int]).0
                            == h,
                        !found ==> forall|j: int|
                            0 <= j < k ==> (#[trigger] self.votes_by_proposal@[j]).0 != h,
                    decreases m - k,
                {
                    if !found && self.votes_by_proposal[k].0 == h {
                        found = true;
                        idx = k;
                    }
                    k += 1;
                }
                if found {
                    let c = self.votes_by_proposal[idx].1;
                    proof {
                        lemma_find_hash_at(old_tally, h, idx as int);
                        assert(c <= old(self).count);
                    }
                    self.votes_by_proposal.set(idx, (h, c + 1));
                    proof {
                        assert(self.votes_by_proposal@ =~= bump(old_tally, Some(h)));
                    }
                } else {
                    proof {
                        lemma_find_hash(old_tally, h);
                        assert(find_hash(old_tally, h) == -1);
                    }
                    self.votes_by_proposal.push((h, 1));
                    proof {
                        assert(self.votes_by_proposal@ =~= bump(old_tally, Some(h)));
                    }
                }
            },
        }
        true
    }
}

proof fn lemma_models_addrs(vs: VoteSet, s: Seq<VoteEntity>, a: Address)
    requires
        vs.models_senders(s),
    ensures
        has_sender(vs.votes_by_sender@, a) == has_addr(s, a),
{
    if has_sender(vs.votes_by_sender@, a) {
        let i = choose|i: int|
            0 <= i < vs.votes_by_sender@.len() && vs.votes_by_sender@[i].0 == a;
        assert(vs.votes_by_sender@[i].0 == s[i].address);
        assert(has_addr(s, a));
    }
    if has_addr(s, a) {
        let i = choose|i: int| 0 <= i < s.len() && s[i].address == a;
        assert(vs.votes_by_sender@[i].0 == s[i].address);
        assert(has_sender(vs.votes_by_sender@, a));
    }
}

/// The vote collection: an append-only log of vote records and the
/// watermark up to which the engine has ingested it.
pub struct VoteCollector {
    log: Vec<VoteEntity>,
    watermark: usize,
}

impl MaterializeOperator for VoteCollector {
    open spec fn spec_name(&self) -> Seq<char> {
        "voteset"@
    }

    open spec fn spec_view_sql(&self) -> Seq<char> {
        "CREATE MATERIALIZED VIEW IF NOT EXISTS voteset_view AS SELECT DISTINCT ON (CAST(CAST(CAST(CAST(data AS jsonb) -> 'vote' as jsonb) -> 'vote' as jsonb)->'height' as integer), CAST(CAST(CAST(CAST(data AS jsonb) -> 'vote' as jsonb) -> 'vote' as jsonb)->'round' as integer), replace(CAST(CAST(CAST(CAST(data AS jsonb) -> 'vote' as jsonb) -> 'vote' as jsonb)->'step' as string), '\"', ''), replace(CAST(CAST(data AS jsonb)->'address' as string), '\"', '')) CAST(CAST(CAST(CAST(data AS jsonb) -> 'vote' as jsonb) -> 'vote' as jsonb)->'height' as integer) as height, CAST(CAST(CAST(CAST(data AS jsonb) -> 'vote' as jsonb) -> 'vote' as jsonb)->'round' as integer) as round, replace(CAST(CAST(CAST(CAST(data AS jsonb) -> 'vote' as jsonb) -> 'vote' as jsonb)->'step' as string), '\"', '') as step, replace(CAST(CAST(data AS jsonb)->'address' as string), '\"', '') as address, CAST(data AS jsonb) as data FROM (SELECT CONVERT_FROM(json_data, 'utf8') AS data FROM voteset_source order by data asc);"@
    }

    fn name(&self) -> (r: String) {
        String::from_str("voteset")
    }

    fn create_view_sql(&self) -> (r: String) {
        String::from_str(
            "CREATE MATERIALIZED VIEW IF NOT EXISTS voteset_view AS SELECT DISTINCT ON (CAST(CAST(CAST(CAST(data AS jsonb) -> 'vote' as jsonb) -> 'vote' as jsonb)->'height' as integer), CAST(CAST(CAST(CAST(data AS jsonb) -> 'vote' as jsonb) -> 'vote' as jsonb)->'round' as integer), replace(CAST(CAST(CAST(CAST(data AS jsonb) -> 'vote' as jsonb) -> 'vote' as jsonb)->'step' as string), '\"', ''), replace(CAST(CAST(data AS jsonb)->'address' as string), '\"', '')) CAST(CAST(CAST(CAST(data AS jsonb) -> 'vote' as jsonb) -> 'vote' as jsonb)->'height' as integer) as height, CAST(CAST(CAST(CAST(data AS jsonb) -> 'vote' as jsonb) -> 'vote' as jsonb)->'round' as integer) as round, replace(CAST(CAST(CAST(CAST(data AS jsonb) -> 'vote' as jsonb) -> 'vote' as jsonb)->'step' as string), '\"', '') as step, replace(CAST(CAST(data AS jsonb)->'address' as string), '\"', '') as address, CAST(data AS jsonb) as data FROM (SELECT CONVERT_FROM(json_data, 'utf8') AS data FROM voteset_source order by data asc);",
        )
    }
}

impl VoteCollector {
    /// Every record appended so far, in append order.
    pub closed spec fn log(self) -> Seq<VoteEntity> {
        self.log@
    }

    /// How far the engine has ingested the log.
    pub closed spec fn watermark(self) -> int {
        self.watermark as int
    }

    pub open spec fn wf(self) -> bool {
        0 <= self.watermark() <= self.log().len()
    }

    /// The ingested prefix: all a query can see.
    pub open spec fn visible(self) -> Seq<VoteEntity> {
        self.log().take(self.watermark())
    }

    /// A fresh, empty collection.
    pub fn new() -> (c: Self)
        ensures
            c.wf(),
            c.log() == Seq::<VoteEntity>::empty(),
            c.watermark() == 0,
    {
        VoteCollector { log: Vec::new(), watermark: 0 }
    }

    /// Truncates the log and starts the view over from nothing, as the
    /// one-time (re)initialization step does.
    pub fn initialize(&mut self)
        ensures
            final(self).wf(),
            final(self).log() == Seq::<VoteEntity>::empty(),
            final(self).watermark() == 0,
    {
        self.log = Vec::new();
        self.watermark = 0;
    }

    /// Models the engine having caught up with every append so far, i.e. a
    /// wait of at least the staleness bound since the last append.
    pub fn catch_up(&mut self)
        ensures
            final(self).wf(),
            final(self).log() == old(self).log(),
            final(self).watermark() == final(self).log().len(),
    {
        self.watermark = self.log.len();
    }

    /// Appends one vote record. The log deduplicates nothing — every call
    /// grows it by exactly that record; only the view discards duplicates.
    pub fn add(&mut self, sender: Address, sign_vote: &SignedFollowerVote) -> (r: bool)
        requires
            old(self).wf(),
        ensures
            final(self).wf(),
            final(self).log().len() == old(self).log().len() + 1,
            final(self).log().take(old(self).log().len() as int) == old(self).log(),
            vote_entity_like(final(self).log().last(), sender, *sign_vote),
            final(self).watermark() == old(self).watermark(),
            r,
    {
        let entity = VoteEntity {
            address: sender,
            vote: SignedFollowerVote { sig: copy_bytes(&sign_vote.sig), vote: sign_vote.vote },
        };
        self.log.push(entity);
        proof {
            assert(self.log@.take(old(self).log@.len() as int) =~= old(self).log@);
        }
        true
    }

    /// The statement a reader issues: the deduplicated rows for one key.
    pub fn select_sql(&self) -> (r: String)
        ensures
            r@ == "SELECT data FROM voteset_view where height = $1 and round = $2 and step = $3;"@,
    {
        String::from_str(
            "SELECT data FROM voteset_view where height = $1 and round = $2 and step = $3;",
        )
    }

    /// Aggregates the ingested, deduplicated votes for one key: the
    /// surviving record of every voter (their first, in ingestion order),
    /// the tally per proposed hash, and the count of distinct voters. An
    /// empty aggregation is a legitimate answer, never an error: a record
    /// appended after the watermark is not yet part of it.
    pub fn get_voteset(&self, height: u64, round: u64, step: Step) -> (r: Option<VoteSet>)
        requires
            self.wf(),
        ensures
            r is Some,
            ({
                let dd = dedup_votes(matching_votes(self.visible(), height, round, step));
                &&& r.unwrap().wf()
                &&& r.unwrap().models_senders(dd)
                &&& r.unwrap().votes_by_proposal@ == tally(dd)
                &&& r.unwrap().count == dd.len()
            }),
    {
        let mut vs = VoteSet::new();
        let mut i: usize = 0;
        #[verifier::loop_isolation(false)]
        while i < self.watermark
            invariant
                i <= self.watermark,
                vs.wf(),
                vs.models_senders(
                    dedup_votes(matching_votes(self.log@.take(i as int), height, round, step)),
                ),
                vs.votes_by_proposal@ == tally(
                    dedup_votes(matching_votes(self.log@.take(i as int), height, round, step)),
                ),
            decreases self.watermark - i,
        {
            let ghost pre = self.log@.take(i as int);
            let ghost m0 = matching_votes(pre, height, round, step);
            let ghost dd0 = dedup_votes(m0);
            proof {
                assert(self.log@.take(i + 1).drop_last() =~= pre);
                assert(self.log@.take(i + 1).last() == self.log@[i as int]);
            }
            let e = &self.log[i];
            if e.vote.vote.height == height && e.vote.vote.round == round && e.vote.vote.step
                == step {
                let ghost ev = self.log@[i as int];
                let ghost vs0 = vs;
                proof {
                    assert(vote_matches(ev, height, round, step));
                    assert(matching_votes(self.log@.take(i + 1), height, round, step) == m0.push(
                        ev,
                    ));
                    assert(m0.push(ev).drop_last() =~= m0);
                    assert(m0.push(ev).last() == ev);
                    lemma_dedup_addrs(m0, ev.address);
                    lemma_models_addrs(vs0, dd0, ev.address);
                }
                let fresh = vs.add(e.address, &e.vote);
                proof {
                    let dd1 = dedup_votes(matching_votes(self.log@.take(i + 1), height, round, step));
                    if fresh {
                        assert(!has_addr(m0, ev.address));
                        assert(dd1 == dd0.push(ev));
                        assert(dd0.push(ev).drop_last() =~= dd0);
                        assert(dd0.push(ev).last() == ev);
                        assert forall|j: int| 0 <= j < dd0.len() implies vs.votes_by_sender@[j]
                            == vs0.votes_by_sender@[j] by {
                            assert(vs.votes_by_sender@.take(vs0.votes_by_sender@.len() as int)[j]
                                == vs.votes_by_sender@[j]);
                        }
                        assert(vs.models_senders(dd1));
                        assert(vs.votes_by_proposal@ == tally(dd1));
                    } else {
                        assert(has_addr(m0, ev.address));
                        assert(dd1 == dd0);
                    }
                }
            } else {
                proof {
                    assert(!vote_matches(self.log@[i as int], height, round, step));
                    assert(matching_votes(self.log@.take(i + 1), height, round, step) == m0);
                }
            }
            i += 1;
        }
        proof {
            assert(self.log@.take(self.watermark as int) == self.visible());
        }
        Some(vs)
    }
}

/// Visibility of an append: once ingested, a vote for the queried key joins
/// the matching rows at the end, and a vote for another key changes them
/// not at all.
pub proof fn lemma_appended_vote_visible(
    s: Seq<VoteEntity>,
    e: VoteEntity,
    height: u64,
    round: u64,
    step: Step,
)
    ensures
        vote_matches(e, height, round, step) ==> matching_votes(s.push(e), height, round, step)
            == matching_votes(s, height, round, step).push(e),
        !vote_matches(e, height, round, step) ==> matching_votes(s.push(e), height, round, step)
            == matching_votes(s, height, round, step),
{
    assert(s.push(e).drop_last() =~= s);
}

/// First wins: once a voter's vote for a key is in the log, a later vote of
/// the same voter for the same key changes nothing a reader sees — the
/// earlier vote stays authoritative.
pub proof fn lemma_first_vote_wins(
    s: Seq<VoteEntity>,
    e: VoteEntity,
    height: u64,
    round: u64,
    step: Step,
)
    requires
        vote_matches(e, height, round, step),
        has_addr(matching_votes(s, height, round, step), e.address),
    ensures
        dedup_votes(matching_votes(s.push(e), height, round, step)) == dedup_votes(
            matching_votes(s, height, round, step),
        ),
{
    let m = matching_votes(s, height, round, step);
    assert(s.push(e).drop_last() =~= s);
    assert(matching_votes(s.push(e), height, round, step) == m.push(e));
    assert(m.push(e).drop_last() =~= m);
}

/// A fresh voter's vote for the key survives deduplication, at the end of
/// the surviving records.
pub proof fn lemma_fresh_vote_survives(
    s: Seq<VoteEntity>,
    e: VoteEntity,
    height: u64,
    round: u64,
    step: Step,
)
    requires
        vote_matches(e, height, round, step),
        !has_addr(matching_votes(s, height, round, step), e.address),
    ensures
        dedup_votes(matching_votes(s.push(e), height, round, step)) == dedup_votes(
            matching_votes(s, height, round, step),
        ).push(e),
{
    let m = matching_votes(s, height, round, step);
    assert(s.push(e).drop_last() =~= s);
    assert(matching_votes(s.push(e), height, round, step) == m.push(e));
    assert(m.push(e).drop_last() =~= m);
}

/// Append then eventually visible: once a vote for the queried key is
/// appended and ingested (the engine caught up, i.e. the staleness bound
/// has passed), its sender is among the voters the aggregation reports. The
/// three states are one collection before the append, after it, and after
/// the engine caught up.
pub proof fn lemma_append_then_eventually_visible(
    c0: VoteCollector,
    c1: VoteCollector,
    c2: VoteCollector,
    e: VoteEntity,
    height: u64,
    round: u64,
    step: Step,
)
    requires
        vote_matches(e, height, round, step),
        c1.log() == c0.log().push(e),
        c2.log() == c1.log(),
        c2.watermark() == c2.log().len(),
    ensures
        has_addr(dedup_votes(matching_votes(c2.visible(), height, round, step)), e.address),
{
    assert(c2.visible() =~= c0.log().push(e));
    lemma_appended_vote_visible(c0.log(), e, height, round, step);
    let m = matching_votes(c2.visible(), height, round, step);
    assert(m.last() == e);
    assert(has_addr(m, e.address));
    lemma_dedup_addrs(m, e.address);
}

/// No read-your-write: an append past the watermark leaves the visible
/// prefix — and with it every aggregation — unchanged.
pub proof fn lemma_no_read_your_write(s: Seq<VoteEntity>, e: VoteEntity, w: int)
    requires
        0 <= w <= s.len(),
    ensures
        s.push(e).take(w) == s.take(w),
{
    assert(s.push(e).take(w) =~= s.take(w));
}

/// Reset clears state: over an empty log no key has votes.
pub proof fn lemma_reset_clears(height: u64, round: u64, step: Step)
    ensures
        dedup_votes(matching_votes(Seq::<VoteEntity>::empty(), height, round, step)) == Seq::<
            VoteEntity,
        >::empty(),
{
}

} // verus!
