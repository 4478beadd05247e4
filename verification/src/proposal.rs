//! Block proposals, multi-valued per (height, round).
//!
//! The proposal view keeps every appended record: no deduplication, rows in
//! ingestion order, filtered by exact height and round. Queries see the
//! prefix of the log the engine has ingested so far, never more.

use vstd::prelude::*;
use vstd::string::StringExecFns;
use crate::interface::MaterializeOperator;

verus! {

/// A proposed value, carried by its hash.
#[derive(Clone, Copy, PartialEq, Eq, Structural, Debug)]
pub struct Proposal {
    pub hash: u64,
}

impl Proposal {
    pub fn new(hash: u64) -> (p: Proposal)
        ensures
            p.hash == hash,
    {
        Proposal { hash }
    }
}

/// One appended proposal record.
#[derive(Clone, Copy, PartialEq, Eq, Structural, Debug)]
pub struct ProposalEntity {
    pub height: u64,
    pub round: u64,
    pub proposal: Proposal,
}

/// The records of `s` that carry the given height and round, in order.
pub open spec fn matching_proposals(s: Seq<ProposalEntity>, height: u64, round: u64) -> Seq<
    ProposalEntity,
>
    decreases s.len(),
{
    if s.len() == 0 {
        Seq::<ProposalEntity>::empty()
    } else {
        let rest = matching_proposals(s.drop_last(), height, round);
        if s.last().height == height && s.last().round == round {
            rest.push(s.last())
        } else {
            rest
        }
    }
}

/// The proposal collection: an append-only log of proposal records and the
/// watermark up to which the engine has ingested it.
pub struct ProposalCollector {
    log: Vec<ProposalEntity>,
    watermark: usize,
}

impl MaterializeOperator for ProposalCollector {
    open spec fn spec_name(&self) -> Seq<char> {
        "proposal"@
    }

    open spec fn spec_view_sql(&self) -> Seq<char> {
        "CREATE MATERIALIZED VIEW IF NOT EXISTS proposal_view AS SELECT CAST(CAST(data AS jsonb) -> 'height' as integer) as height, CAST(CAST(data AS jsonb) -> 'round' as integer) as round, CAST(data AS jsonb) as data FROM (SELECT CONVERT_FROM(json_data, 'utf8') AS data FROM proposal_source order by data asc);"@
    }

    fn name(&self) -> (r: String) {
        String::from_str("proposal")
    }

    fn create_view_sql(&self) -> (r: String) {
        String::from_str(
            "CREATE MATERIALIZED VIEW IF NOT EXISTS proposal_view AS SELECT CAST(CAST(data AS jsonb) -> 'height' as integer) as height, CAST(CAST(data AS jsonb) -> 'round' as integer) as round, CAST(data AS jsonb) as data FROM (SELECT CONVERT_FROM(json_data, 'utf8') AS data FROM proposal_source order by data asc);",
        )
    }
}

impl ProposalCollector {
    /// Every record appended so far, in append order.
    pub closed spec fn log(self) -> Seq<ProposalEntity> {
        self.log@
    }

    /// How far the engine has ingested the log.
    pub closed spec fn watermark(self) -> int {
        self.watermark as int
    }

    pub open spec fn wf(self) -> bool {
        0 <= self.watermark() <= self.log().len()
    }

    /// The ingested prefix: all a query can see.
    pub open spec fn visible(self) -> Seq<ProposalEntity> {
        self.log().take(self.watermark())
    }

    /// A fresh, empty collection.
    pub fn new() -> (c: Self)
        ensures
            c.wf(),
            c.log() == Seq::<ProposalEntity>::empty(),
            c.watermark() == 0,
    {
        ProposalCollector { log: Vec::new(), watermark: 0 }
    }

    /// Truncates the log and starts the view over from nothing, as the
    /// one-time (re)initialization step does.
    pub fn initialize(&mut self)
        ensures
            final(self).wf(),
            final(self).log() == Seq::<ProposalEntity>::empty(),
            final(self).watermark() == 0,
    {
        self.log = Vec::new();
        self.watermark = 0;
    }

    /// Appends one record. Nothing is validated and nothing deduplicated:
    /// every call grows the log by exactly that record, and what was
    /// appended before keeps its place.
    pub fn add(&mut self, height: u64, round: u64, proposal: Proposal) -> (r: bool)
        requires
            old(self).wf(),
        ensures
            final(self).wf(),
            final(self).log() == old(self).log().push(
                ProposalEntity { height, round, proposal },
            ),
            final(self).watermark() == old(self).watermark(),
            r,
    {
        self.log.push(ProposalEntity { height, round, proposal });
        true
    }

    /// Models the engine having caught up with every append so far, i.e. a
    /// wait of at least the staleness bound since the last append.
    pub fn catch_up(&mut self)
        ensures
            final(self).wf(),
            final(self).log() == old(self).log(),
            final(self).watermark() == final(self).log().len(),
    {
        self.watermark = self.log.len();
    }

    /// The statement a reader issues: the rows for one (height, round).
    pub fn select_sql(&self) -> (r: String)
        ensures
            r@ == "SELECT data FROM proposal_view where height = $1 and round = $2;"@,
    {
        String::from_str("SELECT data FROM proposal_view where height = $1 and round = $2;")
    }

    /// Returns every ingested record with the given height and round, in
    /// ingestion order. An empty result is a legitimate answer, never an
    /// error: in particular a record appended after the watermark is not yet
    /// part of it.
    pub fn get_proposal(&self, height: u64, round: u64) -> (r: Option<Vec<ProposalEntity>>)
        requires
            self.wf(),
        ensures
            r is Some,
            r.unwrap()@ == matching_proposals(self.visible(), height, round),
    {
        let mut list: Vec<ProposalEntity> = Vec::new();
        let mut i: usize = 0;
        while i < self.watermark
            invariant
                self.wf(),
                i <= self.watermark,
                list@ == matching_proposals(self.log@.take(i as int), height, round),
            decreases self.watermark - i,
        {
            let e = self.log[i];
            proof {
                assert(self.log@.take(i + 1).drop_last() =~= self.log@.take(i as int));
                assert(self.log@.take(i + 1).last() == e);
            }
            if e.height == height && e.round == round {
                list.push(e);
            }
            i += 1;
        }
        Some(list)
    }
}

/// Visibility of an append: once ingested, a record appended for
/// (height, round) stands at the end of the rows that query returns, and an
/// append for another key changes them not at all.
pub proof fn lemma_appended_proposal_visible(
    s: Seq<ProposalEntity>,
    e: ProposalEntity,
    height: u64,
    round: u64,
)
    ensures
        e.height == height && e.round == round ==> matching_proposals(s.push(e), height, round)
            == matching_proposals(s, height, round).push(e),
        !(e.height == height && e.round == round) ==> matching_proposals(s.push(e), height, round)
            == matching_proposals(s, height, round),
{
    assert(s.push(e).drop_last() =~= s);
}

/// Append then eventually visible: a record appended for (height, round)
/// and then ingested (the engine caught up, i.e. the staleness bound has
/// passed) is returned by the query for that key, unchanged, at the end of
/// the result. The three states are one collection before the append, after
/// it, and after the engine caught up.
pub proof fn lemma_append_then_eventually_visible(
    c0: ProposalCollector,
    c1: ProposalCollector,
    c2: ProposalCollector,
    height: u64,
    round: u64,
    proposal: Proposal,
)
    requires
        c1.log() == c0.log().push((ProposalEntity { height, round, proposal })),
        c2.log() == c1.log(),
        c2.watermark() == c2.log().len(),
    ensures
        matching_proposals(c2.visible(), height, round).len() > 0,
        matching_proposals(c2.visible(), height, round).last() == (ProposalEntity {
            height,
            round,
            proposal,
        }),
{
    assert(c2.visible() =~= c0.log().push(ProposalEntity { height, round, proposal }));
    lemma_appended_proposal_visible(
        c0.log(),
        ProposalEntity { height, round, proposal },
        height,
        round,
    );
}

/// No read-your-write: an append past the watermark leaves the visible
/// prefix — and with it every query result — unchanged.
pub proof fn lemma_no_read_your_write(s: Seq<ProposalEntity>, e: ProposalEntity, w: int)
    requires
        0 <= w <= s.len(),
    ensures
        s.push(e).take(w) == s.take(w),
{
    assert(s.push(e).take(w) =~= s.take(w));
}

/// Reset clears state: over an empty log no predicate matches anything.
pub proof fn lemma_reset_clears(height: u64, round: u64)
    ensures
        matching_proposals(Seq::<ProposalEntity>::empty(), height, round) == Seq::<
            ProposalEntity,
        >::empty(),
{
}

} // verus!
