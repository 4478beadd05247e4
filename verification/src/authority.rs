//! Validator-set snapshots, latest-wins by height.
//!
//! The authority view keeps one row per appended snapshot; a reader selects
//! the single row of greatest height, so the freshest snapshot wins. Reads
//! see only the prefix of the log the engine has ingested.

use vstd::prelude::*;
use vstd::string::StringExecFns;
use crate::interface::MaterializeOperator;
use crate::Address;

verus! {

/// One validator-set snapshot: the authority list, the validator list, and
/// the height it was taken at.
#[derive(Debug)]
pub struct AuthorityEntity {
    pub authorities: Vec<Address>,
    pub validators: Vec<Address>,
    pub height: usize,
}

/// Field-for-field agreement of two snapshots.
pub open spec fn entity_like(a: AuthorityEntity, b: AuthorityEntity) -> bool {
    &&& a.height == b.height
    &&& a.authorities@ == b.authorities@
    &&& a.validators@ == b.validators@
}

/// The snapshot a reader selects from `s`: the one of greatest height, and
/// among several of that height the latest appended; `None` over an empty
/// log.
pub open spec fn latest(s: Seq<AuthorityEntity>) -> Option<AuthorityEntity>
    decreases s.len(),
{
    if s.len() == 0 {
        None
    } else {
        match latest(s.drop_last()) {
            None => Some(s.last()),
            Some(b) => if s.last().height >= b.height {
                Some(s.last())
            } else {
                Some(b)
            },
        }
    }
}

/// Whether the lists offered to the collection already agree with the
/// snapshot a reader currently selects (an empty log counts as empty lists).
pub open spec fn same_as_current(
    s: Seq<AuthorityEntity>,
    auths: Seq<Address>,
    vals: Seq<Address>,
) -> bool {
    match latest(s) {
        None => auths.len() == 0 && vals.len() == 0,
        Some(b) => b.authorities@ == auths && b.validators@ == vals,
    }
}

/// The authority collection: an append-only log of snapshots and the
/// watermark up to which the engine has ingested it.
pub struct AuthorityManage {
    log: Vec<AuthorityEntity>,
    watermark: usize,
}

impl MaterializeOperator for AuthorityManage {
    open spec fn spec_name(&self) -> Seq<char> {
        "authority"@
    }

    open spec fn spec_view_sql(&self) -> Seq<char> {
        "CREATE MATERIALIZED VIEW IF NOT EXISTS authority_view AS SELECT CAST(CAST(data AS jsonb) -> 'height' as integer) as height, CAST(data AS jsonb) as data FROM (SELECT CONVERT_FROM(json_data, 'utf8') AS data FROM authority_source);"@
    }

    fn name(&self) -> (r: String) {
        String::from_str("authority")
    }

    fn create_view_sql(&self) -> (r: String) {
        String::from_str(
            "CREATE MATERIALIZED VIEW IF NOT EXISTS authority_view AS SELECT CAST(CAST(data AS jsonb) -> 'height' as integer) as height, CAST(data AS jsonb) as data FROM (SELECT CONVERT_FROM(json_data, 'utf8') AS data FROM authority_source);",
        )
    }
}

/// Copies a list of addresses.
fn copy_addrs(v: &Vec<Address>) -> (r: Vec<Address>)
    ensures
        r@ == v@,
{
    let mut r: Vec<Address> = Vec::new();
    let mut i: usize = 0;
    while i < v.len()
        invariant
            i <= v.len(),
            r@ == v@.take(i as int),
        decreases v.len() - i,
    {
        r.push(v[i]);
        proof {
            assert(r@ =~= v@.take(i + 1));
        }
        i += 1;
    }
    proof {
        assert(v@.take(v@.len() as int) =~= v@);
    }
    r
}

/// Whether a stored list and an offered slice hold the same addresses.
fn addrs_eq(a: &Vec<Address>, b: &[Address]) -> (r: bool)
    ensures
        r == (a@ == b@),
{
    if a.len() != b.len() {
        return false;
    }
    let mut i: usize = 0;
    while i < a.len()
        invariant
            i <= a.len(),
            a@.len() == b@.len(),
            forall|j: int| 0 <= j < i ==> a@[j] == b@[j],
        decreases a.len() - i,
    {
        if a[i] != b[i] {
            return false;
        }
        i += 1;
    }
    proof {
        assert(a@ =~= b@);
    }
    true
}

impl AuthorityManage {
    /// Every snapshot appended so far, in append order.
    pub closed spec fn log(self) -> Seq<AuthorityEntity> {
        self.log@
    }

    /// How far the engine has ingested the log.
    pub closed spec fn watermark(self) -> int {
        self.watermark as int
    }

    pub open spec fn wf(self) -> bool {
        0 <= self.watermark() <= self.log().len()
    }

    /// The ingested prefix: all a reader can see.
    pub open spec fn visible(self) -> Seq<AuthorityEntity> {
        self.log().take(self.watermark())
    }

    /// A fresh, empty collection.
    pub fn new() -> (c: Self)
        ensures
            c.wf(),
            c.log() == Seq::<AuthorityEntity>::empty(),
            c.watermark() == 0,
    {
        AuthorityManage { log: Vec::new(), watermark: 0 }
    }

    /// Truncates the log and starts the view over from nothing, as the
    /// one-time (re)initialization step does.
    pub fn initialize(&mut self)
        ensures
            final(self).wf(),
            final(self).log() == Seq::<AuthorityEntity>::empty(),
            final(self).watermark() == 0,
    {
        self.log = Vec::new();
        self.watermark = 0;
    }

    /// Models the engine having caught up with every append so far, i.e. a
    /// wait of at least the staleness bound since the last append.
    pub fn catch_up(&mut self)
        ensures
            final(self).wf(),
            final(self).log() == old(self).log(),
            final(self).watermark() == final(self).log().len(),
    {
        self.watermark = self.log.len();
    }

    /// The statement a reader issues: the single freshest snapshot row.
    pub fn select_sql(&self) -> (r: String)
        ensures
            r@ == "SELECT data FROM authority_view order by height desc limit 1;"@,
    {
        String::from_str("SELECT data FROM authority_view order by height desc limit 1;")
    }

    /// The snapshot of greatest height among the ingested records (latest
    /// appended among equals), or the empty snapshot of height 0 when
    /// nothing is visible yet.
    pub fn get_authority_entity(&self) -> (r: AuthorityEntity)
        requires
            self.wf(),
        ensures
            latest(self.visible()) is Some ==> entity_like(r, latest(self.visible()).unwrap()),
            latest(self.visible()) is None ==> r.height == 0 && r.authorities@ == Seq::<
                Address,
            >::empty() && r.validators@ == Seq::<Address>::empty(),
    {
        let mut found = false;
        let mut best: usize = 0;
        let mut i: usize = 0;
        while i < self.watermark
            invariant
                self.wf(),
                i <= self.watermark,
                !found ==> latest(self.log@.take(i as int)) is None,
                found ==> best < i && latest(self.log@.take(i as int)) == Some(
                    self.log@[best as int],
                ),
            decreases self.watermark - i,
        {
            proof {
                assert(self.log@.take(i + 1).drop_last() =~= self.log@.take(i as int));
                assert(self.log@.take(i + 1).last() == self.log@[i as int]);
            }
            if !found || self.log[i].height >= self.log[best].height {
                found = true;
                best = i;
            }
            i += 1;
        }
        if found {
            let b = &self.log[best];
            AuthorityEntity {
                authorities: copy_addrs(&b.authorities),
                validators: copy_addrs(&b.validators),
                height: b.height,
            }
        } else {
            let r = AuthorityEntity { authorities: Vec::new(), validators: Vec::new(), height: 0 };
            proof {
                assert(r.authorities@ =~= Seq::<Address>::empty());
                assert(r.validators@ =~= Seq::<Address>::empty());
            }
            r
        }
    }

    /// How many validators the currently selected snapshot holds.
    pub fn validator_n(&self) -> (n: usize)
        requires
            self.wf(),
        ensures
            n == (match latest(self.visible()) {
                Some(b) => b.validators@.len(),
                None => 0,
            }),
    {
        self.get_authority_entity().validators.len()
    }

    /// Offers fresh authority and validator lists at a height. A snapshot is
    /// appended only when the offered lists differ from what a reader
    /// currently selects; offering what is already current changes nothing,
    /// which keeps re-delivery of the same lists harmless.
    pub fn receive_authorities_list(
        &mut self,
        height: usize,
        authorities: &[Address],
        validators: &[Address],
    )
        requires
            old(self).wf(),
        ensures
            final(self).wf(),
            final(self).watermark() == old(self).watermark(),
            same_as_current(old(self).visible(), authorities@, validators@) ==> final(self).log()
                == old(self).log(),
            !same_as_current(old(self).visible(), authorities@, validators@) ==> {
                &&& final(self).log().len() == old(self).log().len() + 1
                &&& final(self).log().take(old(self).log().len() as int) == old(self).log()
                &&& final(self).log().last().height == height
                &&& final(self).log().last().authorities@ == authorities@
                &&& final(self).log().last().validators@ == validators@
            },
    {
        let inner = self.get_authority_entity();
        let same = addrs_eq(&inner.authorities, authorities) && addrs_eq(
            &inner.validators,
            validators,
        );
        proof {
            if same_as_current(old(self).visible(), authorities@, validators@) && latest(
                old(self).visible(),
            ) is None {
                assert(inner.authorities@ =~= authorities@);
                assert(inner.validators@ =~= validators@);
            }
        }
        if !same {
            let mut auths: Vec<Address> = Vec::new();
            let mut i: usize = 0;
            while i < authorities.len()
                invariant
                    i <= authorities.len(),
                    auths@ == authorities@.take(i as int),
                    *self == *old(self),
                decreases authorities.len() - i,
            {
                auths.push(authorities[i]);
                proof {
                    assert(auths@ =~= authorities@.take(i + 1));
                }
                i += 1;
            }
            let mut vals: Vec<Address> = Vec::new();
            let mut j: usize = 0;
            while j < validators.len()
                invariant
                    j <= validators.len(),
                    vals@ == validators@.take(j as int),
                    *self == *old(self),
                decreases validators.len() - j,
            {
                vals.push(validators[j]);
                proof {
                    assert(vals@ =~= validators@.take(j + 1));
                }
                j += 1;
            }
            proof {
                assert(authorities@.take(authorities@.len() as int) =~= authorities@);
                assert(validators@.take(validators@.len() as int) =~= validators@);
            }
            self.log.push(AuthorityEntity { authorities: auths, validators: vals, height });
            proof {
                assert(self.log@.take(old(self).log@.len() as int) =~= old(self).log@);
            }
        }
    }
}

/// Latest wins: a snapshot appended at a height no lower than everything
/// before it is, once ingested, the one every reader selects.
pub proof fn lemma_latest_height_wins(s: Seq<AuthorityEntity>, e: AuthorityEntity)
    requires
        latest(s) is Some ==> e.height >= latest(s).unwrap().height,
    ensures
        latest(s.push(e)) == Some(e),
{
    assert(s.push(e).drop_last() =~= s);
}

/// The selected snapshot is of maximal height, and is one of the appended
/// snapshots; nothing is selected only over an empty log.
pub proof fn lemma_latest_is_max(s: Seq<AuthorityEntity>)
    ensures
        latest(s) is None <==> s.len() == 0,
        latest(s) is Some ==> {
            &&& forall|i: int| 0 <= i < s.len() ==> s[i].height <= latest(s).unwrap().height
            &&& exists|i: int| 0 <= i < s.len() && s[i] == latest(s).unwrap()
        },
    decreases s.len(),
{
    if s.len() > 0 {
        lemma_latest_is_max(s.drop_last());
        assert(s.last() == s[s.len() - 1]);
        assert forall|i: int| 0 <= i < s.len() - 1 implies s.drop_last()[i] == s[i] by {}
    }
}

/// Append then eventually visible: a snapshot appended at a height no lower
/// than everything before it is, once the engine caught up (the staleness
/// bound has passed), exactly what a reader selects. The three states are
/// one collection before the append, after it, and after the engine caught
/// up.
pub proof fn lemma_append_then_eventually_visible(
    c0: AuthorityManage,
    c1: AuthorityManage,
    c2: AuthorityManage,
    e: AuthorityEntity,
)
    requires
        latest(c0.log()) is Some ==> e.height >= latest(c0.log()).unwrap().height,
        c1.log() == c0.log().push(e),
        c2.log() == c1.log(),
        c2.watermark() == c2.log().len(),
    ensures
        latest(c2.visible()) == Some(e),
{
    assert(c2.visible() =~= c0.log().push(e));
    lemma_latest_height_wins(c0.log(), e);
}

/// No read-your-write: an append past the watermark leaves the visible
/// prefix — and with it the selected snapshot — unchanged.
pub proof fn lemma_no_read_your_write(s: Seq<AuthorityEntity>, e: AuthorityEntity, w: int)
    requires
        0 <= w <= s.len(),
    ensures
        s.push(e).take(w) == s.take(w),
{
    assert(s.push(e).take(w) =~= s.take(w));
}

/// Reset clears state: over an empty log no snapshot is selected.
pub proof fn lemma_reset_clears()
    ensures
        latest(Seq::<AuthorityEntity>::empty()) is None,
{
}

} // verus!
