use vstd::prelude::*;
use crate::checkpoint::{progression, same_checkpoint, verify_progression, Checkpoint, Progression};
use crate::error::{ApiError, ClientError};
use crate::replay::{
    accepted_envelopes, index_le, lemma_replay_monotone, refused_at, replay, replay_records, validates_to, FetchedRecord,
    LogHead,
};

verus! {

/// The client's mirror of the operator log.
#[derive(Debug)]
pub struct OperatorInfo<O> {
    pub log_id: String,
    pub state: O,
    pub head: LogHead,
}

/// The client's mirror of one package log, with the checkpoint it was last
/// synchronized against.
#[derive(Debug)]
pub struct PackageInfo<P> {
    pub name: String,
    pub log_id: String,
    pub state: P,
    pub head: LogHead,
    pub checkpoint: Option<Checkpoint>,
}

/// The records that a fetch returned for one package log.
#[derive(Debug)]
pub struct PackageRecords<PE> {
    pub log_id: String,
    pub records: Vec<FetchedRecord<PE>>,
}

/// One page of a fetch of new records.
#[derive(Debug)]
pub struct FetchLogsResponse<OE, PE> {
    pub operator: Vec<FetchedRecord<OE>>,
    pub packages: Vec<PackageRecords<PE>>,
    pub more: bool,
}

/// What to ask the registry for: records up to `log_length`, each log from
/// its cursor on (none: from the start).
#[derive(Debug)]
pub struct FetchLogsRequest {
    pub log_length: u64,
    pub operator: Option<String>,
    pub packages: Vec<(String, Option<String>)>,
}

/// A log leaf to prove included in a checkpoint.
#[derive(Debug, Clone)]
pub struct LogLeaf {
    pub log_id: String,
    pub record_id: String,
}

/// A package whose stored checkpoint is not the target takes part in the
/// update.
pub open spec fn needs_update<P>(p: PackageInfo<P>, target: Checkpoint) -> bool {
    match p.checkpoint {
        Some(c) => !same_checkpoint(c, target),
        None => true,
    }
}

/// The packages that take part in an update to `target`, in order.
pub open spec fn pending<P>(ps: Seq<PackageInfo<P>>, target: Checkpoint) -> Seq<PackageInfo<P>>
    decreases ps.len(),
{
    if ps.len() == 0 {
        Seq::empty()
    } else {
        let prior = pending(ps.drop_last(), target);
        if needs_update(ps.last(), target) {
            prior.push(ps.last())
        } else {
            prior
        }
    }
}

/// No two packages share a log.
pub open spec fn distinct_logs<P>(ps: Seq<PackageInfo<P>>) -> bool {
    forall|i: int, j: int| 0 <= i < j < ps.len() ==> ps[i].log_id@ != ps[j].log_id@
}

/// The records of all batches for the log `id`, in the order received.
pub open spec fn records_for<PE>(batches: Seq<PackageRecords<PE>>, id: Seq<char>) -> Seq<FetchedRecord<PE>>
    decreases batches.len(),
{
    if batches.len() == 0 {
        Seq::empty()
    } else {
        let prior = records_for(batches.drop_last(), id);
        if batches.last().log_id@ == id {
            prior + batches.last().records@
        } else {
            prior
        }
    }
}

/// Some package holds the log `id`.
pub open spec fn known_log<P>(ps: Seq<PackageInfo<P>>, id: Seq<char>) -> bool {
    exists|i: int| 0 <= i < ps.len() && ps[i].log_id@ == id
}

/// A head that can be proved included: both its index and its record id.
pub open spec fn complete(h: LogHead) -> bool {
    h.registry_index is Some && h.record_id is Some
}

/// The position of the package that holds the log `id`.
fn position_of<P>(packages: &Vec<PackageInfo<P>>, id: &String) -> (r: Option<usize>)
    ensures
        match r {
            Some(j) => j < packages@.len() && packages@[j as int].log_id@ == id@,
            None => !known_log(packages@, id@),
        },
{
    let mut j: usize = 0;
    while j < packages.len()
        invariant
            j <= packages@.len(),
            forall|m: int| 0 <= m < j ==> packages@[m].log_id@ != id@,
        decreases packages@.len() - j,
    {
        if packages[j].log_id == *id {
            return Some(j);
        }
        j = j + 1;
    }
    None
}

/// A copy of an optional string.
fn copy_text(t: &Option<String>) -> (r: Option<String>)
    ensures
        r == *t,
{
    match t {
        Some(s) => Some(s.clone()),
        None => None,
    }
}

/// The outcome of checking a checkpoint's signature with the operator log's
/// keys.
#[derive(Debug, Clone, Copy, PartialEq, Eq)]
pub enum SignatureCheck {
    /// The operator log holds no key of the checkpoint's key id.
    UnknownKey,
    /// The key was found and the signature does not verify with it.
    Invalid,
    /// The signature verifies.
    Valid,
}

/// Turns the outcome of the signature check into the update's verdict.
pub fn signature_verdict(key_id: &String, check: SignatureCheck) -> (r: Result<(), ClientError>)
    ensures
        check == SignatureCheck::UnknownKey ==> r == Err::<(), ClientError>(ClientError::InvalidCheckpointKeyId { key_id: *key_id }),
        check == SignatureCheck::Invalid ==> r == Err::<(), ClientError>(ClientError::InvalidCheckpointSignature),
        check == SignatureCheck::Valid ==> r is Ok,
{
    match check {
        SignatureCheck::UnknownKey => Err(ClientError::InvalidCheckpointKeyId { key_id: key_id.clone() }),
        SignatureCheck::Invalid => Err(ClientError::InvalidCheckpointSignature),
        SignatureCheck::Valid => Ok(()),
    }
}

/// The packages with the last of each log: an earlier package whose log
/// comes again later is dropped.
pub open spec fn latest_per_log<P>(ps: Seq<PackageInfo<P>>) -> Seq<PackageInfo<P>>
    decreases ps.len(),
{
    if ps.len() == 0 {
        Seq::empty()
    } else {
        let rest = latest_per_log(ps.drop_first());
        if known_log(ps.drop_first(), ps[0].log_id@) {
            rest
        } else {
            seq![ps[0]] + rest
        }
    }
}

/// What the protocol checks of a page find wrong first, going through the
/// batches in order, from registry indices alone: `Some(None)` for a batch of
/// a log that is not being updated, `Some(Some(i))` for package `i` still
/// without a head after its batch.
pub open spec fn protocol_fault<P, PE>(ps: Seq<PackageInfo<P>>, bs: Seq<PackageRecords<PE>>) -> Option<Option<int>>
    decreases bs.len(),
{
    if bs.len() == 0 {
        None
    } else {
        match protocol_fault(ps, bs.drop_last()) {
            Some(f) => Some(f),
            None => {
                let id = bs.last().log_id@;
                if !known_log(ps, id) {
                    Some(None)
                } else {
                    let i = choose|i: int| 0 <= i < ps.len() && ps[i].log_id@ == id;
                    if replay(ps[i].head, records_for(bs, id)).registry_index is None {
                        Some(Some(i))
                    } else {
                        None
                    }
                }
            },
        }
    }
}

/// A head stays empty exactly when it was and no record was offered.
pub proof fn lemma_replay_none<E>(h: LogHead, rs: Seq<FetchedRecord<E>>)
    ensures
        replay(h, rs).registry_index is None <==> (h.registry_index is None && rs.len() == 0),
    decreases rs.len(),
{
    if rs.len() > 0 {
        lemma_replay_none(h, rs.drop_last());
    }
}

/// A fault found in a prefix of the batches is the fault of all of them.
pub proof fn lemma_fault_prefix<P, PE>(ps: Seq<PackageInfo<P>>, bs: Seq<PackageRecords<PE>>, m: int)
    requires
        0 <= m <= bs.len(),
        protocol_fault(ps, bs.take(m)) is Some,
    ensures
        protocol_fault(ps, bs) == protocol_fault(ps, bs.take(m)),
    decreases bs.len(),
{
    if m == bs.len() {
        assert(bs.take(m) =~= bs);
    } else {
        assert(bs.drop_last().take(m) =~= bs.take(m));
        lemma_fault_prefix(ps, bs.drop_last(), m);
    }
}

/// Without a fault, every batch names a log that is being updated.
pub proof fn lemma_no_fault_known<P, PE>(ps: Seq<PackageInfo<P>>, bs: Seq<PackageRecords<PE>>)
    requires
        protocol_fault(ps, bs) is None,
    ensures
        forall|k: int| 0 <= k < bs.len() ==> known_log(ps, (#[trigger] bs[k]).log_id@),
    decreases bs.len(),
{
    if bs.len() > 0 {
        lemma_no_fault_known(ps, bs.drop_last());
        assert forall|k: int| 0 <= k < bs.len() implies known_log(ps, (#[trigger] bs[k]).log_id@) by {
            if k < bs.len() - 1 {
                assert(bs[k] == bs.drop_last()[k]);
            }
        }
    }
}

/// Runs the protocol checks of a page, before anything is validated.
fn protocol_check<P, PE>(packages: &Vec<PackageInfo<P>>, batches: &Vec<PackageRecords<PE>>) -> (r: Result<(), ClientError>)
    requires
        distinct_logs(packages@),
    ensures
        match protocol_fault(packages@, batches@) {
            None => r is Ok,
            Some(None) => r is Err && r->Err_0 is Other,
            Some(Some(i)) => 0 <= i < packages@.len() && r == Err::<(), ClientError>(ClientError::PackageLogEmpty { name: packages@[i].name }),
        },
{
    let ghost ps = packages@;
    let ghost bs = batches@;
    let mut had: Vec<bool> = Vec::new();
    let mut i: usize = 0;
    while i < packages.len()
        invariant
            i <= ps.len(),
            ps == packages@,
            had@.len() == i,
            forall|m: int| 0 <= m < i ==> !(#[trigger] had@[m]),
        decreases ps.len() - i,
    {
        had.push(false);
        i = i + 1;
    }
    assert forall|m: int| 0 <= m < ps.len() implies (#[trigger] had@[m]) == (records_for(bs.take(0), ps[m].log_id@).len() > 0) by {
        assert(bs.take(0).len() == 0);
    }
    let mut k: usize = 0;
    while k < batches.len()
        invariant
            k <= bs.len(),
            ps == packages@,
            bs == batches@,
            distinct_logs(ps),
            had@.len() == ps.len(),
            forall|m: int| 0 <= m < ps.len() ==> (#[trigger] had@[m]) == (records_for(bs.take(k as int), ps[m].log_id@).len() > 0),
            protocol_fault(ps, bs.take(k as int)) is None,
        decreases bs.len() - k,
    {
        let ghost done = bs.take(k as int);
        let ghost next = bs.take(k as int + 1);
        assert(next.drop_last() =~= done);
        assert(next.last() == bs[k as int]);
        let batch = &batches[k];
        let j = match position_of(packages, &batch.log_id) {
            Some(j) => j,
            None => {
                proof {
                    lemma_fault_prefix(ps, bs, k as int + 1);
                }
                return Err(ClientError::Other(String::from_str("received records for an unknown package log")));
            },
        };
        let now = had[j] || batch.records.len() > 0;
        proof {
            let c = choose|c: int| 0 <= c < ps.len() && ps[c].log_id@ == batch.log_id@;
            assert(c == j as int);
            lemma_replay_none(ps[c].head, records_for(next, batch.log_id@));
        }
        if packages[j].head.registry_index.is_none() && !now {
            proof {
                lemma_fault_prefix(ps, bs, k as int + 1);
            }
            return Err(ClientError::PackageLogEmpty { name: packages[j].name.clone() });
        }
        let ghost before = had@;
        had.remove(j);
        had.insert(j, now);
        proof {
            assert forall|m: int| 0 <= m < ps.len() implies (#[trigger] had@[m]) == (records_for(next, ps[m].log_id@).len() > 0) by {
                if m != j as int {
                    assert(ps[m].log_id@ != ps[j as int].log_id@);
                    assert(had@[m] == before[m]);
                }
            }
        }
        k = k + 1;
    }
    assert(bs.take(k as int) =~= bs);
    Ok(())
}

/// Gathers the records of each package log from the batches, in order.
fn bucket_records<P, PE>(packages: &Vec<PackageInfo<P>>, batches: Vec<PackageRecords<PE>>) -> (r: Vec<Vec<FetchedRecord<PE>>>)
    requires
        distinct_logs(packages@),
        forall|k: int| 0 <= k < batches@.len() ==> known_log(packages@, (#[trigger] batches@[k]).log_id@),
    ensures
        r@.len() == packages@.len(),
        forall|i: int| 0 <= i < packages@.len() ==> (#[trigger] r@[i])@ == records_for(batches@, packages@[i].log_id@),
{
    let ghost all = batches@;
    let mut buckets: Vec<Vec<FetchedRecord<PE>>> = Vec::new();
    let mut i: usize = 0;
    while i < packages.len()
        invariant
            i <= packages@.len(),
            buckets@.len() == i,
            forall|m: int| 0 <= m < i ==> (#[trigger] buckets@[m])@ == Seq::<FetchedRecord<PE>>::empty(),
        decreases packages@.len() - i,
    {
        buckets.push(Vec::new());
        i = i + 1;
    }
    assert forall|m: int| 0 <= m < packages@.len() implies (#[trigger] buckets@[m])@ == records_for(all.take(0), packages@[m].log_id@) by {
        assert(all.take(0).len() == 0);
    }
    let mut rest = batches;
    let ghost mut k: int = 0;
    while rest.len() > 0
        invariant
            0 <= k,
            k + rest@.len() == all.len(),
            rest@ == all.subrange(k, all.len() as int),
            buckets@.len() == packages@.len(),
            distinct_logs(packages@),
            forall|m: int| 0 <= m < all.len() ==> known_log(packages@, (#[trigger] all[m]).log_id@),
            forall|m: int| 0 <= m < packages@.len() ==> (#[trigger] buckets@[m])@ == records_for(all.take(k), packages@[m].log_id@),
        decreases rest@.len(),
    {
        let batch = rest.remove(0);
        let ghost done = all.take(k);
        let ghost next = all.take(k + 1);
        assert(next.drop_last() =~= done);
        assert(all[k] == batch);
        assert(rest@ =~= all.subrange(k + 1, all.len() as int));
        let PackageRecords { log_id, records } = batch;
        let j = match position_of(packages, &log_id) {
            Some(j) => j,
            None => {
                assert(known_log(packages@, all[k].log_id@));
                return buckets;
            },
        };
        let ghost before = buckets@;
        let mut records = records;
        let mut bucket = buckets.remove(j);
        bucket.append(&mut records);
        buckets.insert(j, bucket);
        proof {
            assert(next.last() == all[k]);
            assert forall|m: int| 0 <= m < packages@.len() implies (#[trigger] buckets@[m])@ == records_for(next, packages@[m].log_id@) by {
                if m != j as int {
                    assert(buckets@[m] == before[m]);
                    assert(packages@[m].log_id@ != packages@[j as int].log_id@);
                } else {
                    assert(buckets@[m]@ == before[m]@ + all[k].records@);
                }
            }
            k = k + 1;
        }
    }
    assert(all.take(k) =~= all);
    buckets
}

/// `e` is a validator's refusal during the replay of the page: of an operator
/// record, or of a record of one of the packages, with the validator's reason.
pub open spec fn refusal<O, P, OE, PE, OF, PF>(s: Synchronizer<O, P>, response: FetchLogsResponse<OE, PE>, validate_operator: OF, validate_package: PF, e: ClientError) -> bool where
    OF: Fn(O, &OE) -> Result<O, String>,
    PF: Fn(P, &PE) -> Result<P, String>,
{
    match e {
        ClientError::OperatorValidationFailed { inner } => refused_at(
            validate_operator,
            s.operator.state,
            accepted_envelopes(s.operator.head, response.operator@),
            inner,
        ),
        ClientError::PackageValidationFailed { name, inner } => exists|i: int|
            0 <= i < s.packages@.len() && name == (#[trigger] s.packages@[i]).name && refused_at(
                validate_package,
                s.packages@[i].state,
                accepted_envelopes(s.packages@[i].head, records_for(response.packages@, s.packages@[i].log_id@)),
                inner,
            ),
        _ => false,
    }
}

/// The page holds no record that any log has not seen: nothing reaches a
/// validator.
pub open spec fn nothing_new<O, P, OE, PE>(s: Synchronizer<O, P>, response: FetchLogsResponse<OE, PE>) -> bool {
    &&& accepted_envelopes(s.operator.head, response.operator@).len() == 0
    &&& forall|i: int| 0 <= i < s.packages@.len() ==> accepted_envelopes(
        (#[trigger] s.packages@[i]).head,
        records_for(response.packages@, s.packages@[i].log_id@),
    ).len() == 0
}

/// How far an update has come. Each step of `Synchronizer` moves it on, and
/// only a fully verified update can be committed.
#[derive(Debug, Clone, Copy, PartialEq, Eq)]
pub enum SyncPhase {
    /// Pages of records are being fetched.
    Fetching,
    /// All pages are in; the checkpoint's signature is to be checked.
    Fetched,
    /// The signature holds; the leaves' inclusion is to be proved.
    Signed,
    /// The leaves are included; the progression is to be checked.
    Included,
    /// The log grew since the trusted checkpoint; the consistency proof is owed.
    ConsistencyOwed,
    /// Every check passed.
    Verified,
}

/// An update of the operator log and of a set of package logs to one target
/// checkpoint. Its steps take it through `SyncPhase` in order: fetch pages
/// until none is left, check the checkpoint's signature, prove the leaves
/// included, check the progression from the trusted checkpoint (with a
/// consistency proof where the log grew); only then can it be committed.
#[derive(Debug)]
pub struct Synchronizer<O, P> {
    pub checkpoint: Checkpoint,
    pub operator: OperatorInfo<O>,
    pub packages: Vec<PackageInfo<P>>,
    pub phase: SyncPhase,
}

impl<O, P> Synchronizer<O, P> {
    pub open spec fn wf(self) -> bool {
        distinct_logs(self.packages@)
    }

    /// `self` holds the same update as `other`, whatever their steps.
    pub open spec fn same_update(self, other: Self) -> bool {
        &&& self.checkpoint == other.checkpoint
        &&& self.operator == other.operator
        &&& self.packages == other.packages
    }

    /// Starts an update to `checkpoint`. Packages already at that checkpoint
    /// are left out, and of packages that share a log only the last is kept.
    /// Where none is left the update is a no-op and `None` comes back, before
    /// any fetch.
    pub fn new(checkpoint: Checkpoint, operator: OperatorInfo<O>, packages: Vec<PackageInfo<P>>) -> (r: Option<Self>)
        ensures
            r is None <==> (forall|i: int| 0 <= i < packages@.len() ==> !needs_update(#[trigger] packages@[i], checkpoint)),
            r is Some ==> ({
                let s = r->Some_0;
                &&& s.wf()
                &&& s.checkpoint == checkpoint
                &&& s.operator == operator
                &&& s.packages@ == latest_per_log(pending(packages@, checkpoint))
                &&& s.phase == SyncPhase::Fetching
            }),
    {
        let ghost all = packages@;
        let mut rest = packages;
        let mut kept: Vec<PackageInfo<P>> = Vec::new();
        let ghost mut k: int = 0;
        while rest.len() > 0
            invariant
                0 <= k,
                k + rest@.len() == all.len(),
                rest@ == all.subrange(k, all.len() as int),
                kept@ == pending(all.subrange(0, k), checkpoint),
                kept@.len() == 0 <==> (forall|i: int| 0 <= i < k ==> !needs_update(#[trigger] all[i], checkpoint)),
            decreases rest@.len(),
        {
            let p = rest.remove(0);
            assert(all.subrange(0, k + 1).drop_last() =~= all.subrange(0, k));
            assert(rest@ =~= all.subrange(k + 1, all.len() as int));
            let stale = match &p.checkpoint {
                Some(c) => !c.same_as(&checkpoint),
                None => true,
            };
            if stale {
                kept.push(p);
            }
            proof {
                k = k + 1;
            }
        }
        assert(all.subrange(0, k) =~= all);
        let ghost ps = kept@;
        let mut rest = kept;
        let mut out: Vec<PackageInfo<P>> = Vec::new();
        while rest.len() > 0
            invariant
                out@ + latest_per_log(rest@) == latest_per_log(ps),
                distinct_logs(out@),
                forall|m: int| 0 <= m < out@.len() ==> !known_log(rest@, (#[trigger] out@[m]).log_id@),
                ps.len() > 0 ==> out@.len() > 0 || rest@.len() > 0,
            decreases rest@.len(),
        {
            let ghost before = rest@;
            let p = rest.remove(0);
            assert(rest@ =~= before.drop_first());
            let later = position_of(&rest, &p.log_id).is_some();
            if !later {
                proof {
                    assert forall|m: int| 0 <= m < out@.len() implies out@[m].log_id@ != p.log_id@ by {
                        if out@[m].log_id@ == p.log_id@ {
                            assert(before[0] == p);
                            assert(known_log(before, out@[m].log_id@));
                        }
                    }
                    assert forall|m: int| 0 <= m < out@.len() implies !known_log(rest@, (#[trigger] out@[m]).log_id@) by {
                        if known_log(rest@, out@[m].log_id@) {
                            let c = choose|c: int| 0 <= c < rest@.len() && rest@[c].log_id@ == out@[m].log_id@;
                            assert(before[c + 1] == rest@[c]);
                        }
                    }
                    assert(out@.push(p) + latest_per_log(rest@) =~= out@ + (seq![p] + latest_per_log(rest@)));
                }
                out.push(p);
            } else {
                proof {
                    assert forall|m: int| 0 <= m < out@.len() implies !known_log(rest@, (#[trigger] out@[m]).log_id@) by {
                        if known_log(rest@, out@[m].log_id@) {
                            let c = choose|c: int| 0 <= c < rest@.len() && rest@[c].log_id@ == out@[m].log_id@;
                            assert(before[c + 1] == rest@[c]);
                        }
                    }
                }
            }
        }
        assert(latest_per_log(rest@) =~= Seq::<PackageInfo<P>>::empty());
        assert(out@ =~= latest_per_log(ps));
        if out.len() == 0 {
            None
        } else {
            Some(Synchronizer { checkpoint, operator, packages: out, phase: SyncPhase::Fetching })
        }
    }

    /// The request for the next page: up to the target's log length, the
    /// operator log from its head's fetch token, each package log from its own.
    pub fn fetch_request(&self) -> (r: FetchLogsRequest)
        ensures
            r.log_length == self.checkpoint.log_length,
            r.operator == self.operator.head.fetch_token,
            r.packages@.len() == self.packages@.len(),
            forall|i: int| 0 <= i < self.packages@.len() ==> (#[trigger] r.packages@[i]).0 == self.packages@[i].log_id
                && r.packages@[i].1 == self.packages@[i].head.fetch_token,
    {
        let mut cursors: Vec<(String, Option<String>)> = Vec::new();
        let mut i: usize = 0;
        while i < self.packages.len()
            invariant
                i <= self.packages@.len(),
                cursors@.len() == i,
                forall|m: int| 0 <= m < i ==> (#[trigger] cursors@[m]).0 == self.packages@[m].log_id
                    && cursors@[m].1 == self.packages@[m].head.fetch_token,
            decreases self.packages@.len() - i,
        {
            let p = &self.packages[i];
            cursors.push((p.log_id.clone(), copy_text(&p.head.fetch_token)));
            i = i + 1;
        }
        FetchLogsRequest {
            log_length: self.checkpoint.log_length,
            operator: copy_text(&self.operator.head.fetch_token),
            packages: cursors,
        }
    }

    /// Replays one page of fetched records. First the protocol checks, from
    /// registry indices alone and before anything is validated: a batch for a
    /// log that is not being updated is refused, and so is a package log still
    /// without a head after its batch. Then operator records, and each package
    /// log's records in the order received, go to their validator, skipping
    /// those already seen. The flag returned says whether more pages remain.
    pub fn apply_response<OE, PE, OF, PF>(self, response: FetchLogsResponse<OE, PE>, validate_operator: &OF, validate_package: &PF) -> (r: Result<(Self, bool), ClientError>) where
        OF: Fn(O, &OE) -> Result<O, String>,
        PF: Fn(P, &PE) -> Result<P, String>,

        requires
            self.wf(),
            self.phase == SyncPhase::Fetching,
            forall|s: O, e: &OE| #[trigger] validate_operator.requires((s, e)),
            forall|s: P, e: &PE| #[trigger] validate_package.requires((s, e)),
        ensures
            match protocol_fault(self.packages@, response.packages@) {
                Some(None) => r is Err && r->Err_0 is Other,
                Some(Some(i)) => r == Err::<(Self, bool), ClientError>(ClientError::PackageLogEmpty { name: self.packages@[i].name }),
                None => r is Err ==> refusal(self, response, validate_operator, validate_package, r->Err_0),
            },
            protocol_fault(self.packages@, response.packages@) is None && nothing_new(self, response) ==> r is Ok,
            r is Ok ==> ({
                let (s, more) = r->Ok_0;
                &&& s.wf()
                &&& more == response.more
                &&& s.phase == (if more { SyncPhase::Fetching } else { SyncPhase::Fetched })
                &&& s.checkpoint == self.checkpoint
                &&& s.operator.log_id == self.operator.log_id
                &&& s.operator.head == replay(self.operator.head, response.operator@)
                &&& index_le(self.operator.head.registry_index, s.operator.head.registry_index)
                &&& validates_to(validate_operator, self.operator.state, accepted_envelopes(self.operator.head, response.operator@), s.operator.state)
                &&& s.packages@.len() == self.packages@.len()
                &&& forall|i: int| 0 <= i < self.packages@.len() ==> {
                    let (old_p, new_p) = (self.packages@[i], #[trigger] s.packages@[i]);
                    let rs = records_for(response.packages@, old_p.log_id@);
                    &&& new_p.name == old_p.name
                    &&& new_p.log_id == old_p.log_id
                    &&& new_p.checkpoint == old_p.checkpoint
                    &&& new_p.head == replay(old_p.head, rs)
                    &&& index_le(old_p.head.registry_index, new_p.head.registry_index)
                    &&& validates_to(validate_package, old_p.state, accepted_envelopes(old_p.head, rs), new_p.state)
                }
            }),
    {
        protocol_check(&self.packages, &response.packages)?;
        proof {
            lemma_no_fault_known(self.packages@, response.packages@);
        }
        assert(protocol_fault(self.packages@, response.packages@) is None);
        let ghost orig = self.packages@;
        let ghost batches = response.packages@;
        let ghost old_self = self;
        let ghost old_resp = response;
        let Synchronizer { checkpoint, operator, packages, phase: _ } = self;
        let OperatorInfo { log_id: op_log_id, state: op_state, head: op_head } = operator;
        let FetchLogsResponse { operator: op_records, packages: batches_vec, more } = response;
        let ghost old_op_head = op_head;
        let ghost old_op_records = op_records@;
        let (op_state, op_head) = match replay_records(validate_operator, op_state, op_head, op_records) {
            Ok(v) => v,
            Err(inner) => {
                return Err(ClientError::OperatorValidationFailed { inner });
            },
        };
        proof {
            lemma_replay_monotone(old_op_head, old_op_records);
        }
        let buckets = bucket_records(&packages, batches_vec);
        let ghost all_buckets = buckets@;
        let mut rest = packages;
        let mut rest_buckets = buckets;
        let mut out: Vec<PackageInfo<P>> = Vec::new();
        let ghost mut k: int = 0;
        while rest.len() > 0
            invariant
                0 <= k,
                k + rest@.len() == orig.len(),
                rest@ == orig.subrange(k, orig.len() as int),
                rest_buckets@ == all_buckets.subrange(k, orig.len() as int),
                all_buckets.len() == orig.len(),
                distinct_logs(orig),
                old_self.packages@ == orig,
                old_resp.packages@ == batches,
                old_self == self,
                old_resp == response,
                protocol_fault(orig, batches) is None,
                forall|i: int| 0 <= i < orig.len() ==> (#[trigger] all_buckets[i])@ == records_for(batches, orig[i].log_id@),
                forall|s: P, e: &PE| #[trigger] validate_package.requires((s, e)),
                out@.len() == k,
                forall|i: int| 0 <= i < k ==> {
                    let (old_p, new_p) = (orig[i], #[trigger] out@[i]);
                    let rs = records_for(batches, old_p.log_id@);
                    &&& new_p.name == old_p.name
                    &&& new_p.log_id == old_p.log_id
                    &&& new_p.checkpoint == old_p.checkpoint
                    &&& new_p.head == replay(old_p.head, rs)
                    &&& index_le(old_p.head.registry_index, new_p.head.registry_index)
                    &&& validates_to(validate_package, old_p.state, accepted_envelopes(old_p.head, rs), new_p.state)
                },
            decreases rest@.len(),
        {
            let p = rest.remove(0);
            let records = rest_buckets.remove(0);
            assert(rest@ =~= orig.subrange(k + 1, orig.len() as int));
            assert(rest_buckets@ =~= all_buckets.subrange(k + 1, orig.len() as int));
            assert(p == orig[k]);
            assert(records == all_buckets[k]);
            let PackageInfo { name, log_id, state, head, checkpoint: pkg_checkpoint } = p;
            let ghost old_head = head;
            let (state, head) = match replay_records(validate_package, state, head, records) {
                Ok(v) => v,
                Err(inner) => {
                    proof {
                        assert(old_self.packages@[k] == orig[k]);
                        assert(old_resp.packages@ == batches);
                        let envs = accepted_envelopes(orig[k].head, records_for(batches, orig[k].log_id@));
                        assert(refused_at(validate_package, orig[k].state, envs, inner));
                        assert(envs.len() > 0);
                        assert(name == orig[k].name);
                        let e = ClientError::PackageValidationFailed { name, inner };
                        assert(refusal(old_self, old_resp, validate_operator, validate_package, e));
                        assert(!nothing_new(old_self, old_resp));
                    }
                    return Err(ClientError::PackageValidationFailed { name, inner });
                },
            };
            proof {
                lemma_replay_monotone(old_head, all_buckets[k]@);
            }
            out.push(PackageInfo { name, log_id, state, head, checkpoint: pkg_checkpoint });
            proof {
                k = k + 1;
            }
        }
        proof {
            assert forall|i: int, m: int| 0 <= i < m < out@.len() implies out@[i].log_id@ != out@[m].log_id@ by {
                assert(out@[i].log_id == orig[i].log_id);
                assert(out@[m].log_id == orig[m].log_id);
            }
        }
        let operator = OperatorInfo { log_id: op_log_id, state: op_state, head: op_head };
        let phase = if more {
            SyncPhase::Fetching
        } else {
            SyncPhase::Fetched
        };
        Ok((Synchronizer { checkpoint, operator, packages: out, phase }, more))
    }

    /// The leaves whose inclusion in the target checkpoint is to be proved,
    /// with their registry indices: the operator log's head first, then each
    /// package log's head in order. The operator log must have a head, and so
    /// must every package log.
    pub fn inclusion_leaves(&self) -> (r: Result<(Vec<u64>, Vec<LogLeaf>), ClientError>)
        ensures
            !complete(self.operator.head) ==> r == Err::<(Vec<u64>, Vec<LogLeaf>), ClientError>(ClientError::NoOperatorRecords),
            complete(self.operator.head) && (exists|i: int| 0 <= i < self.packages@.len() && !complete(#[trigger] self.packages@[i].head)) ==> (exists|i: int|
                0 <= i < self.packages@.len() && !complete(#[trigger] self.packages@[i].head)
                && (forall|m: int| 0 <= m < i ==> complete(#[trigger] self.packages@[m].head))
                && r == Err::<(Vec<u64>, Vec<LogLeaf>), ClientError>(ClientError::PackageLogEmpty { name: self.packages@[i].name })),
            complete(self.operator.head) && (forall|i: int| 0 <= i < self.packages@.len() ==> complete(#[trigger] self.packages@[i].head)) ==> r is Ok,
            r is Ok ==> ({
                let (indices, leaves) = r->Ok_0;
                &&& indices@.len() == self.packages@.len() + 1
                &&& leaves@.len() == self.packages@.len() + 1
                &&& Some(indices@[0]) == self.operator.head.registry_index
                &&& leaves@[0].log_id == self.operator.log_id
                &&& Some(leaves@[0].record_id) == self.operator.head.record_id
                &&& forall|i: int| 0 <= i < self.packages@.len() ==> Some(#[trigger] indices@[i + 1]) == self.packages@[i].head.registry_index
                    && leaves@[i + 1].log_id == self.packages@[i].log_id
                    && Some(leaves@[i + 1].record_id) == self.packages@[i].head.record_id
            }),
    {
        let mut indices: Vec<u64> = Vec::new();
        let mut leaves: Vec<LogLeaf> = Vec::new();
        match (&self.operator.head.registry_index, &self.operator.head.record_id) {
            (Some(index), Some(id)) => {
                indices.push(*index);
                leaves.push(LogLeaf { log_id: self.operator.log_id.clone(), record_id: id.clone() });
            },
            _ => {
                return Err(ClientError::NoOperatorRecords);
            },
        }
        let mut i: usize = 0;
        while i < self.packages.len()
            invariant
                complete(self.operator.head),
                i <= self.packages@.len(),
                indices@.len() == i + 1,
                leaves@.len() == i + 1,
                Some(indices@[0]) == self.operator.head.registry_index,
                leaves@[0].log_id == self.operator.log_id,
                Some(leaves@[0].record_id) == self.operator.head.record_id,
                forall|m: int| 0 <= m < i ==> complete(#[trigger] self.packages@[m].head),
                forall|m: int| 0 <= m < i ==> Some(#[trigger] indices@[m + 1]) == self.packages@[m].head.registry_index
                    && leaves@[m + 1].log_id == self.packages@[m].log_id
                    && Some(leaves@[m + 1].record_id) == self.packages@[m].head.record_id,
            decreases self.packages@.len() - i,
        {
            let p = &self.packages[i];
            let ghost oi = indices@;
            let ghost ol = leaves@;
            match (&p.head.registry_index, &p.head.record_id) {
                (Some(index), Some(id)) => {
                    indices.push(*index);
                    leaves.push(LogLeaf { log_id: p.log_id.clone(), record_id: id.clone() });
                },
                _ => {
                    return Err(ClientError::PackageLogEmpty { name: p.name.clone() });
                },
            }
            proof {
                assert forall|m: int| 0 <= m < i + 1 implies Some(#[trigger] indices@[m + 1]) == self.packages@[m].head.registry_index
                    && leaves@[m + 1].log_id == self.packages@[m].log_id
                    && Some(leaves@[m + 1].record_id) == self.packages@[m].head.record_id by {
                    if m < i {
                        assert(indices@[m + 1] == oi[m + 1]);
                        assert(leaves@[m + 1] == ol[m + 1]);
                    }
                }
            }
            i = i + 1;
        }
        Ok((indices, leaves))
    }

    /// Takes the outcome of checking the checkpoint's signature with the
    /// operator log's keys, once all pages are in.
    pub fn check_signature(self, key_id: &String, check: SignatureCheck) -> (r: Result<Self, ClientError>)
        requires
            self.phase == SyncPhase::Fetched,
        ensures
            check == SignatureCheck::UnknownKey ==> r == Err::<Self, ClientError>(ClientError::InvalidCheckpointKeyId { key_id: *key_id }),
            check == SignatureCheck::Invalid ==> r == Err::<Self, ClientError>(ClientError::InvalidCheckpointSignature),
            check == SignatureCheck::Valid ==> r is Ok && r->Ok_0.same_update(self) && r->Ok_0.phase == SyncPhase::Signed,
    {
        match signature_verdict(key_id, check) {
            Ok(()) => Ok(Synchronizer { phase: SyncPhase::Signed, ..self }),
            Err(e) => Err(e),
        }
    }

    /// Takes the outcome of proving the leaves of `inclusion_leaves` included
    /// in the target checkpoint.
    pub fn inclusion_proved(self, outcome: Result<(), ApiError>) -> (r: Result<Self, ClientError>)
        requires
            self.phase == SyncPhase::Signed,
        ensures
            match outcome {
                Ok(()) => r is Ok && r->Ok_0.same_update(self) && r->Ok_0.phase == SyncPhase::Included,
                Err(e) => r == Err::<Self, ClientError>(ClientError::Api(e)),
            },
    {
        match outcome {
            Ok(()) => Ok(Synchronizer { phase: SyncPhase::Included, ..self }),
            Err(e) => Err(ClientError::Api(e)),
        }
    }

    /// Checks the target checkpoint against the one trusted before. Where
    /// the log grew, a consistency proof is still owed.
    pub fn check_progression(self, previous: Option<&Checkpoint>) -> (r: Result<(Self, Progression), ClientError>)
        requires
            self.phase == SyncPhase::Included,
        ensures
            ({
                let verdict = progression(
                    match previous {
                        Some(p) => Some(*p),
                        None => None,
                    },
                    self.checkpoint,
                );
                match verdict {
                    Err(e) => r == Err::<(Self, Progression), ClientError>(e),
                    Ok(p) => r is Ok && r->Ok_0.1 == p && r->Ok_0.0.same_update(self) && r->Ok_0.0.phase == (
                        if p is Extends { SyncPhase::ConsistencyOwed } else { SyncPhase::Verified }),
                }
            }),
    {
        match verify_progression(previous, &self.checkpoint) {
            Ok(p) => {
                let phase = match p {
                    Progression::Extends { .. } => SyncPhase::ConsistencyOwed,
                    _ => SyncPhase::Verified,
                };
                Ok((Synchronizer { phase, ..self }, p))
            },
            Err(e) => Err(e),
        }
    }

    /// Takes the outcome of proving the target checkpoint consistent with the
    /// one trusted before.
    pub fn consistency_proved(self, outcome: Result<(), ApiError>) -> (r: Result<Self, ClientError>)
        requires
            self.phase == SyncPhase::ConsistencyOwed,
        ensures
            match outcome {
                Ok(()) => r is Ok && r->Ok_0.same_update(self) && r->Ok_0.phase == SyncPhase::Verified,
                Err(e) => r == Err::<Self, ClientError>(ClientError::Api(e)),
            },
    {
        match outcome {
            Ok(()) => Ok(Synchronizer { phase: SyncPhase::Verified, ..self }),
            Err(e) => Err(ClientError::Api(e)),
        }
    }

    /// Ends a verified update: every package now records the target
    /// checkpoint. What comes back is what is to be stored, with the target
    /// checkpoint as the latest trusted one.
    pub fn commit(self) -> (r: (OperatorInfo<O>, Vec<PackageInfo<P>>, Checkpoint))
        requires
            self.phase == SyncPhase::Verified,
        ensures
            r.0 == self.operator,
            r.2 == self.checkpoint,
            r.1@.len() == self.packages@.len(),
            forall|i: int| 0 <= i < self.packages@.len() ==> {
                let (old_p, new_p) = (self.packages@[i], #[trigger] r.1@[i]);
                &&& new_p.name == old_p.name
                &&& new_p.log_id == old_p.log_id
                &&& new_p.head == old_p.head
                &&& new_p.state == old_p.state
                &&& new_p.checkpoint is Some
                &&& same_checkpoint(new_p.checkpoint->Some_0, self.checkpoint)
            },
    {
        let Synchronizer { checkpoint, operator, packages, phase: _ } = self;
        let ghost all = packages@;
        let mut rest = packages;
        let mut done: Vec<PackageInfo<P>> = Vec::new();
        let ghost mut k: int = 0;
        while rest.len() > 0
            invariant
                0 <= k,
                k + rest@.len() == all.len(),
                rest@ == all.subrange(k, all.len() as int),
                done@.len() == k,
                forall|i: int| 0 <= i < k ==> {
                    let (old_p, new_p) = (all[i], #[trigger] done@[i]);
                    &&& new_p.name == old_p.name
                    &&& new_p.log_id == old_p.log_id
                    &&& new_p.head == old_p.head
                    &&& new_p.state == old_p.state
                    &&& new_p.checkpoint is Some
                    &&& same_checkpoint(new_p.checkpoint->Some_0, checkpoint)
                },
            decreases rest@.len(),
        {
            let p = rest.remove(0);
            assert(rest@ =~= all.subrange(k + 1, all.len() as int));
            let PackageInfo { name, log_id, state, head, checkpoint: _ } = p;
            done.push(PackageInfo { name, log_id, state, head, checkpoint: Some(checkpoint.copy()) });
            proof {
                k = k + 1;
            }
        }
        (operator, done, checkpoint)
    }
}

} // verus!
