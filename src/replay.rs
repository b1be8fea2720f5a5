use vstd::prelude::*;

verus! {

/// A record that the registry returned for a log, with its place in the
/// registry's global sequence.
#[derive(Debug)]
pub struct FetchedRecord<E> {
    pub registry_index: u64,
    pub fetch_token: String,
    pub record_id: String,
    pub envelope: E,
}

/// Where a log's validated state stands: its last accepted record's registry
/// index, fetch token and id. All absent when no record was accepted yet.
#[derive(Debug)]
pub struct LogHead {
    pub registry_index: Option<u64>,
    pub fetch_token: Option<String>,
    pub record_id: Option<String>,
}

impl LogHead {
    /// The head of a log with no accepted record.
    pub fn empty() -> (r: LogHead)
        ensures
            r == (LogHead { registry_index: None, fetch_token: None, record_id: None }),
    {
        LogHead { registry_index: None, fetch_token: None, record_id: None }
    }
}

/// A record at `index` is new to a log whose head is at `head`: indices are
/// compared strictly, so an equal index is a duplicate.
pub open spec fn accepts(head: Option<u64>, index: u64) -> bool {
    head is None || index > head->0
}

/// The head after one record is offered.
pub open spec fn record_step<E>(h: LogHead, r: FetchedRecord<E>) -> LogHead {
    if accepts(h.registry_index, r.registry_index) {
        LogHead {
            registry_index: Some(r.registry_index),
            fetch_token: Some(r.fetch_token),
            record_id: Some(r.record_id),
        }
    } else {
        h
    }
}

/// The head after the records are offered in order.
pub open spec fn replay<E>(h: LogHead, rs: Seq<FetchedRecord<E>>) -> LogHead
    decreases rs.len(),
{
    if rs.len() == 0 {
        h
    } else {
        record_step(replay(h, rs.drop_last()), rs.last())
    }
}

/// The registry indices of the records that are accepted, in order.
pub open spec fn accepted_indices<E>(h: LogHead, rs: Seq<FetchedRecord<E>>) -> Seq<u64>
    decreases rs.len(),
{
    if rs.len() == 0 {
        Seq::empty()
    } else {
        let before = replay(h, rs.drop_last());
        let prior = accepted_indices(h, rs.drop_last());
        if accepts(before.registry_index, rs.last().registry_index) {
            prior.push(rs.last().registry_index)
        } else {
            prior
        }
    }
}

/// The envelopes of the records that are accepted, in order: those that
/// reach the validator.
pub open spec fn accepted_envelopes<E>(h: LogHead, rs: Seq<FetchedRecord<E>>) -> Seq<E>
    decreases rs.len(),
{
    if rs.len() == 0 {
        Seq::empty()
    } else {
        let before = replay(h, rs.drop_last());
        let prior = accepted_envelopes(h, rs.drop_last());
        if accepts(before.registry_index, rs.last().registry_index) {
            prior.push(rs.last().envelope)
        } else {
            prior
        }
    }
}

/// Validating `envs` in order, each once, starting from `start`, can end in
/// `end`: every step is an outcome that `validate` allows.
pub open spec fn validates_to<S, E, F: Fn(S, &E) -> Result<S, String>>(validate: F, start: S, envs: Seq<E>, end: S) -> bool
    decreases envs.len(),
{
    if envs.len() == 0 {
        end == start
    } else {
        exists|mid: S| validates_to(validate, start, envs.drop_last(), mid)
            && #[trigger] validate.ensures((mid, &envs.last()), Ok::<S, String>(end))
    }
}

/// Validating `envs` in order from `start` succeeds up to some envelope,
/// which `validate` refuses for `reason`.
pub open spec fn refused_at<S, E, F: Fn(S, &E) -> Result<S, String>>(validate: F, start: S, envs: Seq<E>, reason: String) -> bool {
    exists|n: int, mid: S| 0 <= n < envs.len() && #[trigger] validates_to(validate, start, envs.take(n), mid)
        && validate.ensures((mid, &envs[n]), Err::<S, String>(reason))
}

/// One more successful validation extends a chain of validations.
pub proof fn lemma_validates_step<S, E, F: Fn(S, &E) -> Result<S, String>>(validate: F, start: S, envs: Seq<E>, mid: S, e: E, end: S)
    requires
        validates_to(validate, start, envs, mid),
        validate.ensures((mid, &e), Ok::<S, String>(end)),
    ensures
        validates_to(validate, start, envs.push(e), end),
{
    let longer = envs.push(e);
    assert(longer.drop_last() =~= envs);
    assert(longer.last() == e);
    assert(validates_to(validate, start, longer.drop_last(), mid));
    assert(validate.ensures((mid, &longer.last()), Ok::<S, String>(end)));
    assert(longer.len() != 0);
}

/// Where no record is accepted the head stays.
pub proof fn lemma_nothing_accepted<E>(h: LogHead, rs: Seq<FetchedRecord<E>>)
    ensures
        accepted_envelopes(h, rs).len() == 0 ==> replay(h, rs) == h,
    decreases rs.len(),
{
    if rs.len() > 0 {
        lemma_nothing_accepted(h, rs.drop_last());
    }
}

/// The envelopes accepted from a prefix of the records are a prefix of
/// those accepted from all of them.
pub proof fn lemma_accepted_prefix<E>(h: LogHead, rs: Seq<FetchedRecord<E>>, m: int)
    requires
        0 <= m <= rs.len(),
    ensures
        accepted_envelopes(h, rs.take(m)).len() <= accepted_envelopes(h, rs).len(),
        accepted_envelopes(h, rs).take(accepted_envelopes(h, rs.take(m)).len() as int) == accepted_envelopes(h, rs.take(m)),
    decreases rs.len(),
{
    if m == rs.len() {
        assert(rs.take(m) =~= rs);
        assert(accepted_envelopes(h, rs).take(accepted_envelopes(h, rs).len() as int) =~= accepted_envelopes(h, rs));
    } else {
        assert(rs.drop_last().take(m) =~= rs.take(m));
        lemma_accepted_prefix(h, rs.drop_last(), m);
        let whole = accepted_envelopes(h, rs);
        let prior = accepted_envelopes(h, rs.drop_last());
        let part = accepted_envelopes(h, rs.take(m));
        assert(whole.take(part.len() as int) =~= prior.take(part.len() as int));
    }
}

/// `a` is no later than `b` as a head index: none is earliest.
pub open spec fn index_le(a: Option<u64>, b: Option<u64>) -> bool {
    match a {
        None => true,
        Some(x) => match b {
            None => false,
            Some(y) => x <= y,
        },
    }
}

/// Offers each record to `validate` in order: a record whose registry index
/// is not above the head's is skipped as already seen; any other is
/// validated, once, and becomes the head. A refusal ends the replay with its
/// reason. Where no record is new, nothing is validated and all is kept.
pub fn replay_records<E, S, F: Fn(S, &E) -> Result<S, String>>(validate: &F, state: S, head: LogHead, records: Vec<FetchedRecord<E>>) -> (r: Result<(S, LogHead), String>)
    requires
        forall|s: S, e: &E| #[trigger] validate.requires((s, e)),
    ensures
        accepted_envelopes(head, records@).len() == 0 ==> r == Ok::<(S, LogHead), String>((state, head)),
        r is Ok ==> r->Ok_0.1 == replay(head, records@)
            && validates_to(validate, state, accepted_envelopes(head, records@), r->Ok_0.0),
        r is Err ==> refused_at(validate, state, accepted_envelopes(head, records@), r->Err_0),
{
    let ghost all = records@;
    let ghost start = head;
    let ghost first = state;
    let mut cur = state;
    let mut at = head;
    let mut rest = records;
    let ghost mut k: int = 0;
    while rest.len() > 0
        invariant
            0 <= k,
            k + rest@.len() == all.len(),
            rest@ == all.subrange(k, all.len() as int),
            at == replay(start, all.subrange(0, k)),
            start == head,
            first == state,
            all == records@,
            validates_to(validate, first, accepted_envelopes(start, all.subrange(0, k)), cur),
            forall|s: S, e: &E| #[trigger] validate.requires((s, e)),
        decreases rest@.len(),
    {
        let rec = rest.remove(0);
        let ghost done = all.subrange(0, k);
        let ghost next = all.subrange(0, k + 1);
        assert(next.drop_last() =~= done);
        assert(rest@ =~= all.subrange(k + 1, all.len() as int));
        assert(all.take(k + 1) =~= next);
        let ghost acc = accepted_envelopes(start, done);
        let FetchedRecord { registry_index, fetch_token, record_id, envelope } = rec;
        let fresh = match at.registry_index {
            None => true,
            Some(h) => registry_index > h,
        };
        if fresh {
            let ghost before = cur;
            match validate(cur, &envelope) {
                Ok(s) => {
                    cur = s;
                    proof {
                        assert(accepted_envelopes(start, next) == acc.push(envelope));
                        assert(acc.push(envelope).drop_last() =~= acc);
                        assert(acc.push(envelope).last() == envelope);
                        assert(validate.ensures((before, &envelope), Ok::<S, String>(cur)));
                        assert(validates_to(validate, first, acc, before));
                        lemma_validates_step(validate, first, acc, before, envelope, cur);
                    }
                },
                Err(e) => {
                    proof {
                        let envs = accepted_envelopes(start, next);
                        assert(envs == acc.push(envelope));
                        lemma_accepted_prefix(start, all, k + 1);
                        let whole = accepted_envelopes(start, all);
                        assert(whole.take(acc.len() as int) =~= acc);
                        assert(whole[acc.len() as int] == envs[acc.len() as int]);
                        assert(validates_to(validate, first, whole.take(acc.len() as int), before));
                        assert(whole.len() > acc.len());
                        assert(envs[acc.len() as int] == envelope);
                        assert(validate.ensures((before, &envelope), Err::<S, String>(e)));
                        assert(validate.ensures((before, &whole[acc.len() as int]), Err::<S, String>(e)));
                        assert(refused_at(validate, first, whole, e));
                        assert(accepted_envelopes(start, all).len() > 0);
                    }
                    return Err(e);
                },
            }
            at = LogHead {
                registry_index: Some(registry_index),
                fetch_token: Some(fetch_token),
                record_id: Some(record_id),
            };
        }
        proof {
            k = k + 1;
        }
    }
    assert(all.subrange(0, k) =~= all);
    proof {
        lemma_nothing_accepted(start, all);
    }
    Ok((cur, at))
}

/// Offering records page by page ends where offering them all at once ends:
/// the head after `a` then `b` is the head after `a + b`.
pub proof fn lemma_replay_pages<E>(h: LogHead, a: Seq<FetchedRecord<E>>, b: Seq<FetchedRecord<E>>)
    ensures
        replay(replay(h, a), b) == replay(h, a + b),
    decreases b.len(),
{
    if b.len() == 0 {
        assert(a + b =~= a);
    } else {
        assert((a + b).drop_last() =~= a + b.drop_last());
        lemma_replay_pages(h, a, b.drop_last());
    }
}

/// The head's registry index never goes back, whatever records are offered
/// and in whatever order.
pub proof fn lemma_replay_monotone<E>(h: LogHead, rs: Seq<FetchedRecord<E>>)
    ensures
        index_le(h.registry_index, replay(h, rs).registry_index),
    decreases rs.len(),
{
    if rs.len() > 0 {
        lemma_replay_monotone(h, rs.drop_last());
    }
}

/// After a replay the head is at or above every record that was offered.
pub proof fn lemma_replay_covers<E>(h: LogHead, rs: Seq<FetchedRecord<E>>)
    ensures
        forall|i: int| 0 <= i < rs.len() ==> index_le(Some(#[trigger] rs[i].registry_index), replay(h, rs).registry_index),
    decreases rs.len(),
{
    if rs.len() > 0 {
        lemma_replay_covers(h, rs.drop_last());
        assert forall|i: int| 0 <= i < rs.len() implies index_le(Some(#[trigger] rs[i].registry_index), replay(h, rs).registry_index) by {
            if i < rs.len() - 1 {
                assert(rs[i] == rs.drop_last()[i]);
            }
        }
    }
}

/// Records that are all at or below the head are skipped: the head stays.
pub proof fn lemma_replay_stale<E>(h: LogHead, rs: Seq<FetchedRecord<E>>)
    requires
        forall|i: int| 0 <= i < rs.len() ==> !accepts(h.registry_index, #[trigger] rs[i].registry_index),
    ensures
        replay(h, rs) == h,
    decreases rs.len(),
{
    if rs.len() > 0 {
        assert forall|i: int| 0 <= i < rs.drop_last().len() implies !accepts(h.registry_index, #[trigger] rs.drop_last()[i].registry_index) by {
            assert(rs.drop_last()[i] == rs[i]);
        }
        lemma_replay_stale(h, rs.drop_last());
    }
}

/// Records delivered twice, as overlapping fetch pages do, leave the head
/// where a single delivery left it.
pub proof fn lemma_replay_redelivery<E>(h: LogHead, rs: Seq<FetchedRecord<E>>)
    ensures
        replay(replay(h, rs), rs) == replay(h, rs),
        replay(h, rs + rs) == replay(h, rs),
{
    lemma_replay_covers(h, rs);
    let once = replay(h, rs);
    assert forall|i: int| 0 <= i < rs.len() implies !accepts(once.registry_index, #[trigger] rs[i].registry_index) by {
        assert(index_le(Some(rs[i].registry_index), once.registry_index));
    }
    lemma_replay_stale(once, rs);
    lemma_replay_pages(h, rs, rs);
}

/// Each accepted record is accepted once: the accepted registry indices rise
/// strictly, all lie above the starting head, and the last is the new head.
pub proof fn lemma_accepted_once<E>(h: LogHead, rs: Seq<FetchedRecord<E>>)
    ensures
        forall|i: int, j: int| 0 <= i < j < accepted_indices(h, rs).len() ==> accepted_indices(h, rs)[i] < accepted_indices(h, rs)[j],
        forall|i: int| 0 <= i < accepted_indices(h, rs).len() ==> accepts(h.registry_index, #[trigger] accepted_indices(h, rs)[i]),
        accepted_indices(h, rs).len() == 0 ==> replay(h, rs) == h,
        accepted_indices(h, rs).len() > 0 ==> replay(h, rs).registry_index == Some(accepted_indices(h, rs).last()),
    decreases rs.len(),
{
    if rs.len() > 0 {
        lemma_accepted_once(h, rs.drop_last());
        lemma_replay_monotone(h, rs.drop_last());
    }
}

} // verus!
