use vstd::prelude::*;
use crate::model::{clone_status, UpdateMeta, UpdateResult, UpdateStatus};
use crate::payload::{drain, drained, payload_view, PayloadChunk};
use crate::updates::{Enqueued, Failed, Processed, Processing};
use crate::updates;

verus! {

/// The updates of one index in the order in which they were accepted.
pub type UpdateLog = Seq<UpdateStatus>;

/// A payload once it is read to its end: its bytes, or the error on which it
/// broke off.
pub type DrainedPayload = Result<Seq<u8>, String>;

/// How an update ended: the engine's result, or the cause of the failure.
pub type Outcome = Result<UpdateResult, String>;

/// Every update carries as its id its place in the log.
pub open spec fn ids_in_order(log: UpdateLog) -> bool {
    forall|i: int| 0 <= i < log.len() ==> (#[trigger] log[i]).spec_id() == i
}

/// Every update that precedes a started one has ended: updates start in the
/// order of their acceptance, and one at a time.
pub open spec fn fifo(log: UpdateLog) -> bool {
    forall|i: int, j: int|
        0 <= i < j < log.len() && !((#[trigger] log[j]) is Enqueued) ==> (
        #[trigger] log[i]).spec_is_terminal()
}

/// The shape of every log that the update actor keeps.
pub open spec fn log_wf(log: UpdateLog) -> bool {
    ids_in_order(log) && fifo(log)
}

/// The first `k` updates have ended and the one at `k`, if there is one, has
/// not.
pub open spec fn settled_at(log: UpdateLog, k: int) -> bool {
    &&& 0 <= k <= log.len()
    &&& forall|j: int| 0 <= j < k ==> (#[trigger] log[j]).spec_is_terminal()
    &&& k < log.len() ==> !log[k].spec_is_terminal()
}

/// The place of the oldest update that has not ended; the length of the log
/// if all have.
pub open spec fn open_at(log: UpdateLog) -> int {
    if exists|k: int| settled_at(log, k) {
        choose|k: int| settled_at(log, k)
    } else {
        log.len() as int
    }
}

/// The payload that is kept for an update: what the stream yields when read
/// to its end, for an addition of documents; nothing for the other kinds,
/// which carry no payload.
pub open spec fn spec_payload(meta: UpdateMeta, stream: Seq<PayloadChunk>) -> DrainedPayload {
    if meta is DocumentsAddition {
        drained(stream)
    } else {
        Ok(Seq::empty())
    }
}

/// The status with which `update` ends on `outcome`.
pub open spec fn terminal_status(update: Processing<UpdateMeta>, outcome: Outcome) -> UpdateStatus {
    match outcome {
        Ok(success) => updates::UpdateStatus::Processed(Processed { success, from: update }),
        Err(error) => updates::UpdateStatus::Failed(Failed { error, from: update }),
    }
}

/// How an update ends without the engine being asked, if it does: an addition
/// whose payload broke off fails with the error of the transport, and an
/// addition with an empty payload is processed with no document added.
pub open spec fn spec_settle(meta: UpdateMeta, payload: DrainedPayload) -> Option<Outcome> {
    if meta is DocumentsAddition {
        match payload {
            Err(error) => Some(Err(error)),
            Ok(bytes) => if bytes.len() == 0 {
                Some(Ok(UpdateResult::DocumentsAddition { nb_documents: 0 }))
            } else {
                None
            },
        }
    } else {
        None
    }
}

/// The log once an update with `meta` is accepted.
pub open spec fn spec_enqueue(log: UpdateLog, meta: UpdateMeta) -> UpdateLog {
    log.push(updates::UpdateStatus::Enqueued(Enqueued { update_id: log.len() as u64, meta }))
}

/// The log once the oldest open update is started, where `payload` is the
/// payload kept for it. Nothing starts while an update is in flight.
pub open spec fn spec_start(log: UpdateLog, payload: DrainedPayload) -> UpdateLog {
    let k = open_at(log);
    if k < log.len() && log[k] is Enqueued {
        let update = Processing { from: log[k]->Enqueued_0 };
        match spec_settle(update.from.meta, payload) {
            Some(outcome) => log.update(k, terminal_status(update, outcome)),
            None => log.update(k, updates::UpdateStatus::Processing(update)),
        }
    } else {
        log
    }
}

/// The log once the update in flight ends on `outcome`.
pub open spec fn spec_finish(log: UpdateLog, outcome: Outcome) -> UpdateLog {
    let k = open_at(log);
    if k < log.len() && log[k] is Processing {
        log.update(k, terminal_status(log[k]->Processing_0, outcome))
    } else {
        log
    }
}

/// How far an update has come: accepted, started, ended.
pub open spec fn rank(status: UpdateStatus) -> int {
    match status {
        updates::UpdateStatus::Enqueued(_) => 0,
        updates::UpdateStatus::Processing(_) => 1,
        updates::UpdateStatus::Processed(_) => 2,
        updates::UpdateStatus::Failed(_) => 2,
    }
}

/// `later` is a status that the update with status `earlier` may show at a
/// later time: the same update, no further back, and unchanged once ended.
pub open spec fn advances(earlier: UpdateStatus, later: UpdateStatus) -> bool {
    &&& later.spec_id() == earlier.spec_id()
    &&& later.spec_meta() == earlier.spec_meta()
    &&& rank(earlier) <= rank(later)
    &&& earlier.spec_is_terminal() ==> later == earlier
}

/// `later` is a log that may follow `earlier`: no update is lost and each has
/// advanced.
pub open spec fn log_advances(earlier: UpdateLog, later: UpdateLog) -> bool {
    &&& earlier.len() <= later.len()
    &&& forall|i: int| 0 <= i < earlier.len() ==> advances(#[trigger] earlier[i], later[i])
}

/// There is one place at most at which a log is settled.
pub proof fn lemma_open_at(log: UpdateLog, k: int)
    requires
        settled_at(log, k),
    ensures
        open_at(log) == k,
{
    let c = choose|c: int| settled_at(log, c);
    if c < k {
        assert(log[c].spec_is_terminal());
    } else if k < c {
        assert(log[k].spec_is_terminal());
    }
}

/// In a log of the actor's shape every update after the oldest open one is
/// still enqueued.
pub proof fn lemma_enqueued_after_open(log: UpdateLog, j: int)
    requires
        log_wf(log),
        open_at(log) < j < log.len(),
    ensures
        log[j] is Enqueued,
        settled_at(log, open_at(log)),
{
    lemma_settled_exists(log);
    let k = open_at(log);
    if !(log[j] is Enqueued) {
        assert(log[k].spec_is_terminal());
    }
}

/// Every log is settled at some place.
pub proof fn lemma_settled_exists(log: UpdateLog)
    ensures
        settled_at(log, open_at(log)),
    decreases log.len(),
{
    if log.len() == 0 {
        assert(settled_at(log, 0));
    } else {
        let front = log.drop_last();
        lemma_settled_exists(front);
        let k = open_at(front);
        assert forall|j: int| 0 <= j < k implies (#[trigger] log[j]).spec_is_terminal() by {
            assert(front[j].spec_is_terminal());
        }
        if k < front.len() {
            assert(front[k] == log[k]);
            assert(settled_at(log, k));
        } else if log.last().spec_is_terminal() {
            assert(settled_at(log, log.len() as int));
        } else {
            assert(settled_at(log, k));
        }
    }
}

struct Entry {
    status: UpdateStatus,
    payload: PayloadChunk,
}

spec fn statuses(entries: Seq<Entry>) -> UpdateLog {
    entries.map_values(|entry: Entry| entry.status)
}

spec fn payloads(entries: Seq<Entry>) -> Seq<DrainedPayload> {
    entries.map_values(|entry: Entry| payload_view(entry.payload))
}

spec fn payloads_of_additions(entries: Seq<Entry>) -> bool {
    forall|i: int|
        0 <= i < entries.len() && (#[trigger] entries[i]).payload is Err
            ==> entries[i].status.spec_meta() is DocumentsAddition
}

/// What the update actor does next for an index.
#[derive(Debug, PartialEq, Eq)]
pub enum UpdateStep {
    /// No update can start: none is enqueued, or one is in flight.
    Idle,
    /// The oldest enqueued update has ended without the engine being asked.
    Settled(UpdateStatus),
    /// The oldest enqueued update is now in flight: the engine is to apply
    /// it to `documents`, and `finish` is to be told how that ended.
    Apply { update: Processing<UpdateMeta>, documents: Vec<u8> },
}

/// What `start_next` does on a log with the kept payloads `kept`: the log
/// that it leaves, and the step that it answers.
pub open spec fn started(
    log: UpdateLog,
    kept: Seq<DrainedPayload>,
    after: UpdateLog,
    step: UpdateStep,
) -> bool {
    let k = open_at(log);
    if k < log.len() && log[k] is Enqueued {
        &&& after == spec_start(log, kept[k])
        &&& match step {
            UpdateStep::Idle => false,
            UpdateStep::Settled(status) => status == after[k] && status.spec_is_terminal(),
            UpdateStep::Apply { update, documents } => {
                &&& after[k] == updates::UpdateStatus::<
                    UpdateMeta,
                    UpdateResult,
                    String,
                >::Processing(update)
                &&& kept[k] == Ok::<Seq<u8>, String>(documents@)
            },
        }
    } else {
        after == log && step is Idle
    }
}

/// The payloads that are kept once `start_next` has run on a log with the
/// kept payloads `kept`: the payload of an update that was started has been
/// handed out, and nothing is kept in its place.
pub open spec fn kept_after_start(log: UpdateLog, kept: Seq<DrainedPayload>) -> Seq<
    DrainedPayload,
> {
    let k = open_at(log);
    if k < log.len() && log[k] is Enqueued {
        kept.update(k, Ok(Seq::empty()))
    } else {
        kept
    }
}

/// What `finish` answers on a log: the terminal status of the update that
/// was in flight, if one was.
pub open spec fn finished(log: UpdateLog, outcome: Outcome) -> Option<UpdateStatus> {
    let k = open_at(log);
    if k < log.len() && log[k] is Processing {
        Some(terminal_status(log[k]->Processing_0, outcome))
    } else {
        None
    }
}

/// What `status` answers on a log.
pub open spec fn status_of(log: UpdateLog, update_id: u64) -> Option<UpdateStatus> {
    if update_id < log.len() {
        Some(log[update_id as int])
    } else {
        None
    }
}

/// How an update ends without the engine being asked, if it does.
pub fn settle(meta: &UpdateMeta, payload: &PayloadChunk) -> (outcome: Option<Outcome>)
    ensures
        outcome == spec_settle(*meta, payload_view(*payload)),
{
    match meta {
        UpdateMeta::DocumentsAddition { .. } => match payload {
            Err(error) => Some(Err(error.clone())),
            Ok(bytes) => if bytes.len() == 0 {
                Some(Ok(UpdateResult::DocumentsAddition { nb_documents: 0 }))
            } else {
                None
            },
        },
        _ => None,
    }
}

/// The queue and the status log of the updates of one index.
pub struct UpdateStore {
    entries: Vec<Entry>,
    settled: usize,
}

impl UpdateStore {
    /// The log has the actor's shape and the store knows how many updates
    /// have ended.
    pub closed spec fn wf(&self) -> bool {
        &&& log_wf(statuses(self.entries@))
        &&& settled_at(statuses(self.entries@), self.settled as int)
        &&& payloads_of_additions(self.entries@)
    }

    /// The status log.
    pub closed spec fn view(&self) -> UpdateLog {
        statuses(self.entries@)
    }

    /// The payloads that are kept, one for each update of the log.
    pub closed spec fn payloads(&self) -> Seq<DrainedPayload> {
        payloads(self.entries@)
    }

    /// What `wf` says of the log.
    pub proof fn lemma_wf(&self)
        requires
            self.wf(),
        ensures
            log_wf(self@),
            self.payloads().len() == self@.len(),
    {
    }

    /// A store without updates.
    pub fn new() -> (store: Self)
        ensures
            store.wf(),
            store@ == UpdateLog::empty(),
            store.payloads() == Seq::<DrainedPayload>::empty(),
    {
        let store = UpdateStore { entries: Vec::new(), settled: 0 };
        assert(store@ =~= UpdateLog::empty());
        assert(store.payloads() =~= Seq::<DrainedPayload>::empty());
        store
    }

    /// The number of updates that were accepted.
    pub fn len(&self) -> (len: usize)
        ensures
            len == self@.len(),
    {
        self.entries.len()
    }

    /// The number of updates that have ended.
    pub fn settled(&self) -> (settled: usize)
        requires
            self.wf(),
        ensures
            settled == open_at(self@),
    {
        proof {
            lemma_open_at(self@, self.settled as int);
        }
        self.settled
    }

    /// Accepts an update: it is appended to the log as `Enqueued`, with the
    /// next id, and its payload is read to its end and kept.
    pub fn enqueue(&mut self, meta: UpdateMeta, payload: Vec<PayloadChunk>) -> (status:
        UpdateStatus)
        requires
            old(self).wf(),
        ensures
            final(self).wf(),
            final(self)@ == spec_enqueue(old(self)@, meta),
            final(self).payloads() == old(self).payloads().push(spec_payload(meta, payload@)),
            status == final(self)@.last(),
    {
        let update_id = self.entries.len() as u64;
        let kept: PayloadChunk = match &meta {
            UpdateMeta::DocumentsAddition { .. } => drain(&payload),
            _ => Ok(Vec::new()),
        };
        let enqueued = Enqueued::new(meta, update_id);
        let status: UpdateStatus = updates::UpdateStatus::Enqueued(enqueued.clone());
        let entry = Entry { status: updates::UpdateStatus::Enqueued(enqueued), payload: kept };
        let ghost before = self.entries@;
        self.entries.push(entry);
        proof {
            let log = statuses(before);
            let longer = statuses(self.entries@);
            assert(longer =~= spec_enqueue(log, meta));
            assert(payloads(self.entries@) =~= payloads(before).push(
                spec_payload(meta, payload@),
            ));
            assert forall|i: int| 0 <= i < longer.len() implies (#[trigger] longer[i]).spec_id()
                == i by {
                if i < log.len() {
                    assert(longer[i] == log[i]);
                }
            }
            assert forall|i: int, j: int|
                0 <= i < j < longer.len() && !((#[trigger] longer[j]) is Enqueued) implies (
            #[trigger] longer[i]).spec_is_terminal() by {
                assert(longer[j] == log[j]);
                assert(longer[i] == log[i]);
            }
            assert forall|j: int| 0 <= j < self.settled implies (
            #[trigger] longer[j]).spec_is_terminal() by {
                assert(longer[j] == log[j]);
            }
            if self.settled < log.len() {
                assert(longer[self.settled as int] == log[self.settled as int]);
            }
        }
        status
    }

    /// Starts the oldest enqueued update unless one is in flight. The update
    /// ends at once where `spec_settle` says how; else it is in flight until
    /// `finish` is called.
    pub fn start_next(&mut self) -> (step: UpdateStep)
        requires
            old(self).wf(),
        ensures
            final(self).wf(),
            final(self).payloads() == kept_after_start(old(self)@, old(self).payloads()),
            started(old(self)@, old(self).payloads(), final(self)@, step),
    {
        let k = self.settled;
        proof {
            lemma_open_at(self@, k as int);
        }
        if k >= self.entries.len() {
            return UpdateStep::Idle;
        }
        let ghost before = self.entries@;
        let ghost log = statuses(before);
        let (update, outcome, documents) = match &self.entries[k] {
            Entry { status: updates::UpdateStatus::Enqueued(enqueued), payload } => {
                let update = enqueued.clone().processing();
                let outcome = settle(&update.from.meta, payload);
                let documents: Vec<u8> = match payload {
                    Ok(bytes) => bytes.clone(),
                    Err(_) => Vec::new(),
                };
                (update, outcome, documents)
            },
            _ => {
                return UpdateStep::Idle;
            },
        };
        assert(update == Processing { from: log[k as int]->Enqueued_0 });
        match outcome {
            Some(outcome) => {
                let status: UpdateStatus = match outcome {
                    Ok(success) => updates::UpdateStatus::Processed(update.process(success)),
                    Err(error) => updates::UpdateStatus::Failed(update.fail(error)),
                };
                let copy = clone_status(&status);
                self.entries.set(k, Entry { status, payload: Ok(Vec::new()) });
                self.settled = k + 1;
                proof {
                    let after = statuses(self.entries@);
                    assert(after[k as int] == copy);
                    assert(after =~= spec_start(log, payloads(before)[k as int]));
                    assert(payloads(self.entries@) =~= kept_after_start(log, payloads(before)));
                    lemma_store_step(log, after, k as int);
                }
                UpdateStep::Settled(copy)
            },
            None => {
                let status: UpdateStatus = updates::UpdateStatus::Processing(update.clone());
                self.entries.set(k, Entry { status, payload: Ok(Vec::new()) });
                proof {
                    let after = statuses(self.entries@);
                    assert(after =~= spec_start(log, payloads(before)[k as int]));
                    assert(payloads(self.entries@) =~= kept_after_start(log, payloads(before)));
                    lemma_store_step(log, after, k as int);
                }
                UpdateStep::Apply { update, documents }
            },
        }
    }

    /// Ends the update in flight on `outcome` and answers its terminal
    /// status; answers nothing, and changes nothing, when no update is in
    /// flight.
    pub fn finish(&mut self, outcome: Outcome) -> (status: Option<UpdateStatus>)
        requires
            old(self).wf(),
        ensures
            final(self).wf(),
            final(self)@ == spec_finish(old(self)@, outcome),
            final(self).payloads() == old(self).payloads(),
            status == finished(old(self)@, outcome),
    {
        let k = self.settled;
        proof {
            lemma_open_at(self@, k as int);
        }
        if k >= self.entries.len() {
            return None;
        }
        let ghost before = self.entries@;
        let ghost log = statuses(before);
        let (update, kept) = match &self.entries[k] {
            Entry { status: updates::UpdateStatus::Processing(processing), payload } => {
                let kept: PayloadChunk = match payload {
                    Ok(bytes) => Ok(bytes.clone()),
                    Err(error) => Err(error.clone()),
                };
                (processing.clone(), kept)
            },
            _ => {
                return None;
            },
        };
        let status: UpdateStatus = match outcome {
            Ok(success) => updates::UpdateStatus::Processed(update.process(success)),
            Err(error) => updates::UpdateStatus::Failed(update.fail(error)),
        };
        let copy = clone_status(&status);
        self.entries.set(k, Entry { status, payload: kept });
        self.settled = k + 1;
        proof {
            let after = statuses(self.entries@);
            assert(after =~= spec_finish(log, outcome));
            assert(payloads(self.entries@) =~= payloads(before));
            lemma_store_step(log, after, k as int);
        }
        Some(copy)
    }

    /// The status of the update with the given id, if there is one.
    pub fn status(&self, update_id: u64) -> (status: Option<UpdateStatus>)
        requires
            self.wf(),
        ensures
            status == status_of(self@, update_id),
            status matches Some(found) ==> found.spec_id() == update_id,
    {
        if update_id < self.entries.len() as u64 {
            let i = update_id as usize;
            assert(statuses(self.entries@)[i as int] == self.entries@[i as int].status);
            Some(clone_status(&self.entries[i].status))
        } else {
            None
        }
    }

    /// The statuses of all updates, in the order of their acceptance.
    pub fn all(&self) -> (all: Vec<UpdateStatus>)
        ensures
            all@ == self@,
    {
        let mut all: Vec<UpdateStatus> = Vec::new();
        let mut i: usize = 0;
        while i < self.entries.len()
            invariant
                i <= self.entries.len(),
                all@ == statuses(self.entries@).take(i as int),
            decreases self.entries.len() - i,
        {
            all.push(clone_status(&self.entries[i].status));
            assert(all@ =~= statuses(self.entries@).take(i + 1));
            i += 1;
        }
        assert(statuses(self.entries@).take(i as int) =~= statuses(self.entries@));
        all
    }
}

/// A log in which the update at `k`, the oldest open one, has changed to a
/// later status of its own keeps the actor's shape.
proof fn lemma_store_step(log: UpdateLog, after: UpdateLog, k: int)
    requires
        log_wf(log),
        settled_at(log, k),
        k < log.len(),
        after == log.update(k, after[k]),
        advances(log[k], after[k]),
        rank(log[k]) < rank(after[k]),
    ensures
        log_wf(after),
        after[k].spec_is_terminal() ==> settled_at(after, k + 1),
        !after[k].spec_is_terminal() ==> settled_at(after, k),
{
    lemma_open_at(log, k);
    assert forall|i: int| 0 <= i < after.len() implies (#[trigger] after[i]).spec_id() == i by {
        assert(log[i].spec_id() == i);
    }
    assert forall|i: int, j: int|
        0 <= i < j < after.len() && !((#[trigger] after[j]) is Enqueued) implies (
    #[trigger] after[i]).spec_is_terminal() by {
        if j == k {
            assert(log[i].spec_is_terminal());
        } else if j > k {
            lemma_enqueued_after_open(log, j);
        } else {
            assert(after[j] == log[j]);
            assert(log[i].spec_is_terminal());
        }
    }
    if after[k].spec_is_terminal() {
        assert forall|j: int| 0 <= j < k + 1 implies (#[trigger] after[j]).spec_is_terminal() by {
            if j < k {
                assert(log[j].spec_is_terminal());
            }
        }
        if k + 1 < after.len() {
            lemma_enqueued_after_open(log, k + 1);
        }
    } else {
        assert forall|j: int| 0 <= j < k implies (#[trigger] after[j]).spec_is_terminal() by {
            assert(log[j].spec_is_terminal());
        }
    }
}

/// Accepting an update keeps the shape of the log and touches no update
/// that was accepted before.
pub proof fn lemma_enqueue_keeps_shape(log: UpdateLog, meta: UpdateMeta)
    requires
        log_wf(log),
        log.len() <= u64::MAX,
    ensures
        log_wf(spec_enqueue(log, meta)),
        log_advances(log, spec_enqueue(log, meta)),
        open_at(spec_enqueue(log, meta)) == open_at(log),
{
    let longer = spec_enqueue(log, meta);
    lemma_settled_exists(log);
    let k = open_at(log);
    assert forall|i: int| 0 <= i < longer.len() implies (#[trigger] longer[i]).spec_id() == i by {
        if i < log.len() {
            assert(longer[i] == log[i]);
        }
    }
    assert forall|i: int, j: int|
        0 <= i < j < longer.len() && !((#[trigger] longer[j]) is Enqueued) implies (
    #[trigger] longer[i]).spec_is_terminal() by {
        assert(longer[j] == log[j]);
        assert(longer[i] == log[i]);
    }
    assert forall|j: int| 0 <= j < k implies (#[trigger] longer[j]).spec_is_terminal() by {
        assert(longer[j] == log[j]);
    }
    if k < log.len() {
        assert(longer[k] == log[k]);
    }
    assert(settled_at(longer, k));
    lemma_open_at(longer, k);
}

/// Starting the oldest enqueued update keeps the shape of the log, and no
/// update goes back or changes once it has ended.
pub proof fn lemma_start_keeps_shape(log: UpdateLog, payload: DrainedPayload)
    requires
        log_wf(log),
    ensures
        log_wf(spec_start(log, payload)),
        log_advances(log, spec_start(log, payload)),
        spec_start(log, payload).len() == log.len(),
{
    lemma_settled_exists(log);
    let k = open_at(log);
    let after = spec_start(log, payload);
    if k < log.len() && log[k] is Enqueued {
        lemma_store_step(log, after, k);
    }
}

/// Ending the update in flight keeps the shape of the log, and no update goes
/// back or changes once it has ended.
pub proof fn lemma_finish_keeps_shape(log: UpdateLog, outcome: Outcome)
    requires
        log_wf(log),
    ensures
        log_wf(spec_finish(log, outcome)),
        log_advances(log, spec_finish(log, outcome)),
        spec_finish(log, outcome).len() == log.len(),
{
    lemma_settled_exists(log);
    let k = open_at(log);
    let after = spec_finish(log, outcome);
    if k < log.len() && log[k] is Processing {
        lemma_store_step(log, after, k);
    }
}

/// A status never goes back, through any number of steps.
pub proof fn lemma_log_advances_transitive(first: UpdateLog, second: UpdateLog, third: UpdateLog)
    requires
        log_advances(first, second),
        log_advances(second, third),
    ensures
        log_advances(first, third),
{
    assert forall|i: int| 0 <= i < first.len() implies advances(#[trigger] first[i], third[i]) by {
        assert(advances(first[i], second[i]));
        assert(advances(second[i], third[i]));
    }
}

/// Updates of one index end in the order in which they were accepted: when an
/// update has ended, so has every update accepted before it, and while one is
/// in flight none that was accepted after it has started.
pub proof fn lemma_ends_in_submission_order(log: UpdateLog, i: int, j: int)
    requires
        log_wf(log),
        0 <= i < j < log.len(),
    ensures
        log[j].spec_is_terminal() ==> log[i].spec_is_terminal(),
        log[j] is Processing ==> log[i].spec_is_terminal(),
        !log[i].spec_is_terminal() ==> log[j] is Enqueued,
{
}

/// The only update that a step can end is the oldest one that has not ended:
/// terminal statuses appear in the log in submission order.
pub proof fn lemma_step_ends_oldest(
    log: UpdateLog,
    payload: DrainedPayload,
    outcome: Outcome,
    i: int,
)
    requires
        log_wf(log),
        0 <= i < log.len(),
        !log[i].spec_is_terminal(),
    ensures
        spec_start(log, payload)[i].spec_is_terminal() ==> i == open_at(log),
        spec_finish(log, outcome)[i].spec_is_terminal() ==> i == open_at(log),
{
}

/// An update that has not ended does end: once it is the oldest open one, to
/// start it and to tell how the engine fared with it ends it, on exactly one
/// of `Processed` and `Failed`, and makes its successor the oldest open one.
pub proof fn lemma_round_ends_oldest(log: UpdateLog, payload: DrainedPayload, outcome: Outcome)
    requires
        log_wf(log),
        open_at(log) < log.len(),
    ensures
        ({
            let k = open_at(log);
            let after = spec_finish(spec_start(log, payload), outcome);
            &&& after.len() == log.len()
            &&& after[k].spec_is_terminal()
            &&& after[k] is Processed != after[k] is Failed
            &&& after[k].spec_id() == log[k].spec_id()
            &&& after[k].spec_meta() == log[k].spec_meta()
            &&& open_at(after) == k + 1
        }),
{
    lemma_settled_exists(log);
    let k = open_at(log);
    let started = spec_start(log, payload);
    lemma_start_keeps_shape(log, payload);
    if log[k] is Enqueued {
        lemma_store_step(log, started, k);
    }
    if started[k].spec_is_terminal() {
        lemma_open_at(started, k + 1);
        if k + 1 < started.len() {
            lemma_enqueued_after_open(log, k + 1);
        }
    } else {
        lemma_open_at(started, k);
        let after = spec_finish(started, outcome);
        lemma_store_step(started, after, k);
        lemma_open_at(after, k + 1);
    }
}

/// An addition whose payload broke off fails with the error of the transport,
/// and the update accepted after it starts as if nothing had happened.
pub proof fn lemma_broken_payload_fails(
    log: UpdateLog,
    error: String,
    next_payload: DrainedPayload,
)
    requires
        log_wf(log),
        open_at(log) < log.len(),
        log[open_at(log)] is Enqueued,
        log[open_at(log)].spec_meta() is DocumentsAddition,
    ensures
        ({
            let k = open_at(log);
            let after = spec_start(log, Err(error));
            &&& after[k] == terminal_status(Processing { from: log[k]->Enqueued_0 }, Err(error))
            &&& after[k] is Failed
            &&& after[k]->Failed_0.error == error
            &&& log_wf(after)
            &&& open_at(after) == k + 1
            &&& k + 1 < log.len() ==> after[k + 1] == log[k + 1] && !(spec_start(
                after,
                next_payload,
            )[k + 1] is Enqueued)
        }),
{
    lemma_settled_exists(log);
    let k = open_at(log);
    let after = spec_start(log, Err(error));
    lemma_store_step(log, after, k);
    lemma_open_at(after, k + 1);
    if k + 1 < log.len() {
        lemma_enqueued_after_open(log, k + 1);
    }
}

/// An update that the engine rejects fails with the engine's error, and the
/// update accepted after it starts as if nothing had happened.
pub proof fn lemma_failure_does_not_block(
    log: UpdateLog,
    error: String,
    next_payload: DrainedPayload,
)
    requires
        log_wf(log),
        open_at(log) < log.len(),
        log[open_at(log)] is Processing,
    ensures
        ({
            let k = open_at(log);
            let after = spec_finish(log, Err(error));
            &&& after[k] is Failed
            &&& after[k]->Failed_0.error == error
            &&& log_wf(after)
            &&& open_at(after) == k + 1
            &&& k + 1 < log.len() ==> after[k + 1] == log[k + 1] && !(spec_start(
                after,
                next_payload,
            )[k + 1] is Enqueued)
        }),
{
    lemma_settled_exists(log);
    let k = open_at(log);
    let after = spec_finish(log, Err(error));
    lemma_store_step(log, after, k);
    lemma_open_at(after, k + 1);
    if k + 1 < log.len() {
        lemma_enqueued_after_open(log, k + 1);
    }
}

/// One update of an index is in flight at most.
pub proof fn lemma_one_in_flight(log: UpdateLog, i: int, j: int)
    requires
        log_wf(log),
        0 <= i < log.len(),
        0 <= j < log.len(),
        log[i] is Processing,
        log[j] is Processing,
    ensures
        i == j,
{
    if i < j {
        assert(log[i].spec_is_terminal());
    } else if j < i {
        assert(log[j].spec_is_terminal());
    }
}

/// A step from one status to the next goes forward, and no step leaves a
/// terminal status.
pub proof fn lemma_steps_go_forward(status: UpdateStatus, next: UpdateStatus)
    ensures
        status.steps_to(next) ==> advances(status, next) && rank(status) < rank(next),
        status.spec_is_terminal() ==> !status.steps_to(next),
{
}

/// The log after as many rounds as `outcomes` has items: in each round the
/// oldest enqueued update is started and the update in flight, if the engine
/// was asked, ends on the next outcome.
pub open spec fn spec_rounds(
    log: UpdateLog,
    kept: Seq<DrainedPayload>,
    outcomes: Seq<Outcome>,
) -> UpdateLog
    decreases outcomes.len(),
{
    if outcomes.len() == 0 {
        log
    } else {
        spec_rounds(
            spec_finish(spec_start(log, kept[open_at(log)]), outcomes[0]),
            kept,
            outcomes.drop_first(),
        )
    }
}

/// Every update that was accepted ends: after as many rounds as there are
/// updates that have not ended, whatever the payloads hold and however the
/// engine fares, each update of the log shows a terminal status, and none
/// was lost or went back on the way.
pub proof fn lemma_rounds_end_all(log: UpdateLog, kept: Seq<DrainedPayload>, outcomes: Seq<Outcome>)
    requires
        log_wf(log),
        outcomes.len() >= log.len() - open_at(log),
    ensures
        spec_rounds(log, kept, outcomes).len() == log.len(),
        log_wf(spec_rounds(log, kept, outcomes)),
        log_advances(log, spec_rounds(log, kept, outcomes)),
        forall|i: int|
            0 <= i < log.len() ==> (#[trigger] spec_rounds(log, kept, outcomes)[i]).spec_is_terminal(),
    decreases outcomes.len(),
{
    lemma_settled_exists(log);
    let k = open_at(log);
    if outcomes.len() == 0 {
        assert(log_advances(log, log));
    } else {
        let started = spec_start(log, kept[k]);
        let after = spec_finish(started, outcomes[0]);
        lemma_start_keeps_shape(log, kept[k]);
        lemma_finish_keeps_shape(started, outcomes[0]);
        lemma_log_advances_transitive(log, started, after);
        if k < log.len() {
            lemma_round_ends_oldest(log, kept[k], outcomes[0]);
        } else {
            lemma_open_at(started, k);
        }
        lemma_rounds_end_all(after, kept, outcomes.drop_first());
        let ended = spec_rounds(after, kept, outcomes.drop_first());
        lemma_log_advances_transitive(log, after, ended);
    }
}

} // verus!
