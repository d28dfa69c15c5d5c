//! The service state and the task lifecycle: allocating identifiers,
//! recording terminal outcomes, answering lookups, and restoring state
//! after a restart.
use vstd::prelude::*;
use crate::ids::{generate_task_id, lemma_task_ids_distinct, parse_task_number, task_id};
use crate::pipeline::{GenerationPlan, PipelineError, StableDiffusionModel, request_error};
use crate::store::{has_id, ids_of, lookup, put_spec, unique_ids, TaskStore};
use crate::types::{
    copy_bytes, copy_string, opt_string_view, ApiResponse, GenerationRequest, GenerationTask, RequestView,
    TaskStatus, TaskView,
};

verus! {

/// The record that a finished generation leaves: completed with the image
/// bytes, or failed with the error's message.
pub open spec fn terminal_record(
    id: Seq<char>,
    request: RequestView,
    created_at: u64,
    completed_at: u64,
    outcome: Result<Seq<u8>, PipelineError>,
) -> TaskView {
    TaskView {
        id,
        status: match outcome {
            Ok(_) => TaskStatus::Completed,
            Err(_) => TaskStatus::Failed,
        },
        created_at,
        completed_at: Some(completed_at),
        request,
        result: match outcome {
            Ok(b) => Some(b),
            Err(_) => None,
        },
        error: match outcome {
            Ok(_) => None,
            Err(e) => Some(e.text()),
        },
    }
}

pub open spec fn outcome_view(o: Result<Vec<u8>, PipelineError>) -> Result<Seq<u8>, PipelineError> {
    match o {
        Ok(b) => Ok(b@),
        Err(e) => Err(e),
    }
}

/// The record of a finished generation is terminal and holds exactly one of
/// a result and an error.
pub proof fn lemma_terminal_record_exclusive(
    id: Seq<char>,
    request: RequestView,
    created_at: u64,
    completed_at: u64,
    outcome: Result<Seq<u8>, PipelineError>,
)
    ensures
        terminal_record(id, request, created_at, completed_at, outcome).is_terminal(),
        terminal_record(id, request, created_at, completed_at, outcome).outcome_consistent(),
        terminal_record(id, request, created_at, completed_at, outcome).result is Some
            != terminal_record(id, request, created_at, completed_at, outcome).error is Some,
{
}

/// Why a set of persisted records cannot be taken back.
#[derive(Clone, Copy, Debug, PartialEq, Eq, Structural)]
pub enum RestoreError {
    /// Record `i` does not carry an identifier that the counter has issued.
    UnknownId(usize),
    /// Record `i` repeats the identifier of an earlier record.
    DuplicateId(usize),
    /// Record `i` is not terminal, or its result and error disagree with its status.
    Inconsistent(usize),
}

pub open spec fn task_not_found() -> Seq<char> {
    "Task not found"@
}

pub open spec fn image_not_ready() -> Seq<char> {
    "Image not ready or generation failed"@
}

/// `r` is the answer to a status lookup of `id`.
pub open spec fn status_answer(
    tasks: Seq<TaskView>,
    id: Seq<char>,
    now: u64,
    r: ApiResponse<GenerationTask>,
) -> bool {
    &&& r.timestamp == now
    &&& match lookup(tasks, id) {
        Some(t) => r.success && r.data is Some && r.data->0@ == t && r.error is None,
        None => !r.success && r.data is None && opt_string_view(r.error) == Some(task_not_found()),
    }
}

/// `r` is the answer to an image lookup of `id`.
pub open spec fn image_answer(
    tasks: Seq<TaskView>,
    id: Seq<char>,
    now: u64,
    r: ApiResponse<Vec<u8>>,
) -> bool {
    &&& r.timestamp == now
    &&& match lookup(tasks, id) {
        Some(t) => match t.result {
            Some(b) => r.success && r.data is Some && r.data->0@ == b && r.error is None,
            None => !r.success && r.data is None && opt_string_view(r.error) == Some(
                image_not_ready(),
            ),
        },
        None => !r.success && r.data is None && opt_string_view(r.error) == Some(task_not_found()),
    }
}

/// `r` is the answer to a listing of `tasks`.
pub open spec fn list_answer(tasks: Seq<TaskView>, now: u64, r: ApiResponse<Vec<String>>) -> bool {
    &&& r.success
    &&& r.error is None
    &&& r.timestamp == now
    &&& r.data is Some
    &&& r.data->0@.len() == tasks.len()
    &&& forall|i: int| 0 <= i < r.data->0@.len() ==> r.data->0@[i]@ == tasks[i].id
}

/// `id` is the identifier of a task numbered between 1 and `counter`.
pub open spec fn issued(counter: u64, id: Seq<char>) -> bool {
    exists|n: u64| 1 <= n <= counter && id == task_id(n as nat)
}

/// Records that a service with task counter `counter` can hold: unique
/// identifiers, each issued by the counter, each record terminal and
/// consistent.
pub open spec fn valid_snapshot(counter: u64, recs: Seq<TaskView>) -> bool {
    &&& unique_ids(recs)
    &&& forall|i: int| 0 <= i < recs.len() ==> issued(counter, #[trigger] recs[i].id)
    &&& forall|i: int|
        0 <= i < recs.len() ==> (#[trigger] recs[i]).outcome_consistent() && recs[i].is_terminal()
}

/// Everything a running service holds: the task counter, the task store
/// and the model, which is absent until initialisation.
pub struct Service {
    counter: u64,
    store: TaskStore,
    model: Option<StableDiffusionModel>,
    numbers: Ghost<Seq<nat>>,
}

impl Service {
    pub closed spec fn counter_spec(&self) -> u64 {
        self.counter
    }

    pub closed spec fn tasks(&self) -> Seq<TaskView> {
        self.store@
    }

    pub closed spec fn ready(&self) -> bool {
        self.model is Some
    }

    /// Every stored record is terminal and consistent, identifiers are
    /// unique, and each one was issued by the counter.
    pub closed spec fn wf(&self) -> bool {
        &&& self.store.wf()
        &&& self.model matches Some(m) ==> m.wf()
        &&& self.numbers@.len() == self.store@.len()
        &&& forall|i: int|
            0 <= i < self.store@.len() ==> self.store@[i].id == task_id(self.numbers@[i])
                && 1 <= self.numbers@[i] <= self.counter
        &&& forall|i: int|
            0 <= i < self.store@.len() ==> self.store@[i].outcome_consistent()
                && self.store@[i].is_terminal()
    }

    /// Every stored record is terminal and holds exactly one of a result and
    /// an error.
    pub proof fn lemma_records_terminal(&self, i: int)
        requires
            self.wf(),
            0 <= i < self.tasks().len(),
        ensures
            self.tasks()[i].is_terminal(),
            self.tasks()[i].result is Some != self.tasks()[i].error is Some,
    {
    }

    /// An identifier issued after the counter's current value is not in the store.
    pub proof fn lemma_next_id_fresh(&self, k: nat)
        requires
            self.wf(),
            k > self.counter_spec(),
        ensures
            !has_id(self.tasks(), task_id(k)),
    {
        if has_id(self.tasks(), task_id(k)) {
            let i = choose|i: int| 0 <= i < self.store@.len() && self.store@[i].id == task_id(k);
            lemma_task_ids_distinct(self.numbers@[i], k);
        }
    }

    /// What a running service holds can always be taken back after a
    /// restart: its counter and records form a valid snapshot, which
    /// `restore` accepts and turns into a service with the same counter and
    /// the same records in the same order.
    pub proof fn lemma_snapshot_valid(&self)
        requires
            self.wf(),
        ensures
            valid_snapshot(self.counter_spec(), self.tasks()),
    {
        assert forall|i: int| 0 <= i < self.tasks().len() implies issued(
            self.counter_spec(),
            #[trigger] self.tasks()[i].id,
        ) by {
            let n = self.numbers@[i] as u64;
            assert(self.tasks()[i].id == task_id(n as nat));
        }
    }

    /// A fresh service: no tasks, counter at zero, model not yet initialised.
    pub fn new() -> (r: Self)
        ensures
            r.wf(),
            r.counter_spec() == 0,
            r.tasks() == Seq::<TaskView>::empty(),
            !r.ready(),
    {
        Service { counter: 0, store: TaskStore::new(), model: None, numbers: Ghost(Seq::empty()) }
    }

    /// Makes the model ready.
    pub fn init(&mut self)
        requires
            old(self).wf(),
        ensures
            final(self).wf(),
            final(self).ready(),
            final(self).counter_spec() == old(self).counter_spec(),
            final(self).tasks() == old(self).tasks(),
    {
        self.model = Some(StableDiffusionModel::new());
    }

    pub fn counter(&self) -> (r: u64)
        ensures
            r == self.counter_spec(),
    {
        self.counter
    }

    /// Copies of all stored records, in order, for persisting.
    pub fn records(&self) -> (r: Vec<GenerationTask>)
        ensures
            r@.len() == self.tasks().len(),
            forall|i: int| 0 <= i < r@.len() ==> r@[i]@ == self.tasks()[i],
    {
        self.store.records()
    }

    /// Takes back persisted state: the counter and the records in their
    /// stored order. The model is not initialised.
    pub fn restore(counter: u64, records: Vec<GenerationTask>) -> (r: Result<Service, RestoreError>)
        ensures
            r is Ok <==> valid_snapshot(counter, records@.map_values(|t: GenerationTask| t@)),
            match r {
                Ok(s) => {
                    &&& s.wf()
                    &&& !s.ready()
                    &&& s.counter_spec() == counter
                    &&& s.tasks() == records@.map_values(|t: GenerationTask| t@)
                },
                Err(RestoreError::UnknownId(i)) => i < records@.len() && !issued(
                    counter,
                    records@[i as int]@.id,
                ),
                Err(RestoreError::DuplicateId(i)) => i < records@.len() && exists|j: int|
                    0 <= j < i && records@[j]@.id == records@[i as int]@.id,
                Err(RestoreError::Inconsistent(i)) => i < records@.len() && !(
                records@[i as int]@.outcome_consistent() && records@[i as int]@.is_terminal()),
            },
    {
        let mut s = Service { counter, store: TaskStore::new(), model: None, numbers: Ghost(Seq::empty()) };
        let mut i: usize = 0;
        while i < records.len()
            invariant
                0 <= i <= records@.len(),
                s.wf(),
                s.model is None,
                s.counter == counter,
                s.store@ == records@.take(i as int).map_values(|t: GenerationTask| t@),
            decreases records@.len() - i,
        {
            let rec = &records[i];
            let ghost views = records@.map_values(|t: GenerationTask| t@);
            assert(views[i as int] == rec@);
            let n = match parse_task_number(&rec.id) {
                Some(n) => n,
                None => {
                    proof {
                        if valid_snapshot(counter, views) {
                            assert(issued(counter, views[i as int].id));
                            let m = choose|m: u64| 1 <= m <= counter && views[i as int].id == task_id(m as nat);
                            assert(rec@.id != task_id(m as nat));
                        }
                    }
                    return Err(RestoreError::UnknownId(i));
                },
            };
            if n == 0 || n > counter {
                proof {
                    if issued(counter, rec@.id) {
                        let m = choose|m: u64| 1 <= m <= counter && rec@.id == task_id(m as nat);
                        if m != n {
                            lemma_task_ids_distinct(m as nat, n as nat);
                        }
                    }
                    assert(!valid_snapshot(counter, views));
                }
                return Err(RestoreError::UnknownId(i));
            }
            if s.store.contains(&rec.id) {
                proof {
                    let j = choose|j: int| 0 <= j < s.store@.len() && s.store@[j].id == rec.id@;
                    assert(records@.take(i as int)[j] == records@[j]);
                    assert(views[j] == records@[j]@);
                    assert(!unique_ids(views));
                }
                return Err(RestoreError::DuplicateId(i));
            }
            let consistent = match rec.status {
                TaskStatus::Completed => rec.result.is_some() && rec.error.is_none()
                    && rec.completed_at.is_some(),
                TaskStatus::Failed => rec.result.is_none() && rec.error.is_some()
                    && rec.completed_at.is_some(),
                _ => false,
            };
            if !consistent {
                assert(!(views[i as int].outcome_consistent() && views[i as int].is_terminal()));
                return Err(RestoreError::Inconsistent(i));
            }
            s.store.put(rec.copy());
            proof {
                s.numbers@ = s.numbers@.push(n as nat);
                assert(records@.take(i as int + 1) =~= records@.take(i as int).push(records@[i as int]));
                assert(s.store@ =~= records@.take(i as int + 1).map_values(|t: GenerationTask| t@));
            }
            i = i + 1;
        }
        assert(records@.take(i as int) =~= records@);
        proof {
            s.lemma_snapshot_valid();
        }
        Ok(s)
    }

    /// The integer inputs of the generation that `request` asks for.
    pub fn plan_generation(&self, request: &GenerationRequest) -> (r: Result<
        GenerationPlan,
        PipelineError,
    >)
        requires
            self.wf(),
        ensures
            !self.ready() ==> r == Err::<GenerationPlan, PipelineError>(
                PipelineError::ModelNotInitialized,
            ),
            self.ready() ==> match r {
                Ok(p) => request_error(request@) is None && p.plans(request@),
                Err(e) => request_error(request@) == Some(e),
            },
    {
        match &self.model {
            Some(m) => m.plan(request),
            None => Err(PipelineError::ModelNotInitialized),
        }
    }

    /// Records a finished generation under a new identifier and answers with
    /// that identifier.
    pub fn submit_generation(
        &mut self,
        request: GenerationRequest,
        outcome: Result<Vec<u8>, PipelineError>,
        created_at: u64,
        completed_at: u64,
    ) -> (r: ApiResponse<String>)
        requires
            old(self).wf(),
            old(self).counter_spec() < u64::MAX,
        ensures
            final(self).wf(),
            final(self).ready() == old(self).ready(),
            final(self).counter_spec() == old(self).counter_spec() + 1,
            !has_id(old(self).tasks(), task_id(final(self).counter_spec() as nat)),
            final(self).tasks() == old(self).tasks().push(
                terminal_record(
                    task_id(final(self).counter_spec() as nat),
                    request@,
                    created_at,
                    completed_at,
                    outcome_view(outcome),
                ),
            ),
            r.success,
            r.data is Some && r.data->0@ == task_id(final(self).counter_spec() as nat),
            r.error is None,
            r.timestamp == created_at,
    {
        let ghost req = request@;
        let ghost out = outcome_view(outcome);
        let id = generate_task_id(&mut self.counter);
        proof {
            old(self).lemma_next_id_fresh(self.counter as nat);
        }
        let task = match outcome {
            Ok(bytes) => GenerationTask {
                id: copy_string(&id),
                status: TaskStatus::Completed,
                created_at,
                completed_at: Some(completed_at),
                request,
                result: Some(bytes),
                error: None,
            },
            Err(e) => GenerationTask {
                id: copy_string(&id),
                status: TaskStatus::Failed,
                created_at,
                completed_at: Some(completed_at),
                request,
                result: None,
                error: Some(e.message()),
            },
        };
        assert(task@ == terminal_record(id@, req, created_at, completed_at, out));
        self.store.put(task);
        proof {
            self.numbers@ = self.numbers@.push(self.counter as nat);
        }
        ApiResponse { success: true, data: Some(id), error: None, timestamp: created_at }
    }

    /// The record of a task, or a not-found error.
    pub fn get_task_status(&self, task_id: &String, now: u64) -> (r: ApiResponse<GenerationTask>)
        requires
            self.wf(),
        ensures
            status_answer(self.tasks(), task_id@, now, r),
    {
        match self.store.get(task_id) {
            Some(t) => ApiResponse { success: true, data: Some(t), error: None, timestamp: now },
            None => ApiResponse {
                success: false,
                data: None,
                error: Some(String::from_str("Task not found")),
                timestamp: now,
            },
        }
    }

    /// The image bytes of a completed task; otherwise a not-found or
    /// not-ready error.
    pub fn get_image(&self, task_id: &String, now: u64) -> (r: ApiResponse<Vec<u8>>)
        requires
            self.wf(),
        ensures
            image_answer(self.tasks(), task_id@, now, r),
    {
        match self.store.get(task_id) {
            Some(t) => match &t.result {
                Some(b) => ApiResponse {
                    success: true,
                    data: Some(copy_bytes(b)),
                    error: None,
                    timestamp: now,
                },
                None => ApiResponse {
                    success: false,
                    data: None,
                    error: Some(String::from_str("Image not ready or generation failed")),
                    timestamp: now,
                },
            },
            None => ApiResponse {
                success: false,
                data: None,
                error: Some(String::from_str("Task not found")),
                timestamp: now,
            },
        }
    }

    /// The identifiers of all tasks.
    pub fn list_tasks(&self, now: u64) -> (r: ApiResponse<Vec<String>>)
        ensures
            list_answer(self.tasks(), now, r),
    {
        ApiResponse { success: true, data: Some(self.store.list_ids()), error: None, timestamp: now }
    }
}

} // verus!
