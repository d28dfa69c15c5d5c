//! Requests, task records and response envelopes, with their mathematical views.
use vstd::prelude::*;

verus! {

/// An inbound HTTP request.
pub struct HttpRequest {
    pub method: String,
    pub url: String,
    pub headers: Vec<(String, String)>,
    pub body: Vec<u8>,
}

/// Parameters of one image generation. The guidance scale is carried as the
/// bit pattern of a 32-bit float.
pub struct GenerationRequest {
    pub prompt: String,
    pub negative_prompt: Option<String>,
    pub width: Option<u32>,
    pub height: Option<u32>,
    pub num_inference_steps: Option<u32>,
    pub guidance_scale_bits: Option<u32>,
    pub seed: Option<u64>,
}

/// Lifecycle state of a task.
#[derive(Clone, Copy, Debug, PartialEq, Eq, Structural)]
pub enum TaskStatus {
    Pending,
    Processing,
    Completed,
    Failed,
}

/// A task record as kept by the store.
pub struct GenerationTask {
    pub id: String,
    pub status: TaskStatus,
    pub created_at: u64,
    pub completed_at: Option<u64>,
    pub request: GenerationRequest,
    pub result: Option<Vec<u8>>,
    pub error: Option<String>,
}

/// A task record in the form in which it is persisted.
pub struct StorableGenerationTask(pub GenerationTask);

/// Envelope of every API answer.
pub struct ApiResponse<T> {
    pub success: bool,
    pub data: Option<T>,
    pub error: Option<String>,
    pub timestamp: u64,
}

/// Mathematical value of a `GenerationRequest`.
pub struct RequestView {
    pub prompt: Seq<char>,
    pub negative_prompt: Option<Seq<char>>,
    pub width: Option<u32>,
    pub height: Option<u32>,
    pub num_inference_steps: Option<u32>,
    pub guidance_scale_bits: Option<u32>,
    pub seed: Option<u64>,
}

/// Mathematical value of a `GenerationTask`.
pub struct TaskView {
    pub id: Seq<char>,
    pub status: TaskStatus,
    pub created_at: u64,
    pub completed_at: Option<u64>,
    pub request: RequestView,
    pub result: Option<Seq<u8>>,
    pub error: Option<Seq<char>>,
}

pub open spec fn opt_string_view(o: Option<String>) -> Option<Seq<char>> {
    match o {
        Some(s) => Some(s@),
        None => None,
    }
}

pub open spec fn opt_bytes_view(o: Option<Vec<u8>>) -> Option<Seq<u8>> {
    match o {
        Some(v) => Some(v@),
        None => None,
    }
}

impl View for GenerationRequest {
    type V = RequestView;

    open spec fn view(&self) -> RequestView {
        RequestView {
            prompt: self.prompt@,
            negative_prompt: opt_string_view(self.negative_prompt),
            width: self.width,
            height: self.height,
            num_inference_steps: self.num_inference_steps,
            guidance_scale_bits: self.guidance_scale_bits,
            seed: self.seed,
        }
    }
}

impl View for GenerationTask {
    type V = TaskView;

    open spec fn view(&self) -> TaskView {
        TaskView {
            id: self.id@,
            status: self.status,
            created_at: self.created_at,
            completed_at: self.completed_at,
            request: self.request@,
            result: opt_bytes_view(self.result),
            error: opt_string_view(self.error),
        }
    }
}

impl TaskView {
    /// A terminal record holds exactly one of a result and an error: a result
    /// when it completed, an error when it failed. A record that is not
    /// terminal holds neither.
    pub open spec fn outcome_consistent(&self) -> bool {
        &&& (self.status == TaskStatus::Completed) == (self.result is Some)
        &&& (self.status == TaskStatus::Failed) == (self.error is Some)
        &&& (self.status == TaskStatus::Completed || self.status == TaskStatus::Failed)
            == (self.completed_at is Some)
    }

    pub open spec fn is_terminal(&self) -> bool {
        self.status == TaskStatus::Completed || self.status == TaskStatus::Failed
    }
}

pub fn copy_string(s: &String) -> (r: String)
    ensures
        r@ == s@,
{
    s.clone()
}

pub fn copy_opt_string(o: &Option<String>) -> (r: Option<String>)
    ensures
        opt_string_view(r) == opt_string_view(*o),
{
    match o {
        Some(s) => Some(s.clone()),
        None => None,
    }
}

pub fn copy_bytes(v: &Vec<u8>) -> (r: Vec<u8>)
    ensures
        r@ == v@,
{
    let r = v.clone();
    assert(r@ =~= v@);
    r
}

impl GenerationRequest {
    /// A copy with the same value.
    pub fn copy(&self) -> (r: Self)
        ensures
            r@ == self@,
    {
        GenerationRequest {
            prompt: copy_string(&self.prompt),
            negative_prompt: copy_opt_string(&self.negative_prompt),
            width: self.width,
            height: self.height,
            num_inference_steps: self.num_inference_steps,
            guidance_scale_bits: self.guidance_scale_bits,
            seed: self.seed,
        }
    }
}

impl GenerationTask {
    /// A copy with the same value.
    pub fn copy(&self) -> (r: Self)
        ensures
            r@ == self@,
    {
        GenerationTask {
            id: copy_string(&self.id),
            status: self.status,
            created_at: self.created_at,
            completed_at: self.completed_at,
            request: self.request.copy(),
            result: match &self.result {
                Some(v) => Some(copy_bytes(v)),
                None => None,
            },
            error: copy_opt_string(&self.error),
        }
    }
}

} // verus!
