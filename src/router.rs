//! The HTTP router: resolving a method and URL to an operation, and
//! answering read-only operations from the task store.
use vstd::prelude::*;
use crate::service::{image_answer, list_answer, status_answer, Service};
use crate::store::lookup;
use crate::types::TaskView;
use crate::text::chars_of;
use crate::ids::string_of_chars;
use crate::types::{opt_string_view, ApiResponse, GenerationTask, HttpRequest};

verus! {

/// `q` is where the path part of `s` ends: at the first `?`, or at the end.
pub open spec fn is_query_cut(s: Seq<char>, q: int) -> bool {
    &&& 0 <= q <= s.len()
    &&& (q == s.len() || s[q] == '?')
    &&& forall|j: int| 0 <= j < q ==> s[j] != '?'
}

/// `k` is the length of the run of `/` that begins `s`.
pub open spec fn is_slash_run(s: Seq<char>, k: int) -> bool {
    &&& 0 <= k <= s.len()
    &&& (k == s.len() || s[k] != '/')
    &&& forall|j: int| 0 <= j < k ==> s[j] == '/'
}

/// The URL without its query segment.
pub open spec fn path_part(url: Seq<char>) -> Seq<char> {
    url.take(choose|q: int| is_query_cut(url, q))
}

/// The routed path: the URL without its query segment and leading slashes.
pub open spec fn route_path(url: Seq<char>) -> Seq<char> {
    let p = path_part(url);
    p.skip(choose|k: int| is_slash_run(p, k))
}

pub open spec fn has_prefix(s: Seq<char>, pre: Seq<char>) -> bool {
    s.len() >= pre.len() && s.take(pre.len() as int) == pre
}

/// Mathematical value of a `Route`.
pub enum RouteView {
    TaskStatus(Seq<char>),
    Image(Seq<char>),
    ListTasks,
    Generate,
    NotFound,
}

/// The operation that `method` on `url` asks for.
pub open spec fn route_of(method: Seq<char>, url: Seq<char>) -> RouteView {
    let p = route_path(url);
    if method == "GET"@ && has_prefix(p, "task/"@) {
        RouteView::TaskStatus(p.skip(5))
    } else if method == "GET"@ && has_prefix(p, "image/"@) {
        RouteView::Image(p.skip(6))
    } else if method == "GET"@ && p == "tasks"@ {
        RouteView::ListTasks
    } else if method == "POST"@ && p == "generate"@ {
        RouteView::Generate
    } else {
        RouteView::NotFound
    }
}

/// An operation of the HTTP interface.
pub enum Route {
    TaskStatus(String),
    Image(String),
    ListTasks,
    Generate,
    NotFound,
}

impl View for Route {
    type V = RouteView;

    open spec fn view(&self) -> RouteView {
        match self {
            Route::TaskStatus(id) => RouteView::TaskStatus(id@),
            Route::Image(id) => RouteView::Image(id@),
            Route::ListTasks => RouteView::ListTasks,
            Route::Generate => RouteView::Generate,
            Route::NotFound => RouteView::NotFound,
        }
    }
}

pub(crate) proof fn lemma_query_cut_unique(s: Seq<char>, a: int, b: int)
    requires
        is_query_cut(s, a),
        is_query_cut(s, b),
    ensures
        a == b,
{
}

proof fn lemma_slash_run_unique(s: Seq<char>, a: int, b: int)
    requires
        is_slash_run(s, a),
        is_slash_run(s, b),
    ensures
        a == b,
{
}

pub(crate) fn chars_equal(a: &Vec<char>, from: usize, lit: &Vec<char>) -> (r: bool)
    requires
        from <= a@.len(),
    ensures
        r == (a@.len() - from == lit@.len() && a@.skip(from as int) == lit@),
{
    if a.len() - from != lit.len() {
        proof {
            if a@.skip(from as int) == lit@ {
                assert(a@.skip(from as int).len() == lit@.len());
            }
        }
        return false;
    }
    let mut i: usize = 0;
    while i < lit.len()
        invariant
            from <= a@.len(),
            a@.len() - from == lit@.len(),
            0 <= i <= lit@.len(),
            forall|j: int| 0 <= j < i ==> a@[from + j] == lit@[j],
        decreases lit@.len() - i,
    {
        assert(from + i < a@.len() && a@.len() == a.len());
        if a[from + i] != lit[i] {
            proof {
                assert(a@.skip(from as int)[i as int] != lit@[i as int]);
            }
            return false;
        }
        i = i + 1;
    }
    assert(a@.skip(from as int) =~= lit@);
    true
}

fn has_prefix_at(a: &Vec<char>, from: usize, lit: &Vec<char>) -> (r: bool)
    requires
        from <= a@.len(),
    ensures
        r == has_prefix(a@.skip(from as int), lit@),
{
    if a.len() - from < lit.len() {
        return false;
    }
    let mut i: usize = 0;
    while i < lit.len()
        invariant
            from <= a@.len(),
            a@.len() - from >= lit@.len(),
            0 <= i <= lit@.len(),
            forall|j: int| 0 <= j < i ==> a@[from + j] == lit@[j],
        decreases lit@.len() - i,
    {
        assert(from + i < a@.len() && a@.len() == a.len());
        if a[from + i] != lit[i] {
            proof {
                assert(a@.skip(from as int).take(lit@.len() as int)[i as int] != lit@[i as int]);
            }
            return false;
        }
        i = i + 1;
    }
    assert(a@.skip(from as int).take(lit@.len() as int) =~= lit@);
    true
}

pub(crate) fn copy_range(a: &Vec<char>, from: usize, to: usize) -> (r: Vec<char>)
    requires
        from <= to <= a@.len(),
    ensures
        r@ == a@.subrange(from as int, to as int),
{
    let mut out: Vec<char> = Vec::new();
    let mut i: usize = from;
    while i < to
        invariant
            from <= i <= to <= a@.len(),
            out@ == a@.subrange(from as int, i as int),
        decreases to - i,
    {
        out.push(a[i]);
        proof {
            assert(a@.subrange(from as int, i as int + 1) =~= a@.subrange(from as int, i as int).push(a@[i as int]));
        }
        i = i + 1;
    }
    out
}

/// Resolves `method` on `url` to the operation it asks for.
pub fn route(method: &str, url: &str) -> (r: Route)
    ensures
        r@ == route_of(method@, url@),
{
    let m = chars_of(method);
    let u = chars_of(url);
    let mut q: usize = 0;
    while q < u.len() && u[q] != '?'
        invariant
            0 <= q <= u@.len(),
            forall|j: int| 0 <= j < q ==> u@[j] != '?',
        decreases u@.len() - q,
    {
        q = q + 1;
    }
    let mut k: usize = 0;
    while k < q && u[k] == '/'
        invariant
            0 <= k <= q <= u@.len(),
            forall|j: int| 0 <= j < k ==> u@[j] == '/',
        decreases q - k,
    {
        k = k + 1;
    }
    let p = copy_range(&u, k, q);
    proof {
        assert(is_query_cut(u@, q as int));
        let cq = choose|c: int| is_query_cut(u@, c);
        lemma_query_cut_unique(u@, q as int, cq);
        let pp = path_part(u@);
        assert(pp == u@.take(q as int));
        assert(is_slash_run(pp, k as int));
        let ck = choose|c: int| is_slash_run(pp, c);
        lemma_slash_run_unique(pp, k as int, ck);
        assert(p@ =~= route_path(url@));
        reveal_strlit("GET");
        reveal_strlit("POST");
        reveal_strlit("task/");
        reveal_strlit("image/");
        reveal_strlit("tasks");
        reveal_strlit("generate");
        assert(p@.skip(0) =~= p@);
    }
    let get = vec!['G', 'E', 'T'];
    let post = vec!['P', 'O', 'S', 'T'];
    let task_prefix = vec!['t', 'a', 's', 'k', '/'];
    let image_prefix = vec!['i', 'm', 'a', 'g', 'e', '/'];
    let tasks = vec!['t', 'a', 's', 'k', 's'];
    let generate = vec!['g', 'e', 'n', 'e', 'r', 'a', 't', 'e'];
    assert(get@ =~= "GET"@);
    assert(post@ =~= "POST"@);
    assert(task_prefix@ =~= "task/"@);
    assert(image_prefix@ =~= "image/"@);
    assert(tasks@ =~= "tasks"@);
    assert(generate@ =~= "generate"@);
    assert(m@.skip(0) =~= m@);
    let is_get = chars_equal(&m, 0, &get);
    if is_get && has_prefix_at(&p, 0, &task_prefix) {
        let id = copy_range(&p, 5, p.len());
        assert(id@ =~= p@.skip(5));
        return Route::TaskStatus(string_of_chars(&id));
    }
    if is_get && has_prefix_at(&p, 0, &image_prefix) {
        let id = copy_range(&p, 6, p.len());
        assert(id@ =~= p@.skip(6));
        return Route::Image(string_of_chars(&id));
    }
    if is_get && chars_equal(&p, 0, &tasks) {
        return Route::ListTasks;
    }
    if chars_equal(&m, 0, &post) && chars_equal(&p, 0, &generate) {
        return Route::Generate;
    }
    Route::NotFound
}

/// Body of an HTTP reply: an envelope to be written as JSON, or raw bytes.
pub enum ReplyBody {
    TaskStatus(ApiResponse<GenerationTask>),
    ImageError(ApiResponse<Vec<u8>>),
    TaskList(ApiResponse<Vec<String>>),
    Message(ApiResponse<String>),
    Raw(Vec<u8>),
}

/// An HTTP reply: status code, content type and body.
pub struct HttpReply {
    pub status: u16,
    pub content_type: String,
    pub body: ReplyBody,
}

pub open spec fn json_type() -> Seq<char> {
    "application/json"@
}

pub open spec fn image_type() -> Seq<char> {
    "image/bmp"@
}

pub open spec fn text_type() -> Seq<char> {
    "text/plain"@
}

/// The body of the generic not-found reply: the bytes of `Not Found`.
pub open spec fn not_found_body() -> Seq<u8> {
    seq![78u8, 111, 116, 32, 70, 111, 117, 110, 100]
}

pub open spec fn use_update_call() -> Seq<char> {
    "Use the canister's generate_image method directly"@
}

pub open spec fn invalid_json() -> Seq<char> {
    "Invalid JSON request"@
}

/// `r` answers `route` on a service holding `tasks` at time `now`;
/// `body_is_request` tells whether the request body reads as a generation
/// request.
pub open spec fn reply_for(
    tasks: Seq<TaskView>,
    route: RouteView,
    body_is_request: bool,
    now: u64,
    r: HttpReply,
) -> bool {
    match route {
        RouteView::TaskStatus(id) => {
            &&& r.content_type@ == json_type()
            &&& r.body matches ReplyBody::TaskStatus(a)
            &&& status_answer(tasks, id, now, a)
            &&& r.status == (if a.success { 200u16 } else { 404u16 })
        },
        RouteView::Image(id) => match lookup(tasks, id) {
            Some(t) if t.result is Some => {
                &&& r.status == 200
                &&& r.content_type@ == image_type()
                &&& r.body matches ReplyBody::Raw(b)
                &&& b@ == t.result->0
            },
            _ => {
                &&& r.status == 404
                &&& r.content_type@ == json_type()
                &&& r.body matches ReplyBody::ImageError(a)
                &&& image_answer(tasks, id, now, a)
            },
        },
        RouteView::ListTasks => {
            &&& r.status == 200
            &&& r.content_type@ == json_type()
            &&& r.body matches ReplyBody::TaskList(a)
            &&& list_answer(tasks, now, a)
        },
        RouteView::Generate => {
            &&& r.status == 400
            &&& r.content_type@ == json_type()
            &&& r.body matches ReplyBody::Message(a)
            &&& !a.success
            &&& a.data is None
            &&& a.timestamp == now
            &&& opt_string_view(a.error) == Some(
                if body_is_request { use_update_call() } else { invalid_json() },
            )
        },
        RouteView::NotFound => {
            &&& r.status == 404
            &&& r.content_type@ == text_type()
            &&& r.body matches ReplyBody::Raw(b)
            &&& b@ == not_found_body()
        },
    }
}

impl Service {
    /// Answers an operation of the HTTP interface. Only read-only operations
    /// run here: a generation submitted through it is refused.
    pub fn respond(&self, route: &Route, body_is_request: bool, now: u64) -> (r: HttpReply)
        requires
            self.wf(),
        ensures
            reply_for(self.tasks(), route@, body_is_request, now, r),
    {
        match route {
            Route::TaskStatus(id) => {
                let a = self.get_task_status(id, now);
                let status: u16 = if a.success { 200 } else { 404 };
                HttpReply {
                    status,
                    content_type: String::from_str("application/json"),
                    body: ReplyBody::TaskStatus(a),
                }
            },
            Route::Image(id) => {
                let a = self.get_image(id, now);
                if a.success && a.data.is_some() {
                    let bytes = match a.data {
                        Some(b) => b,
                        None => Vec::new(),
                    };
                    HttpReply {
                        status: 200,
                        content_type: String::from_str("image/bmp"),
                        body: ReplyBody::Raw(bytes),
                    }
                } else {
                    HttpReply {
                        status: 404,
                        content_type: String::from_str("application/json"),
                        body: ReplyBody::ImageError(a),
                    }
                }
            },
            Route::ListTasks => HttpReply {
                status: 200,
                content_type: String::from_str("application/json"),
                body: ReplyBody::TaskList(self.list_tasks(now)),
            },
            Route::Generate => {
                let message = if body_is_request {
                    String::from_str("Use the canister's generate_image method directly")
                } else {
                    String::from_str("Invalid JSON request")
                };
                HttpReply {
                    status: 400,
                    content_type: String::from_str("application/json"),
                    body: ReplyBody::Message(
                        ApiResponse { success: false, data: None, error: Some(message), timestamp: now },
                    ),
                }
            },
            Route::NotFound => {
                let body: Vec<u8> = vec![78u8, 111, 116, 32, 70, 111, 117, 110, 100];
                assert(body@ =~= not_found_body());
                HttpReply {
                    status: 404,
                    content_type: String::from_str("text/plain"),
                    body: ReplyBody::Raw(body),
                }
            },
        }
    }

    /// Routes and answers an HTTP request.
    pub fn http_request(&self, req: &HttpRequest, body_is_request: bool, now: u64) -> (r: HttpReply)
        requires
            self.wf(),
        ensures
            reply_for(self.tasks(), route_of(req.method@, req.url@), body_is_request, now, r),
    {
        let rt = route(req.method.as_str(), req.url.as_str());
        self.respond(&rt, body_is_request, now)
    }
}

} // verus!
