use ic_stable_diff::bmp::VAEDecoder;
use ic_stable_diff::hello::{hello_route, HelloRoute};
use ic_stable_diff::ids::{decimal, generate_task_id, parse_task_number};
use ic_stable_diff::pipeline::PipelineError;
use ic_stable_diff::router::{route, ReplyBody, Route};
use ic_stable_diff::service::{RestoreError, Service};
use ic_stable_diff::store::TaskStore;
use ic_stable_diff::types::{GenerationRequest, GenerationTask, HttpRequest, TaskStatus};

fn request(prompt: &str) -> GenerationRequest {
    GenerationRequest {
        prompt: prompt.to_string(),
        negative_prompt: None,
        width: None,
        height: None,
        num_inference_steps: None,
        guidance_scale_bits: None,
        seed: None,
    }
}

fn image() -> Vec<u8> {
    VAEDecoder::new().create_bmp(64, 64, &vec![10u8; 64 * 64 * 3])
}

fn ready_service() -> Service {
    let mut s = Service::new();
    s.init();
    s
}

fn get(url: &str) -> HttpRequest {
    HttpRequest { method: "GET".to_string(), url: url.to_string(), headers: vec![], body: vec![] }
}

#[test]
fn decimal_forms() {
    assert_eq!(decimal(0), "0");
    assert_eq!(decimal(7), "7");
    assert_eq!(decimal(1200), "1200");
    assert_eq!(decimal(u64::MAX), "18446744073709551615");
}

#[test]
fn task_ids_count_up() {
    let mut c: u64 = 0;
    assert_eq!(generate_task_id(&mut c), "task_1");
    assert_eq!(c, 1);
    assert_eq!(generate_task_id(&mut c), "task_2");
    let mut c: u64 = 99;
    assert_eq!(generate_task_id(&mut c), "task_100");
}

#[test]
fn task_numbers_parse() {
    assert_eq!(parse_task_number(&"task_12".to_string()), Some(12));
    assert_eq!(parse_task_number(&"task_0".to_string()), Some(0));
    assert_eq!(parse_task_number(&"task_18446744073709551615".to_string()), Some(u64::MAX));
    assert_eq!(parse_task_number(&"task_18446744073709551616".to_string()), None);
    assert_eq!(parse_task_number(&"task_012".to_string()), None);
    assert_eq!(parse_task_number(&"task_".to_string()), None);
    assert_eq!(parse_task_number(&"task_1a".to_string()), None);
    assert_eq!(parse_task_number(&"job_1".to_string()), None);
}

#[test]
fn route_resolution() {
    assert!(matches!(route("GET", "/tasks"), Route::ListTasks));
    assert!(matches!(route("GET", "//tasks?x=1"), Route::ListTasks));
    assert!(matches!(route("POST", "/generate"), Route::Generate));
    assert!(matches!(route("GET", "/generate"), Route::NotFound));
    assert!(matches!(route("POST", "/tasks"), Route::NotFound));
    assert!(matches!(route("DELETE", "/task/task_1"), Route::NotFound));
    match route("GET", "/task/task_3?verbose") {
        Route::TaskStatus(id) => assert_eq!(id, "task_3"),
        _ => panic!("wrong route"),
    }
    match route("GET", "image/task_9") {
        Route::Image(id) => assert_eq!(id, "task_9"),
        _ => panic!("wrong route"),
    }
    match route("GET", "/task/") {
        Route::TaskStatus(id) => assert_eq!(id, ""),
        _ => panic!("wrong route"),
    }
}

#[test]
fn list_on_empty_store() {
    let s = ready_service();
    let r = s.http_request(&get("/tasks"), false, 5);
    assert_eq!(r.status, 200);
    assert_eq!(r.content_type, "application/json");
    match r.body {
        ReplyBody::TaskList(a) => {
            assert!(a.success);
            assert_eq!(a.data, Some(vec![]));
            assert_eq!(a.timestamp, 5);
        }
        _ => panic!("wrong body"),
    }
}

#[test]
fn generation_scenario() {
    let mut s = ready_service();
    let req = request("a red cat");
    assert!(s.plan_generation(&req).is_ok());
    let a = s.submit_generation(req, Ok(image()), 100, 200);
    assert!(a.success);
    let id = a.data.unwrap();
    assert!(id.starts_with("task_"));
    assert!(id["task_".len()..].chars().all(|c| c.is_ascii_digit()));
    assert_eq!(id, "task_1");

    let r = s.http_request(&get(&format!("/task/{}", id)), false, 300);
    assert_eq!(r.status, 200);
    match r.body {
        ReplyBody::TaskStatus(a) => {
            let t = a.data.unwrap();
            assert_eq!(t.status, TaskStatus::Completed);
            assert!(t.result.as_ref().map_or(false, |b| !b.is_empty()));
            assert!(t.error.is_none());
            assert_eq!(t.created_at, 100);
            assert_eq!(t.completed_at, Some(200));
        }
        _ => panic!("wrong body"),
    }

    let r = s.http_request(&get(&format!("/image/{}", id)), false, 300);
    assert_eq!(r.status, 200);
    assert_eq!(r.content_type, "image/bmp");
    match r.body {
        ReplyBody::Raw(b) => {
            assert_eq!(&b[0..2], b"BM");
            assert_eq!(b.len(), 54 + 64 * 64 * 3);
        }
        _ => panic!("wrong body"),
    }
}

#[test]
fn unknown_task_is_not_found() {
    let s = ready_service();
    let r = s.http_request(&get("/task/does-not-exist"), false, 1);
    assert_eq!(r.status, 404);
    match r.body {
        ReplyBody::TaskStatus(a) => {
            assert!(!a.success);
            assert_eq!(a.error, Some("Task not found".to_string()));
        }
        _ => panic!("wrong body"),
    }
    let r = s.http_request(&get("/image/does-not-exist"), false, 1);
    assert_eq!(r.status, 404);
    match r.body {
        ReplyBody::ImageError(a) => assert_eq!(a.error, Some("Task not found".to_string())),
        _ => panic!("wrong body"),
    }
}

#[test]
fn failed_generation_has_no_image() {
    let mut s = ready_service();
    let mut req = request("x");
    req.width = Some(0);
    let outcome = s.plan_generation(&req).map(|_| image());
    assert_eq!(outcome.as_ref().err(), Some(&PipelineError::ZeroLatentSize));
    let a = s.submit_generation(req, outcome, 1, 2);
    let id = a.data.unwrap();
    let t = s.get_task_status(&id, 3).data.unwrap();
    assert_eq!(t.status, TaskStatus::Failed);
    assert!(t.result.is_none());
    assert_eq!(t.error, Some("Image dimensions give an empty latent".to_string()));
    let r = s.http_request(&get(&format!("/image/{}", id)), false, 4);
    assert_eq!(r.status, 404);
    assert_eq!(r.content_type, "application/json");
    match r.body {
        ReplyBody::ImageError(a) => {
            assert!(!a.success);
            assert!(a.data.is_none());
            assert_eq!(a.error, Some("Image not ready or generation failed".to_string()));
        }
        _ => panic!("wrong body"),
    }
}

#[test]
fn uninitialised_model_fails() {
    let s = Service::new();
    assert_eq!(s.plan_generation(&request("x")).err(), Some(PipelineError::ModelNotInitialized));
}

#[test]
fn generate_through_http_is_refused() {
    let s = ready_service();
    let post = HttpRequest {
        method: "POST".to_string(),
        url: "/generate".to_string(),
        headers: vec![],
        body: b"{\"prompt\":\"a red cat\"}".to_vec(),
    };
    let r = s.http_request(&post, true, 9);
    assert_eq!(r.status, 400);
    match r.body {
        ReplyBody::Message(a) => {
            assert!(!a.success);
            assert_eq!(
                a.error,
                Some("Use the canister's generate_image method directly".to_string())
            );
        }
        _ => panic!("wrong body"),
    }
    let r = s.http_request(&post, false, 9);
    match r.body {
        ReplyBody::Message(a) => assert_eq!(a.error, Some("Invalid JSON request".to_string())),
        _ => panic!("wrong body"),
    }
    assert!(s.list_tasks(9).data.unwrap().is_empty());
}

#[test]
fn unknown_route_is_plain_not_found() {
    let s = ready_service();
    let r = s.http_request(&get("/nowhere"), false, 1);
    assert_eq!(r.status, 404);
    assert_eq!(r.content_type, "text/plain");
    match r.body {
        ReplyBody::Raw(b) => assert_eq!(b, b"Not Found".to_vec()),
        _ => panic!("wrong body"),
    }
}

#[test]
fn ids_are_distinct_and_fresh() {
    let mut s = ready_service();
    let mut seen: Vec<String> = Vec::new();
    for i in 0..5u64 {
        let id = s.submit_generation(request("p"), Ok(vec![1, 2, 3]), i, i).data.unwrap();
        assert!(!seen.contains(&id));
        seen.push(id);
    }
    assert_eq!(s.list_tasks(0).data.unwrap(), seen);
    assert_eq!(s.counter(), 5);
}

#[test]
fn every_record_is_exclusive() {
    let mut s = ready_service();
    s.submit_generation(request("a"), Ok(vec![1]), 0, 1);
    s.submit_generation(request("b"), Err(PipelineError::ZeroSteps), 0, 1);
    for t in s.records() {
        assert!(t.result.is_some() != t.error.is_some());
        assert!(t.completed_at.is_some());
    }
}

#[test]
fn restore_round_trip() {
    let mut s = ready_service();
    for i in 0..3u64 {
        s.submit_generation(request("p"), if i == 1 { Err(PipelineError::ZeroSteps) } else { Ok(vec![i as u8; 4]) }, i, i + 1);
    }
    let mut back = Service::restore(s.counter(), s.records()).ok().unwrap();
    back.init();
    assert_eq!(back.counter(), 3);
    assert_eq!(back.list_tasks(0).data, s.list_tasks(0).data);
    for id in s.list_tasks(0).data.unwrap() {
        let a = s.get_task_status(&id, 0).data.unwrap();
        let b = back.get_task_status(&id, 0).data.unwrap();
        assert_eq!(a.id, b.id);
        assert_eq!(a.status, b.status);
        assert_eq!(a.result, b.result);
        assert_eq!(a.error, b.error);
        assert_eq!(a.created_at, b.created_at);
        assert_eq!(a.completed_at, b.completed_at);
        assert_eq!(a.request.prompt, b.request.prompt);
    }
    let next = back.submit_generation(request("q"), Ok(vec![9]), 0, 0).data.unwrap();
    assert_eq!(next, "task_4");
}

fn record(id: &str, status: TaskStatus, result: Option<Vec<u8>>, error: Option<String>) -> GenerationTask {
    GenerationTask {
        id: id.to_string(),
        status,
        created_at: 0,
        completed_at: Some(1),
        request: request("p"),
        result,
        error,
    }
}

#[test]
fn restore_rejects_bad_records() {
    let ok = |id: &str| record(id, TaskStatus::Completed, Some(vec![1]), None);
    assert_eq!(Service::restore(1, vec![ok("task_2")]).err(), Some(RestoreError::UnknownId(0)));
    assert_eq!(Service::restore(1, vec![ok("other")]).err(), Some(RestoreError::UnknownId(0)));
    assert_eq!(Service::restore(3, vec![ok("task_0")]).err(), Some(RestoreError::UnknownId(0)));
    assert_eq!(
        Service::restore(3, vec![ok("task_1"), ok("task_1")]).err(),
        Some(RestoreError::DuplicateId(1))
    );
    assert_eq!(
        Service::restore(3, vec![record("task_1", TaskStatus::Completed, None, Some("e".to_string()))]).err(),
        Some(RestoreError::Inconsistent(0))
    );
    assert_eq!(
        Service::restore(3, vec![record("task_1", TaskStatus::Pending, None, None)]).err(),
        Some(RestoreError::Inconsistent(0))
    );
    assert!(Service::restore(0, vec![]).is_ok());
}

#[test]
fn store_put_replaces_same_id() {
    let mut st = TaskStore::new();
    st.put(record("a", TaskStatus::Completed, Some(vec![1]), None));
    st.put(record("b", TaskStatus::Completed, Some(vec![2]), None));
    st.put(record("a", TaskStatus::Failed, None, Some("x".to_string())));
    assert_eq!(st.len(), 2);
    assert_eq!(st.list_ids(), vec!["a".to_string(), "b".to_string()]);
    assert_eq!(st.get(&"a".to_string()).unwrap().status, TaskStatus::Failed);
    assert!(st.contains(&"b".to_string()));
    assert!(st.get(&"c".to_string()).is_none());
}

#[test]
fn hello_routes() {
    assert_eq!(hello_route("GET", "/"), HelloRoute::Hello);
    assert_eq!(hello_route("GET", "/hello?x=1"), HelloRoute::Hello);
    assert_eq!(hello_route("GET", "/health"), HelloRoute::Health);
    assert_eq!(hello_route("POST", "/hello"), HelloRoute::NotFound);
    assert_eq!(hello_route("GET", "/other"), HelloRoute::NotFound);
    assert_eq!(HelloRoute::Hello.status_code(), 200);
    assert_eq!(HelloRoute::NotFound.status_code(), 404);
}
