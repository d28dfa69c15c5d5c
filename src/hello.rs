//! Routing of the minimal greeting service.
use vstd::prelude::*;
use crate::router::{chars_equal, copy_range, is_query_cut, lemma_query_cut_unique, path_part};
use crate::text::chars_of;

verus! {

/// Endpoints of the greeting service.
#[derive(Clone, Copy, Debug, PartialEq, Eq, Structural)]
pub enum HelloRoute {
    Hello,
    Health,
    NotFound,
}

/// The endpoint that `method` on `url` reaches; the query segment is ignored.
pub open spec fn hello_route_of(method: Seq<char>, url: Seq<char>) -> HelloRoute {
    let p = path_part(url);
    if method == "GET"@ && (p == "/"@ || p == "/hello"@) {
        HelloRoute::Hello
    } else if method == "GET"@ && p == "/health"@ {
        HelloRoute::Health
    } else {
        HelloRoute::NotFound
    }
}

impl HelloRoute {
    /// Status code of the endpoint's reply.
    pub fn status_code(&self) -> (r: u16)
        ensures
            r == (if *self == HelloRoute::NotFound { 404u16 } else { 200u16 }),
    {
        match self {
            HelloRoute::NotFound => 404,
            _ => 200,
        }
    }
}

/// Resolves `method` on `url` to an endpoint.
pub fn hello_route(method: &str, url: &str) -> (r: HelloRoute)
    ensures
        r == hello_route_of(method@, url@),
{
    let m = chars_of(method);
    let u = chars_of(url);
    let mut q: usize = 0;
    while q < u.len() && u[q] != '?'
        invariant
            0 <= q <= u@.len(),
            forall|j: int| 0 <= j < q ==> u@[j] != '?',
        decreases u@.len() - q,
    {
        q = q + 1;
    }
    let p = copy_range(&u, 0, q);
    proof {
        assert(is_query_cut(u@, q as int));
        let cq = choose|c: int| is_query_cut(u@, c);
        lemma_query_cut_unique(u@, q as int, cq);
        assert(p@ =~= path_part(url@));
        assert(p@.skip(0) =~= p@);
        assert(m@.skip(0) =~= m@);
        reveal_strlit("GET");
        reveal_strlit("/");
        reveal_strlit("/hello");
        reveal_strlit("/health");
    }
    let get = vec!['G', 'E', 'T'];
    let root = vec!['/'];
    let hello = vec!['/', 'h', 'e', 'l', 'l', 'o'];
    let health = vec!['/', 'h', 'e', 'a', 'l', 't', 'h'];
    assert(get@ =~= "GET"@);
    assert(root@ =~= "/"@);
    assert(hello@ =~= "/hello"@);
    assert(health@ =~= "/health"@);
    if !chars_equal(&m, 0, &get) {
        return HelloRoute::NotFound;
    }
    if chars_equal(&p, 0, &root) || chars_equal(&p, 0, &hello) {
        HelloRoute::Hello
    } else if chars_equal(&p, 0, &health) {
        HelloRoute::Health
    } else {
        HelloRoute::NotFound
    }
}

} // verus!
