//! The route table and the request handlers: named static pages, the css
//! and asset directories, and the three user endpoints, dispatched from the
//! method and the request path.

use vstd::prelude::*;

use crate::numtext::parse_i32;
use crate::numtext::parsed_i32;
use crate::store::contains_id;
use crate::store::NewUser;
use crate::store::NewUserInput;
use crate::store::User;
use crate::store::UserStore;

verus! {

/// Whether `pre` is a prefix of `p`.
pub open spec fn has_prefix(p: Seq<char>, pre: Seq<char>) -> bool {
    pre.len() <= p.len() && p.take(pre.len() as int) == pre
}

/// Character-for-character string equality.
fn str_eq(a: &str, b: &str) -> (r: bool)
    ensures
        r == (a@ == b@),
{
    let na = a.unicode_len();
    let nb = b.unicode_len();
    if na != nb {
        return false;
    }
    let mut i: usize = 0;
    while i < na
        invariant
            na == a@.len(),
            na == b@.len(),
            i <= na,
            forall|k: int| 0 <= k < i ==> a@[k] == b@[k],
        decreases na - i,
    {
        if a.get_char(i) != b.get_char(i) {
            return false;
        }
        i = i + 1;
    }
    proof {
        assert(a@ =~= b@);
    }
    true
}

/// Whether `p` starts with `pre`, character for character.
fn str_has_prefix(p: &str, pre: &str) -> (r: bool)
    ensures
        r == has_prefix(p@, pre@),
{
    let np = p.unicode_len();
    let k = pre.unicode_len();
    if k > np {
        return false;
    }
    let mut i: usize = 0;
    while i < k
        invariant
            np == p@.len(),
            k == pre@.len(),
            k <= np,
            i <= k,
            forall|j: int| 0 <= j < i ==> p@[j] == pre@[j],
        decreases k - i,
    {
        if p.get_char(i) != pre.get_char(i) {
            proof {
                assert(p@.take(k as int)[i as int] == p@[i as int]);
            }
            return false;
        }
        i = i + 1;
    }
    proof {
        assert(p@.take(pre@.len() as int) =~= pre@);
    }
    true
}

/// The characters of `p` from position `k` on, as an owned string.
fn str_tail(p: &str, k: usize) -> (r: String)
    requires
        k <= p@.len(),
    ensures
        r@ == p@.skip(k as int),
{
    let n = p.unicode_len();
    let t = p.substring_char(k, n);
    proof {
        assert(t@ =~= p@.skip(k as int));
    }
    t.to_owned()
}

/// An HTTP method the site routes.
#[derive(Clone, Copy, PartialEq, Eq, Structural, Debug)]
pub enum Method {
    Get,
    Post,
    Delete,
}

/// Where a request lands, as a mathematical decision over the method and
/// the path: the site's route table.
pub enum SpecRoute {
    Home,
    FaisPage,
    RegisterPage,
    CssAsset { rest: Seq<char> },
    Asset { rest: Seq<char> },
    CreateUser,
    ReadUser { id: int },
    DeleteUser { id: int },
    NoMatch,
}

/// The route table. Named pages are matched first, then the css directory,
/// then the user endpoints, and any other leading-slash path falls through
/// to the asset directory; a user endpoint whose id segment is not a
/// decimal `i32` falls through with it.
pub open spec fn spec_route(m: Method, p: Seq<char>) -> SpecRoute {
    match m {
        Method::Get => if p == "/"@ {
            SpecRoute::Home
        } else if p == "/fais"@ {
            SpecRoute::FaisPage
        } else if p == "/register"@ {
            SpecRoute::RegisterPage
        } else if has_prefix(p, "/css/"@) {
            SpecRoute::CssAsset { rest: p.skip(5) }
        } else if has_prefix(p, "/diesel/"@) && parsed_i32(p.skip(8)) is Some {
            SpecRoute::ReadUser { id: parsed_i32(p.skip(8)).unwrap() }
        } else if has_prefix(p, "/"@) {
            SpecRoute::Asset { rest: p.skip(1) }
        } else {
            SpecRoute::NoMatch
        },
        Method::Post => if p == "/diesel"@ || p == "/diesel/"@ {
            SpecRoute::CreateUser
        } else {
            SpecRoute::NoMatch
        },
        Method::Delete => if has_prefix(p, "/diesel/"@) && parsed_i32(p.skip(8)) is Some {
            SpecRoute::DeleteUser { id: parsed_i32(p.skip(8)).unwrap() }
        } else {
            SpecRoute::NoMatch
        },
    }
}

/// A matched route with its extracted parameters.
pub enum RouteMatch {
    Home,
    FaisPage,
    RegisterPage,
    CssAsset { rest: String },
    Asset { rest: String },
    CreateUser,
    ReadUser { id: i32 },
    DeleteUser { id: i32 },
    NoMatch,
}

impl View for RouteMatch {
    type V = SpecRoute;

    open spec fn view(&self) -> SpecRoute {
        match self {
            RouteMatch::Home => SpecRoute::Home,
            RouteMatch::FaisPage => SpecRoute::FaisPage,
            RouteMatch::RegisterPage => SpecRoute::RegisterPage,
            RouteMatch::CssAsset { rest } => SpecRoute::CssAsset { rest: rest@ },
            RouteMatch::Asset { rest } => SpecRoute::Asset { rest: rest@ },
            RouteMatch::CreateUser => SpecRoute::CreateUser,
            RouteMatch::ReadUser { id } => SpecRoute::ReadUser { id: *id as int },
            RouteMatch::DeleteUser { id } => SpecRoute::DeleteUser { id: *id as int },
            RouteMatch::NoMatch => SpecRoute::NoMatch,
        }
    }
}

/// Matches a request against the route table, exactly as `spec_route`
/// decides it.
pub fn route(m: Method, path: &str) -> (r: RouteMatch)
    ensures
        r@ == spec_route(m, path@),
{
    match m {
        Method::Get => {
            if str_eq(path, "/") {
                RouteMatch::Home
            } else if str_eq(path, "/fais") {
                RouteMatch::FaisPage
            } else if str_eq(path, "/register") {
                RouteMatch::RegisterPage
            } else if str_has_prefix(path, "/css/") {
                proof {
                    reveal_strlit("/css/");
                }
                RouteMatch::CssAsset { rest: str_tail(path, 5) }
            } else if str_has_prefix(path, "/diesel/") {
                proof {
                    reveal_strlit("/diesel/");
                }
                let rest = str_tail(path, 8);
                match parse_i32(rest.as_str()) {
                    Some(id) => RouteMatch::ReadUser { id },
                    None => {
                        proof {
                            reveal_strlit("/");
                            assert(path@.take(8)[0] == path@[0]);
                            assert(path@.take(1) =~= "/"@);
                        }
                        RouteMatch::Asset { rest: str_tail(path, 1) }
                    },
                }
            } else if str_has_prefix(path, "/") {
                proof {
                    reveal_strlit("/");
                }
                RouteMatch::Asset { rest: str_tail(path, 1) }
            } else {
                RouteMatch::NoMatch
            }
        },
        Method::Post => {
            if str_eq(path, "/diesel") || str_eq(path, "/diesel/") {
                RouteMatch::CreateUser
            } else {
                RouteMatch::NoMatch
            }
        },
        Method::Delete => {
            if str_has_prefix(path, "/diesel/") {
                proof {
                    reveal_strlit("/diesel/");
                }
                let rest = str_tail(path, 8);
                match parse_i32(rest.as_str()) {
                    Some(id) => RouteMatch::DeleteUser { id },
                    None => RouteMatch::NoMatch,
                }
            } else {
                RouteMatch::NoMatch
            }
        },
    }
}

/// Path of the home page file under the asset directory.
pub fn index() -> (p: String)
    ensures
        p@ == "static/index.html"@,
{
    "static/index.html".to_owned()
}

/// Path of the secondary content page under the asset directory.
pub fn fais() -> (p: String)
    ensures
        p@ == "static/fais.html"@,
{
    "static/fais.html".to_owned()
}

/// Path of the registration page under the asset directory.
pub fn register() -> (p: String)
    ensures
        p@ == "static/register.html"@,
{
    "static/register.html".to_owned()
}

/// Joins the asset directory with a directory-relative path, as the asset
/// routes serve it.
pub fn asset_file(path: &str) -> (p: String)
    ensures
        p@ == "static/"@ + path@,
{
    let mut p = "static/".to_owned();
    p.append(path);
    p
}

/// Path of a css file: the css route serves the asset directory under its
/// own prefix.
pub fn css_file(path: &str) -> (p: String)
    ensures
        p@ == "static/"@ + path@,
{
    asset_file(path)
}

/// What a handler answers: a file to serve, a created row, a fetched row, a
/// bare success, absence, a rejected body, or the generic failure.
pub enum Reply {
    File { path: String },
    Created { location: String, user: User },
    UserJson { user: User },
    Deleted,
    NotFound,
    BadRequest,
    ServerError,
}

/// The HTTP status each reply is sent with.
pub open spec fn spec_status(r: Reply) -> int {
    match r {
        Reply::File { .. } => 200,
        Reply::Created { .. } => 201,
        Reply::UserJson { .. } => 200,
        Reply::Deleted => 200,
        Reply::NotFound => 404,
        Reply::BadRequest => 400,
        Reply::ServerError => 500,
    }
}

/// The status line a reply is sent with.
pub fn status_of(r: &Reply) -> (s: u16)
    ensures
        s as int == spec_status(*r),
{
    match r {
        Reply::File { .. } => 200,
        Reply::Created { .. } => 201,
        Reply::UserJson { .. } => 200,
        Reply::Deleted => 200,
        Reply::NotFound => 404,
        Reply::BadRequest => 400,
        Reply::ServerError => 500,
    }
}

/// Status for a static file request once the file has been looked for: the
/// file is served, or its absence is reported as plain absence — never as a
/// server error.
pub fn serve_outcome(found: bool) -> (s: u16)
    ensures
        found ==> s == 200,
        !found ==> s == 404,
        s != 500,
{
    if found {
        200
    } else {
        404
    }
}

/// The assembled application: the users table behind the route table.
pub struct App {
    pub store: UserStore,
}

/// Builds the application as the server boots it: the route table of
/// `handle` over a users table that starts empty, with 1 as the first id
/// to assign.
pub fn rocket() -> (a: App)
    ensures
        a.store.wf(),
        a.store.rows().len() == 0,
        a.store.fresh_id() == 1,
{
    App { store: UserStore::new() }
}

/// Dispatches one request. Static routes answer with the file to serve and
/// never touch the table; the user endpoints run their single statement
/// against it. A read or delete of an absent id answers absence, a create
/// without a body is rejected, and only a failed create is a server error.
pub fn handle(app: &mut App, m: Method, path: &str, body: Option<&NewUserInput>) -> (r: Reply)
    requires
        old(app).store.wf(),
    ensures
        final(app).store.wf(),
        m is Get ==> *final(app) == *old(app) && !(r is ServerError) && !(r is BadRequest),
        match spec_route(m, path@) {
            SpecRoute::Home => r matches Reply::File { path: f } && f@ == "static/index.html"@,
            SpecRoute::FaisPage => r matches Reply::File { path: f } && f@ == "static/fais.html"@,
            SpecRoute::RegisterPage => r matches Reply::File { path: f } && f@
                == "static/register.html"@,
            SpecRoute::CssAsset { rest } => r matches Reply::File { path: f } && f@ == "static/"@
                + rest,
            SpecRoute::Asset { rest } => r matches Reply::File { path: f } && f@ == "static/"@
                + rest,
            SpecRoute::ReadUser { id } => {
                &&& r is UserJson <==> contains_id(old(app).store.rows(), id)
                &&& r is NotFound <==> !contains_id(old(app).store.rows(), id)
                &&& (r matches Reply::UserJson { user } ==> user@.id == id && forall|k: int|
                    0 <= k < old(app).store.rows().len() && #[trigger] old(
                        app,
                    ).store.rows()[k].id == id ==> user@ == old(app).store.rows()[k])
            },
            SpecRoute::CreateUser => match body {
                Some(inp) => {
                    &&& old(app).store.fresh_id() < i32::MAX ==> (r matches Reply::Created {
                        location,
                        user,
                    } && {
                        &&& location@ == "/"@
                        &&& user@.id == old(app).store.fresh_id()
                        &&& 0 < user@.id
                        &&& user@.username == inp.username@
                        &&& user@.email == inp.email@
                        &&& user@.password == inp.password@
                        &&& user@.admin == false
                        &&& final(app).store.rows() == old(app).store.rows().push(user@)
                        &&& final(app).store.fresh_id() == old(app).store.fresh_id() + 1
                    })
                    &&& old(app).store.fresh_id() == i32::MAX ==> r is ServerError && *final(app)
                        == *old(app)
                },
                None => r is BadRequest && *final(app) == *old(app),
            },
            SpecRoute::DeleteUser { id } => {
                &&& r is Deleted <==> contains_id(old(app).store.rows(), id)
                &&& r is NotFound <==> !contains_id(old(app).store.rows(), id)
                &&& r is NotFound ==> *final(app) == *old(app)
                &&& !contains_id(final(app).store.rows(), id)
                &&& final(app).store.fresh_id() == old(app).store.fresh_id()
                &&& r is Deleted ==> exists|k: int|
                    0 <= k < old(app).store.rows().len() && #[trigger] old(
                        app,
                    ).store.rows()[k].id == id && final(app).store.rows() == old(
                        app,
                    ).store.rows().remove(k)
            },
            SpecRoute::NoMatch => r is NotFound && *final(app) == *old(app),
        },
{
    let rm = route(m, path);
    match rm {
        RouteMatch::Home => Reply::File { path: index() },
        RouteMatch::FaisPage => Reply::File { path: fais() },
        RouteMatch::RegisterPage => Reply::File { path: register() },
        RouteMatch::CssAsset { rest } => Reply::File { path: css_file(rest.as_str()) },
        RouteMatch::Asset { rest } => Reply::File { path: asset_file(rest.as_str()) },
        RouteMatch::ReadUser { id } => match app.store.read(id) {
            Some(user) => Reply::UserJson { user },
            None => Reply::NotFound,
        },
        RouteMatch::CreateUser => match body {
            Some(inp) => {
                let nu = NewUser {
                    username: inp.username.clone(),
                    email: inp.email.clone(),
                    password: inp.password.clone(),
                };
                match app.store.create(nu) {
                    Ok(user) => Reply::Created { location: "/".to_owned(), user },
                    Err(_) => Reply::ServerError,
                }
            },
            None => Reply::BadRequest,
        },
        RouteMatch::DeleteUser { id } => match app.store.delete(id) {
            Some(_) => Reply::Deleted,
            None => Reply::NotFound,
        },
        RouteMatch::NoMatch => Reply::NotFound,
    }
}

} // verus!
