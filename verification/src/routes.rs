//! The pages behind a login: which paths they lie under, who may see
//! them, and where the others are sent.

use vstd::prelude::*;
use vstd::string::*;
use crate::review::{ACC_IDS, ADMIN_IDS, ReviewContext, ReviewEvent, VFS_IDS};
use crate::user::{check_admin, check_login_raw, is_admin, logged_in, LoginContext};
use crate::vfs::shared::VfsTarget;

verus! {

/// The number of the event that says that the list of an account's
/// characters is out of date.
pub const CHAR_LIST_ID: u32 = ACC_IDS + 1;

/// The number of the event that says that the list of keys is out of date.
pub const KEY_LIST_ID: u32 = ADMIN_IDS + 1;

/// The number of the event that says that a listing of nodes is out of
/// date.
pub const NODE_LIST_ID: u32 = VFS_IDS + 1;

/// Which page of the namespace a location names.
#[derive(Debug, Clone, PartialEq, Eq)]
pub enum VfsRoute {
    Invalid,
    Root,
    Route(String),
}

/// The path that a route stands for: the root's for the root and for an
/// invalid route.
pub open spec fn route_path(route: VfsRoute) -> Seq<char> {
    match route {
        VfsRoute::Root | VfsRoute::Invalid => "root"@,
        VfsRoute::Route(path) => path@,
    }
}

impl VfsRoute {
    /// The path that this route stands for.
    pub fn into_path(self) -> (path: String)
        ensures
            path@ == route_path(self),
    {
        match self {
            VfsRoute::Root | VfsRoute::Invalid => String::from_str("root"),
            VfsRoute::Route(path) => path,
        }
    }

    /// The target that this route stands for: its path.
    pub fn into_target(self) -> (target: VfsTarget)
        ensures
            target matches VfsTarget::Path(path) && path@ == route_path(self),
    {
        VfsTarget::Path(self.into_path())
    }
}

/// Who may see a group of pages.
#[derive(Debug, Clone, Copy, PartialEq, Eq, Structural)]
pub enum RouteGuard {
    /// Whoever is logged in.
    Login,
    /// Admins only.
    Admin,
}

/// A group of pages behind a guard: the path they lie under, the guard,
/// where those are sent whom the guard turns away, and the paths of the
/// pages below the group's own.
#[derive(Debug, Clone)]
pub struct ProtectedRoutes {
    pub path: String,
    pub guard: RouteGuard,
    pub redirect_path: String,
    pub children: Vec<String>,
}

/// What a group of pages is, as contracts see it.
pub struct RoutesView {
    pub path: Seq<char>,
    pub guard: RouteGuard,
    pub redirect_path: Seq<char>,
    pub children: Seq<Seq<char>>,
}

impl View for ProtectedRoutes {
    type V = RoutesView;

    open spec fn view(&self) -> RoutesView {
        RoutesView {
            path: self.path@,
            guard: self.guard,
            redirect_path: self.redirect_path@,
            children: crate::text::names_of(self.children@),
        }
    }
}

/// The pages of an account: under `/account`, for whoever is logged in.
/// The event of the character list is provided afresh.
#[allow(non_snake_case)]
pub fn AccountRoutes(ctx: &mut ReviewContext) -> (routes: ProtectedRoutes)
    ensures
        routes@ == (RoutesView {
            path: "/account"@,
            guard: RouteGuard::Login,
            redirect_path: "/"@,
            children: seq!["/"@],
        }),
        final(ctx)@ == old(ctx)@.insert(CHAR_LIST_ID, 0i32),
{
    ReviewEvent::<CHAR_LIST_ID>::provide_new(ctx);
    let mut children: Vec<String> = Vec::new();
    children.push(String::from_str("/"));
    let routes = ProtectedRoutes {
        path: String::from_str("/account"),
        guard: RouteGuard::Login,
        redirect_path: String::from_str("/"),
        children,
    };
    assert(routes@.children =~= seq!["/"@]);
    routes
}

/// The pages of the admins: under `/admin`, for admins only, with the key
/// manager at `/keys`. The event of the key list is provided afresh.
#[allow(non_snake_case)]
pub fn AdminRoutes(ctx: &mut ReviewContext) -> (routes: ProtectedRoutes)
    ensures
        routes@ == (RoutesView {
            path: "/admin"@,
            guard: RouteGuard::Admin,
            redirect_path: "/"@,
            children: seq!["/"@, "/keys"@],
        }),
        final(ctx)@ == old(ctx)@.insert(KEY_LIST_ID, 0i32),
{
    ReviewEvent::<KEY_LIST_ID>::provide_new(ctx);
    let mut children: Vec<String> = Vec::new();
    children.push(String::from_str("/"));
    children.push(String::from_str("/keys"));
    let routes = ProtectedRoutes {
        path: String::from_str("/admin"),
        guard: RouteGuard::Admin,
        redirect_path: String::from_str("/"),
        children,
    };
    assert(routes@.children =~= seq!["/"@, "/keys"@]);
    routes
}

/// The chat: under `/chat`, for whoever is logged in; the others are sent
/// to the login page.
#[allow(non_snake_case)]
pub fn ChatRoutes() -> (routes: ProtectedRoutes)
    ensures
        routes@ == (RoutesView {
            path: "/chat"@,
            guard: RouteGuard::Login,
            redirect_path: "/login"@,
            children: seq!["/"@],
        }),
{
    let mut children: Vec<String> = Vec::new();
    children.push(String::from_str("/"));
    let routes = ProtectedRoutes {
        path: String::from_str("/chat"),
        guard: RouteGuard::Login,
        redirect_path: String::from_str("/login"),
        children,
    };
    assert(routes@.children =~= seq!["/"@]);
    routes
}

/// The pages of the namespace: under `/vfs`, for whoever is logged in,
/// with every path below it shown by the same page. The event of the
/// namespace is provided afresh.
#[allow(non_snake_case)]
pub fn FilesystemRoutes(ctx: &mut ReviewContext) -> (routes: ProtectedRoutes)
    ensures
        routes@ == (RoutesView {
            path: "/vfs"@,
            guard: RouteGuard::Login,
            redirect_path: "/"@,
            children: seq!["/*path"@],
        }),
        final(ctx)@ == old(ctx)@.insert(VFS_IDS, 0i32),
{
    ReviewEvent::<VFS_IDS>::provide_new(ctx);
    let mut children: Vec<String> = Vec::new();
    children.push(String::from_str("/*path"));
    let routes = ProtectedRoutes {
        path: String::from_str("/vfs"),
        guard: RouteGuard::Login,
        redirect_path: String::from_str("/"),
        children,
    };
    assert(routes@.children =~= seq!["/*path"@]);
    routes
}

/// What is done with someone who asks for a guarded page.
#[derive(Debug, Clone, PartialEq, Eq)]
pub enum RouteDecision {
    /// The login state is not known yet: nothing is shown.
    Pending,
    /// The page is shown.
    Show,
    /// The asker is sent to another path.
    Redirect(String),
}

/// Whether a guard lets the holder of a login state pass; unknown while
/// the state is unverified.
pub open spec fn guard_passes(guard: RouteGuard, ctx: LoginContext) -> Option<bool> {
    match guard {
        RouteGuard::Login => logged_in(ctx.login_state),
        RouteGuard::Admin => is_admin(ctx.login_state),
    }
}

/// Decides what to do with someone who asks for a page of the group:
/// nothing while the login state is unknown, the page if the guard lets
/// them pass, and the group's redirect otherwise.
pub fn guard_route(routes: &ProtectedRoutes, ctx: &LoginContext) -> (d: RouteDecision)
    ensures
        match guard_passes(routes.guard, *ctx) {
            None => d is Pending,
            Some(true) => d is Show,
            Some(false) => d matches RouteDecision::Redirect(to) && to@ == routes.redirect_path@,
        },
{
    let passes = match routes.guard {
        RouteGuard::Login => check_login_raw(ctx),
        RouteGuard::Admin => check_admin(ctx),
    };
    match passes {
        None => RouteDecision::Pending,
        Some(true) => RouteDecision::Show,
        Some(false) => RouteDecision::Redirect(routes.redirect_path.clone()),
    }
}

} // verus!
