use vstd::prelude::*;

verus! {

/// Every administrative address the server answers on, all hung off the one
/// per-install admin route.
pub struct AdminRoutes {
    /// The editor page.
    pub root: String,
    /// Where the sign-in page is served and the sign-in posted.
    pub login: String,
    pub logout: String,
    pub rebuild: String,
    /// Lithair's dashboard.
    pub panel: String,
    /// Lithair's data admin.
    pub data: String,
    /// The guard pattern that covers everything under the route.
    pub guarded: String,
}

/// The admin addresses as plain values.
pub struct AdminRoutesView {
    pub root: Seq<char>,
    pub login: Seq<char>,
    pub logout: Seq<char>,
    pub rebuild: Seq<char>,
    pub panel: Seq<char>,
    pub data: Seq<char>,
    pub guarded: Seq<char>,
}

impl View for AdminRoutes {
    type V = AdminRoutesView;

    open spec fn view(&self) -> AdminRoutesView {
        AdminRoutesView {
            root: self.root@,
            login: self.login@,
            logout: self.logout@,
            rebuild: self.rebuild@,
            panel: self.panel@,
            data: self.data@,
            guarded: self.guarded@,
        }
    }
}

/// The addresses under an admin route.
pub open spec fn spec_admin_routes(route: Seq<char>) -> AdminRoutesView {
    AdminRoutesView {
        root: route,
        login: route + "/login"@,
        logout: route + "/logout"@,
        rebuild: route + "/rebuild"@,
        panel: route + "/panel"@,
        data: route + "/data"@,
        guarded: route + "/*"@,
    }
}

fn under(route: &str, suffix: &str) -> (path: String)
    ensures
        path@ == route@ + suffix@,
{
    let mut path = String::from_str(route);
    path.append(suffix);
    path
}

/// The administrative addresses for `admin_route`.
pub fn admin_routes(admin_route: &str) -> (routes: AdminRoutes)
    ensures
        routes@ == spec_admin_routes(admin_route@),
{
    AdminRoutes {
        root: String::from_str(admin_route),
        login: under(admin_route, "/login"),
        logout: under(admin_route, "/logout"),
        rebuild: under(admin_route, "/rebuild"),
        panel: under(admin_route, "/panel"),
        data: under(admin_route, "/data"),
        guarded: under(admin_route, "/*"),
    }
}

} // verus!
