//! The connection routes the app can use and how their status changes when
//! a direct connection is started.

use vstd::prelude::*;

use crate::text::{chars_eq_str, chars_of, string_from};

verus! {

/// One route between devices, as shown to the user.
#[derive(Clone, Debug)]
pub struct TransportOption {
    pub id: String,
    pub name: String,
    pub role: String,
    pub status: String,
    pub detail: String,
    pub action: Option<String>,
    pub priority: u8,
}

/// The plain values of a route.
pub struct RouteView {
    pub id: Seq<char>,
    pub name: Seq<char>,
    pub role: Seq<char>,
    pub status: Seq<char>,
    pub detail: Seq<char>,
    pub action: Option<Seq<char>>,
    pub priority: u8,
}

impl View for TransportOption {
    type V = RouteView;

    open spec fn view(&self) -> RouteView {
        RouteView {
            id: self.id@,
            name: self.name@,
            role: self.role@,
            status: self.status@,
            detail: self.detail@,
            action: match self.action {
                Some(a) => Some(a@),
                None => None,
            },
            priority: self.priority,
        }
    }
}

/// The plain values of a list of routes.
pub open spec fn routes_view(plan: Seq<TransportOption>) -> Seq<RouteView> {
    Seq::new(plan.len(), |i: int| plan[i]@)
}

/// A route built from its fields.
pub open spec fn route(
    id: Seq<char>,
    name: Seq<char>,
    role: Seq<char>,
    status: Seq<char>,
    detail: Seq<char>,
    action: Option<Seq<char>>,
    priority: u8,
) -> RouteView {
    RouteView { id, name, role, status, detail, action, priority }
}

/// A route built from its fields.
pub fn option(
    id: &str,
    name: &str,
    role: &str,
    status: &str,
    detail: &str,
    action: Option<&str>,
    priority: u8,
) -> (r: TransportOption)
    ensures
        r@ == route(
            id@,
            name@,
            role@,
            status@,
            detail@,
            match action {
                Some(a) => Some(a@),
                None => None,
            },
            priority,
        ),
{
    TransportOption {
        id: string_from(id),
        name: string_from(name),
        role: string_from(role),
        status: string_from(status),
        detail: string_from(detail),
        action: match action {
            Some(a) => Some(string_from(a)),
            None => None,
        },
        priority,
    }
}

/// The six routes, in order of preference, with their initial status.
pub open spec fn initial_plan() -> Seq<RouteView> {
    seq![
        route(
            "bluetooth-proximity"@,
            "Bluetooth proximity"@,
            "Discovery"@,
            "needs-permission"@,
            "Turn on Bluetooth to discover devices without the same WiFi network."@,
            Some("bluetooth-settings"@),
            1,
        ),
        route(
            "qr-pairing"@,
            "QR pairing"@,
            "Discovery"@,
            "next"@,
            "Use QR pairing when Bluetooth or network discovery is unavailable."@,
            Some("qr-pairing"@),
            2,
        ),
        route(
            "auto-hotspot"@,
            "Auto hotspot"@,
            "Connection"@,
            "needs-permission"@,
            "Turn on hotspot so another device can join a private fast link."@,
            Some("hotspot-settings"@),
            3,
        ),
        route(
            "wifi-direct"@,
            "WiFi Direct"@,
            "Connection"@,
            "needs-permission"@,
            "Turn on WiFi for WiFi Direct or nearby peer networking."@,
            Some("wifi-settings"@),
            4,
        ),
        route(
            "lan-fallback"@,
            "LAN fallback"@,
            "Connection"@,
            "available"@,
            "Use UDP discovery plus the existing TCP transfer when devices are already networked."@,
            None,
            5,
        ),
        route(
            "chunked-tcp"@,
            "Chunked TCP transfer"@,
            "Transfer"@,
            "ready"@,
            "Current fast transfer engine for large files over the selected link."@,
            None,
            6,
        ),
    ]
}

/// No two routes of the plan share an id.
proof fn lemma_route_ids_distinct()
    ensures
        forall|i: int, j: int|
            0 <= i < j < initial_plan().len() ==> #[trigger] initial_plan()[i].id
                != #[trigger] initial_plan()[j].id,
{
    reveal_strlit("bluetooth-proximity");
    reveal_strlit("qr-pairing");
    reveal_strlit("auto-hotspot");
    reveal_strlit("wifi-direct");
    reveal_strlit("lan-fallback");
    reveal_strlit("chunked-tcp");
    let p = initial_plan();
    assert forall|i: int, j: int| 0 <= i < j < p.len() implies #[trigger] p[i].id
        != #[trigger] p[j].id by {
        if p[i].id == p[j].id {
            assert(p[i].id.len() == p[j].id.len());
            assert(p[i].id[0] == p[j].id[0]);
        }
    }
}

/// The plan's routes, each with the settings panel its button opens: the
/// Bluetooth route opens the Bluetooth settings, the QR route the QR
/// pairing, the hotspot route the hotspot settings, the WiFi Direct route
/// the WiFi settings; the LAN and TCP routes have no button. No two routes
/// open the same panel.
pub proof fn lemma_route_actions()
    ensures
        initial_plan().len() == 6,
        forall|i: int|
            0 <= i < initial_plan().len() && #[trigger] initial_plan()[i].id
                == "bluetooth-proximity"@ ==> initial_plan()[i].action == Some(
                "bluetooth-settings"@,
            ),
        forall|i: int|
            0 <= i < initial_plan().len() && #[trigger] initial_plan()[i].id == "qr-pairing"@
                ==> initial_plan()[i].action == Some("qr-pairing"@),
        forall|i: int|
            0 <= i < initial_plan().len() && #[trigger] initial_plan()[i].id == "auto-hotspot"@
                ==> initial_plan()[i].action == Some("hotspot-settings"@),
        forall|i: int|
            0 <= i < initial_plan().len() && #[trigger] initial_plan()[i].id == "wifi-direct"@
                ==> initial_plan()[i].action == Some("wifi-settings"@),
        forall|i: int|
            0 <= i < initial_plan().len() && (#[trigger] initial_plan()[i].id == "lan-fallback"@
                || initial_plan()[i].id == "chunked-tcp"@) ==> initial_plan()[i].action is None,
        forall|i: int, j: int|
            0 <= i < initial_plan().len() && 0 <= j < initial_plan().len() && i != j
                && #[trigger] initial_plan()[i].action is Some && #[trigger] initial_plan()[j].action is Some
                ==> initial_plan()[i].action != initial_plan()[j].action,
{
    reveal_strlit("bluetooth-settings");
    reveal_strlit("qr-pairing");
    reveal_strlit("hotspot-settings");
    reveal_strlit("wifi-settings");
    lemma_route_ids_distinct();
    let p = initial_plan();
    assert forall|i: int| 0 <= i < p.len() && #[trigger] p[i].id == "wifi-direct"@ implies p[i].action
        == Some("wifi-settings"@) by {
        if i != 3 {
            assert(p[3].id == "wifi-direct"@);
            if i < 3 {
                assert(p[i].id != p[3].id);
            } else {
                assert(p[3].id != p[i].id);
            }
        }
    }
    assert forall|i: int| 0 <= i < p.len() && #[trigger] p[i].id == "auto-hotspot"@ implies p[i].action
        == Some("hotspot-settings"@) by {
        if i != 2 {
            assert(p[2].id == "auto-hotspot"@);
            if i < 2 {
                assert(p[i].id != p[2].id);
            } else {
                assert(p[2].id != p[i].id);
            }
        }
    }
    assert forall|i: int| 0 <= i < p.len() && #[trigger] p[i].id == "qr-pairing"@ implies p[i].action
        == Some("qr-pairing"@) by {
        if i != 1 {
            assert(p[1].id == "qr-pairing"@);
            if i < 1 {
                assert(p[i].id != p[1].id);
            } else {
                assert(p[1].id != p[i].id);
            }
        }
    }
    assert forall|i: int| 0 <= i < p.len() && #[trigger] p[i].id == "bluetooth-proximity"@ implies p[i].action
        == Some("bluetooth-settings"@) by {
        if i != 0 {
            assert(p[0].id == "bluetooth-proximity"@);
            assert(p[0].id != p[i].id);
        }
    }
    assert forall|i: int|
        0 <= i < p.len() && (#[trigger] p[i].id == "lan-fallback"@ || p[i].id == "chunked-tcp"@) implies p[i].action is None by {
        assert(p[4].id == "lan-fallback"@);
        assert(p[5].id == "chunked-tcp"@);
        if i < 4 {
            assert(p[i].id != p[4].id);
            assert(p[i].id != p[5].id);
        }
    }
    assert forall|i: int, j: int|
        0 <= i < p.len() && 0 <= j < p.len() && i != j && #[trigger] p[i].action is Some
            && #[trigger] p[j].action is Some implies p[i].action != p[j].action by {
        if p[i].action == p[j].action {
            assert(p[i].action.unwrap().len() == p[j].action.unwrap().len());
        }
    }
}

/// The routes with their initial status.
pub fn transport_plan() -> (plan: Vec<TransportOption>)
    ensures
        routes_view(plan@) == initial_plan(),
{
    let mut plan: Vec<TransportOption> = Vec::new();
    plan.push(
        option(
            "bluetooth-proximity",
            "Bluetooth proximity",
            "Discovery",
            "needs-permission",
            "Turn on Bluetooth to discover devices without the same WiFi network.",
            Some("bluetooth-settings"),
            1,
        ),
    );
    plan.push(
        option(
            "qr-pairing",
            "QR pairing",
            "Discovery",
            "next",
            "Use QR pairing when Bluetooth or network discovery is unavailable.",
            Some("qr-pairing"),
            2,
        ),
    );
    plan.push(
        option(
            "auto-hotspot",
            "Auto hotspot",
            "Connection",
            "needs-permission",
            "Turn on hotspot so another device can join a private fast link.",
            Some("hotspot-settings"),
            3,
        ),
    );
    plan.push(
        option(
            "wifi-direct",
            "WiFi Direct",
            "Connection",
            "needs-permission",
            "Turn on WiFi for WiFi Direct or nearby peer networking.",
            Some("wifi-settings"),
            4,
        ),
    );
    plan.push(
        option(
            "lan-fallback",
            "LAN fallback",
            "Connection",
            "available",
            "Use UDP discovery plus the existing TCP transfer when devices are already networked.",
            None,
            5,
        ),
    );
    plan.push(
        option(
            "chunked-tcp",
            "Chunked TCP transfer",
            "Transfer",
            "ready",
            "Current fast transfer engine for large files over the selected link.",
            None,
            6,
        ),
    );
    assert(routes_view(plan@) =~= initial_plan());
    plan
}

/// `r` with a new status and detail.
pub open spec fn with_status(r: RouteView, status: Seq<char>, detail: Seq<char>) -> RouteView {
    RouteView { status, detail, ..r }
}

/// The routes after setting the status and detail of the first route whose
/// id is `id`; unchanged when there is none.
pub open spec fn update_spec(plan: Seq<RouteView>, id: Seq<char>, status: Seq<char>, detail: Seq<char>) -> Seq<
    RouteView,
> {
    match first_with_id(plan, id) {
        Some(i) => plan.update(i, with_status(plan[i], status, detail)),
        None => plan,
    }
}

/// The index of the first route whose id is `id`.
pub open spec fn first_with_id(plan: Seq<RouteView>, id: Seq<char>) -> Option<int> {
    if exists|i: int| 0 <= i < plan.len() && #[trigger] plan[i].id == id {
        Some(
            choose|i: int|
                0 <= i < plan.len() && #[trigger] plan[i].id == id && forall|j: int|
                    0 <= j < i ==> plan[j].id != id,
        )
    } else {
        None
    }
}

proof fn lemma_first_with_id(plan: Seq<RouteView>, id: Seq<char>, i: int)
    requires
        0 <= i < plan.len(),
        plan[i].id == id,
        forall|j: int| 0 <= j < i ==> plan[j].id != id,
    ensures
        first_with_id(plan, id) == Some(i),
{
    let k = choose|k: int|
        0 <= k < plan.len() && #[trigger] plan[k].id == id && forall|j: int|
            0 <= j < k ==> plan[j].id != id;
    assert(exists|k: int|
        0 <= k < plan.len() && #[trigger] plan[k].id == id && forall|j: int|
            0 <= j < k ==> plan[j].id != id) by {
        assert(plan[i].id == id);
    }
    if k < i {
        assert(plan[k].id != id);
    }
    if i < k {
        assert(plan[i].id != id);
    }
}

/// Changing a route's status keeps every route's id, name, role, button and
/// priority, and the order of the routes; the first route with the id gets
/// the new status and detail, and every other route keeps its own.
pub proof fn lemma_update_keeps_routes(
    plan: Seq<RouteView>,
    id: Seq<char>,
    status: Seq<char>,
    detail: Seq<char>,
)
    ensures
        update_spec(plan, id, status, detail).len() == plan.len(),
        forall|i: int|
            0 <= i < plan.len() ==> {
                let r = #[trigger] update_spec(plan, id, status, detail)[i];
                &&& r.id == plan[i].id
                &&& r.name == plan[i].name
                &&& r.role == plan[i].role
                &&& r.action == plan[i].action
                &&& r.priority == plan[i].priority
            },
        forall|i: int|
            0 <= i < plan.len() && plan[i].id == id && (forall|j: int|
                0 <= j < i ==> plan[j].id != id) ==> #[trigger] update_spec(
                plan,
                id,
                status,
                detail,
            )[i].status == status && update_spec(plan, id, status, detail)[i].detail == detail,
        forall|i: int|
            0 <= i < plan.len() && plan[i].id != id ==> #[trigger] update_spec(
                plan,
                id,
                status,
                detail,
            )[i].status == plan[i].status && update_spec(plan, id, status, detail)[i].detail
                == plan[i].detail,
{
    assert forall|i: int|
        0 <= i < plan.len() && plan[i].id == id && (forall|j: int|
            0 <= j < i ==> plan[j].id != id) implies #[trigger] update_spec(
        plan,
        id,
        status,
        detail,
    )[i].status == status && update_spec(plan, id, status, detail)[i].detail == detail by {
        lemma_first_with_id(plan, id, i);
    }
    if exists|i: int| 0 <= i < plan.len() && #[trigger] plan[i].id == id {
        let i = choose|i: int| 0 <= i < plan.len() && #[trigger] plan[i].id == id;
        let m = lemma_first_index(plan, id, i);
        lemma_first_with_id(plan, id, m);
    }
}

/// When some route has the id, a first one has it.
proof fn lemma_first_index(plan: Seq<RouteView>, id: Seq<char>, i: int) -> (m: int)
    requires
        0 <= i < plan.len(),
        plan[i].id == id,
    ensures
        0 <= m <= i,
        plan[m].id == id,
        forall|j: int| 0 <= j < m ==> plan[j].id != id,
    decreases i,
{
    if exists|j: int| 0 <= j < i && #[trigger] plan[j].id == id {
        let j = choose|j: int| 0 <= j < i && #[trigger] plan[j].id == id;
        lemma_first_index(plan, id, j)
    } else {
        i
    }
}

/// Sets the status and detail of the first route whose id is `id`, and
/// gives its index; leaves the routes as they are and gives `None` when no
/// route has that id.
pub fn update(plan: &mut Vec<TransportOption>, id: &str, status: &str, detail: &str) -> (found:
    Option<usize>)
    ensures
        routes_view(final(plan)@) == update_spec(routes_view(old(plan)@), id@, status@, detail@),
        found == match first_with_id(routes_view(old(plan)@), id@) {
            Some(i) => Some(i as usize),
            None => None::<usize>,
        },
{
    let ghost ov = routes_view(plan@);
    let mut i: usize = 0;
    while i < plan.len()
        invariant
            i <= plan.len(),
            plan@ == old(plan)@,
            ov == routes_view(plan@),
            forall|j: int| 0 <= j < i ==> ov[j].id != id@,
        decreases plan.len() - i,
    {
        let idv = chars_of(plan[i].id.as_str());
        if chars_eq_str(&idv, id) {
            proof {
                lemma_first_with_id(ov, id@, i as int);
            }
            let cur = &plan[i];
            let r = TransportOption {
                id: cur.id.clone(),
                name: cur.name.clone(),
                role: cur.role.clone(),
                status: string_from(status),
                detail: string_from(detail),
                action: match &cur.action {
                    Some(a) => Some(a.clone()),
                    None => None,
                },
                priority: cur.priority,
            };
            assert(r@ == with_status(ov[i as int], status@, detail@));
            plan.set(i, r);
            assert(routes_view(plan@) =~= ov.update(i as int, with_status(ov[i as int], status@, detail@)));
            return Some(i);
        }
        i = i + 1;
    }
    assert(!(exists|k: int| 0 <= k < ov.len() && #[trigger] ov[k].id == id@));
    None
}

/// Number of status changes made when a direct connection starts.
pub const DIRECT_CONNECT_STEPS: usize = 6;

/// The step before which peer discovery on the LAN is started.
pub const DISCOVERY_BEFORE_STEP: usize = 4;

/// The route id, status and detail set by step `k` of starting a direct
/// connection.
pub open spec fn direct_connect_step_spec(k: int) -> (Seq<char>, Seq<char>, Seq<char>) {
    if k == 0 {
        ("bluetooth-proximity"@, "scanning"@, "Bluetooth proximity scanning is active."@)
    } else if k == 1 {
        (
            "qr-pairing"@,
            "next"@,
            "Next adapter: show a pairing code and connection URL for cross-platform pairing."@,
        )
    } else if k == 2 {
        ("auto-hotspot"@, "active"@, "Hotspot is active. Listening for incoming peer requests."@)
    } else if k == 3 {
        ("wifi-direct"@, "scanning"@, "WiFi Direct peer discovery is active."@)
    } else if k == 4 {
        (
            "lan-fallback"@,
            "scanning"@,
            "Fallback UDP broadcast is active for devices already on the same network."@,
        )
    } else {
        (
            "chunked-tcp"@,
            "ready"@,
            "Transfer engine is ready once any discovery/connection adapter returns an IP."@,
        )
    }
}

/// Applies step `k` of starting a direct connection to `plan`, and gives
/// the index of the route it changed.
pub fn direct_connect_step(plan: &mut Vec<TransportOption>, k: usize) -> (found: Option<usize>)
    requires
        k < DIRECT_CONNECT_STEPS,
    ensures
        routes_view(final(plan)@) == update_spec(
            routes_view(old(plan)@),
            direct_connect_step_spec(k as int).0,
            direct_connect_step_spec(k as int).1,
            direct_connect_step_spec(k as int).2,
        ),
        found == match first_with_id(routes_view(old(plan)@), direct_connect_step_spec(k as int).0) {
            Some(i) => Some(i as usize),
            None => None::<usize>,
        },
{
    if k == 0 {
        update(plan, "bluetooth-proximity", "scanning", "Bluetooth proximity scanning is active.")
    } else if k == 1 {
        update(
            plan,
            "qr-pairing",
            "next",
            "Next adapter: show a pairing code and connection URL for cross-platform pairing.",
        )
    } else if k == 2 {
        update(
            plan,
            "auto-hotspot",
            "active",
            "Hotspot is active. Listening for incoming peer requests.",
        )
    } else if k == 3 {
        update(plan, "wifi-direct", "scanning", "WiFi Direct peer discovery is active.")
    } else if k == 4 {
        update(
            plan,
            "lan-fallback",
            "scanning",
            "Fallback UDP broadcast is active for devices already on the same network.",
        )
    } else {
        update(
            plan,
            "chunked-tcp",
            "ready",
            "Transfer engine is ready once any discovery/connection adapter returns an IP.",
        )
    }
}

/// What to tell the user about Bluetooth support on this platform.
pub fn bluetooth_detail(on_windows: bool) -> (s: &'static str)
    ensures
        s@ == if on_windows {
            "Windows Bluetooth adapter integration is next; use it to announce presence, not transfer bulk data."@
        } else {
            "Bluetooth adapter support needs an OS-specific backend for this platform."@
        },
{
    if on_windows {
        "Windows Bluetooth adapter integration is next; use it to announce presence, not transfer bulk data."
    } else {
        "Bluetooth adapter support needs an OS-specific backend for this platform."
    }
}

/// What to tell the user about hotspot support on this platform.
pub fn hotspot_detail(on_windows: bool) -> (s: &'static str)
    ensures
        s@ == if on_windows {
            "Windows hotspot control needs a dedicated adapter and may require user approval or system APIs."@
        } else {
            "Hotspot creation needs Linux/macOS/Android-specific adapters."@
        },
{
    if on_windows {
        "Windows hotspot control needs a dedicated adapter and may require user approval or system APIs."
    } else {
        "Hotspot creation needs Linux/macOS/Android-specific adapters."
    }
}

/// What to tell the user about WiFi Direct support on this platform.
pub fn wifi_direct_detail(on_windows: bool) -> (s: &'static str)
    ensures
        s@ == if on_windows {
            "Windows WiFi Direct support needs a dedicated adapter; fallback LAN remains active for now."@
        } else {
            "WiFi Direct availability varies by platform and needs a platform adapter."@
        },
{
    if on_windows {
        "Windows WiFi Direct support needs a dedicated adapter; fallback LAN remains active for now."
    } else {
        "WiFi Direct availability varies by platform and needs a platform adapter."
    }
}

} // verus!
