//! The HTTP surface: which method and path lead to which endpoint.
use vstd::prelude::*;
use vstd::string::*;

verus! {

/// Bind address of the HTTP server, such as `"0.0.0.0:3000"`.
#[derive(Debug)]
pub struct ServerConfig {
    pub bind: String,
}

/// Method of a route.
#[derive(Debug, Clone, Copy, PartialEq, Eq, Structural)]
pub enum Method {
    Get,
    Post,
}

/// What a device can be asked or told.
#[derive(Debug, Clone, Copy, PartialEq, Eq, Structural)]
pub enum Endpoint {
    GetConfig,
    ResetConfig,
    SetWifi,
    SetTraffic,
    SetCsi,
    SetCsiOutput,
    SetCollectionMode,
    SetOutputMode,
    SetRate,
    SetProtocol,
    SetIoTasks,
    SetCsiDelivery,
    StartCollection,
    StopCollection,
    CollectionStatus,
    Reset,
    ShowStats,
    Info,
    Frames,
}

/// Path of the liveness check.
pub fn root_path() -> (r: &'static str)
    ensures
        r@ == "/"@,
{
    "/"
}

/// Answer of the liveness check.
pub fn root_answer() -> (r: &'static str)
    ensures
        r@ == "CSI Server Active"@,
{
    "CSI Server Active"
}

/// Path of the device list.
pub fn devices_path() -> (r: &'static str)
    ensures
        r@ == "/api/devices"@,
{
    "/api/devices"
}

/// Path below which the endpoints of one device lie.
pub fn device_prefix() -> (r: &'static str)
    ensures
        r@ == "/api/devices/{id}"@,
{
    "/api/devices/{id}"
}

impl Endpoint {
    /// The method by which the endpoint is reached: what only reads is a `GET`.
    pub open spec fn verb(self) -> Method {
        match self {
            Endpoint::GetConfig => Method::Get,
            Endpoint::CollectionStatus => Method::Get,
            Endpoint::Info => Method::Get,
            Endpoint::Frames => Method::Get,
            _ => Method::Post,
        }
    }

    /// The path of the endpoint, below that of its device.
    pub open spec fn route(self) -> Seq<char> {
        match self {
            Endpoint::GetConfig => "/config"@,
            Endpoint::ResetConfig => "/config/reset"@,
            Endpoint::SetWifi => "/config/wifi"@,
            Endpoint::SetTraffic => "/config/traffic"@,
            Endpoint::SetCsi => "/config/csi"@,
            Endpoint::SetCsiOutput => "/config/csi-output"@,
            Endpoint::SetCollectionMode => "/config/collection-mode"@,
            Endpoint::SetOutputMode => "/config/output-mode"@,
            Endpoint::SetRate => "/config/rate"@,
            Endpoint::SetProtocol => "/config/protocol"@,
            Endpoint::SetIoTasks => "/config/io-tasks"@,
            Endpoint::SetCsiDelivery => "/config/csi-delivery"@,
            Endpoint::StartCollection => "/control/start"@,
            Endpoint::StopCollection => "/control/stop"@,
            Endpoint::CollectionStatus => "/control/status"@,
            Endpoint::Reset => "/control/reset"@,
            Endpoint::ShowStats => "/control/stats"@,
            Endpoint::Info => "/info"@,
            Endpoint::Frames => "/ws"@,
        }
    }

    /// The method by which the endpoint is reached.
    pub fn method(self) -> (r: Method)
        ensures
            r == self.verb(),
    {
        match self {
            Endpoint::GetConfig => Method::Get,
            Endpoint::CollectionStatus => Method::Get,
            Endpoint::Info => Method::Get,
            Endpoint::Frames => Method::Get,
            _ => Method::Post,
        }
    }

    /// The path of the endpoint, below that of its device.
    pub fn path(self) -> (r: &'static str)
        ensures
            r@ == self.route(),
    {
        match self {
            Endpoint::GetConfig => "/config",
            Endpoint::ResetConfig => "/config/reset",
            Endpoint::SetWifi => "/config/wifi",
            Endpoint::SetTraffic => "/config/traffic",
            Endpoint::SetCsi => "/config/csi",
            Endpoint::SetCsiOutput => "/config/csi-output",
            Endpoint::SetCollectionMode => "/config/collection-mode",
            Endpoint::SetOutputMode => "/config/output-mode",
            Endpoint::SetRate => "/config/rate",
            Endpoint::SetProtocol => "/config/protocol",
            Endpoint::SetIoTasks => "/config/io-tasks",
            Endpoint::SetCsiDelivery => "/config/csi-delivery",
            Endpoint::StartCollection => "/control/start",
            Endpoint::StopCollection => "/control/stop",
            Endpoint::CollectionStatus => "/control/status",
            Endpoint::Reset => "/control/reset",
            Endpoint::ShowStats => "/control/stats",
            Endpoint::Info => "/info",
            Endpoint::Frames => "/ws",
        }
    }

    /// Every endpoint of a device.
    pub fn all() -> (r: Vec<Endpoint>)
        ensures
            forall|e: Endpoint| r@.contains(e),
            r@.no_duplicates(),
    {
        let r = vec![
            Endpoint::GetConfig,
            Endpoint::ResetConfig,
            Endpoint::SetWifi,
            Endpoint::SetTraffic,
            Endpoint::SetCsi,
            Endpoint::SetCsiOutput,
            Endpoint::SetCollectionMode,
            Endpoint::SetOutputMode,
            Endpoint::SetRate,
            Endpoint::SetProtocol,
            Endpoint::SetIoTasks,
            Endpoint::SetCsiDelivery,
            Endpoint::StartCollection,
            Endpoint::StopCollection,
            Endpoint::CollectionStatus,
            Endpoint::Reset,
            Endpoint::ShowStats,
            Endpoint::Info,
            Endpoint::Frames,
        ];
        proof {
            lemma_ranks(r@);
        }
        r
    }
}

/// The position of an endpoint in the list of all.
spec fn rank(e: Endpoint) -> int {
    match e {
        Endpoint::GetConfig => 0,
        Endpoint::ResetConfig => 1,
        Endpoint::SetWifi => 2,
        Endpoint::SetTraffic => 3,
        Endpoint::SetCsi => 4,
        Endpoint::SetCsiOutput => 5,
        Endpoint::SetCollectionMode => 6,
        Endpoint::SetOutputMode => 7,
        Endpoint::SetRate => 8,
        Endpoint::SetProtocol => 9,
        Endpoint::SetIoTasks => 10,
        Endpoint::SetCsiDelivery => 11,
        Endpoint::StartCollection => 12,
        Endpoint::StopCollection => 13,
        Endpoint::CollectionStatus => 14,
        Endpoint::Reset => 15,
        Endpoint::ShowStats => 16,
        Endpoint::Info => 17,
        Endpoint::Frames => 18,
    }
}

proof fn lemma_ranks(all: Seq<Endpoint>)
    requires
        all.len() == 19,
        forall|i: int| 0 <= i < 19 ==> rank(#[trigger] all[i]) == i,
    ensures
        forall|e: Endpoint| all.contains(e),
        all.no_duplicates(),
{
    assert forall|e: Endpoint| all.contains(e) by {
        assert(rank(all[rank(e)]) == rank(e));
        assert(all[rank(e)] == e);
    }
    assert forall|i: int, j: int| 0 <= i < j < all.len() implies all[i] != all[j] by {
        assert(rank(all[i]) != rank(all[j]));
    }
}

// ─── Laws ─────────────────────────────────────────────────────────────────

/// No two endpoints share a path: a router can hold all of them.
pub proof fn law_routes_are_distinct(a: Endpoint, b: Endpoint)
    requires
        a != b,
    ensures
        a.route() != b.route(),
{
    reveal_strlit("/config");
    reveal_strlit("/config/reset");
    reveal_strlit("/config/wifi");
    reveal_strlit("/config/traffic");
    reveal_strlit("/config/csi");
    reveal_strlit("/config/csi-output");
    reveal_strlit("/config/collection-mode");
    reveal_strlit("/config/output-mode");
    reveal_strlit("/config/rate");
    reveal_strlit("/config/protocol");
    reveal_strlit("/config/io-tasks");
    reveal_strlit("/config/csi-delivery");
    reveal_strlit("/control/start");
    reveal_strlit("/control/stop");
    reveal_strlit("/control/status");
    reveal_strlit("/control/reset");
    reveal_strlit("/control/stats");
    reveal_strlit("/info");
    reveal_strlit("/ws");
    let x = a.route();
    let y = b.route();
    if x == y {
        assert(x.len() == y.len());
        assert(x[8] == y[8]);
        assert(x[9] == y[9]);
        assert(x[11] == y[11]);
        assert(x[12] == y[12]);
        assert(x[13] == y[13]);
    }
}

/// Settings lie under `/config`, what drives a run under `/control`; what only reads is a
/// `GET`, and whatever changes something a `POST`.
pub proof fn law_endpoints_are_grouped(e: Endpoint, method: Method, path: &'static str)
    requires
        call_ensures(Endpoint::method, (e,), method),
        call_ensures(Endpoint::path, (e,), path),
    ensures
        method == Method::Get <==> e == Endpoint::GetConfig || e == Endpoint::CollectionStatus || e
            == Endpoint::Info || e == Endpoint::Frames,
        e == Endpoint::StartCollection || e == Endpoint::StopCollection || e
            == Endpoint::CollectionStatus || e == Endpoint::Reset || e == Endpoint::ShowStats
            ==> path@.len() > 9 && path@.take(9) == "/control/"@,
        e == Endpoint::ResetConfig || e == Endpoint::SetWifi || e == Endpoint::SetTraffic || e
            == Endpoint::SetCsi || e == Endpoint::SetCsiOutput || e == Endpoint::SetCollectionMode
            || e == Endpoint::SetOutputMode || e == Endpoint::SetRate || e == Endpoint::SetProtocol
            || e == Endpoint::SetIoTasks || e == Endpoint::SetCsiDelivery ==> path@.len() > 8
            && path@.take(8) == "/config/"@,
        e == Endpoint::GetConfig ==> path@ == "/config"@,
        e == Endpoint::Info ==> path@ == "/info"@,
        e == Endpoint::Frames ==> path@ == "/ws"@,
{
    reveal_strlit("/config/");
    reveal_strlit("/control/");
    reveal_strlit("/config/reset");
    reveal_strlit("/config/wifi");
    reveal_strlit("/config/traffic");
    reveal_strlit("/config/csi");
    reveal_strlit("/config/csi-output");
    reveal_strlit("/config/collection-mode");
    reveal_strlit("/config/output-mode");
    reveal_strlit("/config/rate");
    reveal_strlit("/config/protocol");
    reveal_strlit("/config/io-tasks");
    reveal_strlit("/config/csi-delivery");
    reveal_strlit("/control/start");
    reveal_strlit("/control/stop");
    reveal_strlit("/control/status");
    reveal_strlit("/control/reset");
    reveal_strlit("/control/stats");
    match e {
        Endpoint::StartCollection | Endpoint::StopCollection | Endpoint::CollectionStatus
        | Endpoint::Reset | Endpoint::ShowStats => {
            assert(path@.take(9) =~= "/control/"@);
        },
        Endpoint::GetConfig | Endpoint::Info | Endpoint::Frames => {},
        _ => {
            assert(path@.take(8) =~= "/config/"@);
        },
    }
}

} // verus!
