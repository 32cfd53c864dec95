//! The attached devices and the state that request handlers share.
//!
//! A [`DeviceHandle`] stands for one attached board; a [`DeviceRegistry`] maps stable
//! device ids to handles; an [`AppState`] is what handlers receive. What only the
//! running server needs of a device (its channels and the like) is the type parameter
//! `R`; the capability profile is `P`.
use crate::models::device::ApiResponse;
use crate::profile::{CsiProfile, StandardCsiProfile};
use crate::serial::link::ConnectionExit;
use crate::serial::status::DeviceStatusView;
use crate::str_map;
use crate::str_map::StrMap;
use crate::text;
use std::sync::atomic::{AtomicBool, AtomicU32, Ordering};
use std::sync::Arc;
use tokio_util::sync::CancellationToken;
use vstd::prelude::*;
use vstd::string::*;

verus! {

/// `tokio_util::sync::CancellationToken`: a switch that stops a task, thrown once.
#[verifier::external_type_specification]
#[verifier::external_body]
pub struct ExCancellationToken(CancellationToken);

/// `CancellationToken::new` makes a token that is not cancelled. Nothing is claimed of
/// the token, whose state can change behind a shared reference; the contracts that
/// speak of this function say that it was called.
pub assume_specification[ CancellationToken::new ]() -> CancellationToken
;

/// `CancellationToken::cancel` cancels the token, which wakes whoever waits for it.
/// Nothing is claimed of the token, for the same reason; the contracts that speak of
/// this function say that it was called, and on which token.
pub assume_specification[ CancellationToken::cancel ](token: &CancellationToken)
;

// ─── One device ───────────────────────────────────────────────────────────

/// How to attach one device.
#[derive(Debug, Clone)]
pub struct DeviceAttachSpec {
    /// Stable identifier, used in URL paths.
    pub id: String,
    /// Serial port of the device.
    pub port_path: String,
    /// Baud rate of the port.
    pub baud_rate: u32,
    /// The port is an Espressif native USB endpoint.
    pub native_usb: bool,
    /// Hardware address, from the USB serial number.
    pub mac: Option<String>,
    /// Recovery attempts carried over from an earlier handle of the same board.
    pub recovery_cycles: u32,
    /// Fault carried over from an earlier handle of the same board.
    pub fault: Option<String>,
}

/// The mathematical form of a [`DeviceAttachSpec`].
pub struct DeviceAttachSpecView {
    pub id: Seq<char>,
    pub port_path: Seq<char>,
    pub baud_rate: u32,
    pub native_usb: bool,
    pub mac: Option<Seq<char>>,
    pub recovery_cycles: u32,
    pub fault: Option<Seq<char>>,
}

impl View for DeviceAttachSpec {
    type V = DeviceAttachSpecView;

    open spec fn view(&self) -> DeviceAttachSpecView {
        DeviceAttachSpecView {
            id: self.id@,
            port_path: self.port_path@,
            baud_rate: self.baud_rate,
            native_usb: self.native_usb,
            mac: text::opt(self.mac),
            recovery_cycles: self.recovery_cycles,
            fault: text::opt(self.fault),
        }
    }
}

impl Default for DeviceAttachSpec {
    /// An unnamed device on a UART bridge at the usual baud rate, with nothing carried
    /// over.
    fn default() -> (r: Self)
        ensures
            r@ == (DeviceAttachSpecView {
                id: Seq::empty(),
                port_path: Seq::empty(),
                baud_rate: 115_200,
                native_usb: false,
                mac: None,
                recovery_cycles: 0,
                fault: None,
            }),
    {
        DeviceAttachSpec {
            id: String::new(),
            port_path: String::new(),
            baud_rate: 115_200,
            native_usb: false,
            mac: None,
            recovery_cycles: 0,
            fault: None,
        }
    }
}

/// One attached device, shared between its serial task and the request handlers.
///
/// The flags are atomics: what they hold is up to the tasks that share them.
pub struct DeviceHandle<R, P: ?Sized> {
    /// Stable identifier, used in URL paths.
    pub id: String,
    /// Hardware address, from the USB serial number; `None` for adapters without one.
    pub mac: Option<String>,
    /// Serial port of the device, for the lifetime of the handle.
    pub port_path: String,
    /// Baud rate of the port.
    pub baud_rate: u32,
    /// The port is an Espressif native USB endpoint.
    pub native_usb: bool,
    /// The serial task has an open and healthy link.
    pub serial_connected: AtomicBool,
    /// A collection was started and not stopped since.
    pub collection_running: AtomicBool,
    /// The device has identified itself.
    pub firmware_verified: AtomicBool,
    /// Recovery attempts since the last successful verification.
    pub recovery_cycles: AtomicU32,
    /// Cancelled when the device is gone: the serial task then ends.
    pub shutdown: CancellationToken,
    /// Capability extensions, those of the registry.
    pub profile: Arc<P>,
    /// What the running server keeps of the device.
    pub runtime: R,
}

/// The message for a command to a device that has not identified itself.
pub open spec fn unverified_message() -> Seq<char> {
    "Firmware not verified as esp-csi-cli-rs. Call GET .../info to verify, or POST .../control/reset to power-cycle and re-check."@
}

/// HTTP status of a refused command: 412, Precondition Failed.
pub const PRECONDITION_FAILED: u16 = 412;

/// What a command is answered while the device is `verified` or not: nothing once it
/// is, else a refusal. An unverified device may run anything, and must not be sent
/// commands.
pub open spec fn gate(verified: bool, answer: Option<(u16, ApiResponse)>) -> bool {
    match answer {
        None => verified,
        Some(refusal) => {
            &&& !verified
            &&& refusal.0 == PRECONDITION_FAILED
            &&& !refusal.1.success
            &&& refusal.1.message@ == unverified_message()
        },
    }
}

/// The early answer to a command, if the device is not `verified`.
pub fn firmware_gate(verified: bool) -> (r: Option<(u16, ApiResponse)>)
    ensures
        gate(verified, r),
{
    if verified {
        None
    } else {
        Some(
            (
                PRECONDITION_FAILED,
                ApiResponse {
                    success: false,
                    message: "Firmware not verified as esp-csi-cli-rs. Call GET .../info to verify, or POST .../control/reset to power-cycle and re-check.".to_string(),
                },
            ),
        )
    }
}

impl<R, P: ?Sized> DeviceHandle<R, P> {
    /// The handle stands for the device that `spec` describes.
    pub open spec fn describes(&self, spec: DeviceAttachSpecView) -> bool {
        &&& self.id@ == spec.id
        &&& text::opt(self.mac) == spec.mac
        &&& self.port_path@ == spec.port_path
        &&& self.baud_rate == spec.baud_rate
        &&& self.native_usb == spec.native_usb
    }

    /// The handle is in its first state, that of a device that has just been attached:
    /// its flags were made as lowered, its recovery attempts as those that `spec` carries
    /// over, and its token as a new one.
    pub open spec fn starts_from(&self, spec: DeviceAttachSpecView) -> bool {
        let status = DeviceStatusView::attached(spec.fault, spec.recovery_cycles);
        &&& call_ensures(AtomicBool::new, (status.serial_connected,), self.serial_connected)
        &&& call_ensures(AtomicBool::new, (status.collection_running,), self.collection_running)
        &&& call_ensures(AtomicBool::new, (status.firmware_verified,), self.firmware_verified)
        &&& call_ensures(AtomicU32::new, (status.recovery_cycles,), self.recovery_cycles)
        &&& call_ensures(CancellationToken::new, (), self.shutdown)
    }

    /// The handle of a device that is about to be attached. Its flags are down, and its
    /// recovery attempts are those that are carried over.
    pub fn new(spec: &DeviceAttachSpec, profile: Arc<P>, runtime: R) -> (r: Self)
        ensures
            r.describes(spec@),
            r.starts_from(spec@),
            r.profile == profile,
            r.runtime == runtime,
    {
        DeviceHandle {
            id: spec.id.clone(),
            mac: spec.mac.clone(),
            port_path: spec.port_path.clone(),
            baud_rate: spec.baud_rate,
            native_usb: spec.native_usb,
            serial_connected: AtomicBool::new(false),
            collection_running: AtomicBool::new(false),
            firmware_verified: AtomicBool::new(false),
            recovery_cycles: AtomicU32::new(spec.recovery_cycles),
            shutdown: CancellationToken::new(),
            profile,
            runtime,
        }
    }

    /// The port that the serial task opens next, after a connection that ended by `exit`:
    /// the same one, and only where the link was lost. Ports are not detected anew, so
    /// that no two tasks contend for one.
    pub fn port_after(&self, exit: ConnectionExit) -> (r: Option<&str>)
        ensures
            match r {
                Some(path) => exit is Disconnected && path@ == self.port_path@,
                None => !(exit is Disconnected),
            },
    {
        if exit.reconnects() {
            Some(self.port_path.as_str())
        } else {
            None
        }
    }

    /// The early answer to a command, if the device has not identified itself.
    pub fn require_firmware(&self) -> (r: Option<(u16, ApiResponse)>)
        ensures
            exists|verified: bool|
                call_ensures(
                    AtomicBool::load,
                    (&self.firmware_verified, Ordering::SeqCst),
                    verified,
                ) && #[trigger] gate(verified, r),
    {
        let verified = self.firmware_verified.load(Ordering::SeqCst);
        let r = firmware_gate(verified);
        assert(gate(verified, r));
        r
    }
}

// ─── The registry ─────────────────────────────────────────────────────────

/// The attached devices by id.
pub struct DeviceRegistry<R, P: ?Sized> {
    map: StrMap<Arc<DeviceHandle<R, P>>>,
    profile: Arc<P>,
}

/// Every handle stands under its own id.
pub open spec fn keyed_by_id<R, P: ?Sized>(map: Map<Seq<char>, Arc<DeviceHandle<R, P>>>) -> bool {
    forall|id: Seq<char>| #[trigger] map.dom().contains(id) ==> map[id].id@ == id
}

impl<R, P: ?Sized> View for DeviceRegistry<R, P> {
    type V = Map<Seq<char>, Arc<DeviceHandle<R, P>>>;

    closed spec fn view(&self) -> Map<Seq<char>, Arc<DeviceHandle<R, P>>> {
        self.map@
    }
}

impl<R> Default for DeviceRegistry<R, StandardCsiProfile> {
    /// An empty registry with the standard profile.
    fn default() -> (r: Self)
        ensures
            r@ == Map::<Seq<char>, Arc<DeviceHandle<R, StandardCsiProfile>>>::empty(),
            r.wf(),
    {
        DeviceRegistry { map: StrMap::new(), profile: Arc::new(StandardCsiProfile) }
    }
}

impl<R, P: ?Sized> DeviceRegistry<R, P> {
    /// The invariant: every handle stands under its own id.
    #[verifier::type_invariant]
    pub open spec fn wf(&self) -> bool {
        keyed_by_id(self@)
    }

    /// The capability profile of every device that is attached here.
    pub closed spec fn shared_profile(&self) -> Arc<P> {
        self.profile
    }

    /// The handles in the order in which they are listed.
    pub closed spec fn listed(&self) -> Seq<(Seq<char>, Arc<DeviceHandle<R, P>>)> {
        self.map.listing()
    }

    /// An empty registry whose devices get `profile`.
    pub fn with_profile(profile: Arc<P>) -> (r: Self)
        ensures
            r@ == Map::<Seq<char>, Arc<DeviceHandle<R, P>>>::empty(),
            r.wf(),
            r.shared_profile() == profile,
    {
        DeviceRegistry { map: StrMap::new(), profile }
    }

    /// The device with this id.
    pub fn get(&self, id: &str) -> (r: Option<Arc<DeviceHandle<R, P>>>)
        ensures
            match r {
                Some(dev) => self@.dom().contains(id@) && self@[id@] == dev,
                None => !self@.dom().contains(id@),
            },
    {
        match self.map.get(id) {
            Some(dev) => Some(dev.clone()),
            None => None,
        }
    }

    /// Store a device under its id, and hand back the device that it replaces.
    pub fn insert(&mut self, dev: Arc<DeviceHandle<R, P>>) -> (r: Option<Arc<DeviceHandle<R, P>>>)
        ensures
            final(self).wf(),
            final(self)@ == old(self)@.insert(dev.id@, dev),
            final(self).shared_profile() == old(self).shared_profile(),
            match r {
                Some(before) => old(self)@.dom().contains(dev.id@) && old(self)@[dev.id@]
                    == before,
                None => !old(self)@.dom().contains(dev.id@),
            },
    {
        proof {
            use_type_invariant(&*self);
        }
        let id = dev.id.clone();
        let mut map: StrMap<Arc<DeviceHandle<R, P>>> = StrMap::new();
        std::mem::swap(&mut map, &mut self.map);
        let before = map.insert(id, dev);
        self.map = map;
        before
    }

    /// Remove the device with this id, and hand it back.
    pub fn remove(&mut self, id: &str) -> (r: Option<Arc<DeviceHandle<R, P>>>)
        ensures
            final(self).wf(),
            final(self)@ == old(self)@.remove(id@),
            final(self).shared_profile() == old(self).shared_profile(),
            match r {
                Some(dev) => old(self)@.dom().contains(id@) && old(self)@[id@] == dev,
                None => !old(self)@.dom().contains(id@),
            },
    {
        proof {
            use_type_invariant(&*self);
        }
        let mut map: StrMap<Arc<DeviceHandle<R, P>>> = StrMap::new();
        std::mem::swap(&mut map, &mut self.map);
        let dev = map.remove(id);
        self.map = map;
        dev
    }

    /// The capability profile of every device that is attached here.
    pub fn profile(&self) -> (r: &Arc<P>)
        ensures
            *r == self.shared_profile(),
    {
        &self.profile
    }

    /// All devices, in ascending order of their ids.
    pub fn snapshot(&self) -> (r: Vec<Arc<DeviceHandle<R, P>>>)
        ensures
            self.wf(),
            str_map::keys_ascend(self.listed()),
            str_map::map_of(self.listed()) == self@,
            r@ == self.listed().map_values(|e: (Seq<char>, Arc<DeviceHandle<R, P>>)| e.1),
    {
        proof {
            use_type_invariant(self);
            use_type_invariant(&self.map);
        }
        let mut devices: Vec<Arc<DeviceHandle<R, P>>> = Vec::new();
        let n = self.map.len();
        let mut i: usize = 0;
        while i < n
            invariant
                n == self.listed().len(),
                i <= n,
                devices@.len() == i,
                forall|j: int| 0 <= j < i ==> #[trigger] devices@[j] == self.listed()[j].1,
            decreases n - i,
        {
            devices.push(self.map.value(i).clone());
            i += 1;
        }
        assert(devices@ =~= self.listed().map_values(
            |e: (Seq<char>, Arc<DeviceHandle<R, P>>)| e.1,
        ));
        devices
    }

    /// Make a handle for `spec` with this registry's profile, and store it. What the
    /// running server keeps of the device is what `runtime_for` makes of `spec`, the
    /// carried-over fault included. The caller starts the serial task.
    pub fn attach<F: FnOnce(&DeviceAttachSpec) -> R>(
        &mut self,
        spec: DeviceAttachSpec,
        runtime_for: F,
    ) -> (r: Arc<DeviceHandle<R, P>>)
        requires
            call_requires(runtime_for, (&spec,)),
        ensures
            final(self).wf(),
            r.describes(spec@),
            r.starts_from(spec@),
            r.profile == old(self).shared_profile(),
            call_ensures(runtime_for, (&spec,), r.runtime),
            final(self)@ == old(self)@.insert(spec@.id, r),
            final(self).shared_profile() == old(self).shared_profile(),
    {
        let runtime = runtime_for(&spec);
        let handle = Arc::new(DeviceHandle::new(&spec, self.profile.clone(), runtime));
        self.insert(handle.clone());
        handle
    }

    /// Remove the device with this id, cancel its serial task, and hand it back.
    pub fn detach(&mut self, id: &str) -> (r: Option<Arc<DeviceHandle<R, P>>>)
        ensures
            final(self).wf(),
            final(self)@ == old(self)@.remove(id@),
            final(self).shared_profile() == old(self).shared_profile(),
            match r {
                Some(dev) => {
                    &&& old(self)@.dom().contains(id@)
                    &&& old(self)@[id@] == dev
                    &&& call_ensures(CancellationToken::cancel, (&dev.shutdown,), ())
                },
                None => !old(self)@.dom().contains(id@),
            },
    {
        match self.remove(id) {
            Some(handle) => {
                handle.shutdown.cancel();
                Some(handle)
            },
            None => None,
        }
    }
}

// ─── The shared state ─────────────────────────────────────────────────────

/// What request handlers share: the device registry.
pub struct AppState<R, P: ?Sized> {
    pub devices: DeviceRegistry<R, P>,
}

impl<R> AppState<R, StandardCsiProfile> {
    /// No devices, and the standard profile.
    pub fn new() -> (r: Self)
        ensures
            r.devices@ == Map::<Seq<char>, Arc<DeviceHandle<R, StandardCsiProfile>>>::empty(),
            r.devices.wf(),
    {
        AppState { devices: DeviceRegistry::default() }
    }
}

impl<R> Default for AppState<R, StandardCsiProfile> {
    /// No devices, and the standard profile.
    fn default() -> (r: Self)
        ensures
            r.devices@ == Map::<Seq<char>, Arc<DeviceHandle<R, StandardCsiProfile>>>::empty(),
            r.devices.wf(),
    {
        Self::new()
    }
}

impl<R, P: CsiProfile + ?Sized> AppState<R, P> {
    /// No devices, and a profile of the embedder's own.
    pub fn with_profile(profile: Arc<P>) -> (r: Self)
        ensures
            r.devices@ == Map::<Seq<char>, Arc<DeviceHandle<R, P>>>::empty(),
            r.devices.wf(),
            r.devices.shared_profile() == profile,
    {
        AppState { devices: DeviceRegistry::with_profile(profile) }
    }

    /// The capability profile of the devices.
    pub fn profile(&self) -> (r: &Arc<P>)
        ensures
            *r == self.devices.shared_profile(),
    {
        self.devices.profile()
    }
}

// ─── Laws ─────────────────────────────────────────────────────────────────

/// A device that was attached is found under its id, and no other device is affected;
/// once detached it is not found any more.
pub proof fn law_attached_is_found<R, P: ?Sized>(
    before: Map<Seq<char>, Arc<DeviceHandle<R, P>>>,
    dev: Arc<DeviceHandle<R, P>>,
    id: Seq<char>,
)
    ensures
        before.insert(dev.id@, dev).dom().contains(dev.id@),
        before.insert(dev.id@, dev)[dev.id@] == dev,
        id != dev.id@ ==> before.insert(dev.id@, dev).dom().contains(id) == before.dom().contains(
            id,
        ) && (before.dom().contains(id) ==> before.insert(dev.id@, dev)[id] == before[id]),
        !before.insert(dev.id@, dev).remove(dev.id@).dom().contains(dev.id@),
        !before.dom().contains(dev.id@) ==> before.insert(dev.id@, dev).remove(dev.id@) == before,
{
    if !before.dom().contains(dev.id@) {
        assert(before.insert(dev.id@, dev).remove(dev.id@) =~= before);
    }
}

/// A snapshot lists every device exactly once, in ascending order of the ids, so that
/// listings are stable.
pub proof fn law_snapshot_is_sorted<R, P: ?Sized>(
    listed: Seq<(Seq<char>, Arc<DeviceHandle<R, P>>)>,
    i: int,
    j: int,
)
    requires
        str_map::keys_ascend(listed),
        keyed_by_id(str_map::map_of(listed)),
        0 <= i < j < listed.len(),
    ensures
        text::lex_lt(listed[i].1.id@, listed[j].1.id@),
        listed[i].1.id@ != listed[j].1.id@,
        str_map::map_of(listed)[listed[i].1.id@] == listed[i].1,
{
    str_map::lemma_lookup(listed, i);
    str_map::lemma_lookup(listed, j);
    text::lemma_lex_irreflexive(listed[i].0);
}

/// A handle is made as it is specified, field by field, with lowered flags, the recovery
/// attempts that are carried over, and a token of its own.
pub proof fn law_handle_is_as_specified<R, P: ?Sized>(
    spec: DeviceAttachSpec,
    profile: Arc<P>,
    runtime: R,
    dev: DeviceHandle<R, P>,
)
    requires
        call_ensures(DeviceHandle::<R, P>::new, (&spec, profile, runtime), dev),
    ensures
        dev.id@ == spec.id@,
        dev.port_path@ == spec.port_path@,
        dev.baud_rate == spec.baud_rate,
        dev.native_usb == spec.native_usb,
        dev.mac is Some == spec.mac is Some,
        spec.mac is Some ==> dev.mac->0@ == spec.mac->0@,
        dev.profile == profile,
        dev.runtime == runtime,
        call_ensures(AtomicBool::new, (false,), dev.serial_connected),
        call_ensures(AtomicBool::new, (false,), dev.collection_running),
        call_ensures(AtomicBool::new, (false,), dev.firmware_verified),
        call_ensures(AtomicU32::new, (spec.recovery_cycles,), dev.recovery_cycles),
        call_ensures(CancellationToken::new, (), dev.shutdown),
{
}

/// To attach a device is to make its handle as specified, with the registry's profile, and to
/// store it under its id; the other devices stay.
pub proof fn law_attach_stores_the_handle<R, P: ?Sized, F: FnOnce(&DeviceAttachSpec) -> R>(
    registry: &mut DeviceRegistry<R, P>,
    spec: DeviceAttachSpec,
    runtime_for: F,
    dev: Arc<DeviceHandle<R, P>>,
    id: Seq<char>,
)
    requires
        call_ensures(DeviceRegistry::<R, P>::attach::<F>, (registry, spec, runtime_for), dev),
    ensures
        dev.id@ == spec.id@,
        dev.port_path@ == spec.port_path@,
        dev.baud_rate == spec.baud_rate,
        dev.native_usb == spec.native_usb,
        text::opt(dev.mac) == text::opt(spec.mac),
        call_ensures(AtomicU32::new, (spec.recovery_cycles,), dev.recovery_cycles),
        dev.profile == old(registry).shared_profile(),
        call_ensures(runtime_for, (&spec,), dev.runtime),
        final(registry)@.dom().contains(spec.id@),
        final(registry)@[spec.id@] == dev,
        id != spec.id@ ==> final(registry)@.dom().contains(id) == old(registry)@.dom().contains(id),
        id != spec.id@ && old(registry)@.dom().contains(id) ==> final(registry)@[id]
            == old(registry)@[id],
        final(registry).shared_profile() == old(registry).shared_profile(),
{
}

/// What was inserted is found under its id, and what was there before is handed back; no
/// other device is affected.
pub proof fn law_inserted_is_found<R, P: ?Sized>(
    registry: &mut DeviceRegistry<R, P>,
    dev: Arc<DeviceHandle<R, P>>,
    replaced: Option<Arc<DeviceHandle<R, P>>>,
    id: &str,
    earlier: Option<Arc<DeviceHandle<R, P>>>,
    later: Option<Arc<DeviceHandle<R, P>>>,
)
    requires
        call_ensures(DeviceRegistry::<R, P>::insert, (registry, dev), replaced),
        call_ensures(DeviceRegistry::<R, P>::get, (&*old(registry), id), earlier),
        call_ensures(DeviceRegistry::<R, P>::get, (&*final(registry), id), later),
    ensures
        id@ == dev.id@ ==> later == Some(dev) && replaced == earlier,
        id@ != dev.id@ ==> later == earlier,
{
}

/// What was removed is not found any more and is handed back; no other device is affected.
/// To detach is to remove and to stop the serial task of the device.
pub proof fn law_removed_is_not_found<R, P: ?Sized>(
    registry: &mut DeviceRegistry<R, P>,
    id: &str,
    r: Option<Arc<DeviceHandle<R, P>>>,
    other: &str,
    earlier: Option<Arc<DeviceHandle<R, P>>>,
    later: Option<Arc<DeviceHandle<R, P>>>,
)
    requires
        call_ensures(DeviceRegistry::<R, P>::remove, (registry, id), r) || call_ensures(
            DeviceRegistry::<R, P>::detach,
            (registry, id),
            r,
        ),
        call_ensures(DeviceRegistry::<R, P>::get, (&*old(registry), other), earlier),
        call_ensures(DeviceRegistry::<R, P>::get, (&*final(registry), other), later),
    ensures
        other@ == id@ ==> later is None && r == earlier,
        other@ != id@ ==> later == earlier,
        call_ensures(DeviceRegistry::<R, P>::detach, (registry, id), r) && r is Some
            ==> call_ensures(CancellationToken::cancel, (&r->0.shutdown,), ()),
{
}

/// A snapshot holds a device exactly if it is found under its id, and is in ascending order.
pub proof fn law_snapshot_is_the_registry<R, P: ?Sized>(
    registry: DeviceRegistry<R, P>,
    r: Vec<Arc<DeviceHandle<R, P>>>,
    id: &str,
    dev: Option<Arc<DeviceHandle<R, P>>>,
    i: int,
    j: int,
)
    requires
        call_ensures(DeviceRegistry::<R, P>::snapshot, (&registry,), r),
        call_ensures(DeviceRegistry::<R, P>::get, (&registry, id), dev),
    ensures
        dev is Some ==> dev->0.id@ == id@ && exists|k: int|
            0 <= k < r@.len() && #[trigger] r@[k] == dev->0,
        dev is None && 0 <= i < r@.len() ==> r@[i].id@ != id@,
        0 <= i < j < r@.len() ==> text::lex_lt(r@[i].id@, r@[j].id@),
{
    let listed = registry.listed();
    if 0 <= i < j < r@.len() {
        law_snapshot_is_sorted(listed, i, j);
        assert(r@[i] == listed[i].1 && r@[j] == listed[j].1);
    }
    if dev is Some {
        let k = choose|k: int| str_map::key_at(listed, id@, k);
        str_map::lemma_lookup(listed, k);
        assert(r@[k] == listed[k].1);
    }
    if dev is None && 0 <= i < r@.len() {
        str_map::lemma_lookup(listed, i);
        assert(r@[i] == listed[i].1);
        assert(registry@.dom().contains(listed[i].0));
    }
}

/// A fresh registry has no devices, and the profile that it was given.
pub proof fn law_fresh_state_is_empty<R, P: CsiProfile>(
    profile: Arc<P>,
    registry: DeviceRegistry<R, P>,
    state: AppState<R, P>,
    shared: &Arc<P>,
    id: Seq<char>,
)
    requires
        call_ensures(DeviceRegistry::<R, P>::with_profile, (profile,), registry),
        call_ensures(AppState::<R, P>::with_profile, (profile,), state),
        call_ensures(AppState::<R, P>::profile, (&state,), shared),
    ensures
        !registry@.dom().contains(id),
        !state.devices@.dom().contains(id),
        registry.shared_profile() == profile,
        *shared == profile,
{
}

/// A command is let through exactly if the device has identified itself; else it is refused
/// with 412 and the advice to verify.
pub proof fn law_commands_ask_for_the_firmware(verified: bool, r: Option<(u16, ApiResponse)>)
    requires
        call_ensures(firmware_gate, (verified,), r),
    ensures
        r is None <==> verified,
        r is Some ==> (r->0).0 == 412 && !(r->0).1.success && (r->0).1.message@
            == "Firmware not verified as esp-csi-cli-rs. Call GET .../info to verify, or POST .../control/reset to power-cycle and re-check."@,
{
}

/// Whether a handle lets commands through goes by its own flag.
pub proof fn law_handle_goes_by_its_flag<R, P: ?Sized>(
    dev: DeviceHandle<R, P>,
    r: Option<(u16, ApiResponse)>,
)
    requires
        call_ensures(DeviceHandle::<R, P>::require_firmware, (&dev,), r),
    ensures
        exists|verified: bool| #[trigger]
            call_ensures(AtomicBool::load, (&dev.firmware_verified, Ordering::SeqCst), verified) && (
            r is None <==> verified),
{
    let verified = choose|verified: bool|
        call_ensures(AtomicBool::load, (&dev.firmware_verified, Ordering::SeqCst), verified)
            && #[trigger] gate(verified, r);
    assert(call_ensures(AtomicBool::load, (&dev.firmware_verified, Ordering::SeqCst), verified));
}

/// A lost link is opened again on the port of the handle, and on no other; after any other
/// exit none is opened.
pub proof fn law_same_port_is_opened_again<R, P: ?Sized>(
    dev: DeviceHandle<R, P>,
    exit: ConnectionExit,
    r: Option<&str>,
)
    requires
        call_ensures(DeviceHandle::<R, P>::port_after, (&dev, exit), r),
    ensures
        r is Some <==> exit is Disconnected,
        r is Some ==> r->0@ == dev.port_path@,
{
}

} // verus!
