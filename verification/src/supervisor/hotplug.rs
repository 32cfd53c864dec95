//! What a scan of the ports means for the attached devices: which ones are new, which
//! ones moved to another port, and which ones are gone.
//!
//! The caller scans, waits and starts the serial tasks. For every candidate it asks
//! [`Supervisor::sight`], and after the last one it calls [`Supervisor::sweep`].
use crate::serial::exchange::InfoExchangeErrorView;
use crate::serial::link;
use crate::serial::recovery;
use crate::serial::recovery::{RecoveryLadder, Rung};
use crate::serial::status::DeviceStatusView;
use crate::state::{DeviceAttachSpec, DeviceAttachSpecView, DeviceHandle, DeviceRegistry};
use crate::str_map;
use crate::str_map::StrMap;
use crate::supervisor::ports;
use crate::supervisor::ports::{
    device_id, scan_ports, PortCandidate, PortCandidateView, SerialPort,
};
use crate::text;
use std::sync::atomic::{AtomicU32, Ordering};
use std::sync::Arc;
use std::time::Duration;
use tokio_util::sync::CancellationToken;
use vstd::prelude::*;

verus! {

/// Configuration of the supervisor.
#[derive(Debug)]
pub struct SupervisorConfig {
    /// Baud rate of the devices.
    pub baud_rate: u32,
    /// How often the ports are scanned.
    pub scan_interval: Duration,
    /// Device names, each with the port path or MAC that it stands for.
    pub aliases: Vec<(String, String)>,
}

/// What outlives a handle when its board comes back on another port. Recovery itself
/// makes boards re-enumerate, so its bounds and any declared fault must survive.
#[derive(Debug)]
pub struct RecoveryCarryOver {
    pub recovery_cycles: u32,
    pub fault: Option<String>,
}

impl Default for RecoveryCarryOver {
    /// Nothing to carry over.
    fn default() -> (r: Self)
        ensures
            r.recovery_cycles == 0,
            r.fault is None,
    {
        RecoveryCarryOver { recovery_cycles: 0, fault: None }
    }
}

impl RecoveryCarryOver {
    /// What to carry over from a handle that is about to be replaced. The fault stands
    /// behind a lock of the running server, and is handed in.
    pub fn from_handle<R, P: ?Sized>(dev: &DeviceHandle<R, P>, fault: Option<String>) -> (r: Self)
        ensures
            call_ensures(
                AtomicU32::load,
                (&dev.recovery_cycles, Ordering::SeqCst),
                r.recovery_cycles,
            ),
            r.fault == fault,
    {
        RecoveryCarryOver { recovery_cycles: dev.recovery_cycles.load(Ordering::SeqCst), fault }
    }
}

/// How a candidate relates to the attached devices.
pub enum Sighting<R, P: ?Sized> {
    /// No device has its id: attach one.
    New,
    /// This device has its id, but on another port: follow it there.
    Moved(Arc<DeviceHandle<R, P>>),
    /// The device is attached on this port.
    Known,
}

/// After how many scans in a row without it a device counts as gone.
pub const DEBOUNCE: u32 = 3;

/// How to attach the device behind a candidate.
pub open spec fn attach_spec(
    c: PortCandidateView,
    baud_rate: u32,
    recovery_cycles: u32,
    fault: Option<Seq<char>>,
) -> DeviceAttachSpecView {
    DeviceAttachSpecView {
        id: c.id,
        port_path: c.path,
        baud_rate,
        native_usb: c.native_usb,
        mac: c.mac,
        recovery_cycles,
        fault,
    }
}

/// How to attach the device behind a candidate.
pub fn candidate_spec(c: &PortCandidate, baud_rate: u32, carry: RecoveryCarryOver) -> (r:
    DeviceAttachSpec)
    ensures
        r@ == attach_spec(c@, baud_rate, carry.recovery_cycles, text::opt(carry.fault)),
        r.id@ == c.id@,
        r.port_path@ == c.path@,
        r.baud_rate == baud_rate,
        r.native_usb == c.native_usb,
        text::opt(r.mac) == text::opt(c.mac),
        r.recovery_cycles == carry.recovery_cycles,
        text::opt(r.fault) == text::opt(carry.fault),
{
    DeviceAttachSpec {
        id: c.id.clone(),
        port_path: c.path.clone(),
        baud_rate,
        native_usb: c.native_usb,
        mac: c.mac.clone(),
        recovery_cycles: carry.recovery_cycles,
        fault: carry.fault,
    }
}

// ─── The rule ─────────────────────────────────────────────────────────────

/// A candidate with this id was found.
pub open spec fn present(candidates: Seq<PortCandidate>, id: Seq<char>) -> bool {
    exists|i: int| 0 <= i < candidates.len() && (#[trigger] candidates[i]).id@ == id
}

/// In how many scans in a row a device was missing so far.
pub open spec fn absences(missing: Map<Seq<char>, u32>, id: Seq<char>) -> u32 {
    if missing.dom().contains(id) {
        missing[id]
    } else {
        0
    }
}

/// One more scan without the device makes it count as gone.
pub open spec fn due(missing: Map<Seq<char>, u32>, id: Seq<char>) -> bool {
    absences(missing, id) + 1 >= DEBOUNCE
}

/// The count of a device after a scan, `None` when it is not counted: a device that is
/// found, or that is removed, starts over; a count of something that is not attached is
/// left alone.
pub open spec fn next_count(
    missing: Map<Seq<char>, u32>,
    attached: bool,
    found: bool,
    id: Seq<char>,
) -> Option<u32> {
    if attached {
        if found || due(missing, id) {
            None
        } else {
            Some((absences(missing, id) + 1) as u32)
        }
    } else if missing.dom().contains(id) {
        Some(missing[id])
    } else {
        None
    }
}

/// `missing` counts `id` this often.
pub open spec fn counts(missing: Map<Seq<char>, u32>, id: Seq<char>, n: Option<u32>) -> bool {
    match n {
        None => !missing.dom().contains(id),
        Some(k) => missing.dom().contains(id) && missing[id] == k,
    }
}

/// A device is removed by a scan: it is attached, was not found, and was missing often
/// enough.
pub open spec fn removed(
    missing: Map<Seq<char>, u32>,
    attached: bool,
    found: bool,
    id: Seq<char>,
) -> bool {
    attached && !found && due(missing, id)
}

// ─── The supervisor ───────────────────────────────────────────────────────

/// The authority on which devices exist.
pub struct Supervisor {
    baud_rate: u32,
    missing: StrMap<u32>,
}

impl Supervisor {
    /// In how many scans in a row each device was missing.
    pub closed spec fn missing(&self) -> Map<Seq<char>, u32> {
        self.missing@
    }

    /// The baud rate of the devices.
    pub closed spec fn baud_rate(&self) -> u32 {
        self.baud_rate
    }

    /// The invariant: no device is missing long enough to be gone.
    #[verifier::type_invariant]
    pub open spec fn wf(&self) -> bool {
        forall|id: Seq<char>| #[trigger]
            self.missing().dom().contains(id) ==> 1 <= self.missing()[id] < DEBOUNCE
    }

    /// A supervisor that has not scanned yet.
    pub fn new(baud_rate: u32) -> (r: Self)
        ensures
            r.wf(),
            r.baud_rate() == baud_rate,
            r.missing() == Map::<Seq<char>, u32>::empty(),
    {
        Supervisor { baud_rate, missing: StrMap::new() }
    }

    /// Note that a candidate was found, and say how it relates to the attached devices.
    pub fn sight<R, P: ?Sized>(&mut self, registry: &DeviceRegistry<R, P>, c: &PortCandidate) -> (r:
        Sighting<R, P>)
        ensures
            final(self).wf(),
            final(self).baud_rate() == old(self).baud_rate(),
            final(self).missing() == old(self).missing().remove(c.id@),
            match r {
                Sighting::New => !registry@.dom().contains(c.id@),
                Sighting::Moved(dev) => {
                    &&& registry@.dom().contains(c.id@)
                    &&& registry@[c.id@] == dev
                    &&& dev.port_path@ != c.path@
                },
                Sighting::Known => {
                    &&& registry@.dom().contains(c.id@)
                    &&& registry@[c.id@].port_path@ == c.path@
                },
            },
    {
        self.forget(c.id.as_str());
        match registry.get(c.id.as_str()) {
            None => Sighting::New,
            Some(dev) => {
                if text::str_eq(dev.port_path.as_str(), c.path.as_str()) {
                    Sighting::Known
                } else {
                    Sighting::Moved(dev)
                }
            },
        }
    }

    /// Drop the count of a device.
    fn forget(&mut self, id: &str)
        ensures
            final(self).wf(),
            final(self).baud_rate() == old(self).baud_rate(),
            final(self).missing() == old(self).missing().remove(id@),
    {
        proof {
            use_type_invariant(&*self);
        }
        let ghost before = self.missing();
        let mut missing: StrMap<u32> = StrMap::new();
        std::mem::swap(&mut missing, &mut self.missing);
        missing.remove(id);
        assert forall|k: Seq<char>| #[trigger] missing@.dom().contains(k) implies 1 <= missing@[k]
            < DEBOUNCE by {
            assert(before.dom().contains(k));
        }
        self.missing = missing;
    }

    /// How to attach a new device.
    pub fn adopt(&self, c: &PortCandidate) -> (r: DeviceAttachSpec)
        ensures
            r@ == attach_spec(c@, self.baud_rate(), 0, None),
            r.id@ == c.id@,
            r.port_path@ == c.path@,
            r.baud_rate == self.baud_rate(),
            r.native_usb == c.native_usb,
            text::opt(r.mac) == text::opt(c.mac),
            r.recovery_cycles == 0,
            r.fault is None,
    {
        candidate_spec(c, self.baud_rate, RecoveryCarryOver::default())
    }

    /// How to attach a device that moved to another port. The serial task on its old
    /// port is cancelled.
    pub fn follow<R, P: ?Sized>(
        &self,
        dev: &DeviceHandle<R, P>,
        c: &PortCandidate,
        carry: RecoveryCarryOver,
    ) -> (r: DeviceAttachSpec)
        ensures
            r@ == attach_spec(
                c@,
                self.baud_rate(),
                carry.recovery_cycles,
                text::opt(carry.fault),
            ),
            r.id@ == c.id@,
            r.port_path@ == c.path@,
            r.baud_rate == self.baud_rate(),
            r.native_usb == c.native_usb,
            text::opt(r.mac) == text::opt(c.mac),
            r.recovery_cycles == carry.recovery_cycles,
            text::opt(r.fault) == text::opt(carry.fault),
            call_ensures(CancellationToken::cancel, (&dev.shutdown,), ()),
    {
        dev.shutdown.cancel();
        candidate_spec(c, self.baud_rate, carry)
    }

    /// Count the attached devices that were not found, and detach those that have been
    /// missing too long, which cancels their serial tasks.
    pub fn sweep<R, P: ?Sized>(
        &mut self,
        registry: &mut DeviceRegistry<R, P>,
        candidates: &Vec<PortCandidate>,
    )
        ensures
            final(self).wf(),
            final(self).baud_rate() == old(self).baud_rate(),
            final(registry).shared_profile() == old(registry).shared_profile(),
            forall|id: Seq<char>| #[trigger]
                final(registry)@.dom().contains(id) <==> old(registry)@.dom().contains(id)
                    && !removed(
                    old(self).missing(),
                    true,
                    present(candidates@, id),
                    id,
                ),
            forall|id: Seq<char>| #[trigger]
                final(registry)@.dom().contains(id) ==> final(registry)@[id] == old(registry)@[id],
            forall|id: Seq<char>|
                old(registry)@.dom().contains(id) && !(#[trigger] final(registry)@.dom().contains(
                    id,
                )) ==> call_ensures(
                    CancellationToken::cancel,
                    (&old(registry)@[id].shutdown,),
                    (),
                ),
            forall|id: Seq<char>|
                #![trigger final(self).missing().dom().contains(id)]
                #![trigger old(registry)@.dom().contains(id)]
                counts(
                    final(self).missing(),
                    id,
                    next_count(
                        old(self).missing(),
                        old(registry)@.dom().contains(id),
                        present(candidates@, id),
                        id,
                    ),
                ),
    {
        proof {
            use_type_invariant(&*self);
        }
        let devices = registry.snapshot();
        let ghost listed = registry.listed();
        let ghost before = registry@;
        let ghost old_missing = self.missing();
        let n: usize = devices.len();
        let mut i: usize = 0;
        while i < n
            invariant
                n == devices@.len(),
                n == listed.len(),
                i <= n,
                str_map::keys_ascend(listed),
                str_map::map_of(listed) == before,
                forall|id: Seq<char>| #[trigger]
                    before.dom().contains(id) ==> before[id].id@ == id,
                forall|j: int| 0 <= j < n ==> #[trigger] devices@[j] == listed[j].1,
                self.wf(),
                self.baud_rate() == old(self).baud_rate(),
                registry.shared_profile() == old(registry).shared_profile(),
                old_missing == old(self).missing(),
                forall|id: Seq<char>| #[trigger]
                    old_missing.dom().contains(id) ==> 1 <= old_missing[id] < DEBOUNCE,
                forall|id: Seq<char>| #[trigger]
                    registry@.dom().contains(id) <==> before.dom().contains(id) && !(handled(
                        listed,
                        i as int,
                        id,
                    ) && removed(old_missing, true, present(candidates@, id), id)),
                forall|id: Seq<char>| #[trigger]
                    registry@.dom().contains(id) ==> registry@[id] == before[id],
                before == old(registry)@,
                forall|id: Seq<char>|
                    before.dom().contains(id) && !(#[trigger] registry@.dom().contains(id))
                        ==> call_ensures(CancellationToken::cancel, (&before[id].shutdown,), ()),
                forall|id: Seq<char>| #[trigger]
                    counts(
                        self.missing(),
                        id,
                        next_count(
                            old_missing,
                            handled(listed, i as int, id),
                            present(candidates@, id),
                            id,
                        ),
                    ),
            decreases n - i,
        {
            let dev = devices[i].clone();
            let ghost id = dev.id@;
            let ghost missing_before = self.missing();
            let ghost registry_before = registry@;
            proof {
                str_map::lemma_lookup(listed, i as int);
                assert(before.dom().contains(listed[i as int].0));
                assert(id == listed[i as int].0);
                lemma_handled(listed, i as int, id);
                assert(counts(
                    missing_before,
                    id,
                    next_count(
                        old_missing,
                        handled(listed, i as int, id),
                        present(candidates@, id),
                        id,
                    ),
                ));
            }
            if holds_id(candidates, dev.id.as_str()) {
                self.forget(dev.id.as_str());
            } else {
                let so_far: u32 = self.count(dev.id.as_str());
                if so_far + 1 >= DEBOUNCE {
                    registry.detach(dev.id.as_str());
                    self.forget(dev.id.as_str());
                } else {
                    self.set_count(dev.id.clone(), so_far + 1);
                }
            }
            proof {
                assert forall|other: Seq<char>| #[trigger]
                    counts(
                        self.missing(),
                        other,
                        next_count(
                            old_missing,
                            handled(listed, i + 1, other),
                            present(candidates@, other),
                            other,
                        ),
                    ) by {
                    lemma_handled(listed, i as int, other);
                    assert(counts(
                        missing_before,
                        other,
                        next_count(
                            old_missing,
                            handled(listed, i as int, other),
                            present(candidates@, other),
                            other,
                        ),
                    ));
                }
                assert forall|other: Seq<char>| #[trigger]
                    registry@.dom().contains(other) <==> before.dom().contains(other) && !(handled(
                        listed,
                        i + 1,
                        other,
                    ) && removed(old_missing, true, present(candidates@, other), other)) by {
                    lemma_handled(listed, i as int, other);
                    assert(registry_before.dom().contains(other) <==> before.dom().contains(other)
                        && !(handled(listed, i as int, other) && removed(
                        old_missing,
                        true,
                        present(candidates@, other),
                        other,
                    )));
                }
                assert forall|other: Seq<char>| #[trigger]
                    registry@.dom().contains(other) implies registry@[other] == before[other] by {
                    assert(registry_before.dom().contains(other));
                }
                assert forall|other: Seq<char>|
                    before.dom().contains(other) && !(#[trigger] registry@.dom().contains(
                        other,
                    )) implies call_ensures(
                    CancellationToken::cancel,
                    (&before[other].shutdown,),
                    (),
                ) by {
                    if registry_before.dom().contains(other) {
                        assert(other == id);
                    }
                }
            }
            i += 1;
        }
        proof {
            assert forall|id: Seq<char>| #[trigger]
                counts(
                    self.missing(),
                    id,
                    next_count(
                        old_missing,
                        before.dom().contains(id),
                        present(candidates@, id),
                        id,
                    ),
                ) by {
                assert(counts(
                    self.missing(),
                    id,
                    next_count(
                        old_missing,
                        handled(listed, n as int, id),
                        present(candidates@, id),
                        id,
                    ),
                ));
                lemma_all_handled(listed, id);
            }
            assert forall|id: Seq<char>| handled(listed, n as int, id) == before.dom().contains(
                id,
            ) by {
                lemma_all_handled(listed, id);
            }
        }
    }

    /// In how many scans in a row the device was missing so far.
    fn count(&self, id: &str) -> (r: u32)
        ensures
            r == absences(self.missing(), id@),
    {
        match self.missing.get(id) {
            Some(n) => *n,
            None => 0,
        }
    }

    /// Set the count of a device.
    fn set_count(&mut self, id: String, n: u32)
        requires
            1 <= n < DEBOUNCE,
        ensures
            final(self).wf(),
            final(self).baud_rate() == old(self).baud_rate(),
            final(self).missing() == old(self).missing().insert(id@, n),
    {
        proof {
            use_type_invariant(&*self);
        }
        let ghost before = self.missing();
        let ghost key = id@;
        let mut missing: StrMap<u32> = StrMap::new();
        std::mem::swap(&mut missing, &mut self.missing);
        missing.insert(id, n);
        assert forall|k: Seq<char>| #[trigger] missing@.dom().contains(k) implies 1 <= missing@[k]
            < DEBOUNCE by {
            if k != key {
                assert(before.dom().contains(k));
            }
        }
        self.missing = missing;
    }
}

/// Whether a candidate has this id.
fn holds_id(candidates: &Vec<PortCandidate>, id: &str) -> (r: bool)
    ensures
        r == present(candidates@, id@),
{
    let mut i: usize = 0;
    while i < candidates.len()
        invariant
            i <= candidates@.len(),
            forall|j: int| 0 <= j < i ==> (#[trigger] candidates@[j]).id@ != id@,
        decreases candidates@.len() - i,
    {
        if text::str_eq(candidates[i].id.as_str(), id) {
            return true;
        }
        i += 1;
    }
    false
}

/// `id` is the key of one of the first `n` entries.
spec fn handled<V>(listed: Seq<(Seq<char>, V)>, n: int, id: Seq<char>) -> bool {
    exists|j: int| j < n && #[trigger] str_map::key_at(listed, id, j)
}

proof fn lemma_handled<V>(listed: Seq<(Seq<char>, V)>, i: int, id: Seq<char>)
    requires
        str_map::keys_ascend(listed),
        0 <= i < listed.len(),
    ensures
        handled(listed, i + 1, id) == (handled(listed, i, id) || id == listed[i].0),
        id == listed[i].0 ==> !handled(listed, i, id),
{
    str_map::lemma_lookup(listed, i);
    if id == listed[i].0 {
        assert(str_map::key_at(listed, id, i));
    }
    if handled(listed, i + 1, id) && id != listed[i].0 {
        let j = choose|j: int| j < i + 1 && #[trigger] str_map::key_at(listed, id, j);
        assert(str_map::key_at(listed, id, j) && j < i);
    }
}

proof fn lemma_all_handled<V>(listed: Seq<(Seq<char>, V)>, id: Seq<char>)
    requires
        str_map::keys_ascend(listed),
    ensures
        handled(listed, listed.len() as int, id) == str_map::map_of(listed).dom().contains(id),
{
    if handled(listed, listed.len() as int, id) {
        let j = choose|j: int|
            j < listed.len() && #[trigger] str_map::key_at(listed, id, j);
        str_map::lemma_lookup(listed, j);
    }
    if str_map::map_of(listed).dom().contains(id) {
        let j = choose|j: int| str_map::key_at(listed, id, j);
        assert(str_map::key_at(listed, id, j));
    }
}

// ─── Laws ─────────────────────────────────────────────────────────────────

/// What the supervisor knows of one device.
pub struct Presence {
    /// It is attached.
    pub attached: bool,
    /// In how many scans in a row it was missing.
    pub count: u32,
}

impl Presence {
    /// The device has just been attached.
    pub open spec fn fresh() -> Presence {
        Presence { attached: true, count: 0 }
    }

    /// What is known after a scan that found the device, or did not.
    pub open spec fn after_scan(self, found: bool) -> Presence {
        if found {
            Presence::fresh()
        } else if !self.attached {
            self
        } else if self.count + 1 >= DEBOUNCE {
            Presence { attached: false, count: 0 }
        } else {
            Presence { attached: true, count: (self.count + 1) as u32 }
        }
    }

    /// What is known after a run of scans.
    pub open spec fn after(self, scans: Seq<bool>) -> Presence
        decreases scans.len(),
    {
        if scans.len() == 0 {
            self
        } else {
            self.after(scans.drop_last()).after_scan(scans.last())
        }
    }
}

/// One whole scan, device by device: its candidates are sighted, the new ones attached,
/// and the rest swept. No device depends on another.
pub proof fn law_scan_is_per_device(
    missing: Map<Seq<char>, u32>,
    attached: bool,
    found: bool,
    id: Seq<char>,
)
    ensures
        ({
            let sighted = if found {
                missing.remove(id)
            } else {
                missing
            };
            let known = attached || found;
            let after = (Presence { attached, count: absences(missing, id) }).after_scan(found);
            &&& after.attached == (known && !removed(sighted, known, found, id))
            &&& after.count == (match next_count(sighted, known, found, id) {
                Some(n) => n,
                None => 0,
            })
        }),
{
}

/// In how many of the last scans, in a row, the device was missing.
pub open spec fn absent_run(scans: Seq<bool>) -> nat
    decreases scans.len(),
{
    if scans.len() == 0 || scans.last() {
        0
    } else {
        absent_run(scans.drop_last()) + 1
    }
}

/// A device stays attached through gaps that are short enough, and is detached by the
/// scan that completes a long one: not sooner, and not later.
pub proof fn law_debounce(scans: Seq<bool>)
    requires
        forall|k: int| 0 <= k < scans.len() ==> absent_run(#[trigger] scans.take(k)) < DEBOUNCE,
    ensures
        absent_run(scans) <= DEBOUNCE,
        absent_run(scans) < DEBOUNCE ==> Presence::fresh().after(scans) == (Presence {
            attached: true,
            count: absent_run(scans) as u32,
        }),
        absent_run(scans) == DEBOUNCE ==> !Presence::fresh().after(scans).attached,
    decreases scans.len(),
{
    if scans.len() > 0 {
        let earlier = scans.drop_last();
        assert(scans.take(scans.len() - 1) =~= earlier);
        assert forall|k: int| 0 <= k < earlier.len() implies absent_run(#[trigger] earlier.take(k))
            < DEBOUNCE by {
            assert(earlier.take(k) =~= scans.take(k));
        }
        assert(absent_run(scans.take(scans.len() - 1)) < DEBOUNCE);
        law_debounce(earlier);
    }
}

/// A device that is found is attached with nothing held against it, whatever came
/// before.
pub proof fn law_found_is_attached(before: Presence, scans: Seq<bool>)
    requires
        scans.len() > 0,
        scans.last(),
    ensures
        before.after(scans) == Presence::fresh(),
{
}

/// A board that was restarted, and comes back on another port still broken, is neither
/// restarted nor reset again, however often it fails: the attempts survive the new handle
/// and a first exchange that fails, and so does a fault.
pub proof fn law_recovery_survives_reenumeration<R, P: ?Sized>(
    c: PortCandidateView,
    baud_rate: u32,
    recovery_cycles: u32,
    fault: Option<Seq<char>>,
    dev: DeviceHandle<R, P>,
    error: InfoExchangeErrorView,
    events: Seq<bool>,
)
    requires
        recovery_cycles >= 1,
        dev.describes(attach_spec(c, baud_rate, recovery_cycles, fault)),
        dev.starts_from(attach_spec(c, baud_rate, recovery_cycles, fault)),
        events.len() <= u32::MAX,
    ensures
        ({
            let spec = attach_spec(c, baud_rate, recovery_cycles, fault);
            let attached = DeviceStatusView::attached(spec.fault, spec.recovery_cycles);
            let connected = link::status_on_open(attached.opened(), Err(error));
            let ladder = RecoveryLadder::bottom(dev.native_usb, connected.recovery_cycles);
            let taken = recovery::rungs(ladder, events);
            &&& call_ensures(AtomicU32::new, (recovery_cycles,), dev.recovery_cycles)
            &&& dev.id@ == c.id
            &&& dev.port_path@ == c.path
            &&& connected.recovery_cycles == recovery_cycles
            &&& fault is Some ==> connected.fault is Some
            &&& recovery::occurrences(taken, Rung::Restart) == 0
            &&& recovery::occurrences(taken, Rung::PulseReset) == 0
        }),
{
    recovery::law_each_rung_fires_once(c.native_usb, recovery_cycles, events);
}

/// A device is attached as what was sighted: on the candidate's port, at the given baud rate,
/// native or not and with a MAC or not as the candidate is, with just the recovery attempts
/// and the fault that are carried over.
pub proof fn law_spec_is_the_candidate(
    c: PortCandidate,
    baud_rate: u32,
    carry: RecoveryCarryOver,
    r: DeviceAttachSpec,
)
    requires
        call_ensures(candidate_spec, (&c, baud_rate, carry), r),
    ensures
        r.id@ == c.id@,
        r.port_path@ == c.path@,
        r.baud_rate == baud_rate,
        r.native_usb == c.native_usb,
        r.mac is Some == c.mac is Some,
        c.mac is Some ==> r.mac->0@ == c.mac->0@,
        r.recovery_cycles == carry.recovery_cycles,
        r.fault is Some == carry.fault is Some,
        carry.fault is Some ==> r.fault->0@ == carry.fault->0@,
{
    lemma_optional_texts(r, c, carry);
}

proof fn lemma_optional_texts(r: DeviceAttachSpec, c: PortCandidate, carry: RecoveryCarryOver)
    requires
        r@.mac == c@.mac,
        r@.fault == text::opt(carry.fault),
    ensures
        r.mac is Some == c.mac is Some,
        c.mac is Some ==> r.mac->0@ == c.mac->0@,
        r.fault is Some == carry.fault is Some,
        carry.fault is Some ==> r.fault->0@ == carry.fault->0@,
{
}

/// A new device is attached as the candidate that was sighted, at the supervisor's baud rate,
/// with nothing held against it.
pub proof fn law_new_device_is_the_candidate(
    supervisor: Supervisor,
    c: PortCandidate,
    r: DeviceAttachSpec,
)
    requires
        call_ensures(Supervisor::adopt, (&supervisor, &c), r),
    ensures
        r.id@ == c.id@,
        r.port_path@ == c.path@,
        r.baud_rate == supervisor.baud_rate(),
        r.native_usb == c.native_usb,
        text::opt(r.mac) == text::opt(c.mac),
        r.recovery_cycles == 0,
        r.fault is None,
{
}

/// A device that moved is attached as the candidate on its new port, with what its old handle
/// hands over, and the serial task on the old port is stopped.
pub proof fn law_moved_device_is_the_candidate<R, P: ?Sized>(
    supervisor: Supervisor,
    dev: DeviceHandle<R, P>,
    c: PortCandidate,
    carry: RecoveryCarryOver,
    r: DeviceAttachSpec,
)
    requires
        call_ensures(Supervisor::follow::<R, P>, (&supervisor, &dev, &c, carry), r),
    ensures
        r.id@ == c.id@,
        r.port_path@ == c.path@,
        r.baud_rate == supervisor.baud_rate(),
        r.native_usb == c.native_usb,
        text::opt(r.mac) == text::opt(c.mac),
        r.recovery_cycles == carry.recovery_cycles,
        text::opt(r.fault) == text::opt(carry.fault),
        call_ensures(CancellationToken::cancel, (&dev.shutdown,), ()),
{
}

/// From the port to the handle: a board is driven as a native USB endpoint exactly if a port
/// at its path has the vendor id of Espressif.
pub proof fn law_native_usb_is_the_vendor_id<R, P: ?Sized>(
    found: Vec<String>,
    ports: Vec<SerialPort>,
    aliases: Vec<(String, String)>,
    candidates: Vec<PortCandidate>,
    i: int,
    supervisor: Supervisor,
    spec: DeviceAttachSpec,
    profile: Arc<P>,
    runtime: R,
    dev: DeviceHandle<R, P>,
    path: &str,
    mac: Option<&str>,
    named: &[(String, String)],
    id: String,
)
    requires
        call_ensures(scan_ports, (&found, &ports, &aliases), candidates),
        0 <= i < candidates@.len(),
        call_ensures(Supervisor::adopt, (&supervisor, &candidates@[i]), spec),
        call_ensures(DeviceHandle::<R, P>::new, (&spec, profile, runtime), dev),
        call_ensures(device_id, (path, mac, named), id),
        named@ == aliases@,
        path@ == candidates@[i].path@,
        ports::opt_str(mac) == text::opt(candidates@[i].mac),
    ensures
        dev.port_path@ == candidates@[i].path@,
        dev.native_usb <==> exists|k: int|
            0 <= k < ports@.len() && (#[trigger] ports@[k]).port_name@ == dev.port_path@
                && ports@[k].usb is Some && ports@[k].usb->0.vid == 0x303A,
        i < found@.len() ==> dev.id@ == id@,
{
    ports::law_scan_lists_the_ports(found, ports, aliases, candidates, i, path, mac, named, id);
    let list = ports@;
    let at = dev.port_path@;
    if dev.native_usb {
        let k = choose|k: int|
            0 <= k < list.len() && ports::native_endpoint(#[trigger] list[k], at);
        assert(list[k].port_name@ == at);
    }
    if exists|k: int|
        0 <= k < list.len() && (#[trigger] list[k]).port_name@ == at && list[k].usb is Some
            && list[k].usb->0.vid == 0x303A {
        let k = choose|k: int|
            0 <= k < list.len() && (#[trigger] list[k]).port_name@ == at && list[k].usb is Some
                && list[k].usb->0.vid == 0x303A;
        assert(ports::native_endpoint(list[k], at));
    }
}

/// How often a device was missing so far, and 0 where nothing is noted.
pub open spec fn noted(missing: Map<Seq<char>, u32>, id: Seq<char>, n: int) -> bool {
    if missing.dom().contains(id) {
        missing[id] == n
    } else {
        n == 0
    }
}

/// A candidate is new, known or moved by its id and its path; to be sighted clears what was
/// noted of it, and of no other.
pub proof fn law_sighting<R, P: ?Sized>(
    supervisor: &mut Supervisor,
    registry: DeviceRegistry<R, P>,
    c: PortCandidate,
    r: Sighting<R, P>,
    id: Seq<char>,
)
    requires
        call_ensures(Supervisor::sight::<R, P>, (supervisor, &registry, &c), r),
    ensures
        r is New <==> !registry@.dom().contains(c.id@),
        r is Known <==> registry@.dom().contains(c.id@) && registry@[c.id@].port_path@ == c.path@,
        r is Moved ==> registry@[c.id@] == r->Moved_0,
        !final(supervisor).missing().dom().contains(c.id@),
        id != c.id@ ==> ({
            let before = old(supervisor).missing();
            let after = final(supervisor).missing();
            &&& after.dom().contains(id) == before.dom().contains(id)
            &&& before.dom().contains(id) ==> after[id] == before[id]
        }),
        final(supervisor).baud_rate() == old(supervisor).baud_rate(),
{
}

/// A sweep: a device that is among the candidates stays, with nothing noted; one that is not
/// stays with one absence more, unless two were noted before: then it is detached and its
/// serial task stopped. Nothing is attached, and no handle changes.
pub proof fn law_sweep<R, P: ?Sized>(
    supervisor: &mut Supervisor,
    registry: &mut DeviceRegistry<R, P>,
    candidates: Vec<PortCandidate>,
    id: Seq<char>,
    n: int,
)
    requires
        call_ensures(Supervisor::sweep::<R, P>, (supervisor, registry, &candidates), ()),
        noted(old(supervisor).missing(), id, n),
    ensures
        ({
            let found = exists|i: int|
                0 <= i < candidates@.len() && (#[trigger] candidates@[i]).id@ == id;
            let attached = old(registry)@.dom().contains(id);
            &&& final(registry)@.dom().contains(id) <==> attached && (found || n < 2)
            &&& final(registry)@.dom().contains(id) ==> final(registry)@[id] == old(registry)@[id]
            &&& attached && !found && n < 2 ==> noted(final(supervisor).missing(), id, n + 1)
            &&& attached && (found || n >= 2) ==> noted(final(supervisor).missing(), id, 0)
            &&& attached && !found && n >= 2 ==> call_ensures(
                CancellationToken::cancel,
                (&old(registry)@[id].shutdown,),
                (),
            )
        }),
        final(registry).shared_profile() == old(registry).shared_profile(),
        final(supervisor).baud_rate() == old(supervisor).baud_rate(),
{
    let missing = old(supervisor).missing();
    let found = present(candidates@, id);
    let attached = old(registry)@.dom().contains(id);
    assert(counts(
        final(supervisor).missing(),
        id,
        next_count(missing, old(registry)@.dom().contains(id), present(candidates@, id), id),
    ));
    assert(final(registry)@.dom().contains(id) <==> attached && !removed(
        missing,
        true,
        present(candidates@, id),
        id,
    ));
    assert(absences(missing, id) == n);
}

/// A device that is missing in three sweeps in a row is attached after the first two and gone
/// after the third.
pub proof fn law_three_absences<R, P: ?Sized>(
    first: &mut Supervisor,
    second: &mut Supervisor,
    third: &mut Supervisor,
    before: &mut DeviceRegistry<R, P>,
    between: &mut DeviceRegistry<R, P>,
    behind: &mut DeviceRegistry<R, P>,
    a: Vec<PortCandidate>,
    b: Vec<PortCandidate>,
    c: Vec<PortCandidate>,
    id: Seq<char>,
)
    requires
        call_ensures(Supervisor::sweep::<R, P>, (first, before, &a), ()),
        call_ensures(Supervisor::sweep::<R, P>, (second, between, &b), ()),
        call_ensures(Supervisor::sweep::<R, P>, (third, behind, &c), ()),
        final(first).missing() == old(second).missing(),
        final(second).missing() == old(third).missing(),
        final(before)@ == old(between)@,
        final(between)@ == old(behind)@,
        !old(first).missing().dom().contains(id),
        old(before)@.dom().contains(id),
        forall|i: int| 0 <= i < a@.len() ==> (#[trigger] a@[i]).id@ != id,
        forall|i: int| 0 <= i < b@.len() ==> (#[trigger] b@[i]).id@ != id,
        forall|i: int| 0 <= i < c@.len() ==> (#[trigger] c@[i]).id@ != id,
    ensures
        final(before)@.dom().contains(id),
        final(between)@.dom().contains(id),
        !final(behind)@.dom().contains(id),
{
    law_sweep(first, before, a, id, 0);
    law_sweep(second, between, b, id, 1);
    law_sweep(third, behind, c, id, 2);
}

/// A supervisor begins with nothing noted, at the baud rate that it was given.
pub proof fn law_supervisor_begins_afresh(baud_rate: u32, r: Supervisor, id: Seq<char>)
    requires
        call_ensures(Supervisor::new, (baud_rate,), r),
    ensures
        r.baud_rate() == baud_rate,
        !r.missing().dom().contains(id),
{
}

/// What is carried over from a handle is its own count of recovery attempts, and the fault
/// that was declared.
pub proof fn law_carry_over_is_the_handle<R, P: ?Sized>(
    dev: DeviceHandle<R, P>,
    fault: Option<String>,
    r: RecoveryCarryOver,
)
    requires
        call_ensures(RecoveryCarryOver::from_handle::<R, P>, (&dev, fault), r),
    ensures
        call_ensures(
            AtomicU32::load,
            (&dev.recovery_cycles, Ordering::SeqCst),
            r.recovery_cycles,
        ),
        r.fault == fault,
{
}

} // verus!
