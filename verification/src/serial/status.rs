//! The runtime status of one device, and how a serial task changes it.
use crate::models::device::{DeviceInfo, DeviceInfoView};
use crate::serial::exchange::{InfoExchangeError, InfoExchangeErrorView};
use crate::serial::recovery::Rung;
use crate::text;
use vstd::prelude::*;

verus! {

/// What a device's serial task shares with the rest of the server.
#[derive(Debug)]
pub struct DeviceStatus {
    /// The task has an open and healthy link.
    pub serial_connected: bool,
    /// A collection was started and not stopped since.
    pub collection_running: bool,
    /// The device has identified itself. Commands are refused while it has not.
    pub firmware_verified: bool,
    /// The identification, while the device is verified.
    pub device_info: Option<DeviceInfo>,
    /// A detected fault, with the action that recovers the board.
    pub fault: Option<String>,
    /// Recovery attempts since the last successful verification. They outlive the
    /// connection.
    pub recovery_cycles: u32,
}

/// The mathematical form of a [`DeviceStatus`].
pub struct DeviceStatusView {
    pub serial_connected: bool,
    pub collection_running: bool,
    pub firmware_verified: bool,
    pub device_info: Option<DeviceInfoView>,
    pub fault: Option<Seq<char>>,
    pub recovery_cycles: u32,
}

impl View for DeviceStatus {
    type V = DeviceStatusView;

    open spec fn view(&self) -> DeviceStatusView {
        DeviceStatusView {
            serial_connected: self.serial_connected,
            collection_running: self.collection_running,
            firmware_verified: self.firmware_verified,
            device_info: match self.device_info {
                Some(info) => Some(info@),
                None => None,
            },
            fault: text::opt(self.fault),
            recovery_cycles: self.recovery_cycles,
        }
    }
}

/// The fault that is declared when every automated step has failed.
pub open spec fn terminal_fault() -> Seq<char> {
    "unresponsive after every automated recovery step (firmware restart, USB-JTAG reset pulse) — the application does not boot. Press the board's EN/reset button, replug the cable, or power-cycle the port (e.g. `uhubctl -a cycle` on a power-switchable hub)."@
}

impl DeviceStatusView {
    /// The status of a device that has just been attached.
    pub open spec fn attached(fault: Option<Seq<char>>, recovery_cycles: u32) -> DeviceStatusView {
        DeviceStatusView {
            serial_connected: false,
            collection_running: false,
            firmware_verified: false,
            device_info: None,
            fault,
            recovery_cycles,
        }
    }

    /// A verification succeeded: the identity is known, and nothing is wrong.
    pub open spec fn verified(self, info: DeviceInfoView) -> DeviceStatusView {
        DeviceStatusView {
            firmware_verified: true,
            device_info: Some(info),
            fault: None,
            recovery_cycles: 0,
            ..self
        }
    }

    /// A verification failed.
    pub open spec fn unverified(self) -> DeviceStatusView {
        DeviceStatusView { firmware_verified: false, device_info: None, ..self }
    }

    /// The fault that a failed verification revealed, if it revealed one.
    pub open spec fn noting(self, error: InfoExchangeErrorView) -> DeviceStatusView {
        match error {
            InfoExchangeErrorView::BootFault(fault) => DeviceStatusView {
                fault: Some(fault),
                ..self
            },
            _ => self,
        }
    }

    /// Every automated step has failed. A fault that is already known is more
    /// specific, and stays.
    pub open spec fn given_up(self) -> DeviceStatusView {
        DeviceStatusView {
            fault: match self.fault {
                Some(fault) => Some(fault),
                None => Some(terminal_fault()),
            },
            ..self
        }
    }

    /// What a rung of the recovery ladder leaves in the status.
    pub open spec fn after_rung(self, rung: Rung) -> DeviceStatusView {
        match rung {
            Rung::Restart => DeviceStatusView {
                recovery_cycles: if self.recovery_cycles == u32::MAX {
                    0
                } else {
                    (self.recovery_cycles + 1) as u32
                },
                ..self
            },
            Rung::GiveUp => self.given_up(),
            Rung::PulseReset => self,
            Rung::Wait => self,
        }
    }

    /// The port could not be opened.
    pub open spec fn open_failed(self) -> DeviceStatusView {
        DeviceStatusView { serial_connected: false, collection_running: false, ..self }
    }

    /// The port was opened.
    pub open spec fn opened(self) -> DeviceStatusView {
        DeviceStatusView { serial_connected: true, ..self }
    }

    /// The connection is over. Another chip may be attached next, so the identity is
    /// void.
    pub open spec fn closed(self) -> DeviceStatusView {
        self.open_failed().unverified()
    }
}

impl DeviceStatus {
    /// The status of a device that has just been attached, with what is carried over
    /// from an earlier connection.
    pub fn new(fault: Option<String>, recovery_cycles: u32) -> (r: Self)
        ensures
            r@ == DeviceStatusView::attached(text::opt(fault), recovery_cycles),
    {
        DeviceStatus {
            serial_connected: false,
            collection_running: false,
            firmware_verified: false,
            device_info: None,
            fault,
            recovery_cycles,
        }
    }

    /// Note a successful verification.
    pub fn verify(&mut self, info: DeviceInfo)
        ensures
            final(self)@ == old(self)@.verified(info@),
    {
        self.firmware_verified = true;
        self.device_info = Some(info);
        self.fault = None;
        self.recovery_cycles = 0;
    }

    /// Note that the device is not verified.
    pub fn unverify(&mut self)
        ensures
            final(self)@ == old(self)@.unverified(),
    {
        self.firmware_verified = false;
        self.device_info = None;
    }

    /// Note the fault that a failed verification revealed, if it revealed one.
    pub fn note(&mut self, error: &InfoExchangeError)
        ensures
            final(self)@ == old(self)@.noting(error@),
    {
        if let InfoExchangeError::BootFault(fault) = error {
            self.fault = Some(fault.clone());
        }
    }

    /// Record that only a human can recover the board, unless a more specific fault is
    /// known already. The next successful verification clears it.
    pub fn declare_terminal_fault(&mut self)
        ensures
            final(self)@ == old(self)@.given_up(),
    {
        if self.fault.is_none() {
            self.fault = Some(
                "unresponsive after every automated recovery step (firmware restart, USB-JTAG reset pulse) — the application does not boot. Press the board's EN/reset button, replug the cable, or power-cycle the port (e.g. `uhubctl -a cycle` on a power-switchable hub).".to_string(),
            );
        }
    }

    /// Note a rung of the recovery ladder.
    pub fn take_rung(&mut self, rung: Rung)
        ensures
            final(self)@ == old(self)@.after_rung(rung),
    {
        match rung {
            Rung::Restart => {
                self.recovery_cycles = self.recovery_cycles.wrapping_add(1);
            },
            Rung::GiveUp => {
                self.declare_terminal_fault();
            },
            Rung::PulseReset => {},
            Rung::Wait => {},
        }
    }

    /// Note that the port could not be opened.
    pub fn on_open_failed(&mut self)
        ensures
            final(self)@ == old(self)@.open_failed(),
    {
        self.serial_connected = false;
        self.collection_running = false;
    }

    /// Note that the port was opened.
    pub fn on_opened(&mut self)
        ensures
            final(self)@ == old(self)@.opened(),
    {
        self.serial_connected = true;
    }

    /// Note that the connection is over.
    pub fn on_closed(&mut self)
        ensures
            final(self)@ == old(self)@.closed(),
    {
        self.serial_connected = false;
        self.collection_running = false;
        self.unverify();
    }
}

// ─── Laws ─────────────────────────────────────────────────────────────────

/// A status is sound when an identity is known exactly while the device is verified,
/// and a verified device has no fault and no recovery attempts.
pub open spec fn sound(s: DeviceStatusView) -> bool {
    &&& s.firmware_verified == (s.device_info is Some)
    &&& s.firmware_verified ==> s.fault is None && s.recovery_cycles == 0
}

/// Every change of the status keeps it sound: the ones after a failed verification
/// start from an unverified device.
pub proof fn law_status_stays_sound(
    s: DeviceStatusView,
    info: DeviceInfoView,
    error: InfoExchangeErrorView,
    rung: Rung,
)
    requires
        sound(s),
    ensures
        sound(s.verified(info)),
        sound(s.unverified()),
        sound(s.unverified().noting(error)),
        sound(s.unverified().noting(error).after_rung(rung)),
        sound(s.opened()),
        sound(s.open_failed()),
        sound(s.closed()),
{
}

/// A freshly attached device is sound, whatever is carried over.
pub proof fn law_attached_is_sound(fault: Option<Seq<char>>, recovery_cycles: u32)
    ensures
        sound(DeviceStatusView::attached(fault, recovery_cycles)),
{
}

/// A declared fault names the first cause: giving up never replaces a fault that is
/// known, always leaves one, and only a successful verification clears it.
pub proof fn law_fault_until_verified(s: DeviceStatusView, info: DeviceInfoView)
    ensures
        s.given_up().fault is Some,
        s.fault is Some ==> s.given_up() == s,
        s.closed().fault == s.fault,
        s.open_failed().fault == s.fault,
        s.unverified().fault == s.fault,
        s.verified(info).fault is None,
{
}

/// When a connection is over, nothing is known of the device any more but what must
/// outlive it: its fault and its recovery attempts.
pub proof fn law_closing_voids_the_identity(s: DeviceStatusView)
    ensures
        s.closed() == DeviceStatusView::attached(s.fault, s.recovery_cycles),
{
}

/// A new status is down in every respect, but for what is carried over.
pub proof fn law_new_status(fault: Option<String>, cycles: u32, r: DeviceStatus)
    requires
        call_ensures(DeviceStatus::new, (fault, cycles), r),
    ensures
        !r.serial_connected && !r.collection_running && !r.firmware_verified,
        r.device_info is None,
        text::opt(r.fault) == text::opt(fault),
        r.recovery_cycles == cycles,
{
}

/// A successful verification raises the flag, keeps the identity, clears the fault and the
/// recovery attempts, and leaves link and collection as they are; a failed one lowers the
/// flag and voids the identity, and nothing else.
pub proof fn law_verification(s: &mut DeviceStatus, info: DeviceInfo)
    ensures
        call_ensures(DeviceStatus::verify, (s, info), ()) ==> {
            &&& final(s).firmware_verified
            &&& final(s)@.device_info == Some(info@)
            &&& final(s)@.fault is None
            &&& final(s).recovery_cycles == 0
            &&& final(s).serial_connected == old(s).serial_connected
            &&& final(s).collection_running == old(s).collection_running
        },
        call_ensures(DeviceStatus::unverify, (s,), ()) ==> {
            &&& !final(s).firmware_verified
            &&& final(s)@.device_info is None
            &&& final(s)@.fault == old(s)@.fault
            &&& final(s).recovery_cycles == old(s).recovery_cycles
            &&& final(s).serial_connected == old(s).serial_connected
            &&& final(s).collection_running == old(s).collection_running
        },
{
}

/// Only a recognised fault of the chip is noted, with its own text; a silent firmware or a
/// broken link leaves the status as it is.
pub proof fn law_noted_faults(s: &mut DeviceStatus, error: InfoExchangeError)
    requires
        call_ensures(DeviceStatus::note, (s, &error), ()),
    ensures
        error matches InfoExchangeError::BootFault(m) ==> final(s)@.fault == Some(m@),
        !(error is BootFault) ==> final(s)@.fault == old(s)@.fault,
        final(s)@.device_info == old(s)@.device_info,
        final(s).firmware_verified == old(s).firmware_verified,
        final(s).recovery_cycles == old(s).recovery_cycles,
        final(s).serial_connected == old(s).serial_connected,
        final(s).collection_running == old(s).collection_running,
{
}

/// A restart counts as one attempt more, giving up leaves a fault unless one is known, and the
/// other rungs leave nothing; no rung touches anything else.
pub proof fn law_rungs_leave(s: &mut DeviceStatus, rung: Rung)
    requires
        call_ensures(DeviceStatus::take_rung, (s, rung), ()) || (rung == Rung::GiveUp
            && call_ensures(DeviceStatus::declare_terminal_fault, (s,), ())),
    ensures
        rung == Rung::Restart && old(s).recovery_cycles < u32::MAX ==> final(s).recovery_cycles
            == old(s).recovery_cycles + 1,
        rung == Rung::Restart && old(s).recovery_cycles == u32::MAX ==> final(s).recovery_cycles
            == 0,
        rung != Rung::Restart ==> final(s).recovery_cycles == old(s).recovery_cycles,
        rung == Rung::GiveUp && old(s)@.fault is None ==> final(s)@.fault == Some(
            "unresponsive after every automated recovery step (firmware restart, USB-JTAG reset pulse) — the application does not boot. Press the board's EN/reset button, replug the cable, or power-cycle the port (e.g. `uhubctl -a cycle` on a power-switchable hub)."@,
        ),
        rung != Rung::GiveUp || old(s)@.fault is Some ==> final(s)@.fault == old(s)@.fault,
        final(s)@.device_info == old(s)@.device_info,
        final(s).firmware_verified == old(s).firmware_verified,
        final(s).serial_connected == old(s).serial_connected,
        final(s).collection_running == old(s).collection_running,
{
}

/// An opened port is connected, and nothing else changes. A port that cannot be opened is
/// neither connected nor collecting. A connection that is over is moreover not verified. The
/// fault and the recovery attempts outlive all of them.
pub proof fn law_ports_come_and_go(s: &mut DeviceStatus)
    ensures
        call_ensures(DeviceStatus::on_opened, (s,), ()) ==> {
            &&& final(s).serial_connected
            &&& final(s).collection_running == old(s).collection_running
            &&& final(s).firmware_verified == old(s).firmware_verified
            &&& final(s)@.device_info == old(s)@.device_info
            &&& final(s)@.fault == old(s)@.fault
            &&& final(s).recovery_cycles == old(s).recovery_cycles
        },
        call_ensures(DeviceStatus::on_open_failed, (s,), ()) ==> {
            &&& !final(s).serial_connected
            &&& !final(s).collection_running
            &&& final(s).firmware_verified == old(s).firmware_verified
            &&& final(s)@.device_info == old(s)@.device_info
            &&& final(s)@.fault == old(s)@.fault
            &&& final(s).recovery_cycles == old(s).recovery_cycles
        },
        call_ensures(DeviceStatus::on_closed, (s,), ()) ==> {
            &&& !final(s).serial_connected
            &&& !final(s).collection_running
            &&& !final(s).firmware_verified
            &&& final(s)@.device_info is None
            &&& final(s)@.fault == old(s)@.fault
            &&& final(s).recovery_cycles == old(s).recovery_cycles
        },
{
}

} // verus!
