//! Escalating recovery of a device that does not verify.
//!
//! The rungs, on a fresh device: a firmware restart at the second failure in a row,
//! a USB-JTAG reset pulse at the fourth (native USB only), and a fault that names the
//! manual action from the sixth on. A restart may make the board come back as a new
//! connection; then the rungs have run already, and the fault is declared promptly.
use vstd::prelude::*;

verus! {

/// What to do about a failed verification.
#[derive(Debug, Clone, Copy, PartialEq, Eq, Structural)]
pub enum Rung {
    /// Nothing yet.
    Wait,
    /// Send the firmware's `restart` command.
    Restart,
    /// Pulse the reset line through USB-JTAG.
    PulseReset,
    /// Declare a fault that only a human can clear.
    GiveUp,
}

/// Where one connection stands on the recovery ladder.
pub struct RecoveryLadder {
    /// The board is on native USB.
    pub native_usb: bool,
    /// Recovery attempts that earlier connections of this board made.
    pub carried_cycles: u32,
    /// Failed verifications since the last success.
    pub verify_failures: u32,
    /// The restart was sent on this connection.
    pub restart_sent: bool,
    /// The reset line was pulsed on this connection.
    pub hw_reset_done: bool,
}

impl RecoveryLadder {
    /// The bottom of the ladder.
    pub open spec fn bottom(native_usb: bool, carried_cycles: u32) -> RecoveryLadder {
        RecoveryLadder {
            native_usb,
            carried_cycles,
            verify_failures: 0,
            restart_sent: false,
            hw_reset_done: false,
        }
    }

    /// The rung that one more failure leads to.
    pub open spec fn next_rung(self) -> Rung {
        let failures = self.verify_failures + 1;
        if self.carried_cycles >= 1 && failures >= 2 {
            Rung::GiveUp
        } else if failures >= 2 && !self.restart_sent {
            Rung::Restart
        } else if failures >= 4 && self.native_usb && !self.hw_reset_done {
            Rung::PulseReset
        } else if failures >= 6 && self.restart_sent {
            Rung::GiveUp
        } else {
            Rung::Wait
        }
    }

    /// The ladder after one more failure.
    pub open spec fn failed(self) -> RecoveryLadder {
        RecoveryLadder {
            verify_failures: (self.verify_failures + 1) as u32,
            restart_sent: self.restart_sent || self.next_rung() == Rung::Restart,
            hw_reset_done: self.hw_reset_done || self.next_rung() == Rung::PulseReset,
            ..self
        }
    }

    /// The ladder after a success.
    pub open spec fn succeeded(self) -> RecoveryLadder {
        RecoveryLadder { verify_failures: 0, ..self }
    }

    /// Start at the bottom.
    pub fn new(native_usb: bool, carried_cycles: u32) -> (r: Self)
        ensures
            r == Self::bottom(native_usb, carried_cycles),
    {
        RecoveryLadder {
            native_usb,
            carried_cycles,
            verify_failures: 0,
            restart_sent: false,
            hw_reset_done: false,
        }
    }

    /// Count one more failure, and say what to do about it.
    pub fn fail(&mut self) -> (r: Rung)
        requires
            old(self).verify_failures < u32::MAX,
        ensures
            r == old(self).next_rung(),
            *final(self) == old(self).failed(),
    {
        self.verify_failures = self.verify_failures + 1;
        if self.carried_cycles >= 1 && self.verify_failures >= 2 {
            // An earlier connection ran the ladder, and the chip came back still broken.
            Rung::GiveUp
        } else if self.verify_failures >= 2 && !self.restart_sent {
            self.restart_sent = true;
            Rung::Restart
        } else if self.verify_failures >= 4 && self.native_usb && !self.hw_reset_done {
            self.hw_reset_done = true;
            Rung::PulseReset
        } else if self.verify_failures >= 6 && self.restart_sent {
            Rung::GiveUp
        } else {
            Rung::Wait
        }
    }

    /// Note a success.
    pub fn succeed(&mut self)
        ensures
            *final(self) == old(self).succeeded(),
    {
        self.verify_failures = 0;
    }
}

// ─── Laws ─────────────────────────────────────────────────────────────────

/// The ladder after a run of verifications, `true` for a success.
pub open spec fn after(ladder: RecoveryLadder, events: Seq<bool>) -> RecoveryLadder
    decreases events.len(),
{
    if events.len() == 0 {
        ladder
    } else {
        let before = after(ladder, events.drop_last());
        if events.last() {
            before.succeeded()
        } else {
            before.failed()
        }
    }
}

/// The rungs that a run of verifications leads to.
pub open spec fn rungs(ladder: RecoveryLadder, events: Seq<bool>) -> Seq<Rung>
    decreases events.len(),
{
    if events.len() == 0 {
        Seq::empty()
    } else {
        let before = after(ladder, events.drop_last());
        let earlier = rungs(ladder, events.drop_last());
        if events.last() {
            earlier
        } else {
            earlier.push(before.next_rung())
        }
    }
}

/// How often `rung` occurs.
pub open spec fn occurrences(taken: Seq<Rung>, rung: Rung) -> nat {
    taken.filter(|r: Rung| r == rung).len()
}

proof fn lemma_occurrences_push(taken: Seq<Rung>, next: Rung, rung: Rung)
    ensures
        occurrences(taken.push(next), rung) == occurrences(taken, rung) + (if next == rung {
            1nat
        } else {
            0nat
        }),
{
    reveal(Seq::filter);
    assert(taken.push(next).drop_last() =~= taken);
}

/// Whatever happens on one connection, the firmware is restarted at most once and the
/// reset line is pulsed at most once; on a connection that carries over recovery
/// attempts neither happens at all. The native-USB rung is for native USB alone.
pub proof fn law_each_rung_fires_once(native_usb: bool, carried: u32, events: Seq<bool>)
    requires
        events.len() <= u32::MAX,
    ensures
        ({
            let taken = rungs(RecoveryLadder::bottom(native_usb, carried), events);
            &&& occurrences(taken, Rung::Restart) <= 1
            &&& occurrences(taken, Rung::PulseReset) <= 1
            &&& carried >= 1 ==> occurrences(taken, Rung::Restart) == 0
            &&& carried >= 1 ==> occurrences(taken, Rung::PulseReset) == 0
            &&& !native_usb ==> occurrences(taken, Rung::PulseReset) == 0
        }),
{
    lemma_trace(native_usb, carried, events);
}

/// What holds all along a run.
proof fn lemma_trace(native_usb: bool, carried: u32, events: Seq<bool>)
    requires
        events.len() <= u32::MAX,
    ensures
        ({
            let bottom = RecoveryLadder::bottom(native_usb, carried);
            let l = after(bottom, events);
            let taken = rungs(bottom, events);
            &&& l.native_usb == native_usb
            &&& l.carried_cycles == carried
            &&& l.verify_failures <= events.len()
            &&& occurrences(taken, Rung::Restart) == (if l.restart_sent {
                1nat
            } else {
                0nat
            })
            &&& occurrences(taken, Rung::PulseReset) == (if l.hw_reset_done {
                1nat
            } else {
                0nat
            })
            &&& carried >= 1 ==> !l.restart_sent && !l.hw_reset_done
            &&& !native_usb ==> !l.hw_reset_done
        }),
    decreases events.len(),
{
    let bottom = RecoveryLadder::bottom(native_usb, carried);
    if events.len() == 0 {
        reveal(Seq::filter);
    } else {
        lemma_trace(native_usb, carried, events.drop_last());
        let before = after(bottom, events.drop_last());
        let earlier = rungs(bottom, events.drop_last());
        if !events.last() {
            lemma_occurrences_push(earlier, before.next_rung(), Rung::Restart);
            lemma_occurrences_push(earlier, before.next_rung(), Rung::PulseReset);
        }
    }
}

/// `n` failures in a row.
pub open spec fn failures(n: nat) -> Seq<bool> {
    Seq::new(n, |i: int| false)
}

/// The rung of the `n`-th failure in a row on a fresh connection: restart at the
/// second, reset pulse at the fourth on native USB, and from the sixth on a declared
/// fault; with recovery attempts carried over, a declared fault from the second on.
pub proof fn law_ladder_order(native_usb: bool, carried: u32, n: nat)
    requires
        1 <= n <= u32::MAX,
    ensures
        ({
            let bottom = RecoveryLadder::bottom(native_usb, carried);
            after(bottom, failures((n - 1) as nat)).next_rung() == (if carried >= 1 {
                if n >= 2 {
                    Rung::GiveUp
                } else {
                    Rung::Wait
                }
            } else if n == 2 {
                Rung::Restart
            } else if n == 4 && native_usb {
                Rung::PulseReset
            } else if n >= 6 {
                Rung::GiveUp
            } else {
                Rung::Wait
            })
        }),
{
    lemma_failures(native_usb, carried, (n - 1) as nat);
}

proof fn lemma_failures(native_usb: bool, carried: u32, k: nat)
    requires
        k < u32::MAX,
    ensures
        after(RecoveryLadder::bottom(native_usb, carried), failures(k)) == (RecoveryLadder {
            native_usb,
            carried_cycles: carried,
            verify_failures: k as u32,
            restart_sent: carried == 0 && k >= 2,
            hw_reset_done: carried == 0 && k >= 4 && native_usb,
        }),
    decreases k,
{
    if k > 0 {
        lemma_failures(native_usb, carried, (k - 1) as nat);
        assert(failures(k).drop_last() =~= failures((k - 1) as nat));
    }
}

/// One failure, rung by rung. A board that comes back broken from an earlier recovery is given
/// up at the second failure in a row. On any other the restart comes once, at the second or
/// later; the pulse once, on native USB, at the fourth or later; and from the sixth on, when
/// both are spent or do not apply, it is given up. Everything else is waited for.
pub proof fn law_one_failure(ladder: &mut RecoveryLadder, r: Rung)
    requires
        old(ladder).verify_failures < u32::MAX,
        call_ensures(RecoveryLadder::fail, (ladder,), r),
    ensures
        ({
            let n = old(ladder).verify_failures + 1;
            let l = *old(ladder);
            &&& l.carried_cycles >= 1 ==> r == (if n >= 2 {
                Rung::GiveUp
            } else {
                Rung::Wait
            })
            &&& l.carried_cycles == 0 ==> {
                &&& r == Rung::Restart <==> n >= 2 && !l.restart_sent
                &&& r == Rung::PulseReset <==> n >= 4 && l.restart_sent && l.native_usb
                    && !l.hw_reset_done
                &&& r == Rung::GiveUp <==> n >= 6 && l.restart_sent && (l.hw_reset_done
                    || !l.native_usb)
            }
        }),
        final(ladder).verify_failures == old(ladder).verify_failures + 1,
        final(ladder).native_usb == old(ladder).native_usb,
        final(ladder).carried_cycles == old(ladder).carried_cycles,
        final(ladder).restart_sent == (old(ladder).restart_sent || r == Rung::Restart),
        final(ladder).hw_reset_done == (old(ladder).hw_reset_done || r == Rung::PulseReset),
{
}

/// A success only ends the row of failures; a connection begins with none and with no rung
/// taken.
pub proof fn law_success_and_beginning(
    ladder: &mut RecoveryLadder,
    native_usb: bool,
    carried: u32,
    fresh: RecoveryLadder,
)
    requires
        call_ensures(RecoveryLadder::succeed, (ladder,), ()),
        call_ensures(RecoveryLadder::new, (native_usb, carried), fresh),
    ensures
        final(ladder).verify_failures == 0,
        final(ladder).native_usb == old(ladder).native_usb,
        final(ladder).carried_cycles == old(ladder).carried_cycles,
        final(ladder).restart_sent == old(ladder).restart_sent,
        final(ladder).hw_reset_done == old(ladder).hw_reset_done,
        fresh.native_usb == native_usb,
        fresh.carried_cycles == carried,
        fresh.verify_failures == 0,
        !fresh.restart_sent && !fresh.hw_reset_done,
{
}

} // verus!
