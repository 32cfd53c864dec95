//! Modem-control lines: what to do with DTR and RTS when a port is opened, and how to
//! reset a chip through them.
//!
//! On the boards in question RTS drives the chip's EN line and DTR its BOOT strap:
//! `{DTR=0, RTS=1}` holds the chip in reset, `{DTR=1, RTS=0}` latches the strap, and
//! `{0, 0}` releases both.
use crate::text;
use vstd::prelude::*;
use vstd::string::*;

verus! {

/// One step of a plan.
#[derive(Debug, Clone, Copy, PartialEq, Eq, Structural)]
pub enum LineStep {
    /// Set DTR. A failure does not matter.
    Dtr(bool),
    /// Set RTS.
    Rts(bool),
    /// Wait this many milliseconds.
    Pause(u64),
}

/// The state of the two lines.
pub struct Lines {
    pub dtr: bool,
    pub rts: bool,
}

impl Lines {
    /// The state in which the kernel leaves the lines when it opens a port.
    pub open spec fn at_open() -> Lines {
        Lines { dtr: true, rts: true }
    }

    /// The chip is held in reset.
    pub open spec fn in_reset(self) -> bool {
        !self.dtr && self.rts
    }

    /// Neither line is asserted: the chip runs its application.
    pub open spec fn released(self) -> bool {
        !self.dtr && !self.rts
    }

    /// The state after one step.
    pub open spec fn apply(self, step: LineStep) -> Lines {
        match step {
            LineStep::Dtr(v) => Lines { dtr: v, ..self },
            LineStep::Rts(v) => Lines { rts: v, ..self },
            LineStep::Pause(_) => self,
        }
    }

    /// The state after the first `n` steps of a plan.
    pub open spec fn run(self, plan: Seq<LineStep>, n: int) -> Lines
        decreases n,
    {
        if n <= 0 {
            self
        } else {
            self.run(plan, n - 1).apply(plan[n - 1])
        }
    }
}

/// What to do with the lines right after a port was opened.
///
/// A UART bridge is reset by an RTS pulse. On native USB the pulse would make the port
/// re-enumerate, so the lines are only released, RTS first: the other order passes
/// through the reset state.
pub open spec fn open_plan(native_usb: bool) -> Seq<LineStep> {
    if native_usb {
        seq![LineStep::Rts(false), LineStep::Dtr(false)]
    } else {
        seq![
            LineStep::Dtr(false),
            LineStep::Rts(true),
            LineStep::Pause(100),
            LineStep::Rts(false),
        ]
    }
}

/// The plan for a port that was just opened.
pub fn plan_on_open(native_usb: bool) -> (r: Vec<LineStep>)
    ensures
        r@ == open_plan(native_usb),
{
    let mut plan: Vec<LineStep> = Vec::new();
    if native_usb {
        plan.push(LineStep::Rts(false));
        plan.push(LineStep::Dtr(false));
    } else {
        plan.push(LineStep::Dtr(false));
        plan.push(LineStep::Rts(true));
        plan.push(LineStep::Pause(100));
        plan.push(LineStep::Rts(false));
    }
    assert(plan@ =~= open_plan(native_usb));
    plan
}

/// Whether a step of the opening plan that failed ends the plan. On a UART bridge the
/// pulse is given up with its first RTS write that fails; on native USB the lines are
/// released as far as the port lets them.
pub fn failure_ends_plan(native_usb: bool, step: LineStep) -> (r: bool)
    ensures
        r == (!native_usb && step is Rts),
{
    match step {
        LineStep::Rts(_) => !native_usb,
        _ => false,
    }
}

/// The reset pulse: RTS pulses while DTR stays low, so the chip boots its application
/// and not the ROM loader. DTR is written once more behind RTS, for hosts that latch
/// it only then.
pub open spec fn reset_plan() -> Seq<LineStep> {
    seq![
        LineStep::Dtr(false),
        LineStep::Rts(true),
        LineStep::Dtr(false),
        LineStep::Pause(100),
        LineStep::Rts(false),
    ]
}

/// The steps of the reset pulse.
pub fn reset_pulse() -> (r: Vec<LineStep>)
    ensures
        r@ == reset_plan(),
{
    let mut plan: Vec<LineStep> = Vec::new();
    plan.push(LineStep::Dtr(false));
    plan.push(LineStep::Rts(true));
    plan.push(LineStep::Dtr(false));
    plan.push(LineStep::Pause(100));
    plan.push(LineStep::Rts(false));
    assert(plan@ =~= reset_plan());
    plan
}

/// Why a reset pulse failed, by the step that failed.
pub open spec fn pulse_failure(step: LineStep, reason: Seq<char>) -> Option<Seq<char>> {
    match step {
        LineStep::Rts(true) => Some("RTS assert failed: "@ + reason),
        LineStep::Rts(false) => Some("RTS deassert failed: "@ + reason),
        _ => None,
    }
}

/// The message for a step of the reset pulse that failed; `None` where the failure
/// does not matter.
pub fn describe_pulse_failure(step: LineStep, reason: &str) -> (r: Option<String>)
    ensures
        text::opt(r) == pulse_failure(step, reason@),
{
    let mut message = match step {
        LineStep::Rts(true) => "RTS assert failed: ".to_string(),
        LineStep::Rts(false) => "RTS deassert failed: ".to_string(),
        _ => {
            return None;
        },
    };
    message.append(reason);
    Some(message)
}

// ─── Laws ─────────────────────────────────────────────────────────────────

/// Opening a native-USB port never holds the chip in reset, at no point of the plan,
/// and leaves both lines released: the running application is not touched.
pub proof fn law_native_open_never_resets(n: int)
    requires
        0 <= n <= open_plan(true).len(),
    ensures
        !Lines::at_open().run(open_plan(true), n).in_reset(),
        Lines::at_open().run(open_plan(true), open_plan(true).len() as int).released(),
{
    reveal_with_fuel(Lines::run, 3);
}

/// Opening a UART bridge holds the chip in reset for the length of the pause, and
/// releases it, whatever state the lines were in before.
pub proof fn law_bridge_open_resets(lines: Lines)
    ensures
        lines.run(open_plan(false), 2).in_reset(),
        open_plan(false)[2] == LineStep::Pause(100),
        lines.run(open_plan(false), 3).in_reset(),
        lines.run(open_plan(false), 4).released(),
        open_plan(false).len() == 4,
{
    reveal_with_fuel(Lines::run, 5);
}

/// The reset pulse keeps DTR low from its first step on, holds the chip in reset for
/// the length of the pause and ends with both lines released, whatever state the lines
/// were in before.
pub proof fn law_reset_pulse_boots_application(lines: Lines, n: int)
    requires
        1 <= n <= reset_plan().len(),
    ensures
        !lines.run(reset_plan(), n).dtr,
        lines.run(reset_plan(), 3).in_reset(),
        reset_plan()[3] == LineStep::Pause(100),
        lines.run(reset_plan(), 4).in_reset(),
        lines.run(reset_plan(), reset_plan().len() as int).released(),
{
    reveal_with_fuel(Lines::run, 6);
}

/// The plan for a port that was just opened, carried out: a native-USB chip is never held in
/// reset, a chip behind a bridge is held in it for a tenth of a second, and in the end both
/// lines are released.
pub proof fn law_open_plan_carried_out(plan: Vec<LineStep>, native_usb: bool, n: int)
    requires
        call_ensures(plan_on_open, (native_usb,), plan),
        0 <= n <= plan@.len(),
    ensures
        plan@.len() >= 2,
        native_usb ==> ({
            let l = Lines::at_open().run(plan@, n);
            l.dtr || !l.rts
        }),
        native_usb ==> ({
            let l = Lines::at_open().run(plan@, plan@.len() as int);
            !l.dtr && !l.rts
        }),
        !native_usb ==> ({
            let l = Lines::at_open().run(plan@, plan@.len() as int);
            !l.dtr && !l.rts
        }),
        !native_usb ==> exists|k: int|
            0 <= k < plan@.len() && #[trigger] plan@[k] == LineStep::Pause(100) && ({
                let l = Lines::at_open().run(plan@, k);
                !l.dtr && l.rts
            }),
{
    reveal_with_fuel(Lines::run, 5);
    if !native_usb {
        assert(plan@[2] == LineStep::Pause(100));
    }
}

/// The reset pulse, carried out from any state of the lines: DTR stays low from the first step
/// on, the chip is held in reset for a tenth of a second, and then released.
pub proof fn law_reset_pulse_carried_out(plan: Vec<LineStep>, lines: Lines, n: int)
    requires
        call_ensures(reset_pulse, (), plan),
        1 <= n <= plan@.len(),
    ensures
        !lines.run(plan@, n).dtr,
        !lines.run(plan@, plan@.len() as int).rts,
        exists|k: int|
            0 <= k < plan@.len() && #[trigger] plan@[k] == LineStep::Pause(100) && lines.run(
                plan@,
                k,
            ).rts,
{
    reveal_with_fuel(Lines::run, 6);
    assert(plan@[3] == LineStep::Pause(100));
}

/// A step sets its own line, to the value that it names, and a pause none.
pub proof fn law_steps_set_their_line(lines: Lines, plan: Seq<LineStep>, step: LineStep)
    ensures
        lines.run(plan, 0) == lines,
        step matches LineStep::Dtr(v) ==> lines.apply(step).dtr == v && lines.apply(step).rts
            == lines.rts,
        step matches LineStep::Rts(v) ==> lines.apply(step).rts == v && lines.apply(step).dtr
            == lines.dtr,
        step is Pause ==> lines.apply(step) == lines,
{
}

/// A failed write of RTS ends the opening of a bridge, and is what fails a reset pulse, with
/// its reason; any other failure is passed over.
pub proof fn law_failed_steps(
    native_usb: bool,
    step: LineStep,
    ends: bool,
    reason: &str,
    r: Option<String>,
)
    requires
        call_ensures(failure_ends_plan, (native_usb, step), ends),
        call_ensures(describe_pulse_failure, (step, reason), r),
    ensures
        ends <==> step is Rts && !native_usb,
        r is Some <==> step is Rts,
        step == LineStep::Rts(true) ==> r->0@ == "RTS assert failed: "@ + reason@,
        step == LineStep::Rts(false) ==> r->0@ == "RTS deassert failed: "@ + reason@,
{
}

} // verus!
