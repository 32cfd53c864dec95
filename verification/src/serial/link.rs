//! One open serial connection: what to make of the bytes, commands, requests and
//! settings that reach it.
//!
//! The caller owns the port, the channels and the clock. It hands each event in and
//! carries out what comes back.
use crate::models::commands::OutputMode;
use crate::models::device::{DeviceInfo, DeviceInfoView};
use crate::serial::exchange;
use crate::serial::exchange::{InfoExchangeError, InfoExchangeErrorView};
use crate::serial::recovery::{RecoveryLadder, Rung};
use crate::serial::status::{DeviceStatus, DeviceStatusView};
use crate::text;
use vstd::prelude::*;
use vstd::string::*;

verus! {

// ─── The chip ─────────────────────────────────────────────────────────────

/// The connected chip and the wire layout `V` of its CSI frames. There is one only for
/// chips with a known layout.
#[derive(Debug)]
pub struct ChipInfo<V> {
    /// Chip name as the firmware reports it.
    pub name: String,
    /// Wire layout of its frames.
    pub variant: V,
}

/// `chip` is what an identification and a table of layouts come to: the named chip,
/// with the layout that the table gives for the name; nothing where the chip is not
/// named or not in the table.
pub open spec fn chip_from<V, F: Fn(&str) -> Option<V>>(
    info: DeviceInfoView,
    layout_of: F,
    chip: Option<ChipInfo<V>>,
) -> bool {
    match info.chip {
        None => chip is None,
        Some(name) => exists|arg: &str, layout: Option<V>|
            arg@ == name && #[trigger] call_ensures(layout_of, (arg,), layout) && match layout {
                None => chip is None,
                Some(v) => chip is Some && chip->0.name@ == name && chip->0.variant == v,
            },
    }
}

impl<V> ChipInfo<V> {
    /// The chip of an identification, with its layout from the table `layout_of`.
    pub fn from_info<F: Fn(&str) -> Option<V>>(info: &DeviceInfo, layout_of: F) -> (r: Option<Self>)
        requires
            forall|name: &str| call_requires(layout_of, (name,)),
        ensures
            chip_from(info@, layout_of, r),
    {
        match &info.chip {
            None => None,
            Some(chip) => {
                let name = chip.as_str();
                let layout = layout_of(name);
                assert(call_ensures(layout_of, (name,), layout));
                match layout {
                    None => None,
                    Some(variant) => Some(ChipInfo { name: chip.clone(), variant }),
                }
            },
        }
    }
}

// ─── Events and decisions ─────────────────────────────────────────────────

/// Why a connection ended.
#[derive(Debug, Clone, Copy, PartialEq, Eq, Structural)]
pub enum ConnectionExit {
    /// The link broke: open the same port again.
    Disconnected,
    /// Nobody can send commands any more.
    CommandChannelClosed,
    /// The device was removed.
    Shutdown,
}

impl ConnectionExit {
    /// Whether the task opens the port again.
    pub fn reconnects(self) -> (r: bool)
        ensures
            r == (self is Disconnected),
    {
        match self {
            ConnectionExit::Disconnected => true,
            _ => false,
        }
    }
}

/// What came of reading up to a frame delimiter.
#[derive(Debug, Clone, Copy, PartialEq, Eq, Structural)]
pub enum FrameRead {
    /// The port was closed.
    Eof,
    /// A chunk is in the buffer.
    Chunk,
    /// The read failed.
    Failed,
}

/// What to do with a frame.
#[derive(Debug, Clone, Copy, PartialEq, Eq, Structural)]
pub struct FramePlan {
    /// Decode it and write it to the dump file.
    pub decode: bool,
    /// Broadcast it to the clients.
    pub broadcast: bool,
}

/// What to make of a read.
#[derive(Debug, Clone, Copy, PartialEq, Eq, Structural)]
pub enum ReadStep {
    /// End the connection.
    Exit(ConnectionExit),
    /// Nothing to forward.
    Skip,
    /// The buffer holds a frame to forward.
    Frame(FramePlan),
}

/// What to do about the dump file.
#[derive(Debug)]
pub enum SinkAction {
    /// Leave it as it is.
    Keep,
    /// Close and finalize the file that is open, if there is one, and open the file at
    /// `path` for the chip `chip`.
    Open { path: String, chip: String },
    /// Close and finalize the file that is open, if there is one. The file at `path` is
    /// asked for, but frames of this chip cannot be decoded.
    Unidentified { path: String },
    /// Close and finalize it.
    Close,
}

/// The mathematical form of a [`SinkAction`].
pub enum SinkActionView {
    Keep,
    Open { path: Seq<char>, chip: Seq<char> },
    Unidentified { path: Seq<char> },
    Close,
}

impl View for SinkAction {
    type V = SinkActionView;

    open spec fn view(&self) -> SinkActionView {
        match self {
            SinkAction::Keep => SinkActionView::Keep,
            SinkAction::Open { path, chip } => SinkActionView::Open { path: path@, chip: chip@ },
            SinkAction::Unidentified { path } => SinkActionView::Unidentified { path: path@ },
            SinkAction::Close => SinkActionView::Close,
        }
    }
}

/// How to report an undecodable frame.
#[derive(Debug)]
pub enum DecodeReport {
    /// Show the frame, in hexadecimal: the first few tell what is wrong.
    Frame(String),
    /// Report the number of failures so far.
    Total(u64),
    /// Say nothing.
    Quiet,
}

/// The mathematical form of a [`DecodeReport`].
pub enum DecodeReportView {
    Frame(Seq<char>),
    Total(u64),
    Quiet,
}

impl View for DecodeReport {
    type V = DecodeReportView;

    open spec fn view(&self) -> DecodeReportView {
        match self {
            DecodeReport::Frame(s) => DecodeReportView::Frame(s@),
            DecodeReport::Total(n) => DecodeReportView::Total(*n),
            DecodeReport::Quiet => DecodeReportView::Quiet,
        }
    }
}

// ─── The connection ───────────────────────────────────────────────────────

/// The byte that ends a frame on the wire.
pub const DELIMITER: u8 = 0;

/// How long to wait before a lost port is opened again, in milliseconds.
pub const RECONNECT_DELAY_MS: u64 = 800;

/// How long a chip is given to print its boot banner after the port was opened, in
/// milliseconds.
pub const SETTLE_MS: u64 = 700;

/// How often verification is attempted again, in milliseconds.
pub const REVERIFY_INTERVAL_MS: u64 = 3000;

/// How often the frame counts are reported, in milliseconds.
pub const METRICS_INTERVAL_MS: u64 = 1000;

/// How many frames are buffered for slow clients.
pub const CSI_BROADCAST_CAPACITY: usize = 1024;

/// The bytes that make the firmware restart. The leading line break makes the line
/// editor consume stale partial input first.
pub fn restart_request() -> (r: &'static str)
    ensures
        r@ == "\r\nrestart\r\n"@,
{
    "\r\nrestart\r\n"
}

/// State of one open connection; `V` is the wire layout of a chip.
pub struct Link<V> {
    /// The identified chip.
    pub chip: Option<ChipInfo<V>>,
    /// Where frames go.
    pub mode: OutputMode,
    /// The dump file of the current session.
    pub session_path: Option<String>,
    /// The next chunk may hold command echoes and is not a frame.
    pub drop_next_chunk: bool,
    /// The dump file is open.
    pub sink_open: bool,
    /// Frames that could not be decoded.
    pub decode_errors: u64,
    /// Frames read since the last report.
    pub frames_in: u64,
    /// Frames broadcast since the last report.
    pub frames_broadcast: u64,
    /// Recovery of a device that does not verify.
    pub ladder: RecoveryLadder,
}

/// A chunk without its delimiter.
pub open spec fn frame_body(chunk: Seq<u8>) -> Seq<u8> {
    if chunk.len() > 0 && chunk.last() == DELIMITER {
        chunk.drop_last()
    } else {
        chunk
    }
}

/// The outcome of an exchange breaks the connection.
pub open spec fn is_hard(result: Result<DeviceInfoView, InfoExchangeErrorView>) -> bool {
    result is Err && result->Err_0 is Hard
}

/// The status after the exchange that opens a connection.
pub open spec fn status_on_open(
    s: DeviceStatusView,
    result: Result<DeviceInfoView, InfoExchangeErrorView>,
) -> DeviceStatusView {
    match result {
        Ok(info) => s.verified(info),
        Err(e) => s.unverified().noting(e),
    }
}

/// Verification is attempted again while the device is neither verified nor
/// collecting: the CLI is locked during a collection.
pub fn wants_reverify(firmware_verified: bool, collection_running: bool) -> (r: bool)
    ensures
        r == (!firmware_verified && !collection_running),
{
    !firmware_verified && !collection_running
}

/// Why an info request is refused, if it is.
pub fn info_refusal(collection_running: bool) -> (r: Option<String>)
    ensures
        text::opt(r) == (if collection_running {
            Some("collection is running; CLI is locked until stop"@)
        } else {
            None
        }),
{
    if collection_running {
        Some("collection is running; CLI is locked until stop".to_string())
    } else {
        None
    }
}

impl<V> Link<V> {
    /// The state of a connection at its beginning.
    pub open spec fn is_fresh(
        &self,
        native_usb: bool,
        carried_cycles: u32,
        mode: OutputMode,
        session_path: Option<Seq<char>>,
    ) -> bool {
        &&& self.mode == mode
        &&& text::opt(self.session_path) == session_path
        &&& self.drop_next_chunk
        &&& !self.sink_open
        &&& self.decode_errors == 0
        &&& self.frames_in == 0
        &&& self.frames_broadcast == 0
        &&& self.ladder == RecoveryLadder::bottom(native_usb, carried_cycles)
    }

    /// The dump file is open only while frames are dumped and a session names it.
    pub open spec fn sink_sound(&self) -> bool {
        self.sink_open ==> self.mode.dumps() && self.session_path is Some
    }

    /// Begin a connection with the outcome of its first info exchange. A broken link
    /// ends it at once; a device that merely did not identify itself is kept, and
    /// asked again later.
    ///
    /// The recovery attempts that count as carried over are those that stand after
    /// the exchange.
    pub fn open<F: Fn(&str) -> Option<V>>(
        native_usb: bool,
        mode: OutputMode,
        session_path: Option<String>,
        status: &mut DeviceStatus,
        result: Result<DeviceInfo, InfoExchangeError>,
        layout_of: F,
    ) -> (r: Result<Self, ConnectionExit>)
        requires
            forall|name: &str| call_requires(layout_of, (name,)),
        ensures
            final(status)@ == status_on_open(old(status)@, exchange::result_view(result)),
            match r {
                Err(exit) => is_hard(exchange::result_view(result)) && exit
                    == ConnectionExit::Disconnected,
                Ok(link) => {
                    &&& !is_hard(exchange::result_view(result))
                    &&& link.is_fresh(
                        native_usb,
                        final(status)@.recovery_cycles,
                        mode,
                        text::opt(session_path),
                    )
                    &&& match result {
                        Ok(info) => chip_from(info@, layout_of, link.chip),
                        Err(_) => link.chip is None,
                    }
                },
            },
    {
        let mut chip: Option<ChipInfo<V>> = None;
        match result {
            Ok(info) => {
                chip = ChipInfo::from_info(&info, layout_of);
                status.verify(info);
            },
            Err(e) => {
                status.unverify();
                status.note(&e);
                if let InfoExchangeError::Hard(_) = e {
                    return Err(ConnectionExit::Disconnected);
                }
            },
        }
        Ok(
            Link {
                chip,
                mode,
                session_path,
                drop_next_chunk: true,
                sink_open: false,
                decode_errors: 0,
                frames_in: 0,
                frames_broadcast: 0,
                ladder: RecoveryLadder::new(native_usb, status.recovery_cycles),
            },
        )
    }

    /// The connection with the next chunk to be dropped.
    pub open spec fn dropping(self) -> Self {
        Link { drop_next_chunk: true, ..self }
    }

    // ── Frames ────────────────────────────────────────────────────────────

    /// What to do with a frame in the present mode: it is decoded for the dump file
    /// only where the file is open and the chip known.
    pub open spec fn frame_plan(self) -> FramePlan {
        FramePlan {
            decode: self.mode.dumps() && self.sink_open && self.chip is Some,
            broadcast: self.mode.streams(),
        }
    }

    /// What to make of a chunk. The first chunk after a command is dropped, for it may
    /// hold the echo; while no collection runs, nothing is forwarded; an empty frame is
    /// none.
    pub open spec fn chunk_step(self, chunk: Seq<u8>, collecting: bool) -> ReadStep {
        if self.drop_next_chunk || !collecting || frame_body(chunk).len() == 0 {
            ReadStep::Skip
        } else {
            ReadStep::Frame(self.frame_plan())
        }
    }

    /// The connection after a chunk.
    pub open spec fn after_chunk(self, chunk: Seq<u8>, collecting: bool) -> Self {
        Link {
            drop_next_chunk: false,
            frames_in: if self.chunk_step(chunk, collecting) is Frame {
                (self.frames_in + 1) as u64
            } else {
                self.frames_in
            },
            ..self
        }
    }

    /// Take what was read into `buf`. Where a frame is to be forwarded, `buf` holds
    /// just the frame; else it is emptied for the next read.
    pub fn on_read(&mut self, outcome: FrameRead, buf: &mut Vec<u8>, collecting: bool) -> (r:
        ReadStep)
        requires
            old(self).frames_in < u64::MAX,
        ensures
            match outcome {
                FrameRead::Chunk => {
                    &&& r == old(self).chunk_step(old(buf)@, collecting)
                    &&& *final(self) == old(self).after_chunk(old(buf)@, collecting)
                    &&& final(buf)@ == (if r is Frame {
                        frame_body(old(buf)@)
                    } else {
                        Seq::empty()
                    })
                },
                _ => {
                    &&& r == ReadStep::Exit(ConnectionExit::Disconnected)
                    &&& *final(self) == *old(self)
                    &&& final(buf)@ == old(buf)@
                },
            },
    {
        match outcome {
            FrameRead::Eof => {
                return ReadStep::Exit(ConnectionExit::Disconnected);
            },
            FrameRead::Failed => {
                return ReadStep::Exit(ConnectionExit::Disconnected);
            },
            FrameRead::Chunk => {},
        }
        if self.drop_next_chunk {
            self.drop_next_chunk = false;
            buf.clear();
            return ReadStep::Skip;
        }
        if buf.len() > 0 && buf[buf.len() - 1] == DELIMITER {
            buf.pop();
            assert(buf@ =~= old(buf)@.drop_last());
        }
        assert(buf@ == frame_body(old(buf)@));
        if collecting && buf.len() > 0 {
            self.frames_in = self.frames_in + 1;
            let dumps = match self.mode {
                OutputMode::Dump => true,
                OutputMode::Both => true,
                OutputMode::Stream => false,
            };
            let streams = match self.mode {
                OutputMode::Stream => true,
                OutputMode::Both => true,
                OutputMode::Dump => false,
            };
            ReadStep::Frame(
                FramePlan {
                    decode: dumps && self.sink_open && self.chip.is_some(),
                    broadcast: streams,
                },
            )
        } else {
            buf.clear();
            ReadStep::Skip
        }
    }

    /// Note that a frame was dealt with, and whether some client got it.
    pub fn after_frame(&mut self, buf: &mut Vec<u8>, sent: bool)
        requires
            old(self).frames_broadcast < u64::MAX,
        ensures
            final(buf)@ == Seq::<u8>::empty(),
            *final(self) == (Link {
                frames_broadcast: if sent {
                    (old(self).frames_broadcast + 1) as u64
                } else {
                    old(self).frames_broadcast
                },
                ..*old(self)
            }),
    {
        if sent {
            self.frames_broadcast = self.frames_broadcast + 1;
        }
        buf.clear();
    }

    /// Note that a frame could not be decoded, and say how to report it: the first
    /// three in full, then at every power of two.
    pub fn on_decode_error(&mut self, frame: &[u8]) -> (r: DecodeReport)
        requires
            old(self).decode_errors < u64::MAX,
        ensures
            *final(self) == (Link {
                decode_errors: (old(self).decode_errors + 1) as u64,
                ..*old(self)
            }),
            r@ == decode_report((old(self).decode_errors + 1) as u64, frame@),
    {
        self.decode_errors = self.decode_errors + 1;
        if self.decode_errors <= 3 {
            DecodeReport::Frame(to_hex(frame))
        } else if power_of_two(self.decode_errors) {
            DecodeReport::Total(self.decode_errors)
        } else {
            DecodeReport::Quiet
        }
    }

    /// Start a new reporting period, and give the counts of the last one: frames read,
    /// frames broadcast.
    pub fn on_metrics_tick(&mut self) -> (r: (u64, u64))
        ensures
            r == (old(self).frames_in, old(self).frames_broadcast),
            *final(self) == (Link { frames_in: 0, frames_broadcast: 0, ..*old(self) }),
    {
        let counts = (self.frames_in, self.frames_broadcast);
        self.frames_in = 0;
        self.frames_broadcast = 0;
        counts
    }

    // ── Commands ──────────────────────────────────────────────────────────

    /// Take a command to send, or the news that there will be none: the line to write,
    /// or the end of the connection.
    pub fn on_command(&mut self, cmd: Option<String>) -> (r: Result<String, ConnectionExit>)
        ensures
            match cmd {
                Some(c) => r is Ok && (r->Ok_0)@ == c@ + "\r\n"@ && *final(self) == old(
                    self,
                ).dropping(),
                None => r == Err::<String, _>(ConnectionExit::CommandChannelClosed)
                    && *final(self) == *old(self),
            },
    {
        match cmd {
            Some(c) => {
                self.drop_next_chunk = true;
                let mut line = c;
                line.append("\r\n");
                Ok(line)
            },
            None => Err(ConnectionExit::CommandChannelClosed),
        }
    }

    // ── Verification ──────────────────────────────────────────────────────

    /// Begin an info exchange: its text must not be taken for a frame, nor must what
    /// was read of a frame so far.
    pub fn begin_exchange(&mut self, buf: &mut Vec<u8>)
        ensures
            *final(self) == old(self).dropping(),
            final(buf)@ == Seq::<u8>::empty(),
    {
        self.drop_next_chunk = true;
        buf.clear();
    }

    /// Whether a stale stream is drained before an unverified device is asked again.
    /// On native USB the device was not reset when the port was opened.
    pub fn drains_first(&self) -> (r: bool)
        ensures
            r == self.ladder.native_usb,
    {
        self.ladder.native_usb
    }

    /// Take the outcome of a repeated verification, and say what to do next.
    pub fn after_reverify<F: Fn(&str) -> Option<V>>(
        &mut self,
        status: &mut DeviceStatus,
        result: Result<DeviceInfo, InfoExchangeError>,
        layout_of: F,
    ) -> (r: Result<Rung, ConnectionExit>)
        requires
            forall|name: &str| call_requires(layout_of, (name,)),
            old(self).ladder.verify_failures < u32::MAX,
        ensures
            match exchange::result_view(result) {
                Ok(info) => {
                    &&& r == Ok::<_, ConnectionExit>(Rung::Wait)
                    &&& final(status)@ == old(status)@.verified(info)
                    &&& chip_from(info, layout_of, final(self).chip)
                    &&& *final(self) == (Link {
                        chip: final(self).chip,
                        ladder: old(self).ladder.succeeded(),
                        ..*old(self)
                    })
                },
                Err(InfoExchangeErrorView::Hard(_)) => {
                    &&& r == Err::<Rung, _>(ConnectionExit::Disconnected)
                    &&& final(status)@ == old(status)@
                    &&& *final(self) == *old(self)
                },
                Err(e) => {
                    &&& r == Ok::<_, ConnectionExit>(old(self).ladder.next_rung())
                    &&& final(status)@ == old(status)@.noting(e).after_rung(
                        old(self).ladder.next_rung(),
                    )
                    &&& *final(self) == (Link { ladder: old(self).ladder.failed(), ..*old(self) })
                },
            },
    {
        match result {
            Ok(info) => {
                self.chip = ChipInfo::from_info(&info, layout_of);
                status.verify(info);
                self.ladder.succeed();
                Ok(Rung::Wait)
            },
            Err(e) => {
                if let InfoExchangeError::Hard(_) = e {
                    return Err(ConnectionExit::Disconnected);
                }
                status.note(&e);
                let rung = self.ladder.fail();
                status.take_rung(rung);
                Ok(rung)
            },
        }
    }

    /// Take the outcome of an exchange that a client asked for: the answer to the
    /// client, and whether the connection ends.
    pub fn after_info_request<F: Fn(&str) -> Option<V>>(
        &mut self,
        status: &mut DeviceStatus,
        result: Result<DeviceInfo, InfoExchangeError>,
        layout_of: F,
    ) -> (r: (Result<DeviceInfo, String>, Option<ConnectionExit>))
        requires
            forall|name: &str| call_requires(layout_of, (name,)),
        ensures
            final(status)@ == status_on_open(old(status)@, exchange::result_view(result)),
            match exchange::result_view(result) {
                Ok(info) => {
                    &&& r.0 is Ok && (r.0->Ok_0)@ == info
                    &&& r.1 is None
                    &&& chip_from(info, layout_of, final(self).chip)
                    &&& *final(self) == (Link { chip: final(self).chip, ..*old(self) })
                },
                Err(e) => {
                    &&& r.0 is Err && (r.0->Err_0)@ == e.message()
                    &&& r.1 == (if e is Hard {
                        Some(ConnectionExit::Disconnected)
                    } else {
                        None
                    })
                    &&& *final(self) == *old(self)
                },
            },
    {
        match result {
            Ok(info) => {
                self.chip = ChipInfo::from_info(&info, layout_of);
                let answer = info.clone();
                status.verify(info);
                (Ok(answer), None)
            },
            Err(e) => {
                status.unverify();
                status.note(&e);
                match e {
                    InfoExchangeError::Soft(m) => (Err(m), None),
                    InfoExchangeError::BootFault(m) => (Err(m), None),
                    InfoExchangeError::Hard(m) => (Err(m), Some(ConnectionExit::Disconnected)),
                }
            },
        }
    }

    // ── The dump file ─────────────────────────────────────────────────────

    /// What the settings ask for: an open file while frames are dumped and a session is
    /// named, none while they are only streamed.
    pub open spec fn wanted_sink(self) -> SinkActionView {
        if self.mode.dumps() {
            if self.sink_open {
                SinkActionView::Keep
            } else {
                match self.session_path {
                    None => SinkActionView::Keep,
                    Some(path) => match self.chip {
                        None => SinkActionView::Unidentified { path: path@ },
                        Some(chip) => SinkActionView::Open { path: path@, chip: chip.name@ },
                    },
                }
            }
        } else if self.sink_open {
            SinkActionView::Close
        } else {
            SinkActionView::Keep
        }
    }

    /// Reconcile the dump file with the settings.
    pub fn sync_sink(&mut self) -> (r: SinkAction)
        ensures
            r@ == old(self).wanted_sink(),
            *final(self) == (Link {
                sink_open: old(self).sink_open && !(r is Close),
                ..*old(self)
            }),
    {
        match self.mode {
            OutputMode::Stream => {
                if self.sink_open {
                    self.sink_open = false;
                    SinkAction::Close
                } else {
                    SinkAction::Keep
                }
            },
            _ => {
                if self.sink_open {
                    return SinkAction::Keep;
                }
                match &self.session_path {
                    None => SinkAction::Keep,
                    Some(path) => match &self.chip {
                        None => SinkAction::Unidentified { path: path.clone() },
                        Some(chip) => SinkAction::Open {
                            path: path.clone(),
                            chip: chip.name.clone(),
                        },
                    },
                }
            },
        }
    }

    /// Note that the dump file was opened.
    pub fn on_sink_opened(&mut self)
        ensures
            *final(self) == (Link { sink_open: true, ..*old(self) }),
    {
        self.sink_open = true;
    }

    /// The open dump file stays that of the session: the session does not change, or
    /// names the same file again.
    pub open spec fn keeps_file(self, session: Option<Option<String>>) -> bool {
        match session {
            None => true,
            Some(path) => path is Some && text::opt(path) == text::opt(self.session_path),
        }
    }

    /// The settings after a change of mode, of session, or of both. A session that ends,
    /// or names another file, takes the dump file with it.
    pub open spec fn reconfigured(
        self,
        mode: Option<OutputMode>,
        session: Option<Option<String>>,
    ) -> Self {
        Link {
            mode: match mode {
                Some(m) => m,
                None => self.mode,
            },
            session_path: match session {
                Some(path) => path,
                None => self.session_path,
            },
            sink_open: self.sink_open && self.keeps_file(session),
            ..self
        }
    }

    /// What a change of mode, of session, or of both means for the dump file.
    pub open spec fn settings_action(
        self,
        mode: Option<OutputMode>,
        session: Option<Option<String>>,
    ) -> SinkActionView {
        let changed = self.reconfigured(mode, session);
        if mode is None && session is None {
            SinkActionView::Keep
        } else if self.sink_open && !changed.sink_open && changed.wanted_sink() is Keep {
            SinkActionView::Close
        } else {
            changed.wanted_sink()
        }
    }

    /// The connection after a change of mode, of session, or of both.
    pub open spec fn settled(
        self,
        mode: Option<OutputMode>,
        session: Option<Option<String>>,
    ) -> Self {
        let changed = self.reconfigured(mode, session);
        Link {
            sink_open: changed.sink_open && !(self.settings_action(mode, session) is Close),
            ..changed
        }
    }

    /// Take a change of the output mode, of the session, or of both, and say what to do
    /// about the dump file.
    pub fn on_settings(&mut self, mode: Option<OutputMode>, session: Option<Option<String>>) -> (r:
        SinkAction)
        ensures
            r@ == old(self).settings_action(mode, session),
            *final(self) == old(self).settled(mode, session),
    {
        let touched = mode.is_some() || session.is_some();
        let mut dropped = false;
        if let Some(m) = mode {
            self.mode = m;
        }
        if let Some(path) = session {
            let same = match &path {
                Some(new) => match &self.session_path {
                    Some(current) => text::str_eq(new.as_str(), current.as_str()),
                    None => false,
                },
                None => false,
            };
            if !same {
                dropped = self.sink_open;
                self.sink_open = false;
            }
            self.session_path = path;
        }
        if !touched {
            return SinkAction::Keep;
        }
        match self.sync_sink() {
            SinkAction::Keep => if dropped {
                SinkAction::Close
            } else {
                SinkAction::Keep
            },
            action => action,
        }
    }
}

// ─── Reporting undecodable frames ─────────────────────────────────────────

/// A lower-case hexadecimal digit.
pub open spec fn hex_digit(d: u8) -> char {
    if d < 10 {
        (48 + d) as char
    } else {
        (87 + d) as char
    }
}

/// Bytes in lower-case hexadecimal, two digits each.
pub open spec fn hex(frame: Seq<u8>) -> Seq<char>
    decreases frame.len(),
{
    if frame.len() == 0 {
        Seq::empty()
    } else {
        hex(frame.drop_last()).push(hex_digit(frame.last() / 16)).push(hex_digit(frame.last() % 16))
    }
}

/// A power of two.
pub open spec fn is_power_of_two(n: u64) -> bool
    decreases n,
{
    n == 1 || (n > 1 && n % 2 == 0 && is_power_of_two(n / 2))
}

/// How the `n`-th undecodable frame is reported.
pub open spec fn decode_report(n: u64, frame: Seq<u8>) -> DecodeReportView {
    if n <= 3 {
        DecodeReportView::Frame(hex(frame))
    } else if is_power_of_two(n) {
        DecodeReportView::Total(n)
    } else {
        DecodeReportView::Quiet
    }
}

fn push_hex_digit(out: &mut String, d: u8)
    requires
        d < 16,
    ensures
        final(out)@ == old(out)@.push(hex_digit(d)),
{
    if d < 10 {
        out.push((48 + d) as char);
    } else {
        out.push((87 + d) as char);
    }
}

fn to_hex(frame: &[u8]) -> (r: String)
    ensures
        r@ == hex(frame@),
{
    let mut out = String::new();
    let mut i: usize = 0;
    assert(frame@.take(0) =~= Seq::empty());
    while i < frame.len()
        invariant
            i <= frame@.len(),
            out@ == hex(frame@.take(i as int)),
        decreases frame@.len() - i,
    {
        assert(frame@.take(i + 1).drop_last() =~= frame@.take(i as int));
        push_hex_digit(&mut out, frame[i] / 16);
        push_hex_digit(&mut out, frame[i] % 16);
        i += 1;
    }
    assert(frame@.take(frame@.len() as int) =~= frame@);
    out
}

fn power_of_two(n: u64) -> (r: bool)
    ensures
        r == is_power_of_two(n),
    decreases n,
{
    if n == 1 {
        true
    } else if n > 1 && n % 2 == 0 {
        power_of_two(n / 2)
    } else {
        false
    }
}

// ─── Laws ─────────────────────────────────────────────────────────────────

/// Nothing leaves the connection while no collection runs: what is still in flight when
/// a collection is stopped is dropped.
pub proof fn law_forwards_only_while_collecting<V>(link: Link<V>, chunk: Seq<u8>)
    ensures
        link.chunk_step(chunk, false) == ReadStep::Skip,
{
}

/// The chunk that follows a command or an info exchange is never forwarded, and only
/// that one is held back.
pub proof fn law_echo_is_dropped<V>(link: Link<V>, echo: Seq<u8>, chunk: Seq<u8>, collecting: bool)
    ensures
        link.dropping().chunk_step(echo, collecting) == ReadStep::Skip,
        !link.dropping().after_chunk(echo, collecting).drop_next_chunk,
        collecting && frame_body(chunk).len() > 0 ==> link.dropping().after_chunk(
            echo,
            collecting,
        ).chunk_step(chunk, collecting) is Frame,
{
}

/// What can reach a connection between two frames.
pub enum LinkEvent {
    /// A chunk was read, while a collection ran or not.
    Chunk(Seq<u8>, bool),
    /// A command was sent.
    Command,
    /// An info exchange took place.
    Exchange,
}

/// The connection after a run of events.
pub open spec fn after_events<V>(link: Link<V>, events: Seq<LinkEvent>) -> Link<V>
    decreases events.len(),
{
    if events.len() == 0 {
        link
    } else {
        let before = after_events(link, events.drop_last());
        match events.last() {
            LinkEvent::Chunk(chunk, collecting) => before.after_chunk(chunk, collecting),
            LinkEvent::Command => before.dropping(),
            LinkEvent::Exchange => before.dropping(),
        }
    }
}

/// Over a whole connection, a chunk is forwarded exactly if a collection runs, it holds
/// more than a delimiter, and it directly follows another chunk: the first one of the
/// connection, and the first one after every command and exchange, is held back.
pub proof fn law_forwarded_exactly<V>(
    link: Link<V>,
    events: Seq<LinkEvent>,
    chunk: Seq<u8>,
    collecting: bool,
)
    requires
        link.drop_next_chunk,
    ensures
        after_events(link, events).chunk_step(chunk, collecting) is Frame <==> collecting
            && frame_body(chunk).len() > 0 && events.len() > 0 && events.last() is Chunk,
{
}

/// A frame is forwarded as it stood on the wire, without its delimiter, and the mode says
/// where to: to the clients, to an open dump file of a known chip, or to both.
pub proof fn law_frame_is_verbatim<V>(link: Link<V>, body: Seq<u8>)
    requires
        body.len() > 0,
        !link.drop_next_chunk,
    ensures
        frame_body(body.push(DELIMITER)) == body,
        link.chunk_step(body.push(DELIMITER), true) == ReadStep::Frame(link.frame_plan()),
        link.mode is Stream ==> link.frame_plan() == (FramePlan { decode: false, broadcast: true }),
        link.mode is Dump ==> !link.frame_plan().broadcast,
        link.mode is Both ==> link.frame_plan().broadcast,
        link.mode.dumps() && link.sink_open && link.chip is Some ==> link.frame_plan().decode,
{
    assert(body.push(DELIMITER).drop_last() =~= body);
}

/// The dump file is open only while frames are dumped and a session names it: a fresh
/// connection has none, a file is only asked for where both hold, and no event on the
/// connection breaks it.
pub proof fn law_dump_file_has_a_session<V>(
    link: Link<V>,
    chunk: Seq<u8>,
    collecting: bool,
    mode: Option<OutputMode>,
    session: Option<Option<String>>,
)
    requires
        link.sink_sound(),
    ensures
        link.dropping().sink_sound(),
        link.after_chunk(chunk, collecting).sink_sound(),
        link.settled(mode, session).sink_sound(),
        link.wanted_sink() is Open ==> (Link { sink_open: true, ..link }).sink_sound(),
        link.wanted_sink() is Open ==> link.chip is Some,
{
}

/// A dump file that stays open is the one that the session names: one for another path
/// is never written on, and a path that is named while frames of a known chip are dumped
/// is opened unless it is open already.
pub proof fn law_dump_file_is_the_named_one<V>(
    link: Link<V>,
    mode: Option<OutputMode>,
    path: String,
)
    requires
        link.sink_sound(),
    ensures
        ({
            let after = link.settled(mode, Some(Some(path)));
            &&& text::opt(after.session_path) == Some(path@)
            &&& after.sink_open ==> text::opt(link.session_path) == Some(path@)
            &&& after.mode.dumps() && after.chip is Some && !after.sink_open
                ==> link.settings_action(mode, Some(Some(path))) == (SinkActionView::Open {
                path: path@,
                chip: after.chip->0.name@,
            })
        }),
{
}

/// Once the settings have been reconciled, nothing is left to do about the dump file
/// but to open it.
pub proof fn law_settings_are_settled<V>(
    link: Link<V>,
    mode: Option<OutputMode>,
    session: Option<Option<String>>,
)
    requires
        link.sink_sound(),
    ensures
        !(link.settled(mode, session).wanted_sink() is Close),
        link.settled(mode, session).sink_open ==> link.settled(mode, session).wanted_sink()
            == SinkActionView::Keep,
{
}

/// A connection begins with the outcome of its first exchange: a broken link ends it, and the
/// status is that of the outcome. Otherwise it begins in the given mode and session, with the
/// first chunk to be dropped, no dump file, all counts at zero, the chip of the
/// identification, and at the bottom of the ladder.
pub proof fn law_connection_begins<V, F: Fn(&str) -> Option<V>>(
    native_usb: bool,
    mode: OutputMode,
    session_path: Option<String>,
    status: &mut DeviceStatus,
    result: Result<DeviceInfo, InfoExchangeError>,
    layout_of: F,
    r: Result<Link<V>, ConnectionExit>,
)
    requires
        call_ensures(
            Link::<V>::open::<F>,
            (native_usb, mode, session_path, status, result, layout_of),
            r,
        ),
    ensures
        r is Err <==> result is Err && result->Err_0 is Hard,
        r is Err ==> r->Err_0 == ConnectionExit::Disconnected,
        r is Ok ==> {
            let link = r->Ok_0;
            &&& link.mode == mode
            &&& text::opt(link.session_path) == text::opt(session_path)
            &&& link.drop_next_chunk
            &&& !link.sink_open
            &&& link.decode_errors == 0 && link.frames_in == 0 && link.frames_broadcast == 0
            &&& link.ladder.native_usb == native_usb
            &&& link.ladder.carried_cycles == final(status).recovery_cycles
            &&& link.ladder.verify_failures == 0
            &&& !link.ladder.restart_sent && !link.ladder.hw_reset_done
            &&& result is Err ==> link.chip is None
            &&& result is Ok ==> chip_of(result->Ok_0, layout_of, link.chip)
        },
        result is Ok ==> verified_as(*old(status), *final(status), result->Ok_0),
        result is Err ==> unverified_by(*old(status), *final(status), result->Err_0),
{
    if r is Ok && result is Ok {
        lemma_chip_of(result->Ok_0, layout_of, r->Ok_0.chip);
    }
}

/// The chip that an identification names, with the layout that the table has for it; none
/// where the identification names none or the table has none.
pub open spec fn chip_of<V, F: Fn(&str) -> Option<V>>(
    info: DeviceInfo,
    layout_of: F,
    chip: Option<ChipInfo<V>>,
) -> bool {
    &&& info.chip is None ==> chip is None
    &&& info.chip is Some ==> exists|name: &str, layout: Option<V>|
        name@ == info.chip->0@ && #[trigger] call_ensures(layout_of, (name,), layout) && (
        layout is None <==> chip is None) && (chip is Some ==> chip->0.name@ == name@
            && chip->0.variant == layout->0)
}

proof fn lemma_chip_of<V, F: Fn(&str) -> Option<V>>(
    info: DeviceInfo,
    layout_of: F,
    chip: Option<ChipInfo<V>>,
)
    requires
        chip_from(info@, layout_of, chip),
    ensures
        chip_of(info, layout_of, chip),
{
    if info.chip is Some {
        let (arg, layout) = choose|arg: &str, layout: Option<V>|
            arg@ == info@.chip->0 && #[trigger] call_ensures(layout_of, (arg,), layout)
                && match layout {
                None => chip is None,
                Some(v) => chip is Some && chip->0.name@ == info@.chip->0 && chip->0.variant == v,
            };
        assert(call_ensures(layout_of, (arg,), layout));
    }
}

/// The device identified itself: the flag is up, the identity known, and nothing held against
/// it; link and collection are as before.
pub open spec fn verified_as(before: DeviceStatus, after: DeviceStatus, info: DeviceInfo) -> bool {
    &&& after.firmware_verified
    &&& after@.device_info == Some(info@)
    &&& after@.fault is None
    &&& after.recovery_cycles == 0
    &&& after.serial_connected == before.serial_connected
    &&& after.collection_running == before.collection_running
}

/// The device did not identify itself: the flag is down and the identity void, a fault that was
/// recognised is noted, and the rest is as before.
pub open spec fn unverified_by(
    before: DeviceStatus,
    after: DeviceStatus,
    error: InfoExchangeError,
) -> bool {
    &&& !after.firmware_verified
    &&& after@.device_info is None
    &&& after@.fault == (if error is BootFault {
        Some(error->BootFault_0@)
    } else {
        before@.fault
    })
    &&& after.recovery_cycles == before.recovery_cycles
    &&& after.serial_connected == before.serial_connected
    &&& after.collection_running == before.collection_running
}

/// A read: a port that is closed or fails ends the connection and changes nothing. A chunk is a
/// frame exactly if it is not the one to be dropped, a collection runs, and something stands
/// before its delimiter; a frame is handed on without the delimiter and counted, to the
/// clients unless frames are only dumped, to the dump file where frames are dumped, the file
/// is open and the chip known. Whatever was read, the next chunk is not dropped, and nothing
/// else changes.
pub proof fn law_reads<V>(
    link: &mut Link<V>,
    outcome: FrameRead,
    buf: &mut Vec<u8>,
    collecting: bool,
    r: ReadStep,
)
    requires
        old(link).frames_in < u64::MAX,
        call_ensures(Link::<V>::on_read, (link, outcome, buf, collecting), r),
    ensures
        outcome is Eof || outcome is Failed ==> r == ReadStep::Exit(ConnectionExit::Disconnected)
            && *final(link) == *old(link) && final(buf)@ == old(buf)@,
        outcome is Chunk ==> {
            let chunk = old(buf)@;
            let empty = chunk.len() == 0 || (chunk.len() == 1 && chunk[0] == 0);
            let taken = !old(link).drop_next_chunk && collecting && !empty;
            &&& r is Frame <==> taken
            &&& r is Skip <==> !taken
            &&& !taken ==> final(buf)@.len() == 0
            &&& taken && chunk.last() == 0 ==> final(buf)@ == chunk.drop_last()
            &&& taken && chunk.last() != 0 ==> final(buf)@ == chunk
            &&& taken ==> r->Frame_0.broadcast == !(old(link).mode is Dump)
            &&& taken ==> r->Frame_0.decode == (!(old(link).mode is Stream) && old(link).sink_open
                && old(link).chip is Some)
            &&& !final(link).drop_next_chunk
            &&& final(link).frames_in == old(link).frames_in + (if taken {
                1int
            } else {
                0
            })
            &&& *final(link) == (Link {
                drop_next_chunk: final(link).drop_next_chunk,
                frames_in: final(link).frames_in,
                ..*old(link)
            })
        },
{
}

/// A command is written as it is, ended by carriage return and line feed, and the next chunk is
/// dropped for its echo; without senders the connection ends. An exchange has the next chunk
/// dropped too, and what was read so far.
pub proof fn law_commands_and_exchanges<V>(
    link: &mut Link<V>,
    cmd: Option<String>,
    r: Result<String, ConnectionExit>,
    buf: &mut Vec<u8>,
)
    ensures
        call_ensures(Link::<V>::on_command, (link, cmd), r) ==> {
            &&& cmd is Some ==> r is Ok && r->Ok_0@ == cmd->0@ + "\r\n"@ && *final(link) == (Link {
                drop_next_chunk: true,
                ..*old(link)
            })
            &&& cmd is None ==> r is Err && r->Err_0 == ConnectionExit::CommandChannelClosed
                && *final(link) == *old(link)
        },
        call_ensures(Link::<V>::begin_exchange, (link, buf), ()) ==> final(buf)@.len() == 0
            && *final(link) == (Link { drop_next_chunk: true, ..*old(link) }),
{
}

/// A frame that a client got is counted, and one that none got is not; the buffer is emptied
/// either way. The counts are reported and start over.
pub proof fn law_frames_are_counted<V>(
    link: &mut Link<V>,
    buf: &mut Vec<u8>,
    sent: bool,
    counts: (u64, u64),
)
    ensures
        old(link).frames_broadcast < u64::MAX && call_ensures(
            Link::<V>::after_frame,
            (link, buf, sent),
            (),
        ) ==> final(buf)@.len() == 0 && final(link).frames_broadcast == old(link).frames_broadcast
            + (if sent {
            1int
        } else {
            0
        }) && *final(link) == (Link {
            frames_broadcast: final(link).frames_broadcast,
            ..*old(link)
        }),
        call_ensures(Link::<V>::on_metrics_tick, (link,), counts) ==> counts.0 == old(link).frames_in
            && counts.1 == old(link).frames_broadcast && *final(link) == (Link {
            frames_in: 0,
            frames_broadcast: 0,
            ..*old(link)
        }),
{
}

/// A frame that cannot be decoded is counted. The first three are shown, byte by byte in
/// hexadecimal; after that the number is reported whenever it is a power of two, and nothing
/// else is.
pub proof fn law_undecodable_frames<V>(
    link: &mut Link<V>,
    frame: &[u8],
    r: DecodeReport,
    i: int,
)
    requires
        old(link).decode_errors < u64::MAX,
        call_ensures(Link::<V>::on_decode_error, (link, frame), r),
    ensures
        final(link).decode_errors == old(link).decode_errors + 1,
        *final(link) == (Link { decode_errors: final(link).decode_errors, ..*old(link) }),
        final(link).decode_errors <= 3 <==> r is Frame,
        r is Frame ==> r->Frame_0@.len() == 2 * frame@.len(),
        r is Frame && 0 <= i < frame@.len() ==> reads_hex(
            r->Frame_0@[2 * i],
            r->Frame_0@[2 * i + 1],
            frame@[i] as int,
        ),
        final(link).decode_errors > 3 ==> (r is Total <==> exists|k: nat| #[trigger]
            vstd::arithmetic::power2::pow2(k) == final(link).decode_errors),
        r is Total ==> r->Total_0 == final(link).decode_errors,
{
    lemma_hex(frame@, i);
    lemma_power_of_two(final(link).decode_errors);
}

/// Two lower-case hexadecimal digits of a value.
pub open spec fn reads_hex(high: char, low: char, value: int) -> bool {
    let h = high as int;
    let l = low as int;
    &&& 48 <= h <= 57 || 97 <= h <= 102
    &&& 48 <= l <= 57 || 97 <= l <= 102
    &&& value == 16 * (if h <= 57 {
        h - 48
    } else {
        h - 87
    }) + (if l <= 57 {
        l - 48
    } else {
        l - 87
    })
}

proof fn lemma_hex_pair(b: u8)
    ensures
        reads_hex(hex_digit(b / 16), hex_digit(b % 16), b as int),
{
    assert(b / 16 < 16);
    assert(b % 16 < 16);
    assert(b == 16 * (b / 16) + b % 16);
}

proof fn lemma_hex(frame: Seq<u8>, i: int)
    ensures
        hex(frame).len() == 2 * frame.len(),
        0 <= i < frame.len() ==> reads_hex(hex(frame)[2 * i], hex(frame)[2 * i + 1], frame[i] as int),
    decreases frame.len(),
{
    if frame.len() > 0 {
        lemma_hex(frame.drop_last(), i);
        lemma_hex_pair(frame.last());
    }
}

proof fn lemma_power_of_two(n: u64)
    ensures
        is_power_of_two(n) <==> exists|k: nat| #[trigger] vstd::arithmetic::power2::pow2(k) == n,
    decreases n,
{
    vstd::arithmetic::power2::lemma2_to64();
    if n == 1 {
        assert(vstd::arithmetic::power2::pow2(0) == 1);
    } else if n > 1 {
        if is_power_of_two(n) {
            lemma_power_of_two(n / 2);
            let k = choose|k: nat| #[trigger] vstd::arithmetic::power2::pow2(k) == n / 2;
            vstd::arithmetic::power2::lemma_pow2_unfold(k + 1);
            assert(vstd::arithmetic::power2::pow2(k + 1) == n);
        }
        if exists|k: nat| #[trigger] vstd::arithmetic::power2::pow2(k) == n {
            let k = choose|k: nat| #[trigger] vstd::arithmetic::power2::pow2(k) == n;
            assert(k > 0) by {
                if k == 0 {
                    assert(vstd::arithmetic::power2::pow2(0) == 1);
                }
            }
            vstd::arithmetic::power2::lemma_pow2_unfold(k);
            let half = (k - 1) as nat;
            assert(n == 2 * vstd::arithmetic::power2::pow2(half));
            assert(vstd::arithmetic::power2::pow2(half) == n / 2);
            lemma_power_of_two(n / 2);
        }
    } else {
        assert forall|k: nat| #[trigger] vstd::arithmetic::power2::pow2(k) != n by {
            vstd::arithmetic::power2::lemma_pow2_pos(k);
        }
    }
}

/// A repeated verification. One that succeeds sets the chip, ends the row of failures and calls
/// for nothing; a broken link ends the connection and changes nothing; any other failure notes
/// its fault and takes the rung that the ladder gives, on the ladder and in the status.
pub proof fn law_repeated_verification<V, F: Fn(&str) -> Option<V>>(
    link: &mut Link<V>,
    status: &mut DeviceStatus,
    result: Result<DeviceInfo, InfoExchangeError>,
    layout_of: F,
    r: Result<Rung, ConnectionExit>,
    ladder: &mut RecoveryLadder,
    rung: Rung,
)
    requires
        old(link).ladder.verify_failures < u32::MAX,
        call_ensures(Link::<V>::after_reverify::<F>, (link, status, result, layout_of), r),
        *old(ladder) == old(link).ladder,
        call_ensures(RecoveryLadder::fail, (ladder,), rung),
    ensures
        r is Err <==> result is Err && result->Err_0 is Hard,
        r is Err ==> r->Err_0 == ConnectionExit::Disconnected && *final(link) == *old(link)
            && final(status)@ == old(status)@,
        result is Ok ==> {
            &&& r->Ok_0 == Rung::Wait
            &&& verified_as(*old(status), *final(status), result->Ok_0)
            &&& chip_of(result->Ok_0, layout_of, final(link).chip)
            &&& final(link).ladder.verify_failures == 0
            &&& *final(link) == (Link {
                chip: final(link).chip,
                ladder: (RecoveryLadder { verify_failures: 0, ..old(link).ladder }),
                ..*old(link)
            })
        },
        result is Err && !(result->Err_0 is Hard) ==> {
            &&& r->Ok_0 == rung
            &&& *final(link) == (Link { ladder: *final(ladder), ..*old(link) })
            &&& final(status).firmware_verified == old(status).firmware_verified
            &&& final(status)@.device_info == old(status)@.device_info
            &&& result->Err_0 is BootFault ==> final(status)@.fault == Some(
                result->Err_0->BootFault_0@,
            )
            &&& result->Err_0 is Soft && rung != Rung::GiveUp ==> final(status)@.fault
                == old(status)@.fault
            &&& rung == Rung::GiveUp ==> final(status)@.fault is Some
            &&& rung == Rung::Restart && old(status).recovery_cycles < u32::MAX
                ==> final(status).recovery_cycles == old(status).recovery_cycles + 1
            &&& rung != Rung::Restart ==> final(status).recovery_cycles == old(status).recovery_cycles
        },
{
    if result is Ok {
        lemma_chip_of(result->Ok_0, layout_of, final(link).chip);
    }
}

/// An exchange that a client asked for is answered with its outcome: the identification, or the
/// reason why there is none. The status follows the outcome, the chip only a success, and only
/// a broken link ends the connection.
pub proof fn law_requested_exchange<V, F: Fn(&str) -> Option<V>>(
    link: &mut Link<V>,
    status: &mut DeviceStatus,
    result: Result<DeviceInfo, InfoExchangeError>,
    layout_of: F,
    r: (Result<DeviceInfo, String>, Option<ConnectionExit>),
)
    requires
        call_ensures(Link::<V>::after_info_request::<F>, (link, status, result, layout_of), r),
    ensures
        r.0 is Ok <==> result is Ok,
        result is Ok ==> (r.0->Ok_0)@ == (result->Ok_0)@ && r.1 is None,
        result matches Err(InfoExchangeError::Soft(m)) ==> (r.0->Err_0)@ == m@ && r.1 is None,
        result matches Err(InfoExchangeError::BootFault(m)) ==> (r.0->Err_0)@ == m@ && r.1 is None,
        result matches Err(InfoExchangeError::Hard(m)) ==> (r.0->Err_0)@ == m@ && r.1 == Some(
            ConnectionExit::Disconnected,
        ),
        result is Ok ==> verified_as(*old(status), *final(status), result->Ok_0) && chip_of(
            result->Ok_0,
            layout_of,
            final(link).chip,
        ) && *final(link) == (Link { chip: final(link).chip, ..*old(link) }),
        result is Err ==> unverified_by(*old(status), *final(status), result->Err_0)
            && *final(link) == *old(link),
{
    if result is Ok {
        lemma_chip_of(result->Ok_0, layout_of, final(link).chip);
    }
}

/// The dump file in the present settings: while frames are only streamed it is closed if it is
/// open; otherwise one that is open stays, and one that is not is opened where a session names
/// it and the chip is known.
pub proof fn law_dump_file_follows_the_settings<V>(link: &mut Link<V>, r: SinkAction)
    requires
        call_ensures(Link::<V>::sync_sink, (link,), r),
    ensures
        old(link).mode is Stream ==> (if old(link).sink_open {
            r is Close
        } else {
            r is Keep
        }) && !final(link).sink_open,
        !(old(link).mode is Stream) && old(link).sink_open ==> r is Keep && final(link).sink_open,
        !(old(link).mode is Stream) && !old(link).sink_open ==> !final(link).sink_open
            && opens_named_file(*old(link), r),
        *final(link) == (Link { sink_open: final(link).sink_open, ..*old(link) }),
{
}

/// The file that a session names is opened for the chip that is known; without a session there
/// is nothing to do, and without a chip it is only asked for.
pub open spec fn opens_named_file<V>(link: Link<V>, action: SinkAction) -> bool {
    match (link.session_path, link.chip) {
        (None, _) => action is Keep,
        (Some(path), None) => action@ == (SinkActionView::Unidentified { path: path@ }),
        (Some(path), Some(chip)) => action@ == (SinkActionView::Open {
            path: path@,
            chip: chip.name@,
        }),
    }
}

/// A change of the settings: each setting that is given is taken over, the other stays. A dump
/// file stays open exactly if frames are still dumped and the session still names it; one that
/// does not is closed, by being replaced where another is opened.
pub proof fn law_settings_change<V>(
    link: &mut Link<V>,
    mode: Option<OutputMode>,
    session: Option<Option<String>>,
    r: SinkAction,
)
    requires
        call_ensures(Link::<V>::on_settings, (link, mode, session), r),
    ensures
        final(link).mode == (if mode is Some {
            mode->0
        } else {
            old(link).mode
        }),
        session is Some ==> text::opt(final(link).session_path) == text::opt(session->0),
        session is None ==> text::opt(final(link).session_path) == text::opt(
            old(link).session_path,
        ),
        *final(link) == (Link {
            mode: final(link).mode,
            session_path: final(link).session_path,
            sink_open: final(link).sink_open,
            ..*old(link)
        }),
        mode is None && session is None ==> r is Keep && final(link).sink_open == old(link).sink_open,
        mode is Some || session is Some ==> {
            let same = session is None || (session->0 is Some && old(link).session_path is Some
                && session->0->0@ == old(link).session_path->0@);
            let was_open = old(link).sink_open;
            &&& final(link).mode is Stream ==> !final(link).sink_open && (if was_open {
                r is Close
            } else {
                r is Keep
            })
            &&& !(final(link).mode is Stream) && was_open && same ==> final(link).sink_open
                && r is Keep
            &&& !(final(link).mode is Stream) && !(was_open && same) ==> !final(link).sink_open
            &&& !(final(link).mode is Stream) && !was_open ==> opens_named_file(*final(link), r)
            &&& !(final(link).mode is Stream) && was_open && !same ==> if (
            final(link).session_path is None) {
                r is Close
            } else {
                opens_named_file(*final(link), r)
            }
        },
{
}

/// Small decisions: a device is asked again exactly while it is neither verified nor
/// collecting; a request is refused exactly during a collection; a stale stream is drained
/// first exactly on native USB; a file that was opened counts as open; only a lost link is
/// opened again.
pub proof fn law_small_decisions<V>(
    link: &mut Link<V>,
    verified: bool,
    running: bool,
    again: bool,
    refusal: Option<String>,
    drains: bool,
    exit: ConnectionExit,
    reconnects: bool,
    line: &'static str,
)
    requires
        call_ensures(wants_reverify, (verified, running), again),
        call_ensures(info_refusal, (running,), refusal),
        call_ensures(Link::<V>::drains_first, (&*old(link),), drains),
        call_ensures(Link::<V>::on_sink_opened, (link,), ()),
        call_ensures(ConnectionExit::reconnects, (exit,), reconnects),
        call_ensures(restart_request, (), line),
    ensures
        again <==> !verified && !running,
        refusal is Some <==> running,
        refusal is Some ==> refusal->0@ == "collection is running; CLI is locked until stop"@,
        drains <==> old(link).ladder.native_usb,
        *final(link) == (Link { sink_open: true, ..*old(link) }),
        reconnects <==> exit is Disconnected,
        line@ == "\r\nrestart\r\n"@,
{
}

/// The rhythm of a connection: a lost port is opened again after 800 ms, a chip is given 700 ms
/// to boot, verification is repeated every three seconds, the counts are reported every second,
/// 1024 frames are buffered, and a zero byte ends a frame. An attempt to verify, drain
/// included, is over before the next is due.
pub proof fn law_rhythm()
    ensures
        RECONNECT_DELAY_MS == 800,
        SETTLE_MS == 700,
        REVERIFY_INTERVAL_MS == 3000,
        METRICS_INTERVAL_MS == 1000,
        CSI_BROADCAST_CAPACITY == 1024,
        DELIMITER == 0,
        exchange::QUIESCE_MS + exchange::INFO_RESPONSE_TIMEOUT_MS < REVERIFY_INTERVAL_MS,
{
}

/// The chip of an identification is the one that it names, with the layout that the table has
/// for that name.
pub proof fn law_chip_is_the_named_one<V, F: Fn(&str) -> Option<V>>(
    info: DeviceInfo,
    layout_of: F,
    r: Option<ChipInfo<V>>,
)
    requires
        call_ensures(ChipInfo::<V>::from_info::<F>, (&info, layout_of), r),
    ensures
        chip_of(info, layout_of, r),
{
    lemma_chip_of(info, layout_of, r);
}

} // verus!
