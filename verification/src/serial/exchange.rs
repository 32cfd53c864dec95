//! The two conversations that precede a run: draining a stale stream, and asking
//! the firmware who it is.
//!
//! Both are driven from outside: the caller performs the reads and writes and hands
//! their outcomes in; what to make of them is decided here.
use crate::bytes;
use crate::models::device::{DeviceInfo, DeviceInfoView};
use crate::serial::boot_fault;
use crate::serial::boot_fault::detect_boot_fault;
use crate::serial::info;
use crate::serial::info::parse_info_block;
use vstd::prelude::*;
use vstd::string::*;

verus! {

// ─── Outcomes ─────────────────────────────────────────────────────────────

/// What came of a bounded write.
#[derive(Debug)]
pub enum WriteOutcome {
    /// The bytes were handed over.
    Done,
    /// The link failed, with the reason.
    Failed(String),
    /// The write did not finish in time.
    TimedOut,
}

/// What came of a bounded read into a buffer.
#[derive(Debug)]
pub enum ReadOutcome {
    /// The peer closed the link.
    Eof,
    /// Bytes arrived.
    Data,
    /// The link failed, with the reason.
    Failed(String),
    /// Nothing complete arrived in time.
    TimedOut,
}

/// Why an info exchange brought no identification.
#[derive(Debug)]
pub enum InfoExchangeError {
    /// The link is healthy, but the firmware is missing, silent or unreadable.
    Soft(String),
    /// The link itself failed: it has to be opened again.
    Hard(String),
    /// The chip printed the signature of a known fault. The link is healthy, but the
    /// chip will not recover on its own.
    BootFault(String),
}

/// The mathematical form of an [`InfoExchangeError`].
pub enum InfoExchangeErrorView {
    Soft(Seq<char>),
    Hard(Seq<char>),
    BootFault(Seq<char>),
}

impl View for InfoExchangeError {
    type V = InfoExchangeErrorView;

    open spec fn view(&self) -> InfoExchangeErrorView {
        match self {
            InfoExchangeError::Soft(m) => InfoExchangeErrorView::Soft(m@),
            InfoExchangeError::Hard(m) => InfoExchangeErrorView::Hard(m@),
            InfoExchangeError::BootFault(m) => InfoExchangeErrorView::BootFault(m@),
        }
    }
}

impl InfoExchangeErrorView {
    /// The reason, whatever its kind.
    pub open spec fn message(self) -> Seq<char> {
        match self {
            InfoExchangeErrorView::Soft(m) => m,
            InfoExchangeErrorView::Hard(m) => m,
            InfoExchangeErrorView::BootFault(m) => m,
        }
    }
}

impl InfoExchangeError {
    /// The reason, whatever its kind.
    pub fn message(&self) -> (r: &str)
        ensures
            r@ == self@.message(),
    {
        match self {
            InfoExchangeError::Soft(m) => m.as_str(),
            InfoExchangeError::Hard(m) => m.as_str(),
            InfoExchangeError::BootFault(m) => m.as_str(),
        }
    }
}

/// The outcome of a whole exchange, in mathematical form.
pub open spec fn result_view(r: Result<DeviceInfo, InfoExchangeError>) -> Result<
    DeviceInfoView,
    InfoExchangeErrorView,
> {
    match r {
        Ok(i) => Ok(i@),
        Err(e) => Err(e@),
    }
}

// ─── The info exchange ────────────────────────────────────────────────────

/// One `info` exchange in progress.
pub struct InfoExchange {
    /// What was drained before the exchange began: a chip that resets when the port
    /// is opened prints its banner there.
    pub boot_context: Vec<u8>,
    /// What has arrived since.
    pub received: Vec<u8>,
}

/// The outcome of an exchange that ran out of time: the fault that the bytes give
/// away, else a silent firmware.
pub open spec fn timed_out(all: Seq<u8>) -> InfoExchangeErrorView {
    match boot_fault::boot_fault(all) {
        Some(fault) => InfoExchangeErrorView::BootFault(fault.text()),
        None => InfoExchangeErrorView::Soft(
            "info command timed out; firmware may not be esp-csi-cli-rs"@,
        ),
    }
}

/// The outcome of an exchange whose sentinel has arrived.
pub open spec fn completed(received: Seq<u8>) -> Result<DeviceInfoView, InfoExchangeErrorView> {
    match info::parsed_text(info::utf8_lossy(received)) {
        Ok(i) => Ok(i),
        Err(e) => Err(InfoExchangeErrorView::Soft(e)),
    }
}

/// How long to wait for a complete info block, in milliseconds.
pub const INFO_RESPONSE_TIMEOUT_MS: u64 = 2000;

/// How long a write may take before the USB endpoint counts as wedged, in
/// milliseconds.
pub const WRITE_TIMEOUT_MS: u64 = 2000;

impl InfoExchange {
    /// The end of the block is in the buffer.
    pub open spec fn sentinel_seen(&self) -> bool {
        bytes::occurs(self.received@, bytes::ascii("END-INFO"@))
    }

    /// Begin an exchange.
    pub fn new(boot_context: Vec<u8>) -> (r: Self)
        ensures
            r.boot_context@ == boot_context@,
            r.received@ == Seq::<u8>::empty(),
    {
        InfoExchange { boot_context, received: Vec::new() }
    }

    /// The bytes that ask for the block. The leading line break makes the line editor
    /// consume stale partial input first.
    pub fn request() -> (r: &'static str)
        ensures
            r@ == "\r\ninfo\r\n"@,
    {
        "\r\ninfo\r\n"
    }

    /// What to make of the write of the request.
    pub fn written(outcome: WriteOutcome) -> (r: Result<(), InfoExchangeError>)
        ensures
            match outcome {
                WriteOutcome::Done => r is Ok,
                WriteOutcome::Failed(e) => r is Err && (r->Err_0)@ == InfoExchangeErrorView::Hard(
                    "Serial write error: "@ + e@,
                ),
                WriteOutcome::TimedOut => r is Err && (r->Err_0)@ == InfoExchangeErrorView::Hard(
                    "serial write timed out — USB endpoint may be wedged"@,
                ),
            },
    {
        match outcome {
            WriteOutcome::Done => Ok(()),
            WriteOutcome::Failed(e) => {
                let mut message = "Serial write error: ".to_string();
                message.append(e.as_str());
                Err(InfoExchangeError::Hard(message))
            },
            WriteOutcome::TimedOut => Err(
                InfoExchangeError::Hard(
                    "serial write timed out — USB endpoint may be wedged".to_string(),
                ),
            ),
        }
    }

    /// What to make of a read into [`InfoExchange::received`]: `None` to read on.
    pub fn after_read(&self, outcome: ReadOutcome) -> (r: Option<
        Result<DeviceInfo, InfoExchangeError>,
    >)
        ensures
            match outcome {
                ReadOutcome::Eof => r is Some && result_view(r->0) == Err::<DeviceInfoView, _>(
                    InfoExchangeErrorView::Hard("serial closed during info exchange"@),
                ),
                ReadOutcome::Failed(e) => r is Some && result_view(r->0) == Err::<
                    DeviceInfoView,
                    _,
                >(InfoExchangeErrorView::Hard("Serial read error: "@ + e@)),
                ReadOutcome::TimedOut => r is Some && result_view(r->0) == Err::<DeviceInfoView, _>(
                    timed_out(self.boot_context@ + self.received@),
                ),
                ReadOutcome::Data => if self.sentinel_seen() {
                    r is Some && result_view(r->0) == completed(self.received@)
                } else {
                    r is None
                },
            },
            outcome is Data && vstd::utf8::valid_utf8(self.received@) && r is Some ==> result_view(
                r->0,
            ) == (match info::parsed_text(vstd::utf8::decode_utf8(self.received@)) {
                Ok(i) => Ok::<DeviceInfoView, _>(i),
                Err(e) => Err(InfoExchangeErrorView::Soft(e)),
            }),
    {
        match outcome {
            ReadOutcome::Eof => Some(
                Err(InfoExchangeError::Hard("serial closed during info exchange".to_string())),
            ),
            ReadOutcome::Failed(e) => {
                let mut message = "Serial read error: ".to_string();
                message.append(e.as_str());
                Some(Err(InfoExchangeError::Hard(message)))
            },
            ReadOutcome::TimedOut => Some(Err(self.classify_timeout())),
            ReadOutcome::Data => {
                proof {
                    reveal_strlit("END-INFO");
                }
                if bytes::find_subsequence(
                    self.received.as_slice(),
                    bytes::ascii_bytes("END-INFO"),
                ).is_some() {
                    match parse_info_block(self.received.as_slice()) {
                        Ok(i) => Some(Ok(i)),
                        Err(e) => Some(Err(InfoExchangeError::Soft(e))),
                    }
                } else {
                    None
                }
            },
        }
    }

    /// Classify whatever did arrive: a wedged chip is not silent, it prints banners
    /// before it goes quiet or loops.
    fn classify_timeout(&self) -> (r: InfoExchangeError)
        ensures
            r@ == timed_out(self.boot_context@ + self.received@),
    {
        let mut all: Vec<u8> = Vec::new();
        append_bytes(&mut all, self.boot_context.as_slice());
        append_bytes(&mut all, self.received.as_slice());
        assert(all@ =~= self.boot_context@ + self.received@);
        match detect_boot_fault(all.as_slice()) {
            Some(fault) => InfoExchangeError::BootFault(fault),
            None => InfoExchangeError::Soft(
                "info command timed out; firmware may not be esp-csi-cli-rs".to_string(),
            ),
        }
    }
}

/// Append `more` to `all`.
fn append_bytes(all: &mut Vec<u8>, more: &[u8])
    ensures
        final(all)@ == old(all)@ + more@,
{
    let ghost before = all@;
    let mut i: usize = 0;
    assert(all@ =~= before + more@.take(0));
    while i < more.len()
        invariant
            i <= more@.len(),
            all@ == before + more@.take(i as int),
        decreases more@.len() - i,
    {
        all.push(more[i]);
        assert(all@ =~= before + more@.take(i + 1));
        i += 1;
    }
    assert(more@.take(more@.len() as int) =~= more@);
}

// ─── Draining a stale stream ──────────────────────────────────────────────

/// How many of the drained bytes are kept: enough for several boot banners.
pub const RETAIN_CAP: usize = 8192;

/// How long a stale stream is drained, in milliseconds.
pub const QUIESCE_MS: u64 = 500;

/// A stale stream being drained: the device was told to stop, and what it still
/// sends is discarded but for the first bytes.
pub struct Quiesce {
    /// The first bytes drained, for the fault classifier.
    pub retained: Vec<u8>,
}

impl Quiesce {
    /// The bytes that stop a running collection.
    pub fn request() -> (r: &'static str)
        ensures
            r@ == "q\r\n"@,
    {
        "q\r\n"
    }

    /// Begin to drain. A stop request that could not be written in time leaves
    /// nothing to drain; one that failed otherwise does not matter here.
    pub fn begin(outcome: WriteOutcome) -> (r: Option<Self>)
        ensures
            match r {
                Some(q) => !(outcome is TimedOut) && q.retained@ == Seq::<u8>::empty(),
                None => outcome is TimedOut,
            },
    {
        match outcome {
            WriteOutcome::TimedOut => None,
            _ => Some(Quiesce { retained: Vec::new() }),
        }
    }

    /// What to make of a read of `chunk`: keep what still fits, and say whether to
    /// read on.
    pub fn after_read(&mut self, outcome: ReadOutcome, chunk: &[u8]) -> (r: bool)
        requires
            old(self).retained@.len() <= RETAIN_CAP,
        ensures
            r == (outcome is Data),
            r ==> final(self).retained@ == first_bytes(old(self).retained@ + chunk@),
            !r ==> final(self).retained@ == old(self).retained@,
            final(self).retained@.len() <= RETAIN_CAP,
    {
        match outcome {
            ReadOutcome::Data => {
                let ghost before = self.retained@;
                let ghost whole = before + chunk@;
                let room = RETAIN_CAP - self.retained.len();
                let take = if chunk.len() < room {
                    chunk.len()
                } else {
                    room
                };
                let mut i: usize = 0;
                assert(self.retained@ =~= before + chunk@.take(0));
                while i < take
                    invariant
                        i <= take <= chunk@.len(),
                        self.retained@ == before + chunk@.take(i as int),
                    decreases take - i,
                {
                    self.retained.push(chunk[i]);
                    assert(self.retained@ =~= before + chunk@.take(i + 1));
                    i += 1;
                }
                assert(self.retained@ =~= first_bytes(whole));
                true
            },
            _ => false,
        }
    }
}

/// The first bytes of a stream, as many as are kept.
pub open spec fn first_bytes(stream: Seq<u8>) -> Seq<u8> {
    if stream.len() <= RETAIN_CAP {
        stream
    } else {
        stream.take(RETAIN_CAP as int)
    }
}

// ─── Laws ─────────────────────────────────────────────────────────────────

/// The stream that a run of chunks makes up.
pub open spec fn joined(chunks: Seq<Seq<u8>>) -> Seq<u8>
    decreases chunks.len(),
{
    if chunks.len() == 0 {
        Seq::empty()
    } else {
        joined(chunks.drop_last()) + chunks.last()
    }
}

/// What is kept of a run of chunks, read one after the other.
pub open spec fn retained_of(chunks: Seq<Seq<u8>>) -> Seq<u8>
    decreases chunks.len(),
{
    if chunks.len() == 0 {
        Seq::empty()
    } else {
        first_bytes(retained_of(chunks.drop_last()) + chunks.last())
    }
}

/// However a stream is cut into reads, what is kept are its first bytes, up to the
/// cap.
pub proof fn law_retained_is_head(chunks: Seq<Seq<u8>>)
    ensures
        retained_of(chunks) == first_bytes(joined(chunks)),
    decreases chunks.len(),
{
    if chunks.len() > 0 {
        law_retained_is_head(chunks.drop_last());
        let head = joined(chunks.drop_last());
        let last = chunks.last();
        assert(first_bytes(first_bytes(head) + last) =~= first_bytes(head + last));
    } else {
        assert(first_bytes(Seq::<u8>::empty()) =~= Seq::<u8>::empty());
    }
}

/// A chip that is already looping when the port is opened is recognised, although
/// its banners were drained before the exchange began.
pub proof fn law_boot_context_counts(context: Seq<u8>, received: Seq<u8>)
    requires
        boot_fault::boot_fault(context) == Some(boot_fault::BootFault::UsbResetLoop),
    ensures
        timed_out(context + received) == InfoExchangeErrorView::BootFault(
            boot_fault::BootFault::UsbResetLoop.text(),
        ),
{
    boot_fault::law_reset_loop_persists(Seq::empty(), context, received);
    assert(Seq::<u8>::empty() + context =~= context);
}

/// Only a failing link is a hard failure: neither a silent or faulty chip nor an
/// unreadable block makes the port be opened again.
pub proof fn law_healthy_link_never_fails_hard(all: Seq<u8>, received: Seq<u8>)
    ensures
        !(timed_out(all) is Hard),
        completed(received) is Err ==> completed(received)->Err_0 is Soft,
{
}

/// A read that brought data ends the exchange exactly if `END-INFO` stands in what has
/// arrived.
pub proof fn law_exchange_ends_at_the_sentinel(
    exchange: InfoExchange,
    r: Option<Result<DeviceInfo, InfoExchangeError>>,
)
    requires
        call_ensures(InfoExchange::after_read, (&exchange, ReadOutcome::Data), r),
    ensures
        r is Some <==> exists|a: Seq<u8>, b: Seq<u8>| #[trigger]
            (a + bytes::ascii("END-INFO"@) + b) == exchange.received@,
{
    let end = bytes::ascii("END-INFO"@);
    let received = exchange.received@;
    bytes::law_occurrence_is_a_cut(received, end, Seq::empty(), Seq::empty());
    if exists|a: Seq<u8>, b: Seq<u8>| #[trigger] (a + end + b) == received {
        let (a, b) = choose|a: Seq<u8>, b: Seq<u8>| #[trigger] (a + end + b) == received;
        bytes::law_occurrence_is_a_cut(received, end, a, b);
    }
}

/// A block that arrives line by line: the exchange goes on at every line before the last, and
/// at the last it brings what the firmware said of itself. How many lines have arrived is
/// `k`; the lines before the last do not hold the sentinel.
pub proof fn law_block_line_by_line(
    exchange: InfoExchange,
    r: Option<Result<DeviceInfo, InfoExchangeError>>,
    who: DeviceInfoView,
    k: int,
)
    requires
        call_ensures(InfoExchange::after_read, (&exchange, ReadOutcome::Data), r),
        info::can_be_sent(who),
        0 <= k <= 8,
        exchange.received@ == vstd::utf8::encode_utf8(info::sent(info::block(who).take(k))),
        !bytes::occurs(
            vstd::utf8::encode_utf8(info::sent(info::block(who).take(7))),
            bytes::ascii("END-INFO"@),
        ),
    ensures
        k < 8 ==> r is None,
        k == 8 ==> r is Some && r->0 is Ok && (r->0->Ok_0)@ == who,
{
    let end = bytes::ascii("END-INFO"@);
    let lines = info::block(who);
    if k < 8 {
        let rest = lemma_sent_begins(lines, k, 7);
        info::lemma_encode_concat(info::sent(lines.take(k)), rest);
        let head = exchange.received@;
        let whole = head + vstd::utf8::encode_utf8(rest);
        if bytes::occurs(head, end) {
            let i = choose|i: int| bytes::occurs_at(head, end, i);
            assert(whole.subrange(i, i + end.len()) =~= head.subrange(i, i + end.len()));
            assert(bytes::occurs_at(whole, end, i));
        }
    } else {
        assert(lines.take(8) =~= lines);
        let head = info::sent(lines.take(7));
        assert(lines.drop_last() =~= lines.take(7));
        assert(info::sent(lines) == head + "END-INFO"@.push('\n'));
        let tail = "END-INFO"@ + seq!['\n'];
        assert("END-INFO"@.push('\n') =~= tail);
        info::lemma_encode_concat(head, tail);
        info::lemma_encode_concat("END-INFO"@, seq!['\n']);
        lemma_sentinel_bytes();
        let a = vstd::utf8::encode_utf8(head);
        let b = vstd::utf8::encode_utf8(seq!['\n']);
        assert(exchange.received@ =~= a + end + b);
        bytes::law_occurrence_is_a_cut(exchange.received@, end, a, b);
        info::lemma_sent_block(who);
    }
}

proof fn lemma_sentinel_bytes()
    ensures
        vstd::utf8::encode_utf8("END-INFO"@) == bytes::ascii("END-INFO"@),
{
    reveal_strlit("END-INFO");
    vstd::utf8::is_ascii_chars_encode_utf8("END-INFO"@);
    assert(vstd::utf8::encode_utf8("END-INFO"@) =~= bytes::ascii("END-INFO"@));
}

/// What is sent of more lines begins with what is sent of fewer.
proof fn lemma_sent_begins(lines: Seq<Seq<char>>, k: int, m: int) -> (rest: Seq<char>)
    requires
        0 <= k <= m <= lines.len(),
    ensures
        info::sent(lines.take(m)) == info::sent(lines.take(k)) + rest,
    decreases m,
{
    if k == m {
        assert(info::sent(lines.take(m)) =~= info::sent(lines.take(k)) + Seq::<char>::empty());
        Seq::empty()
    } else {
        let rest = lemma_sent_begins(lines, k, m - 1);
        assert(lines.take(m).drop_last() =~= lines.take(m - 1));
        let more = rest + lines.take(m).last().push('\n');
        assert(info::sent(lines.take(m)) =~= info::sent(lines.take(k)) + more);
        more
    }
}

/// A failing link ends the exchange as such, whatever has arrived: neither data nor a fault
/// of the chip is made of it.
pub proof fn law_failing_link_is_hard(
    exchange: InfoExchange,
    outcome: ReadOutcome,
    r: Option<Result<DeviceInfo, InfoExchangeError>>,
    write: WriteOutcome,
    w: Result<(), InfoExchangeError>,
)
    requires
        call_ensures(InfoExchange::after_read, (&exchange, outcome), r),
        call_ensures(InfoExchange::written, (write,), w),
    ensures
        outcome is Eof ==> r is Some && r->0 is Err && (r->0->Err_0)@ == InfoExchangeErrorView::Hard(
            "serial closed during info exchange"@,
        ),
        outcome is Failed ==> r is Some && r->0 is Err && (r->0->Err_0)@
            == InfoExchangeErrorView::Hard("Serial read error: "@ + outcome->Failed_0@),
        outcome is Data && r is Some && r->0 is Err ==> (r->0->Err_0)@ is Soft,
        w is Ok <==> write is Done,
        write is Failed ==> (w->Err_0)@ == InfoExchangeErrorView::Hard(
            "Serial write error: "@ + write->Failed_0@,
        ),
        write is TimedOut ==> (w->Err_0)@ == InfoExchangeErrorView::Hard(
            "serial write timed out — USB endpoint may be wedged"@,
        ),
{
}

/// A silent exchange is told from a faulty chip by all bytes since the port was opened, those
/// before the exchange included: the fault that they give away is reported, else silence.
pub proof fn law_silence_is_classified(
    exchange: InfoExchange,
    all: &[u8],
    fault: Option<String>,
    r: Option<Result<DeviceInfo, InfoExchangeError>>,
)
    requires
        all@ == exchange.boot_context@ + exchange.received@,
        call_ensures(detect_boot_fault, (all,), fault),
        call_ensures(InfoExchange::after_read, (&exchange, ReadOutcome::TimedOut), r),
    ensures
        r is Some && r->0 is Err,
        fault is Some ==> (r->0->Err_0)@ == InfoExchangeErrorView::BootFault(fault->0@),
        fault is None ==> (r->0->Err_0)@ == InfoExchangeErrorView::Soft(
            "info command timed out; firmware may not be esp-csi-cli-rs"@,
        ),
{
}

/// An exchange begins with nothing received and with the bytes drained before, and asks by one
/// line of its own; a stale stream is stopped by `q`.
pub proof fn law_requests(
    context: Vec<u8>,
    exchange: InfoExchange,
    info_line: &'static str,
    stop_line: &'static str,
)
    requires
        call_ensures(InfoExchange::new, (context,), exchange),
        call_ensures(InfoExchange::request, (), info_line),
        call_ensures(Quiesce::request, (), stop_line),
    ensures
        exchange.boot_context@ == context@,
        exchange.received@.len() == 0,
        info_line@ == "\r\ninfo\r\n"@,
        stop_line@ == "q\r\n"@,
{
}

/// Of a stale stream the first 8192 bytes are kept, in order, and nothing after them; only a
/// read that brought data is followed by another, and only a stop that could not be written
/// in time is not followed by any.
pub proof fn law_stale_stream_is_kept_in_part(
    drain: &mut Quiesce,
    outcome: ReadOutcome,
    chunk: &[u8],
    r: bool,
    write: WriteOutcome,
    begun: Option<Quiesce>,
)
    requires
        old(drain).retained@.len() <= 8192,
        call_ensures(Quiesce::after_read, (drain, outcome, chunk), r),
        call_ensures(Quiesce::begin, (write,), begun),
    ensures
        r <==> outcome is Data,
        r ==> ({
            let before = old(drain).retained@;
            if before.len() + chunk@.len() <= 8192 {
                final(drain).retained@ == before + chunk@
            } else {
                final(drain).retained@ == before + chunk@.take(8192 - before.len())
            }
        }),
        !r ==> final(drain).retained@ == old(drain).retained@,
        begun is None <==> write is TimedOut,
        begun is Some ==> begun->0.retained@.len() == 0,
{
    let before = old(drain).retained@;
    if r && before.len() + chunk@.len() > 8192 {
        assert((before + chunk@).take(8192) =~= before + chunk@.take(8192 - before.len()));
    }
}

/// What an exchange brings once its sentinel has arrived is what the block parses to; a block
/// that does not parse is a soft failure with the parser's reason.
pub proof fn law_exchange_brings_the_block(
    exchange: InfoExchange,
    r: Option<Result<DeviceInfo, InfoExchangeError>>,
    buf: &[u8],
    parsed: Result<DeviceInfo, String>,
)
    requires
        call_ensures(InfoExchange::after_read, (&exchange, ReadOutcome::Data), r),
        buf@ == exchange.received@,
        call_ensures(parse_info_block, (buf,), parsed),
        r is Some,
    ensures
        r->0 is Ok <==> parsed is Ok,
        parsed is Ok ==> (r->0->Ok_0)@ == (parsed->Ok_0)@,
        parsed is Err ==> (r->0->Err_0)@ == InfoExchangeErrorView::Soft(parsed->Err_0@),
{
}

/// The message of a failure is its reason, whatever its kind.
pub proof fn law_message_is_the_reason(e: InfoExchangeError, r: &str)
    requires
        call_ensures(InfoExchangeError::message, (&e,), r),
    ensures
        e matches InfoExchangeError::Soft(m) ==> r@ == m@,
        e matches InfoExchangeError::Hard(m) ==> r@ == m@,
        e matches InfoExchangeError::BootFault(m) ==> r@ == m@,
{
}

/// How long the conversations take: two seconds for a write and for an answer, half a second
/// to drain a stale stream, of which 8192 bytes are kept.
pub proof fn law_waiting_times()
    ensures
        INFO_RESPONSE_TIMEOUT_MS == 2000,
        WRITE_TIMEOUT_MS == 2000,
        QUIESCE_MS == 500,
        RETAIN_CAP == 8192,
{
}

} // verus!
