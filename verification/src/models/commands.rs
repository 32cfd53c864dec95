//! The remaining request bodies and their CLI commands.
use crate::flags;
use crate::flags::{push_flag, push_on_off};
use crate::models::wifi::push_all_names;
use crate::profile::CsiProfile;
use crate::text;
use vstd::prelude::*;
use vstd::string::*;

verus! {

// ─── Traffic ──────────────────────────────────────────────────────────────

/// Body of a traffic generation request.
#[derive(Debug)]
pub struct TrafficConfig {
    /// Traffic generation frequency in Hz; `0` disables generation.
    pub frequency_hz: u64,
    /// Send unsolicited echo replies instead of echo requests. Where it is omitted,
    /// the firmware keeps its setting.
    pub unsolicited: Option<bool>,
}

impl TrafficConfig {
    /// The command line of the request.
    pub open spec fn line(&self) -> Seq<char> {
        "set-traffic --frequency-hz="@ + text::decimal(self.frequency_hz as nat)
            + flags::switch_flag("unsolicited"@, self.unsolicited)
    }

    /// Emit the `set-traffic …` line.
    pub fn to_cli_command(&self) -> (r: String)
        ensures
            r@ == self.line(),
    {
        let mut cmd = "set-traffic --frequency-hz=".to_string();
        text::push_decimal(&mut cmd, self.frequency_hz);
        push_on_off(&mut cmd, "unsolicited", self.unsolicited);
        cmd
    }
}

// ─── Collection ───────────────────────────────────────────────────────────

/// Body of a collection mode request.
#[derive(Debug)]
pub struct CollectionModeConfig {
    /// `collector` or `listener`.
    pub mode: String,
}

impl CollectionModeConfig {
    /// What the request comes to.
    pub open spec fn command(&self) -> Result<Seq<char>, Seq<char>> {
        if self.mode@ == "collector"@ || self.mode@ == "listener"@ {
            Ok("set-collection-mode --mode="@ + self.mode@)
        } else {
            Err(
                "Unknown collection mode '"@ + self.mode@ + "'; expected collector or listener"@,
            )
        }
    }

    /// Emit the `set-collection-mode …` line, or reject the mode.
    pub fn to_cli_command(&self) -> (r: Result<String, String>)
        ensures
            text::outcome(r) == self.command(),
    {
        let mode = self.mode.as_str();
        if text::str_eq(mode, "collector") || text::str_eq(mode, "listener") {
            let mut cmd = "set-collection-mode --mode=".to_string();
            cmd.append(mode);
            Ok(cmd)
        } else {
            let mut message = "Unknown collection mode '".to_string();
            message.append(mode);
            message.append("'; expected collector or listener");
            Err(message)
        }
    }
}

/// Body of a start request.
#[derive(Debug)]
pub struct StartConfig {
    /// Collection duration in seconds; omitted for indefinite collection.
    pub duration: Option<u64>,
}

impl StartConfig {
    /// The command line of the request.
    pub open spec fn line(&self) -> Seq<char> {
        match self.duration {
            Some(d) => "start --duration="@ + text::decimal(d as nat),
            None => "start"@,
        }
    }

    /// Emit the `start …` line.
    pub fn to_cli_command(&self) -> (r: String)
        ensures
            r@ == self.line(),
    {
        match self.duration {
            Some(d) => {
                let mut cmd = "start --duration=".to_string();
                text::push_decimal(&mut cmd, d);
                cmd
            },
            None => "start".to_string(),
        }
    }
}

// ─── Radio ────────────────────────────────────────────────────────────────

/// Body of a PHY rate request.
#[derive(Debug)]
pub struct RateConfig {
    /// For instance `1m`, `5m5`, `54m`, `mcs0-lgi`, `mcs0-sgi`.
    pub rate: String,
}

impl RateConfig {
    /// The command line of the request.
    pub open spec fn line(&self) -> Seq<char> {
        "set-rate --rate="@ + self.rate@
    }

    /// Emit the `set-rate …` line. The rate is sent as it is.
    pub fn to_cli_command(&self) -> (r: String)
        ensures
            r@ == self.line(),
    {
        let mut cmd = "set-rate --rate=".to_string();
        cmd.append(self.rate.as_str());
        cmd
    }
}

/// Body of a PHY protocol request.
#[derive(Debug)]
pub struct ProtocolConfig {
    /// One of the core protocols or of those that the profile adds, in any case.
    pub protocol: String,
}

/// The protocols that the core names.
pub open spec fn core_protocols() -> Seq<Seq<char>> {
    seq!["b"@, "g"@, "n"@, "lr"@, "a"@, "ac"@]
}

/// The protocols that the core names.
pub fn valid_protocols() -> (r: Vec<&'static str>)
    ensures
        text::names(r@) == core_protocols(),
{
    let mut r: Vec<&'static str> = Vec::new();
    r.push("b");
    r.push("g");
    r.push("n");
    r.push("lr");
    r.push("a");
    r.push("ac");
    assert(text::names(r@) =~= core_protocols());
    r
}

impl ProtocolConfig {
    /// What the request comes to, with the extra protocols of the profile. Case matters
    /// neither in the request nor in what the profile advertises.
    pub open spec fn command(&self, extra: Seq<Seq<char>>) -> Result<Seq<char>, Seq<char>> {
        let protocol = text::lower(self.protocol@);
        if core_protocols().contains(protocol) || text::contains_lowered(extra, protocol) {
            Ok("set-protocol --protocol="@ + protocol)
        } else {
            Err(
                "unknown protocol '"@ + self.protocol@ + "'; expected one of: "@ + text::join(
                    core_protocols() + extra,
                    ", "@,
                ),
            )
        }
    }

    /// Emit the `set-protocol …` line, or reject the value. Only the name is
    /// checked: whether the chip supports the protocol shows when a run starts.
    pub fn to_cli_command<P: CsiProfile + ?Sized>(&self, profile: &P) -> (r: Result<String, String>)
        ensures
            exists|extra: &'static [&'static str]| #[trigger]
                call_ensures(P::extra_protocols, (profile,), extra) && text::outcome(r)
                    == self.command(text::names(extra@)),
    {
        let extra = profile.extra_protocols();
        self.cli_command_with_protocols(extra)
    }

    /// The same, with the extra protocols at hand.
    pub fn cli_command_with_protocols(&self, extra: &'static [&'static str]) -> (r: Result<
        String,
        String,
    >)
        ensures
            text::outcome(r) == self.command(text::names(extra@)),
    {
        let protocol = text::to_lower(self.protocol.as_str());
        let valid = valid_protocols();
        if !text::list_contains(valid.as_slice(), protocol.as_str()) && !text::list_contains_lowered(
            extra,
            protocol.as_str(),
        ) {
            let mut message = "unknown protocol '".to_string();
            message.append(self.protocol.as_str());
            message.append("'; expected one of: ");
            push_all_names(&mut message, valid, extra);
            return Err(message);
        }
        let mut cmd = "set-protocol --protocol=".to_string();
        cmd.append(protocol.as_str());
        Ok(cmd)
    }
}

/// Body of an I/O task request: a direction that is omitted keeps its setting.
#[derive(Debug)]
pub struct IoTasksConfig {
    pub tx: Option<bool>,
    pub rx: Option<bool>,
}

impl IoTasksConfig {
    /// What the request comes to.
    pub open spec fn command(&self) -> Result<Seq<char>, Seq<char>> {
        if self.tx is None && self.rx is None {
            Err("at least one of tx or rx must be provided"@)
        } else {
            Ok(
                "set-io-tasks"@ + flags::switch_flag("tx"@, self.tx) + flags::switch_flag(
                    "rx"@,
                    self.rx,
                ),
            )
        }
    }

    /// Emit the `set-io-tasks …` line, or reject an empty request.
    pub fn to_cli_command(&self) -> (r: Result<String, String>)
        ensures
            text::outcome(r) == self.command(),
    {
        if self.tx.is_none() && self.rx.is_none() {
            return Err("at least one of tx or rx must be provided".to_string());
        }
        let mut cmd = "set-io-tasks".to_string();
        push_on_off(&mut cmd, "tx", self.tx);
        push_on_off(&mut cmd, "rx", self.rx);
        Ok(cmd)
    }
}

/// Body of a CSI delivery request: either or both fields may be given.
#[derive(Debug)]
pub struct CsiDeliveryConfig {
    /// `off`, `callback`, `async` or `raw`. `raw` takes effect on the next start.
    pub mode: Option<String>,
    /// The per-packet inline log path.
    pub logging: Option<bool>,
}

/// The delivery modes.
pub open spec fn is_delivery_mode(s: Seq<char>) -> bool {
    s == "off"@ || s == "callback"@ || s == "async"@ || s == "raw"@
}

impl CsiDeliveryConfig {
    /// What the request comes to.
    pub open spec fn command(&self) -> Result<Seq<char>, Seq<char>> {
        if self.mode is None && self.logging is None {
            Err("at least one of mode or logging must be provided"@)
        } else if self.mode is Some && !is_delivery_mode(self.mode->0@) {
            Err(
                "Unknown csi-delivery mode '"@ + self.mode->0@
                    + "'; expected off, callback, async, or raw"@,
            )
        } else {
            Ok(
                "set-csi-delivery"@ + (match self.mode {
                    Some(mode) => flags::flag("mode"@, mode@),
                    None => Seq::empty(),
                }) + flags::switch_flag("logging"@, self.logging),
            )
        }
    }

    /// Emit the `set-csi-delivery …` line, or reject the request.
    pub fn to_cli_command(&self) -> (r: Result<String, String>)
        ensures
            text::outcome(r) == self.command(),
    {
        if self.mode.is_none() && self.logging.is_none() {
            return Err("at least one of mode or logging must be provided".to_string());
        }
        let mut cmd = "set-csi-delivery".to_string();
        match &self.mode {
            Some(mode) => {
                let name = mode.as_str();
                if !text::str_eq(name, "off") && !text::str_eq(name, "callback") && !text::str_eq(
                    name,
                    "async",
                ) && !text::str_eq(name, "raw") {
                    let mut message = "Unknown csi-delivery mode '".to_string();
                    message.append(name);
                    message.append("'; expected off, callback, async, or raw");
                    return Err(message);
                }
                push_flag(&mut cmd, "mode", name);
            },
            None => {
                assert(cmd@ =~= "set-csi-delivery"@ + Seq::<char>::empty());
            },
        }
        push_on_off(&mut cmd, "logging", self.logging);
        Ok(cmd)
    }
}

// ─── Output mode ──────────────────────────────────────────────────────────

/// Where CSI frames go after they are read from the serial port.
#[derive(Debug, Clone, Copy, PartialEq, Eq, Structural)]
pub enum OutputMode {
    /// Stream frames to WebSocket clients only.
    Stream,
    /// Write frames to a session dump file only.
    Dump,
    /// Both.
    Both,
}

impl Default for OutputMode {
    fn default() -> (r: Self)
        ensures
            r == OutputMode::Stream,
    {
        OutputMode::Stream
    }
}

impl OutputMode {
    /// Whether frames go to the dump file.
    pub open spec fn dumps(&self) -> bool {
        self is Dump || self is Both
    }

    /// Whether frames go to WebSocket clients.
    pub open spec fn streams(&self) -> bool {
        self is Stream || self is Both
    }
}

/// Body of an output mode request.
#[derive(Debug)]
pub struct OutputModeConfig {
    pub mode: String,
}

// ─── Laws ─────────────────────────────────────────────────────────────────

/// Protocols are recognised in any case, and sent in lower case.
pub proof fn law_protocol_ignores_case(a: ProtocolConfig, b: ProtocolConfig, extra: Seq<Seq<char>>)
    requires
        text::lower(a.protocol@) == text::lower(b.protocol@),
    ensures
        a.command(extra) is Ok == b.command(extra) is Ok,
        a.command(extra) is Ok ==> a.command(extra) == b.command(extra),
        a.command(extra) is Ok ==> a.command(extra)->Ok_0 == "set-protocol --protocol="@
            + text::lower(a.protocol@),
{
}

/// Every protocol that the core names or the profile advertises is accepted, as it is
/// advertised and in any other case.
pub proof fn law_advertised_protocol_is_accepted(
    cfg: ProtocolConfig,
    extra: Seq<Seq<char>>,
    advertised: Seq<char>,
)
    requires
        core_protocols().contains(advertised) || extra.contains(advertised),
        text::lower(cfg.protocol@) == text::lower(advertised),
    ensures
        cfg.command(extra) is Ok,
{
    if core_protocols().contains(advertised) {
        lemma_core_protocols_are_lower(advertised);
    } else {
        let i = choose|i: int| 0 <= i < extra.len() && extra[i] == advertised;
        assert(text::lower(extra[i]) == text::lower(cfg.protocol@));
    }
}

proof fn lemma_core_protocols_are_lower(name: Seq<char>)
    requires
        core_protocols().contains(name),
    ensures
        text::lower(name) == name,
{
    reveal_strlit("b");
    reveal_strlit("g");
    reveal_strlit("n");
    reveal_strlit("lr");
    reveal_strlit("a");
    reveal_strlit("ac");
    assert(text::lower(name) =~= name);
}

/// One accepted request is one command: the lines have no line break. A rate and the
/// profile's protocols are sent as they are, and must have none themselves.
pub proof fn law_commands_are_one_line(
    traffic: TrafficConfig,
    collection: CollectionModeConfig,
    start: StartConfig,
    rate: RateConfig,
    protocol: ProtocolConfig,
    io_tasks: IoTasksConfig,
    delivery: CsiDeliveryConfig,
    extra_protocols: Seq<Seq<char>>,
)
    requires
        forall|i: int|
            0 <= i < extra_protocols.len() ==> text::one_line(#[trigger] extra_protocols[i]),
    ensures
        text::one_line(traffic.line()),
        collection.command() is Ok ==> text::one_line(collection.command()->Ok_0),
        text::one_line(start.line()),
        text::one_line(rate.rate@) ==> text::one_line(rate.line()),
        protocol.command(extra_protocols) is Ok ==> text::one_line(
            protocol.command(extra_protocols)->Ok_0,
        ),
        io_tasks.command() is Ok ==> text::one_line(io_tasks.command()->Ok_0),
        delivery.command() is Ok ==> text::one_line(delivery.command()->Ok_0),
{
    lemma_one_line_literals();
    text::lemma_one_line_empty();
    lemma_one_line_traffic(traffic);
    if let Some(d) = start.duration {
        text::lemma_one_line_decimal(d as nat);
        text::lemma_one_line_add("start --duration="@, text::decimal(d as nat));
    }
    if text::one_line(rate.rate@) {
        text::lemma_one_line_add("set-rate --rate="@, rate.rate@);
    }
    if collection.command() is Ok {
        text::lemma_one_line_add("set-collection-mode --mode="@, collection.mode@);
    }
    if protocol.command(extra_protocols) is Ok {
        let name = text::lower(protocol.protocol@);
        if !core_protocols().contains(name) {
            let i = choose|i: int|
                0 <= i < extra_protocols.len() && text::lower(#[trigger] extra_protocols[i]) == name;
            assert(text::one_line(extra_protocols[i]));
            text::lemma_one_line_lower(extra_protocols[i]);
        }
        text::lemma_one_line_add("set-protocol --protocol="@, name);
    }
    let tx = flags::switch_flag("tx"@, io_tasks.tx);
    let rx = flags::switch_flag("rx"@, io_tasks.rx);
    flags::lemma_one_line_switch("tx"@, io_tasks.tx);
    flags::lemma_one_line_switch("rx"@, io_tasks.rx);
    text::lemma_one_line_add("set-io-tasks"@, tx);
    text::lemma_one_line_add("set-io-tasks"@ + tx, rx);
    if delivery.command() is Ok {
        let mode = match delivery.mode {
            Some(mode) => flags::flag("mode"@, mode@),
            None => Seq::empty(),
        };
        if let Some(m) = delivery.mode {
            flags::lemma_one_line_flag("mode"@, m@);
        }
        flags::lemma_one_line_switch("logging"@, delivery.logging);
        text::lemma_one_line_add("set-csi-delivery"@, mode);
        text::lemma_one_line_add(
            "set-csi-delivery"@ + mode,
            flags::switch_flag("logging"@, delivery.logging),
        );
    }
}

proof fn lemma_one_line_traffic(traffic: TrafficConfig)
    ensures
        text::one_line(traffic.line()),
{
    lemma_one_line_literals();
    let start = "set-traffic --frequency-hz="@;
    let number = text::decimal(traffic.frequency_hz as nat);
    text::lemma_one_line_decimal(traffic.frequency_hz as nat);
    text::lemma_one_line_add(start, number);
    flags::lemma_one_line_switch("unsolicited"@, traffic.unsolicited);
    text::lemma_one_line_add(start + number, flags::switch_flag("unsolicited"@, traffic.unsolicited));
}

/// The fixed parts of the lines have no line break.
proof fn lemma_one_line_literals()
    ensures
        text::one_line("set-traffic --frequency-hz="@),
        text::one_line("unsolicited"@),
        text::one_line("set-collection-mode --mode="@),
        text::one_line("collector"@),
        text::one_line("listener"@),
        text::one_line("start --duration="@),
        text::one_line("start"@),
        text::one_line("set-rate --rate="@),
        text::one_line("set-protocol --protocol="@),
        forall|i: int| 0 <= i < core_protocols().len() ==> text::one_line(#[trigger] core_protocols()[i]),
        text::one_line("set-io-tasks"@),
        text::one_line("tx"@),
        text::one_line("rx"@),
        text::one_line("set-csi-delivery"@),
        text::one_line("mode"@),
        text::one_line("logging"@),
        text::one_line("off"@),
        text::one_line("callback"@),
        text::one_line("async"@),
        text::one_line("raw"@),
{
    reveal(text::one_line);
    reveal_strlit("set-traffic --frequency-hz=");
    reveal_strlit("unsolicited");
    reveal_strlit("set-collection-mode --mode=");
    reveal_strlit("collector");
    reveal_strlit("listener");
    reveal_strlit("start --duration=");
    reveal_strlit("start");
    reveal_strlit("set-rate --rate=");
    reveal_strlit("set-protocol --protocol=");
    reveal_strlit("b");
    reveal_strlit("g");
    reveal_strlit("n");
    reveal_strlit("lr");
    reveal_strlit("a");
    reveal_strlit("ac");
    reveal_strlit("set-io-tasks");
    reveal_strlit("tx");
    reveal_strlit("rx");
    reveal_strlit("set-csi-delivery");
    reveal_strlit("mode");
    reveal_strlit("logging");
    reveal_strlit("off");
    reveal_strlit("callback");
    reveal_strlit("async");
    reveal_strlit("raw");
}

/// The number behind `--duration=` is the one asked for; an unlimited run is started
/// without the flag.
pub proof fn law_duration_is_read_back(cfg: StartConfig, line: String)
    requires
        call_ensures(StartConfig::to_cli_command, (&cfg,), line),
    ensures
        cfg.duration is None ==> line@ == "start"@,
        cfg.duration matches Some(d) ==> {
            &&& line@.len() > 17
            &&& line@.take(17) == "start --duration="@
            &&& text::digits_value(line@.skip(17)) == Some(d as nat)
            &&& d > 0 ==> line@[17] != '0'
            &&& d == 0 ==> line@.len() == 18
        },
{
    reveal_strlit("start --duration=");
    if let Some(d) = cfg.duration {
        lemma_number_behind("start --duration="@, d as nat, Seq::empty());
        assert("start --duration="@ + text::decimal(d as nat) + Seq::<char>::empty() =~= line@);
        assert(line@.skip(17) =~= text::decimal(d as nat));
    }
}

proof fn lemma_number_behind(prefix: Seq<char>, n: nat, behind: Seq<char>)
    ensures
        (prefix + text::decimal(n) + behind).take(prefix.len() as int) == prefix,
        text::decimal(n).len() > 0,
        text::digits_value(text::decimal(n)) == Some(n),
        n > 0 ==> text::decimal(n)[0] != '0',
        n == 0 ==> text::decimal(n).len() == 1,
{
    text::law_decimal_is_base_ten(n, 0);
    if n >= 10 {
        assert(text::decimal(n).len() > 0);
    }
    assert((prefix + text::decimal(n) + behind).take(prefix.len() as int) =~= prefix);
}

/// The number behind `--frequency-hz=` is the one asked for, and the line ends with it
/// unless the kind of traffic is given: that is one flag more, `on` or `off`.
pub proof fn law_traffic_is_read_back(
    cfg: TrafficConfig,
    bare: TrafficConfig,
    line: String,
    bare_line: String,
)
    requires
        bare.frequency_hz == cfg.frequency_hz,
        bare.unsolicited is None,
        call_ensures(TrafficConfig::to_cli_command, (&cfg,), line),
        call_ensures(TrafficConfig::to_cli_command, (&bare,), bare_line),
    ensures
        bare_line@.len() > 27,
        bare_line@.take(27) == "set-traffic --frequency-hz="@,
        text::digits_value(bare_line@.skip(27)) == Some(cfg.frequency_hz as nat),
        cfg.frequency_hz > 0 ==> bare_line@[27] != '0',
        cfg.frequency_hz == 0 ==> bare_line@.len() == 28,
        cfg.unsolicited is None ==> line@ == bare_line@,
        cfg.unsolicited == Some(true) ==> line@ == bare_line@ + " --unsolicited=on"@,
        cfg.unsolicited == Some(false) ==> line@ == bare_line@ + " --unsolicited=off"@,
{
    reveal_strlit("set-traffic --frequency-hz=");
    reveal_strlit(" --");
    reveal_strlit("=");
    reveal_strlit("on");
    reveal_strlit("off");
    reveal_strlit("unsolicited");
    reveal_strlit(" --unsolicited=on");
    reveal_strlit(" --unsolicited=off");
    let n = cfg.frequency_hz as nat;
    let prefix = "set-traffic --frequency-hz="@;
    lemma_number_behind(prefix, n, Seq::empty());
    assert(bare_line@ =~= prefix + text::decimal(n) + Seq::<char>::empty());
    assert(bare_line@.skip(27) =~= text::decimal(n));
    assert(flags::switch_flag("unsolicited"@, Some(true)) =~= " --unsolicited=on"@);
    assert(flags::switch_flag("unsolicited"@, Some(false)) =~= " --unsolicited=off"@);
    assert(line@ =~= bare_line@ + flags::switch_flag("unsolicited"@, cfg.unsolicited));
}

/// Exactly the two collection modes are accepted, and each is sent under its own name; any
/// other is refused with its name.
pub proof fn law_collection_modes(cfg: CollectionModeConfig, r: Result<String, String>)
    requires
        call_ensures(CollectionModeConfig::to_cli_command, (&cfg,), r),
    ensures
        cfg.mode@ == "collector"@ ==> r is Ok && r->Ok_0@ == "set-collection-mode --mode=collector"@,
        cfg.mode@ == "listener"@ ==> r is Ok && r->Ok_0@ == "set-collection-mode --mode=listener"@,
        cfg.mode@ != "collector"@ && cfg.mode@ != "listener"@ ==> r is Err && r->Err_0@
            == "Unknown collection mode '"@ + cfg.mode@ + "'; expected collector or listener"@,
{
    reveal_strlit("collector");
    reveal_strlit("listener");
    reveal_strlit("set-collection-mode --mode=");
    reveal_strlit("set-collection-mode --mode=collector");
    reveal_strlit("set-collection-mode --mode=listener");
    assert("set-collection-mode --mode="@ + "collector"@
        =~= "set-collection-mode --mode=collector"@);
    assert("set-collection-mode --mode="@ + "listener"@ =~= "set-collection-mode --mode=listener"@);
}

/// Two rates are told apart by their lines, and what stands behind `--rate=` is the rate.
pub proof fn law_rate_is_read_back(cfg: RateConfig, line: String)
    requires
        call_ensures(RateConfig::to_cli_command, (&cfg,), line),
    ensures
        line@.len() == 16 + cfg.rate@.len(),
        line@.take(16) == "set-rate --rate="@,
        line@.skip(16) == cfg.rate@,
{
    reveal_strlit("set-rate --rate=");
    assert(line@.take(16) =~= "set-rate --rate="@);
    assert(line@.skip(16) =~= cfg.rate@);
}

/// A protocol is accepted exactly if, in some case, it is one of the six that the core names
/// or one that the profile adds; it is sent in lower case. The refusal names it and all that
/// would be accepted.
pub proof fn law_protocols_accepted<P: CsiProfile + ?Sized>(
    cfg: ProtocolConfig,
    profile: &P,
    extra: &'static [&'static str],
    r: Result<String, String>,
    s: Result<String, String>,
)
    requires
        call_ensures(ProtocolConfig::cli_command_with_protocols, (&cfg, extra), r),
        call_ensures(ProtocolConfig::to_cli_command::<P>, (&cfg, profile), s),
    ensures
        r is Ok <==> ({
            let name = text::lower(cfg.protocol@);
            ||| name == "b"@
            ||| name == "g"@
            ||| name == "n"@
            ||| name == "lr"@
            ||| name == "a"@
            ||| name == "ac"@
            ||| exists|i: int| 0 <= i < extra@.len() && text::lower((#[trigger] extra@[i])@) == name
        }),
        r is Ok ==> r->Ok_0@ == "set-protocol --protocol="@ + text::lower(cfg.protocol@),
        r is Err && extra@.len() == 0 ==> r->Err_0@ == "unknown protocol '"@ + cfg.protocol@
            + "'; expected one of: b, g, n, lr, a, ac"@,
        r is Err ==> r->Err_0@ == "unknown protocol '"@ + cfg.protocol@ + "'; expected one of: "@
            + text::join(
            seq!["b"@, "g"@, "n"@, "lr"@, "a"@, "ac"@] + text::names(extra@),
            ", "@,
        ),
        exists|added: &'static [&'static str]| #[trigger]
            call_ensures(P::extra_protocols, (profile,), added) && (added@ == extra@
                ==> text::outcome(s) == text::outcome(r)),
{
    let name = text::lower(cfg.protocol@);
    let core = core_protocols();
    assert(core.contains(name) == (name == "b"@ || name == "g"@ || name == "n"@ || name == "lr"@
        || name == "a"@ || name == "ac"@)) by {
        assert(core[0] == "b"@ && core[1] == "g"@ && core[2] == "n"@ && core[3] == "lr"@ && core[4]
            == "a"@ && core[5] == "ac"@);
    }
    let names = text::names(extra@);
    if text::contains_lowered(names, name) {
        let i = choose|i: int| 0 <= i < names.len() && text::lower(#[trigger] names[i]) == name;
        assert(text::lower(extra@[i]@) == name);
    }
    if exists|i: int| 0 <= i < extra@.len() && text::lower((#[trigger] extra@[i])@) == name {
        let i = choose|i: int| 0 <= i < extra@.len() && text::lower((#[trigger] extra@[i])@) == name;
        assert(text::lower(names[i]) == name);
    }
    if r is Err && extra@.len() == 0 {
        assert(core + names =~= core);
        lemma_core_protocols_joined();
        assert(r->Err_0@ =~= "unknown protocol '"@ + cfg.protocol@ + ("'; expected one of: "@
            + text::join(core, ", "@)));
    }
}

proof fn lemma_core_protocols_joined()
    ensures
        "'; expected one of: "@ + text::join(core_protocols(), ", "@)
            == "'; expected one of: b, g, n, lr, a, ac"@,
{
    reveal_strlit("b");
    reveal_strlit("g");
    reveal_strlit("n");
    reveal_strlit("lr");
    reveal_strlit("a");
    reveal_strlit("ac");
    reveal_strlit(", ");
    reveal_strlit("'; expected one of: ");
    reveal_strlit("'; expected one of: b, g, n, lr, a, ac");
    let none = Seq::<Seq<char>>::empty();
    let sep = ", "@;
    let l1 = none.push("b"@);
    let l2 = l1.push("g"@);
    let l3 = l2.push("n"@);
    let l4 = l3.push("lr"@);
    let l5 = l4.push("a"@);
    let l6 = l5.push("ac"@);
    text::law_joining_separates(none, sep, "b"@);
    assert(l1 =~= seq!["b"@]);
    text::law_joining_separates(l1, sep, "g"@);
    text::law_joining_separates(l2, sep, "n"@);
    text::law_joining_separates(l3, sep, "lr"@);
    text::law_joining_separates(l4, sep, "a"@);
    text::law_joining_separates(l5, sep, "ac"@);
    assert(l6 =~= core_protocols());
    assert("'; expected one of: "@ + text::join(l6, sep)
        =~= "'; expected one of: b, g, n, lr, a, ac"@);
}

/// Each direction of the I/O tasks has its own switch, which is sent exactly if it is given;
/// a request with neither is refused.
pub proof fn law_io_tasks(cfg: IoTasksConfig, r: Result<String, String>)
    requires
        call_ensures(IoTasksConfig::to_cli_command, (&cfg,), r),
    ensures
        match (cfg.tx, cfg.rx) {
            (None, None) => r is Err && r->Err_0@ == "at least one of tx or rx must be provided"@,
            (Some(true), None) => r is Ok && r->Ok_0@ == "set-io-tasks --tx=on"@,
            (Some(false), None) => r is Ok && r->Ok_0@ == "set-io-tasks --tx=off"@,
            (None, Some(true)) => r is Ok && r->Ok_0@ == "set-io-tasks --rx=on"@,
            (None, Some(false)) => r is Ok && r->Ok_0@ == "set-io-tasks --rx=off"@,
            (Some(true), Some(true)) => r is Ok && r->Ok_0@ == "set-io-tasks --tx=on --rx=on"@,
            (Some(true), Some(false)) => r is Ok && r->Ok_0@ == "set-io-tasks --tx=on --rx=off"@,
            (Some(false), Some(true)) => r is Ok && r->Ok_0@ == "set-io-tasks --tx=off --rx=on"@,
            (Some(false), Some(false)) => r is Ok && r->Ok_0@ == "set-io-tasks --tx=off --rx=off"@,
        },
{
    reveal_strlit(" --");
    reveal_strlit("=");
    reveal_strlit("on");
    reveal_strlit("off");
    reveal_strlit("tx");
    reveal_strlit("rx");
    reveal_strlit("set-io-tasks");
    reveal_strlit("set-io-tasks --tx=on");
    reveal_strlit("set-io-tasks --tx=off");
    reveal_strlit("set-io-tasks --rx=on");
    reveal_strlit("set-io-tasks --rx=off");
    reveal_strlit("set-io-tasks --tx=on --rx=on");
    reveal_strlit("set-io-tasks --tx=on --rx=off");
    reveal_strlit("set-io-tasks --tx=off --rx=on");
    reveal_strlit("set-io-tasks --tx=off --rx=off");
}

/// A delivery request is accepted exactly if it names something and its mode, where it has
/// one, is one of the four. The mode and the log switch are sent each behind its own flag.
pub proof fn law_csi_delivery(cfg: CsiDeliveryConfig, r: Result<String, String>)
    requires
        call_ensures(CsiDeliveryConfig::to_cli_command, (&cfg,), r),
    ensures
        cfg.mode is None && cfg.logging is None ==> r is Err && r->Err_0@
            == "at least one of mode or logging must be provided"@,
        cfg.mode is None && cfg.logging == Some(true) ==> r is Ok && r->Ok_0@
            == "set-csi-delivery --logging=on"@,
        cfg.mode is None && cfg.logging == Some(false) ==> r is Ok && r->Ok_0@
            == "set-csi-delivery --logging=off"@,
        cfg.mode matches Some(mode) ==> {
            if mode@ == "off"@ || mode@ == "callback"@ || mode@ == "async"@ || mode@ == "raw"@ {
                r is Ok && r->Ok_0@ == "set-csi-delivery --mode="@ + mode@ + (match cfg.logging {
                    None => Seq::empty(),
                    Some(true) => " --logging=on"@,
                    Some(false) => " --logging=off"@,
                })
            } else {
                r is Err && r->Err_0@ == "Unknown csi-delivery mode '"@ + mode@
                    + "'; expected off, callback, async, or raw"@
            }
        },
{
    reveal_strlit(" --");
    reveal_strlit("=");
    reveal_strlit("on");
    reveal_strlit("off");
    reveal_strlit("mode");
    reveal_strlit("logging");
    reveal_strlit(" --logging=on");
    reveal_strlit(" --logging=off");
    reveal_strlit("set-csi-delivery");
    reveal_strlit("set-csi-delivery --mode=");
    reveal_strlit("set-csi-delivery --logging=on");
    reveal_strlit("set-csi-delivery --logging=off");
    let logging = flags::switch_flag("logging"@, cfg.logging);
    assert(flags::switch_flag("logging"@, Some(true)) =~= " --logging=on"@);
    assert(flags::switch_flag("logging"@, Some(false)) =~= " --logging=off"@);
    if let Some(mode) = cfg.mode {
        assert("set-csi-delivery"@ + flags::flag("mode"@, mode@)
            =~= "set-csi-delivery --mode="@ + mode@);
    } else {
        assert("set-csi-delivery"@ + Seq::<char>::empty() + logging =~= "set-csi-delivery"@
            + logging);
    }
}

} // verus!
