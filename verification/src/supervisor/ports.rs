//! Which of the enumerated serial ports belong to ESP32 boards, and what the devices
//! behind them are called.
use crate::text;
use vstd::prelude::*;
use vstd::string::*;

verus! {

// ─── Ports ────────────────────────────────────────────────────────────────

/// Espressif's USB vendor id, used by the built-in USB-Serial-JTAG controller.
pub const ESPRESSIF_NATIVE_USB_VID: u16 = 0x303A;

/// Vendor id of the Silicon Labs CP210x UART bridges.
pub const CP210X_VID: u16 = 0x10C4;

/// Vendor id of the WCH CH340 and CH341 UART bridges.
pub const CH34X_VID: u16 = 0x1A86;

/// The USB side of a serial port.
#[derive(Debug, Clone)]
pub struct UsbIdentity {
    /// Vendor id.
    pub vid: u16,
    /// Serial number; on native USB the board's MAC.
    pub serial_number: Option<String>,
}

/// One serial port of the machine, as enumeration reports it.
#[derive(Debug, Clone)]
pub struct SerialPort {
    /// Path or name of the port.
    pub port_name: String,
    /// Its USB side, if it is a USB port.
    pub usb: Option<UsbIdentity>,
}

/// What is known of one port without opening it.
#[derive(Debug, Clone)]
pub struct PortInfo {
    pub port_path: String,
    pub native_usb: bool,
    pub mac: Option<String>,
}

/// The USB serial number of a port.
pub open spec fn serial_number(port: SerialPort) -> Option<Seq<char>> {
    match port.usb {
        Some(usb) => text::opt(usb.serial_number),
        None => None,
    }
}

/// The port is an Espressif native USB endpoint.
pub open spec fn is_native_port(port: SerialPort) -> bool {
    port.usb is Some && port.usb->0.vid == ESPRESSIF_NATIVE_USB_VID
}

fn native_port(port: &SerialPort) -> (r: bool)
    ensures
        r == is_native_port(*port),
{
    match &port.usb {
        Some(usb) => usb.vid == ESPRESSIF_NATIVE_USB_VID,
        None => false,
    }
}

fn serial_number_of(port: &SerialPort) -> (r: Option<String>)
    ensures
        text::opt(r) == serial_number(*port),
{
    match &port.usb {
        Some(usb) => match &usb.serial_number {
            Some(s) => Some(s.clone()),
            None => None,
        },
        None => None,
    }
}

/// The first port of this name.
pub open spec fn find_port(ports: Seq<SerialPort>, path: Seq<char>) -> Option<SerialPort>
    decreases ports.len(),
{
    if ports.len() == 0 {
        None
    } else if ports[0].port_name@ == path {
        Some(ports[0])
    } else {
        find_port(ports.skip(1), path)
    }
}

/// Look one port path up in an enumeration.
pub fn probe_port(port_path: &str, ports: &Vec<SerialPort>) -> (r: Option<PortInfo>)
    ensures
        match find_port(ports@, port_path@) {
            None => r is None,
            Some(port) => {
                &&& r is Some
                &&& r->0.port_path@ == port_path@
                &&& r->0.native_usb == is_native_port(port)
                &&& text::opt(r->0.mac) == serial_number(port)
            },
        },
{
    let mut i: usize = 0;
    assert(ports@.skip(0) =~= ports@);
    while i < ports.len()
        invariant
            i <= ports@.len(),
            find_port(ports@, port_path@) == find_port(ports@.skip(i as int), port_path@),
        decreases ports@.len() - i,
    {
        assert(ports@.skip(i as int).skip(1) =~= ports@.skip(i + 1));
        let port = &ports[i];
        if text::str_eq(port.port_name.as_str(), port_path) {
            return Some(
                PortInfo {
                    port_path: port_path.to_string(),
                    native_usb: native_port(port),
                    mac: serial_number_of(port),
                },
            );
        }
        i += 1;
    }
    None
}

// ─── Detection ────────────────────────────────────────────────────────────

/// Names under which USB serial ports of boards appear.
pub open spec fn board_name(name: Seq<char>) -> bool {
    ||| text::occurs(name, "usbserial"@)
    ||| text::occurs(name, "usbmodem"@)
    ||| text::occurs(name, "ttyUSB"@)
    ||| text::occurs(name, "ttyACM"@)
}

/// Vendor ids of the USB controllers that boards carry.
pub open spec fn board_vid(vid: u16) -> bool {
    vid == CP210X_VID || vid == CH34X_VID || vid == ESPRESSIF_NATIVE_USB_VID
}

/// The port looks like a board: a USB port with a known name or vendor.
pub open spec fn is_board(port: SerialPort) -> bool {
    port.usb is Some && (board_name(port.port_name@) || board_vid(port.usb->0.vid))
}

/// The names of the USB ports.
pub open spec fn usb_names(ports: Seq<SerialPort>) -> Seq<Seq<char>> {
    ports.filter(|p: SerialPort| p.usb is Some).map_values(|p: SerialPort| p.port_name@)
}

/// The names of the ports that look like boards.
pub open spec fn board_names(ports: Seq<SerialPort>) -> Seq<Seq<char>> {
    ports.filter(|p: SerialPort| is_board(p)).map_values(|p: SerialPort| p.port_name@)
}

/// The ports to use, in no particular order: those that look like boards; where none
/// does, a USB port that is the only one.
pub open spec fn detected(ports: Seq<SerialPort>) -> Seq<Seq<char>> {
    let boards = board_names(ports);
    let usb = usb_names(ports);
    if boards.len() == 0 && usb.len() == 1 {
        usb
    } else {
        boards
    }
}

fn looks_like_board(port: &SerialPort) -> (r: bool)
    ensures
        r == is_board(*port),
{
    match &port.usb {
        None => false,
        Some(usb) => {
            let name = port.port_name.as_str();
            text::contains_text(name, "usbserial") || text::contains_text(name, "usbmodem")
                || text::contains_text(name, "ttyUSB") || text::contains_text(name, "ttyACM")
                || usb.vid == CP210X_VID || usb.vid == CH34X_VID || usb.vid
                == ESPRESSIF_NATIVE_USB_VID
        },
    }
}

/// The ports to use, sorted, so that device ids are assigned alike in every scan. An
/// `override_port` takes the place of detection; an enumeration that failed is an
/// empty one.
pub fn detect_esp_ports(override_port: Option<String>, ports: &Vec<SerialPort>) -> (r: Vec<String>)
    ensures
        match override_port {
            Some(port) => text::strings(r@) == seq![port@],
            None => text::ascending(text::strings(r@)) && text::strings(r@).to_multiset()
                == detected(ports@).to_multiset(),
        },
{
    if let Some(port) = override_port {
        let mut only: Vec<String> = Vec::new();
        let ghost name = port@;
        only.push(port);
        assert(text::strings(only@) =~= seq![name]);
        return only;
    }
    let mut boards: Vec<String> = Vec::new();
    let mut usb: Vec<String> = Vec::new();
    let mut i: usize = 0;
    proof {
        reveal(Seq::filter);
        assert(text::strings(boards@) =~= board_names(ports@.take(0)));
        assert(text::strings(usb@) =~= usb_names(ports@.take(0)));
    }
    while i < ports.len()
        invariant
            i <= ports@.len(),
            text::strings(boards@) == board_names(ports@.take(i as int)),
            text::strings(usb@) == usb_names(ports@.take(i as int)),
        decreases ports@.len() - i,
    {
        let port = &ports[i];
        let ghost boards_before = text::strings(boards@);
        let ghost usb_before = text::strings(usb@);
        proof {
            lemma_names_push(ports@.take(i as int), *port);
            assert(ports@.take(i + 1) =~= ports@.take(i as int).push(*port));
        }
        if looks_like_board(port) {
            boards.push(port.port_name.clone());
            assert(text::strings(boards@) =~= boards_before.push(port.port_name@));
        }
        if port.usb.is_some() {
            usb.push(port.port_name.clone());
            assert(text::strings(usb@) =~= usb_before.push(port.port_name@));
        }
        i += 1;
    }
    assert(ports@.take(ports@.len() as int) =~= ports@);
    if boards.len() == 0 && usb.len() == 1 {
        assert(board_names(ports@).len() == 0);
        assert(usb_names(ports@).len() == 1);
        text::sort_strings(usb)
    } else {
        assert(board_names(ports@).len() == boards@.len());
        assert(usb_names(ports@).len() == usb@.len());
        text::sort_strings(boards)
    }
}

proof fn lemma_names_push(ports: Seq<SerialPort>, port: SerialPort)
    ensures
        board_names(ports.push(port)) == (if is_board(port) {
            board_names(ports).push(port.port_name@)
        } else {
            board_names(ports)
        }),
        usb_names(ports.push(port)) == (if port.usb is Some {
            usb_names(ports).push(port.port_name@)
        } else {
            usb_names(ports)
        }),
{
    reveal(Seq::filter);
    assert(ports.push(port).drop_last() =~= ports);
    assert(board_names(ports.push(port)) =~= if is_board(port) {
        board_names(ports).push(port.port_name@)
    } else {
        board_names(ports)
    });
    assert(usb_names(ports.push(port)) =~= if port.usb is Some {
        usb_names(ports).push(port.port_name@)
    } else {
        usb_names(ports)
    });
}

// ─── Device ids ───────────────────────────────────────────────────────────

/// Characters that stand in an id as they are.
pub open spec fn id_char(c: char) -> bool {
    ('a' <= c <= 'z') || ('A' <= c <= 'Z') || ('0' <= c <= '9') || c == '_' || c == '-'
}

/// A text made fit for a URL path: every other character becomes a dash.
pub open spec fn sanitized(s: Seq<char>) -> Seq<char> {
    s.map_values(
        |c: char|
            if id_char(c) {
                c
            } else {
                '-'
            },
    )
}

/// Make a text fit for a URL path.
pub fn sanitize_id(s: &str) -> (r: String)
    ensures
        r@ == sanitized(s@),
{
    let mut out = String::new();
    for c in it: s.chars()
        invariant
            it.seq() == s@,
            out@ == sanitized(s@.take(it.index() as int)),
    {
        proof {
            assert(s@.take(it.index() + 1) =~= s@.take(it.index() as int).push(c));
        }
        if ('a' <= c && c <= 'z') || ('A' <= c && c <= 'Z') || ('0' <= c && c <= '9') || c == '_'
            || c == '-' {
            out.push(c);
        } else {
            out.push('-');
        }
        assert(out@ =~= sanitized(s@.take(it.index() + 1)));
    }
    assert(s@.take(s@.len() as int) == s@);
    out
}

/// What follows the last slash of a path.
pub open spec fn basename(path: Seq<char>) -> Seq<char>
    decreases path.len(),
{
    if path.len() == 0 || path.last() == '/' {
        Seq::empty()
    } else {
        basename(path.drop_last()).push(path.last())
    }
}

fn basename_of(path: &str) -> (r: String)
    ensures
        r@ == basename(path@),
{
    let chars = text::chars_of(path);
    let mut from: usize = chars.len();
    proof {
        assert(chars@.take(chars@.len() as int) =~= chars@);
        assert(chars@.subrange(chars@.len() as int, chars@.len() as int) =~= Seq::empty());
        assert(basename(chars@) =~= basename(chars@) + Seq::empty());
    }
    while from > 0 && chars[from - 1] != '/'
        invariant
            from <= chars@.len(),
            chars@ == path@,
            basename(chars@) == basename(chars@.take(from as int)) + chars@.subrange(
                from as int,
                chars@.len() as int,
            ),
        decreases from,
    {
        proof {
            let head = chars@.take(from as int);
            assert(head.drop_last() =~= chars@.take(from - 1));
            assert(basename(head) == basename(head.drop_last()).push(head.last()));
            assert(chars@.subrange(from - 1, chars@.len() as int) =~= seq![chars@[from - 1]]
                + chars@.subrange(from as int, chars@.len() as int));
            assert(basename(chars@) =~= basename(chars@.take(from - 1)) + chars@.subrange(
                from - 1,
                chars@.len() as int,
            ));
        }
        from -= 1;
    }
    assert(basename(chars@.take(from as int)) =~= Seq::empty());
    assert(basename(chars@) =~= chars@.subrange(from as int, chars@.len() as int));
    text::string_of(&chars, from, chars.len())
}

/// The name that the aliases give to a port or to the board behind it: the first one
/// whose key is the path or the MAC.
pub open spec fn alias_of(
    aliases: Seq<(String, String)>,
    path: Seq<char>,
    mac: Option<Seq<char>>,
) -> Option<Seq<char>>
    decreases aliases.len(),
{
    if aliases.len() == 0 {
        None
    } else if aliases[0].1@ == path || mac == Some(aliases[0].1@) {
        Some(aliases[0].0@)
    } else {
        alias_of(aliases.skip(1), path, mac)
    }
}

/// The id of the device on a port: its alias, else its MAC, which stays the same when
/// the port is renumbered, else the last part of the path.
pub open spec fn id_of(
    path: Seq<char>,
    mac: Option<Seq<char>>,
    aliases: Seq<(String, String)>,
) -> Seq<char> {
    match alias_of(aliases, path, mac) {
        Some(alias) => alias,
        None => match mac {
            Some(mac) => sanitized(mac),
            None => sanitized(basename(path)),
        },
    }
}

/// The text of an optional string slice.
pub open spec fn opt_str(o: Option<&str>) -> Option<Seq<char>> {
    match o {
        Some(s) => Some(s@),
        None => None,
    }
}

/// The id of the device on a port.
pub fn device_id(port_path: &str, mac: Option<&str>, aliases: &[(String, String)]) -> (r: String)
    ensures
        r@ == id_of(port_path@, opt_str(mac), aliases@),
{
    let mut i: usize = 0;
    assert(aliases@.skip(0) =~= aliases@);
    while i < aliases.len()
        invariant
            i <= aliases@.len(),
            alias_of(aliases@, port_path@, opt_str(mac)) == alias_of(
                aliases@.skip(i as int),
                port_path@,
                opt_str(mac),
            ),
        decreases aliases@.len() - i,
    {
        assert(aliases@.skip(i as int).skip(1) =~= aliases@.skip(i + 1));
        let key = aliases[i].1.as_str();
        let by_mac = match mac {
            Some(m) => text::str_eq(key, m),
            None => false,
        };
        if text::str_eq(key, port_path) || by_mac {
            return aliases[i].0.clone();
        }
        i += 1;
    }
    match mac {
        Some(m) => sanitize_id(m),
        None => {
            let base = basename_of(port_path);
            sanitize_id(base.as_str())
        },
    }
}

// ─── Scanning ─────────────────────────────────────────────────────────────

/// A port on which a device may be attached.
#[derive(Debug)]
pub struct PortCandidate {
    /// Id of the device.
    pub id: String,
    /// Path of the port.
    pub path: String,
    /// The port is an Espressif native USB endpoint.
    pub native_usb: bool,
    /// MAC of the board, if the port tells it.
    pub mac: Option<String>,
}

/// The mathematical form of a [`PortCandidate`].
pub struct PortCandidateView {
    pub id: Seq<char>,
    pub path: Seq<char>,
    pub native_usb: bool,
    pub mac: Option<Seq<char>>,
}

impl View for PortCandidate {
    type V = PortCandidateView;

    open spec fn view(&self) -> PortCandidateView {
        PortCandidateView {
            id: self.id@,
            path: self.path@,
            native_usb: self.native_usb,
            mac: text::opt(self.mac),
        }
    }
}

/// The candidates of a list.
pub open spec fn candidates_view(list: Seq<PortCandidate>) -> Seq<PortCandidateView> {
    list.map_values(|c: PortCandidate| c@)
}

/// A port of this name exists.
pub open spec fn port_exists(ports: Seq<SerialPort>, path: Seq<char>) -> bool {
    find_port(ports, path) is Some
}

/// A native USB port of this name exists.
pub open spec fn native_at(ports: Seq<SerialPort>, path: Seq<char>) -> bool
    decreases ports.len(),
{
    ports.len() > 0 && ((ports[0].port_name@ == path && is_native_port(ports[0])) || native_at(
        ports.skip(1),
        path,
    ))
}

/// The first USB serial number that a port of this name has.
pub open spec fn mac_at(ports: Seq<SerialPort>, path: Seq<char>) -> Option<Seq<char>>
    decreases ports.len(),
{
    if ports.len() == 0 {
        None
    } else if ports[0].port_name@ == path && serial_number(ports[0]) is Some {
        serial_number(ports[0])
    } else {
        mac_at(ports.skip(1), path)
    }
}

/// The candidate on a detected port.
pub open spec fn candidate_at(
    ports: Seq<SerialPort>,
    path: Seq<char>,
    aliases: Seq<(String, String)>,
) -> PortCandidateView {
    PortCandidateView {
        id: id_of(path, mac_at(ports, path), aliases),
        path,
        native_usb: native_at(ports, path),
        mac: mac_at(ports, path),
    }
}

/// A candidate on this port is in the list.
pub open spec fn has_path(list: Seq<PortCandidateView>, path: Seq<char>) -> bool {
    exists|i: int| 0 <= i < list.len() && (#[trigger] list[i]).path == path
}

/// The list with the aliased ports that exist and are not in it yet, under their
/// aliases: an alias can name a port that does not look like a board.
pub open spec fn with_aliased(
    list: Seq<PortCandidateView>,
    ports: Seq<SerialPort>,
    aliases: Seq<(String, String)>,
) -> Seq<PortCandidateView>
    decreases aliases.len(),
{
    if aliases.len() == 0 {
        list
    } else {
        let path = aliases[0].1@;
        let next = if port_exists(ports, path) && !has_path(list, path) {
            list.push(
                PortCandidateView {
                    id: aliases[0].0@,
                    path,
                    native_usb: native_at(ports, path),
                    mac: mac_at(ports, path),
                },
            )
        } else {
            list
        };
        with_aliased(next, ports, aliases.skip(1))
    }
}

/// The candidates on the detected ports.
pub open spec fn on_detected(
    found: Seq<Seq<char>>,
    ports: Seq<SerialPort>,
    aliases: Seq<(String, String)>,
) -> Seq<PortCandidateView> {
    found.map_values(|path: Seq<char>| candidate_at(ports, path, aliases))
}

fn is_native(ports: &Vec<SerialPort>, path: &str) -> (r: bool)
    ensures
        r == native_at(ports@, path@),
{
    let mut i: usize = 0;
    assert(ports@.skip(0) =~= ports@);
    while i < ports.len()
        invariant
            i <= ports@.len(),
            native_at(ports@, path@) == native_at(ports@.skip(i as int), path@),
        decreases ports@.len() - i,
    {
        assert(ports@.skip(i as int).skip(1) =~= ports@.skip(i + 1));
        if text::str_eq(ports[i].port_name.as_str(), path) && native_port(&ports[i]) {
            return true;
        }
        i += 1;
    }
    false
}

fn mac_of(ports: &Vec<SerialPort>, path: &str) -> (r: Option<String>)
    ensures
        text::opt(r) == mac_at(ports@, path@),
{
    let mut i: usize = 0;
    assert(ports@.skip(0) =~= ports@);
    while i < ports.len()
        invariant
            i <= ports@.len(),
            mac_at(ports@, path@) == mac_at(ports@.skip(i as int), path@),
        decreases ports@.len() - i,
    {
        assert(ports@.skip(i as int).skip(1) =~= ports@.skip(i + 1));
        if text::str_eq(ports[i].port_name.as_str(), path) {
            let mac = serial_number_of(&ports[i]);
            if mac.is_some() {
                return mac;
            }
        }
        i += 1;
    }
    None
}

fn lists_path(list: &Vec<PortCandidate>, path: &str) -> (r: bool)
    ensures
        r == has_path(candidates_view(list@), path@),
{
    let mut i: usize = 0;
    while i < list.len()
        invariant
            i <= list@.len(),
            forall|j: int| 0 <= j < i ==> (#[trigger] candidates_view(list@)[j]).path != path@,
        decreases list@.len() - i,
    {
        assert(candidates_view(list@)[i as int] == list@[i as int]@);
        if text::str_eq(list[i].path.as_str(), path) {
            return true;
        }
        i += 1;
    }
    false
}

/// The ports on which devices may be attached: the detected ones, in their order, and
/// then the aliased ones that exist besides.
pub fn scan_ports(
    found: &Vec<String>,
    ports: &Vec<SerialPort>,
    aliases: &Vec<(String, String)>,
) -> (r: Vec<PortCandidate>)
    ensures
        candidates_view(r@) == with_aliased(
            on_detected(text::strings(found@), ports@, aliases@),
            ports@,
            aliases@,
        ),
{
    let mut list: Vec<PortCandidate> = Vec::new();
    let ghost paths = text::strings(found@);
    let mut i: usize = 0;
    assert(candidates_view(list@) =~= on_detected(paths.take(0), ports@, aliases@));
    while i < found.len()
        invariant
            i <= found@.len(),
            paths == text::strings(found@),
            candidates_view(list@) == on_detected(paths.take(i as int), ports@, aliases@),
        decreases found@.len() - i,
    {
        let path = found[i].as_str();
        let mac = mac_of(ports, path);
        let mac_str = match &mac {
            Some(m) => Some(m.as_str()),
            None => None,
        };
        let id = device_id(path, mac_str, aliases.as_slice());
        let ghost before = candidates_view(list@);
        list.push(
            PortCandidate {
                id,
                path: path.to_string(),
                native_usb: is_native(ports, path),
                mac,
            },
        );
        proof {
            assert(paths.take(i + 1) =~= paths.take(i as int).push(paths[i as int]));
            assert(candidates_view(list@) =~= before.push(
                candidate_at(ports@, paths[i as int], aliases@),
            ));
            assert(candidates_view(list@) =~= on_detected(paths.take(i + 1), ports@, aliases@));
        }
        i += 1;
    }
    assert(paths.take(paths.len() as int) =~= paths);
    let ghost start = candidates_view(list@);
    let mut k: usize = 0;
    assert(aliases@.skip(0) =~= aliases@);
    while k < aliases.len()
        invariant
            k <= aliases@.len(),
            with_aliased(start, ports@, aliases@) == with_aliased(
                candidates_view(list@),
                ports@,
                aliases@.skip(k as int),
            ),
        decreases aliases@.len() - k,
    {
        let path = aliases[k].1.as_str();
        let ghost before = candidates_view(list@);
        assert(aliases@.skip(k as int).skip(1) =~= aliases@.skip(k + 1));
        if probe_port(path, ports).is_some() && !lists_path(&list, path) {
            list.push(
                PortCandidate {
                    id: aliases[k].0.clone(),
                    path: path.to_string(),
                    native_usb: is_native(ports, path),
                    mac: mac_of(ports, path),
                },
            );
            assert(candidates_view(list@) =~= before.push(
                PortCandidateView {
                    id: aliases@[k as int].0@,
                    path: path@,
                    native_usb: native_at(ports@, path@),
                    mac: mac_at(ports@, path@),
                },
            ));
        }
        k += 1;
    }
    list
}

// ─── Laws ─────────────────────────────────────────────────────────────────

/// An id is fit for a URL path: letters, digits, underscores and dashes, as many as
/// the text had characters.
pub proof fn law_ids_are_url_safe(s: Seq<char>, i: int)
    requires
        0 <= i < s.len(),
    ensures
        sanitized(s).len() == s.len(),
        id_char(sanitized(s)[i]),
        id_char(s[i]) ==> sanitized(s)[i] == s[i],
{
}

/// What is fit already stays as it is.
pub proof fn law_sanitizing_is_idempotent(s: Seq<char>)
    ensures
        sanitized(sanitized(s)) == sanitized(s),
{
    assert(sanitized(sanitized(s)) =~= sanitized(s));
}

/// A board that tells its MAC keeps its id on whatever port it appears, unless an alias
/// names one of the ports.
pub proof fn law_id_follows_the_board(
    path: Seq<char>,
    other: Seq<char>,
    mac: Seq<char>,
    aliases: Seq<(String, String)>,
)
    requires
        forall|i: int|
            0 <= i < aliases.len() ==> (#[trigger] aliases[i]).1@ != path && aliases[i].1@ != other,
    ensures
        id_of(path, Some(mac), aliases) == id_of(other, Some(mac), aliases),
{
    lemma_alias_by_mac(path, other, mac, aliases);
}

proof fn lemma_alias_by_mac(
    path: Seq<char>,
    other: Seq<char>,
    mac: Seq<char>,
    aliases: Seq<(String, String)>,
)
    requires
        forall|i: int|
            0 <= i < aliases.len() ==> (#[trigger] aliases[i]).1@ != path && aliases[i].1@ != other,
    ensures
        alias_of(aliases, path, Some(mac)) == alias_of(aliases, other, Some(mac)),
    decreases aliases.len(),
{
    if aliases.len() > 0 {
        let first = aliases[0];
        assert(first.1@ != path && first.1@ != other);
        let rest = aliases.skip(1);
        assert forall|i: int| 0 <= i < rest.len() implies (#[trigger] rest[i]).1@ != path
            && rest[i].1@ != other by {
            assert(rest[i] == aliases[i + 1]);
        }
        lemma_alias_by_mac(path, other, mac, rest);
    }
}

/// No two candidates are on the same port.
pub open spec fn paths_distinct(list: Seq<PortCandidateView>) -> bool {
    forall|i: int, j: int|
        0 <= i < j < list.len() ==> (#[trigger] list[i]).path != (#[trigger] list[j]).path
}

/// Aliases never put a port into a scan twice, drop none that was detected, and bring
/// in every aliased port that exists.
pub proof fn law_aliases_complete_the_scan(
    list: Seq<PortCandidateView>,
    ports: Seq<SerialPort>,
    aliases: Seq<(String, String)>,
)
    ensures
        paths_distinct(list) ==> paths_distinct(with_aliased(list, ports, aliases)),
        list.is_prefix_of(with_aliased(list, ports, aliases)),
        forall|k: int|
            0 <= k < aliases.len() && port_exists(ports, (#[trigger] aliases[k]).1@) ==> has_path(
                with_aliased(list, ports, aliases),
                aliases[k].1@,
            ),
    decreases aliases.len(),
{
    if aliases.len() > 0 {
        let path = aliases[0].1@;
        let added = PortCandidateView {
            id: aliases[0].0@,
            path,
            native_usb: native_at(ports, path),
            mac: mac_at(ports, path),
        };
        let next = if port_exists(ports, path) && !has_path(list, path) {
            list.push(added)
        } else {
            list
        };
        let rest = aliases.skip(1);
        let all = with_aliased(list, ports, aliases);
        law_aliases_complete_the_scan(next, ports, rest);
        assert(all == with_aliased(next, ports, rest));
        assert(list.is_prefix_of(next));
        assert(list.is_prefix_of(all)) by {
            assert(forall|i: int| 0 <= i < list.len() ==> list[i] == next[i]);
            assert(forall|i: int| 0 <= i < next.len() ==> next[i] == all[i]);
            assert(list =~= all.subrange(0, list.len() as int));
        }
        assert forall|k: int|
            0 <= k < aliases.len() && port_exists(
                ports,
                (#[trigger] aliases[k]).1@,
            ) implies has_path(all, aliases[k].1@) by {
            if k == 0 {
                if has_path(list, path) {
                    let i = choose|i: int| 0 <= i < list.len() && (#[trigger] list[i]).path == path;
                    assert(next[i] == list[i]);
                    assert(all[i] == next[i]);
                } else {
                    let i = list.len() as int;
                    assert(next[i].path == path);
                    assert(all[i] == next[i]);
                }
            } else {
                assert(rest[k - 1] == aliases[k]);
            }
        }
    }
}

/// A sorted list is determined by what it lists: two scans that detect the same ports
/// list them alike, in whatever order they were enumerated.
pub proof fn law_detection_is_stable(a: Seq<Seq<char>>, b: Seq<Seq<char>>)
    requires
        text::ascending(a),
        text::ascending(b),
        a.to_multiset() == b.to_multiset(),
    ensures
        a == b,
    decreases a.len(),
{
    a.to_multiset_ensures();
    b.to_multiset_ensures();
    assert(a.len() == b.len());
    if a.len() == 0 {
        assert(a =~= b);
    } else {
        lemma_least_first(a, b);
        lemma_least_first(b, a);
        text::lemma_lex_total(a[0], b[0]);
        assert(a[0] == b[0]);
        let ra = a.remove(0);
        let rb = b.remove(0);
        assert(ra.to_multiset() =~= a.to_multiset().remove(a[0]));
        assert(rb.to_multiset() =~= b.to_multiset().remove(b[0]));
        assert forall|i: int, j: int| 0 <= i < j < ra.len() implies !text::lex_lt(
            #[trigger] ra[j],
            #[trigger] ra[i],
        ) by {
            assert(ra[i] == a[i + 1] && ra[j] == a[j + 1]);
        }
        assert forall|i: int, j: int| 0 <= i < j < rb.len() implies !text::lex_lt(
            #[trigger] rb[j],
            #[trigger] rb[i],
        ) by {
            assert(rb[i] == b[i + 1] && rb[j] == b[j + 1]);
        }
        law_detection_is_stable(ra, rb);
        assert(a =~= seq![a[0]] + ra);
        assert(b =~= seq![b[0]] + rb);
    }
}

/// No element of a permutation precedes the first of an ascending list.
proof fn lemma_least_first(a: Seq<Seq<char>>, b: Seq<Seq<char>>)
    requires
        text::ascending(a),
        a.to_multiset() == b.to_multiset(),
        a.len() > 0,
        b.len() > 0,
    ensures
        !text::lex_lt(b[0], a[0]),
{
    a.to_multiset_ensures();
    b.to_multiset_ensures();
    assert(b.contains(b[0]));
    assert(b.to_multiset().count(b[0]) > 0);
    assert(a.contains(b[0]));
    let i = choose|i: int| 0 <= i < a.len() && a[i] == b[0];
    if i == 0 {
        text::lemma_lex_irreflexive(a[0]);
    } else {
        assert(!text::lex_lt(a[i], a[0]));
    }
}

/// A port that looks like a board: on USB, and either named like a serial adapter or from one
/// of the three vendors.
pub open spec fn recognised(port: SerialPort) -> bool {
    &&& port.usb is Some
    &&& text::occurs(port.port_name@, "usbserial"@) || text::occurs(port.port_name@, "usbmodem"@)
        || text::occurs(port.port_name@, "ttyUSB"@) || text::occurs(port.port_name@, "ttyACM"@)
        || port.usb->0.vid == 0x10C4 || port.usb->0.vid == 0x1A86 || port.usb->0.vid == 0x303A
}

/// Every board is detected, and only boards are; without any, a single USB port is taken for
/// one, and several are not. The list is in ascending order.
pub proof fn law_boards_are_detected(ports: Vec<SerialPort>, r: Vec<String>, i: int, j: int)
    requires
        call_ensures(detect_esp_ports, (None, &ports), r),
    ensures
        0 <= i < ports@.len() && recognised(ports@[i]) ==> text::strings(r@).contains(
            ports@[i].port_name@,
        ),
        (exists|k: int| 0 <= k < ports@.len() && recognised(#[trigger] ports@[k])) && 0 <= j
            < r@.len() ==> exists|k: int|
            0 <= k < ports@.len() && recognised(#[trigger] ports@[k]) && ports@[k].port_name@
                == r@[j]@,
        (forall|k: int| 0 <= k < ports@.len() ==> !recognised(#[trigger] ports@[k])) && 0 <= i
            < ports@.len() && ports@[i].usb is Some && (forall|k: int|
            0 <= k < ports@.len() && k != i ==> (#[trigger] ports@[k]).usb is None)
            ==> text::strings(r@) == seq![ports@[i].port_name@],
        (forall|k: int| 0 <= k < ports@.len() ==> !recognised(#[trigger] ports@[k])) && 0 <= i < j
            < ports@.len() && ports@[i].usb is Some && ports@[j].usb is Some ==> r@.len() == 0,
        (forall|k: int| 0 <= k < ports@.len() ==> (#[trigger] ports@[k]).usb is None) ==> r@.len()
            == 0,
        0 <= i < j < r@.len() ==> !text::lex_lt(r@[j]@, r@[i]@),
{
    let names = text::strings(r@);
    let boards = board_names(ports@);
    let usb = usb_names(ports@);
    names.to_multiset_ensures();
    detected(ports@).to_multiset_ensures();
    lemma_names_of(ports@);
    if 0 <= i < ports@.len() && recognised(ports@[i]) {
        assert(boards.contains(ports@[i].port_name@));
        assert(boards.len() > 0);
        assert(boards.to_multiset().count(ports@[i].port_name@) > 0);
    }
    if (exists|k: int| 0 <= k < ports@.len() && recognised(#[trigger] ports@[k])) && 0 <= j
        < r@.len() {
        let k = choose|k: int| 0 <= k < ports@.len() && recognised(#[trigger] ports@[k]);
        assert(boards.contains(ports@[k].port_name@));
        assert(names[j] == r@[j]@);
        assert(names.contains(names[j]));
        assert(names.to_multiset().count(names[j]) > 0);
        assert(boards.contains(names[j]));
    }
    if forall|k: int| 0 <= k < ports@.len() ==> !recognised(#[trigger] ports@[k]) {
        assert(boards.len() == 0) by {
            if boards.len() > 0 {
                assert(boards.contains(boards[0]));
            }
        }
        if 0 <= i < ports@.len() && ports@[i].usb is Some && (forall|k: int|
            0 <= k < ports@.len() && k != i ==> (#[trigger] ports@[k]).usb is None) {
            lemma_only_usb(ports@, i);
            assert(names.len() == 1) by {
                assert(usb.len() == 1);
            }
            assert(usb.contains(usb[0]));
            assert(names.to_multiset().count(usb[0]) > 0);
            assert(names.contains(usb[0]));
            assert(names =~= seq![ports@[i].port_name@]);
        }
        if 0 <= i < j < ports@.len() && ports@[i].usb is Some && ports@[j].usb is Some {
            lemma_two_usb(ports@, i, j);
        }
    }
    if forall|k: int| 0 <= k < ports@.len() ==> (#[trigger] ports@[k]).usb is None {
        assert(usb.len() == 0) by {
            if usb.len() > 0 {
                assert(usb.contains(usb[0]));
            }
        }
        assert(boards.len() == 0) by {
            if boards.len() > 0 {
                assert(boards.contains(boards[0]));
            }
        }
    }
    if 0 <= i < j < r@.len() {
        assert(names[i] == r@[i]@ && names[j] == r@[j]@);
    }
}

proof fn lemma_names_of(ports: Seq<SerialPort>)
    ensures
        forall|name: Seq<char>| #[trigger]
            board_names(ports).contains(name) <==> exists|k: int|
                0 <= k < ports.len() && recognised(#[trigger] ports[k]) && ports[k].port_name@
                    == name,
        forall|name: Seq<char>| #[trigger]
            usb_names(ports).contains(name) <==> exists|k: int|
                0 <= k < ports.len() && (#[trigger] ports[k]).usb is Some && ports[k].port_name@
                    == name,
    decreases ports.len(),
{
    if ports.len() == 0 {
        reveal(Seq::filter);
        assert(board_names(ports) =~= Seq::empty());
        assert(usb_names(ports) =~= Seq::empty());
    } else {
        let head = ports.drop_last();
        let last = ports.last();
        lemma_names_of(head);
        lemma_names_push(head, last);
        assert(head.push(last) =~= ports);
        assert(is_board(last) == recognised(last));
        assert forall|name: Seq<char>| #[trigger] board_names(ports).contains(name) <==> exists|
            k: int,
        |
            0 <= k < ports.len() && recognised(#[trigger] ports[k]) && ports[k].port_name@
                == name by {
            lemma_push_contains(board_names(head), last.port_name@, name);
            if board_names(head).contains(name) {
                let k = choose|k: int|
                    0 <= k < head.len() && recognised(#[trigger] head[k]) && head[k].port_name@
                        == name;
                assert(ports[k] == head[k]);
            }
            if exists|k: int|
                0 <= k < ports.len() && recognised(#[trigger] ports[k]) && ports[k].port_name@
                    == name {
                let k = choose|k: int|
                    0 <= k < ports.len() && recognised(#[trigger] ports[k]) && ports[k].port_name@
                        == name;
                if k < head.len() {
                    assert(head[k] == ports[k]);
                }
            }
            if recognised(last) && last.port_name@ == name {
                assert(ports[ports.len() - 1] == last);
            }
        }
        assert forall|name: Seq<char>| #[trigger] usb_names(ports).contains(name) <==> exists|
            k: int,
        |
            0 <= k < ports.len() && (#[trigger] ports[k]).usb is Some && ports[k].port_name@
                == name by {
            lemma_push_contains(usb_names(head), last.port_name@, name);
            if usb_names(head).contains(name) {
                let k = choose|k: int|
                    0 <= k < head.len() && (#[trigger] head[k]).usb is Some && head[k].port_name@
                        == name;
                assert(ports[k] == head[k]);
            }
            if exists|k: int|
                0 <= k < ports.len() && (#[trigger] ports[k]).usb is Some && ports[k].port_name@
                    == name {
                let k = choose|k: int|
                    0 <= k < ports.len() && (#[trigger] ports[k]).usb is Some
                        && ports[k].port_name@ == name;
                if k < head.len() {
                    assert(head[k] == ports[k]);
                }
            }
            if last.usb is Some && last.port_name@ == name {
                assert(ports[ports.len() - 1] == last);
            }
        }
    }
}

proof fn lemma_push_contains(list: Seq<Seq<char>>, s: Seq<char>, name: Seq<char>)
    ensures
        list.push(s).contains(name) <==> list.contains(name) || s == name,
{
    if list.push(s).contains(name) {
        let k = choose|k: int| 0 <= k < list.push(s).len() && list.push(s)[k] == name;
        if k < list.len() {
            assert(list[k] == name);
        }
    }
    if list.contains(name) {
        let k = choose|k: int| 0 <= k < list.len() && list[k] == name;
        assert(list.push(s)[k] == name);
    }
    if s == name {
        assert(list.push(s)[list.len() as int] == name);
    }
}

proof fn lemma_no_usb(ports: Seq<SerialPort>)
    requires
        forall|k: int| 0 <= k < ports.len() ==> (#[trigger] ports[k]).usb is None,
    ensures
        usb_names(ports) == Seq::<Seq<char>>::empty(),
{
    lemma_names_of(ports);
    if usb_names(ports).len() > 0 {
        assert(usb_names(ports).contains(usb_names(ports)[0]));
    }
    assert(usb_names(ports) =~= Seq::empty());
}

proof fn lemma_only_usb(ports: Seq<SerialPort>, i: int)
    requires
        0 <= i < ports.len(),
        ports[i].usb is Some,
        forall|k: int| 0 <= k < ports.len() && k != i ==> (#[trigger] ports[k]).usb is None,
    ensures
        usb_names(ports) == seq![ports[i].port_name@],
    decreases ports.len(),
{
    let head = ports.drop_last();
    let last = ports.last();
    lemma_names_push(head, last);
    assert(head.push(last) =~= ports);
    if i == ports.len() - 1 {
        assert forall|k: int| 0 <= k < head.len() implies (#[trigger] head[k]).usb is None by {
            assert(head[k] == ports[k]);
        }
        lemma_no_usb(head);
        assert(usb_names(ports) =~= seq![ports[i].port_name@]);
    } else {
        assert(ports[ports.len() - 1].usb is None);
        assert forall|k: int| 0 <= k < head.len() && k != i implies (
        #[trigger] head[k]).usb is None by {
            assert(head[k] == ports[k]);
        }
        lemma_only_usb(head, i);
    }
}

proof fn lemma_two_usb(ports: Seq<SerialPort>, i: int, j: int)
    requires
        0 <= i < j < ports.len(),
        ports[i].usb is Some,
        ports[j].usb is Some,
    ensures
        usb_names(ports).len() >= 2,
    decreases ports.len(),
{
    let head = ports.drop_last();
    let last = ports.last();
    lemma_names_push(head, last);
    assert(head.push(last) =~= ports);
    if j == ports.len() - 1 {
        lemma_names_of(head);
        assert(head[i] == ports[i]);
        assert(usb_names(head).contains(ports[i].port_name@));
    } else {
        lemma_two_usb(head, i, j);
    }
}

/// Where there are boards, each further one is listed once more, under its own name, and a
/// port that is none changes nothing.
pub proof fn law_one_board_more(
    ports: Vec<SerialPort>,
    longer: Vec<SerialPort>,
    port: SerialPort,
    r: Vec<String>,
    s: Vec<String>,
)
    requires
        call_ensures(detect_esp_ports, (None, &ports), r),
        call_ensures(detect_esp_ports, (None, &longer), s),
        longer@ == ports@.push(port),
        exists|k: int| 0 <= k < ports@.len() && recognised(#[trigger] ports@[k]),
    ensures
        recognised(port) ==> text::strings(s@).to_multiset() == text::strings(
            r@,
        ).to_multiset().insert(port.port_name@),
        !recognised(port) ==> text::strings(s@) == text::strings(r@),
{
    let k = choose|k: int| 0 <= k < ports@.len() && recognised(#[trigger] ports@[k]);
    lemma_names_of(ports@);
    lemma_names_of(longer@);
    assert(longer@[k] == ports@[k]);
    let name = ports@[k].port_name@;
    assert(board_names(ports@).contains(name));
    assert(board_names(longer@).contains(name));
    lemma_names_push(ports@, port);
    assert(is_board(port) == recognised(port));
    board_names(ports@).to_multiset_ensures();
    if !recognised(port) {
        law_detection_is_stable(text::strings(s@), text::strings(r@));
    }
}

/// A port that is named by the user is taken as it is, and no other.
pub proof fn law_named_port_is_taken(port: String, ports: Vec<SerialPort>, r: Vec<String>)
    requires
        call_ensures(detect_esp_ports, (Some(port), &ports), r),
    ensures
        r@.len() == 1,
        r@[0]@ == port@,
{
    let names = text::strings(r@);
    assert(names == seq![port@]);
    assert(names.len() == r@.len());
    assert(names[0] == r@[0]@);
}

/// A path is probed among the ports: what is known is what the first port of that name
/// tells, and nothing where there is none.
pub proof fn law_probe_tells_the_port(
    path: &str,
    ports: Vec<SerialPort>,
    r: Option<PortInfo>,
    i: int,
)
    requires
        call_ensures(probe_port, (path, &ports), r),
    ensures
        r is None <==> forall|k: int|
            0 <= k < ports@.len() ==> (#[trigger] ports@[k]).port_name@ != path@,
        0 <= i < ports@.len() && ports@[i].port_name@ == path@ && (forall|k: int|
            0 <= k < i ==> (#[trigger] ports@[k]).port_name@ != path@) ==> {
            &&& r is Some
            &&& r->0.port_path@ == path@
            &&& r->0.native_usb == (ports@[i].usb is Some && ports@[i].usb->0.vid == 0x303A)
            &&& ports@[i].usb is None ==> r->0.mac is None
            &&& ports@[i].usb is Some ==> text::opt(r->0.mac) == text::opt(
                ports@[i].usb->0.serial_number,
            )
        },
{
    lemma_found_port(ports@, path@);
    if 0 <= i < ports@.len() && ports@[i].port_name@ == path@ && (forall|k: int|
        0 <= k < i ==> (#[trigger] ports@[k]).port_name@ != path@) {
        lemma_first_port(ports@, path@, i);
    }
}

proof fn lemma_found_port(ports: Seq<SerialPort>, path: Seq<char>)
    ensures
        find_port(ports, path) is None <==> forall|k: int|
            0 <= k < ports.len() ==> (#[trigger] ports[k]).port_name@ != path,
    decreases ports.len(),
{
    if ports.len() > 0 && ports[0].port_name@ != path {
        let rest = ports.skip(1);
        lemma_found_port(rest, path);
        if forall|k: int| 0 <= k < rest.len() ==> (#[trigger] rest[k]).port_name@ != path {
            assert forall|k: int| 0 <= k < ports.len() implies (#[trigger] ports[k]).port_name@
                != path by {
                if k > 0 {
                    assert(rest[k - 1] == ports[k]);
                }
            }
        } else {
            let k = choose|k: int| 0 <= k < rest.len() && (#[trigger] rest[k]).port_name@ == path;
            assert(ports[k + 1] == rest[k]);
        }
    }
}

proof fn lemma_first_port(ports: Seq<SerialPort>, path: Seq<char>, i: int)
    requires
        0 <= i < ports.len(),
        ports[i].port_name@ == path,
        forall|k: int| 0 <= k < i ==> (#[trigger] ports[k]).port_name@ != path,
    ensures
        find_port(ports, path) == Some(ports[i]),
    decreases ports.len(),
{
    if i > 0 {
        let rest = ports.skip(1);
        assert(ports[0].port_name@ != path);
        assert forall|k: int| 0 <= k < i - 1 implies (#[trigger] rest[k]).port_name@ != path by {
            assert(rest[k] == ports[k + 1]);
        }
        lemma_first_port(rest, path, i - 1);
    }
}

/// An id holds letters, digits, `_` and `-` only: those stay, and anything else becomes `-`.
pub proof fn law_ids_keep_what_is_safe(s: &str, r: String, i: int)
    requires
        call_ensures(sanitize_id, (s,), r),
        0 <= i < s@.len(),
    ensures
        r@.len() == s@.len(),
        ({
            let c = s@[i] as int;
            if 97 <= c <= 122 || 65 <= c <= 90 || 48 <= c <= 57 || c == 95 || c == 45 {
                r@[i] == s@[i]
            } else {
                r@[i] == '-'
            }
        }),
{
}

/// The key of an alias names this port or this board.
pub open spec fn alias_matches(
    alias: (String, String),
    path: Seq<char>,
    mac: Option<&str>,
) -> bool {
    alias.1@ == path || (mac is Some && alias.1@ == mac->0@)
}

/// A device is called by the first alias whose key is its path or its MAC; without one by its
/// MAC, and without that by the last component of its path, each made safe for URLs.
pub proof fn law_device_is_named(
    path: &str,
    mac: Option<&str>,
    aliases: &[(String, String)],
    r: String,
    i: int,
    safe_mac: String,
    dir: Seq<char>,
    base: &str,
    safe_base: String,
)
    requires
        call_ensures(device_id, (path, mac, aliases), r),
        mac is Some ==> call_ensures(sanitize_id, (mac->0,), safe_mac),
        call_ensures(sanitize_id, (base,), safe_base),
    ensures
        0 <= i < aliases@.len() && alias_matches(aliases@[i], path@, mac) && (forall|k: int|
            0 <= k < i ==> !alias_matches(#[trigger] aliases@[k], path@, mac)) ==> r@
            == aliases@[i].0@,
        (forall|k: int| 0 <= k < aliases@.len() ==> !alias_matches(#[trigger] aliases@[k], path@, mac))
            && mac is Some ==> r@ == safe_mac@,
        (forall|k: int| 0 <= k < aliases@.len() ==> !alias_matches(#[trigger] aliases@[k], path@, mac))
            && mac is None && !base@.contains('/') && (path@ == base@ || path@ == dir.push('/')
            + base@) ==> r@ == safe_base@,
{
    if 0 <= i < aliases@.len() && alias_matches(aliases@[i], path@, mac) && (forall|k: int|
        0 <= k < i ==> !alias_matches(#[trigger] aliases@[k], path@, mac)) {
        lemma_first_alias(aliases@, path@, mac, i);
    }
    if forall|k: int| 0 <= k < aliases@.len() ==> !alias_matches(#[trigger] aliases@[k], path@, mac) {
        lemma_no_alias(aliases@, path@, mac);
        if !base@.contains('/') {
            lemma_last_component(Seq::empty(), base@, false);
            assert(Seq::<char>::empty() + base@ =~= base@);
            lemma_last_component(dir.push('/'), base@, true);
        }
    }
}

proof fn lemma_first_alias(
    aliases: Seq<(String, String)>,
    path: Seq<char>,
    mac: Option<&str>,
    i: int,
)
    requires
        0 <= i < aliases.len(),
        alias_matches(aliases[i], path, mac),
        forall|k: int| 0 <= k < i ==> !alias_matches(#[trigger] aliases[k], path, mac),
    ensures
        alias_of(aliases, path, opt_str(mac)) == Some(aliases[i].0@),
    decreases aliases.len(),
{
    if i > 0 {
        let rest = aliases.skip(1);
        assert(!alias_matches(aliases[0], path, mac));
        assert forall|k: int| 0 <= k < i - 1 implies !alias_matches(
            #[trigger] rest[k],
            path,
            mac,
        ) by {
            assert(rest[k] == aliases[k + 1]);
        }
        lemma_first_alias(rest, path, mac, i - 1);
    }
}

proof fn lemma_no_alias(aliases: Seq<(String, String)>, path: Seq<char>, mac: Option<&str>)
    requires
        forall|k: int| 0 <= k < aliases.len() ==> !alias_matches(#[trigger] aliases[k], path, mac),
    ensures
        alias_of(aliases, path, opt_str(mac)) is None,
    decreases aliases.len(),
{
    if aliases.len() > 0 {
        let rest = aliases.skip(1);
        assert(!alias_matches(aliases[0], path, mac));
        assert forall|k: int| 0 <= k < rest.len() implies !alias_matches(
            #[trigger] rest[k],
            path,
            mac,
        ) by {
            assert(rest[k] == aliases[k + 1]);
        }
        lemma_no_alias(rest, path, mac);
    }
}

proof fn lemma_last_component(dir: Seq<char>, base: Seq<char>, rooted: bool)
    requires
        !base.contains('/'),
        rooted ==> dir.len() > 0 && dir.last() == '/',
        !rooted ==> dir.len() == 0,
    ensures
        basename(dir + base) == base,
    decreases base.len(),
{
    let path = dir + base;
    if base.len() == 0 {
        assert(path =~= dir);
        assert(base =~= Seq::empty());
    } else {
        assert(base[base.len() - 1] != '/');
        assert(!base.drop_last().contains('/')) by {
            if base.drop_last().contains('/') {
                let i = choose|i: int| 0 <= i < base.len() - 1 && base.drop_last()[i] == '/';
                assert(base[i] == '/');
            }
        }
        lemma_last_component(dir, base.drop_last(), rooted);
        assert(path.drop_last() =~= dir + base.drop_last());
        assert(path.last() == base.last());
        assert(base.drop_last().push(base.last()) =~= base);
    }
}

/// The port `i` is a native USB endpoint of Espressif at `path`.
pub open spec fn native_endpoint(port: SerialPort, path: Seq<char>) -> bool {
    port.port_name@ == path && port.usb is Some && port.usb->0.vid == 0x303A
}

/// The port at `path` tells a serial number.
pub open spec fn tells_serial(port: SerialPort, path: Seq<char>) -> bool {
    port.port_name@ == path && port.usb is Some && port.usb->0.serial_number is Some
}

/// A candidate is what the ports tell of its path: native exactly if a port there has the
/// vendor id of Espressif, with the first serial number that is told there as its MAC.
pub open spec fn describes_path(c: PortCandidate, ports: Seq<SerialPort>, path: Seq<char>) -> bool {
    &&& c.path@ == path
    &&& c.native_usb <==> exists|k: int|
        0 <= k < ports.len() && native_endpoint(#[trigger] ports[k], path)
    &&& c.mac is None <==> forall|k: int|
        0 <= k < ports.len() ==> !tells_serial(#[trigger] ports[k], path)
    &&& forall|i: int| #[trigger]
        first_serial(ports, path, i) ==> text::opt(c.mac) == text::opt(
            ports[i].usb->0.serial_number,
        )
}

/// The port `i` is the first at `path` that tells a serial number.
pub open spec fn first_serial(ports: Seq<SerialPort>, path: Seq<char>, i: int) -> bool {
    &&& 0 <= i < ports.len()
    &&& tells_serial(ports[i], path)
    &&& forall|k: int| 0 <= k < i ==> !tells_serial(#[trigger] ports[k], path)
}

/// A scan lists every detected port, in order, as what the ports tell of it and under the
/// name of the device there; behind them only aliased ports that exist, as what the ports
/// tell of them and under their alias.
pub proof fn law_scan_lists_the_ports(
    found: Vec<String>,
    ports: Vec<SerialPort>,
    aliases: Vec<(String, String)>,
    r: Vec<PortCandidate>,
    i: int,
    path: &str,
    mac: Option<&str>,
    named: &[(String, String)],
    id: String,
)
    requires
        call_ensures(scan_ports, (&found, &ports, &aliases), r),
        0 <= i < r@.len(),
        call_ensures(device_id, (path, mac, named), id),
        named@ == aliases@,
        path@ == r@[i].path@,
        opt_str(mac) == text::opt(r@[i].mac),
    ensures
        r@.len() >= found@.len(),
        describes_path(r@[i], ports@, r@[i].path@),
        i < found@.len() ==> r@[i].path@ == found@[i]@ && r@[i].id@ == id@,
        i >= found@.len() ==> exists|k: int|
            0 <= k < aliases@.len() && (#[trigger] aliases@[k]).0@ == r@[i].id@ && aliases@[k].1@
                == r@[i].path@,
        i >= found@.len() ==> exists|k: int|
            0 <= k < ports@.len() && (#[trigger] ports@[k]).port_name@ == r@[i].path@,
{
    let paths = text::strings(found@);
    let start = on_detected(paths, ports@, aliases@);
    let all = candidates_view(r@);
    law_aliases_complete_the_scan(start, ports@, aliases@);
    assert(all[i] == r@[i]@);
    if i < found@.len() {
        assert(all.subrange(0, start.len() as int)[i] == all[i]);
        assert(start[i] == all[i]);
        assert(paths[i] == found@[i]@);
    } else {
        lemma_added(start, ports@, aliases@, i);
        lemma_found_port(ports@, r@[i].path@);
    }
    lemma_native(ports@, r@[i].path@);
    lemma_mac(ports@, r@[i].path@);
    assert(r@[i].native_usb == native_at(ports@, r@[i].path@));
    assert(text::opt(r@[i].mac) == mac_at(ports@, r@[i].path@));
    assert forall|k: int| #[trigger] first_serial(ports@, r@[i].path@, k) implies text::opt(
        r@[i].mac,
    ) == text::opt(ports@[k].usb->0.serial_number) by {
        lemma_first_mac(ports@, r@[i].path@, k);
    }
}

proof fn lemma_native(ports: Seq<SerialPort>, path: Seq<char>)
    ensures
        native_at(ports, path) <==> exists|k: int|
            0 <= k < ports.len() && native_endpoint(#[trigger] ports[k], path),
    decreases ports.len(),
{
    if ports.len() > 0 {
        let rest = ports.skip(1);
        lemma_native(rest, path);
        if exists|k: int| 0 <= k < rest.len() && native_endpoint(#[trigger] rest[k], path) {
            let k = choose|k: int| 0 <= k < rest.len() && native_endpoint(#[trigger] rest[k], path);
            assert(ports[k + 1] == rest[k]);
        }
        if exists|k: int| 0 <= k < ports.len() && native_endpoint(#[trigger] ports[k], path) {
            let k = choose|k: int|
                0 <= k < ports.len() && native_endpoint(#[trigger] ports[k], path);
            if k > 0 {
                assert(rest[k - 1] == ports[k]);
            }
        }
    }
}

proof fn lemma_mac(ports: Seq<SerialPort>, path: Seq<char>)
    ensures
        mac_at(ports, path) is None <==> forall|k: int|
            0 <= k < ports.len() ==> !tells_serial(#[trigger] ports[k], path),
    decreases ports.len(),
{
    if ports.len() > 0 {
        let rest = ports.skip(1);
        lemma_mac(rest, path);
        if !tells_serial(ports[0], path) {
            if forall|k: int| 0 <= k < rest.len() ==> !tells_serial(#[trigger] rest[k], path) {
                assert forall|k: int| 0 <= k < ports.len() implies !tells_serial(
                    #[trigger] ports[k],
                    path,
                ) by {
                    if k > 0 {
                        assert(rest[k - 1] == ports[k]);
                    }
                }
            } else {
                let k = choose|k: int| 0 <= k < rest.len() && tells_serial(#[trigger] rest[k], path);
                assert(ports[k + 1] == rest[k]);
            }
        }
    }
}

proof fn lemma_first_mac(ports: Seq<SerialPort>, path: Seq<char>, i: int)
    requires
        first_serial(ports, path, i),
    ensures
        mac_at(ports, path) == text::opt(ports[i].usb->0.serial_number),
    decreases ports.len(),
{
    if i > 0 {
        let rest = ports.skip(1);
        assert(!tells_serial(ports[0], path));
        assert(rest[i - 1] == ports[i]);
        assert forall|k: int| 0 <= k < i - 1 implies !tells_serial(#[trigger] rest[k], path) by {
            assert(ports[k + 1] == rest[k]);
        }
        lemma_first_mac(rest, path, i - 1);
    }
}

/// What is added for the aliases stands for one of them.
proof fn lemma_added(
    list: Seq<PortCandidateView>,
    ports: Seq<SerialPort>,
    aliases: Seq<(String, String)>,
    i: int,
)
    requires
        list.len() <= i < with_aliased(list, ports, aliases).len(),
    ensures
        ({
            let c = with_aliased(list, ports, aliases)[i];
            &&& exists|k: int|
                0 <= k < aliases.len() && (#[trigger] aliases[k]).0@ == c.id && aliases[k].1@
                    == c.path
            &&& port_exists(ports, c.path)
            &&& c.native_usb == native_at(ports, c.path)
            &&& c.mac == mac_at(ports, c.path)
        }),
    decreases aliases.len(),
{
    if aliases.len() > 0 {
        let path = aliases[0].1@;
        let added = PortCandidateView {
            id: aliases[0].0@,
            path,
            native_usb: native_at(ports, path),
            mac: mac_at(ports, path),
        };
        let next = if port_exists(ports, path) && !has_path(list, path) {
            list.push(added)
        } else {
            list
        };
        let rest = aliases.skip(1);
        let all = with_aliased(next, ports, rest);
        if i < next.len() {
            law_aliases_complete_the_scan(next, ports, rest);
            assert(all.subrange(0, next.len() as int)[i] == all[i]);
            assert(next[i] == added);
        } else {
            lemma_added(next, ports, rest, i);
            let c = all[i];
            let k = choose|k: int|
                0 <= k < rest.len() && (#[trigger] rest[k]).0@ == c.id && rest[k].1@ == c.path;
            assert(aliases[k + 1] == rest[k]);
        }
    }
}

/// One alias more adds its port where that exists and is not listed yet, and nothing else.
pub proof fn law_one_alias_more(
    list: Seq<PortCandidateView>,
    ports: Seq<SerialPort>,
    aliases: Seq<(String, String)>,
    alias: (String, String),
)
    ensures
        ({
            let before = with_aliased(list, ports, aliases);
            let after = with_aliased(list, ports, aliases.push(alias));
            let exists_there = exists|k: int|
                0 <= k < ports.len() && (#[trigger] ports[k]).port_name@ == alias.1@;
            let listed = exists|k: int|
                0 <= k < before.len() && (#[trigger] before[k]).path == alias.1@;
            &&& !exists_there || listed ==> after == before
            &&& exists_there && !listed ==> after.len() == before.len() + 1 && after.drop_last()
                == before && after.last().id == alias.0@ && after.last().path == alias.1@
        }),
        with_aliased(list, ports, Seq::empty()) == list,
    decreases aliases.len(),
{
    lemma_found_port(ports, alias.1@);
    let longer = aliases.push(alias);
    if aliases.len() == 0 {
        assert(longer.skip(1) =~= Seq::empty());
        assert(aliases =~= Seq::empty());
        let path = alias.1@;
        let added = PortCandidateView {
            id: alias.0@,
            path,
            native_usb: native_at(ports, path),
            mac: mac_at(ports, path),
        };
        assert(list.push(added).drop_last() =~= list);
        assert(with_aliased(list, ports, aliases) == list);
        let next = if port_exists(ports, path) && !has_path(list, path) {
            list.push(added)
        } else {
            list
        };
        assert(with_aliased(list, ports, longer) == with_aliased(next, ports, longer.skip(1)));
        assert(with_aliased(next, ports, longer.skip(1)) == next);
    } else {
        let path = aliases[0].1@;
        let added = PortCandidateView {
            id: aliases[0].0@,
            path,
            native_usb: native_at(ports, path),
            mac: mac_at(ports, path),
        };
        let next = if port_exists(ports, path) && !has_path(list, path) {
            list.push(added)
        } else {
            list
        };
        law_one_alias_more(next, ports, aliases.skip(1), alias);
        assert(longer.skip(1) =~= aliases.skip(1).push(alias));
        assert(longer[0] == aliases[0]);
    }
}

} // verus!
