//! Classification of what a chip prints when it does not reach the CLI.
use crate::bytes;
use vstd::prelude::*;
use vstd::string::*;

verus! {

/// A known chip fault, recognised by what the chip prints.
#[derive(Debug, Clone, Copy, PartialEq, Eq, Structural)]
pub enum BootFault {
    /// The chip resets over and over through USB-JTAG.
    UsbResetLoop,
    /// The chip was reset once through USB-JTAG and never reached the CLI.
    UsbResetHalt,
    /// The chip waits in ROM download mode.
    DownloadMode,
    /// The ROM banner repeats: the firmware never reaches the CLI.
    BootLoop,
}

/// How many resets through USB-JTAG the bytes tell of.
pub open spec fn usb_resets(rx: Seq<u8>) -> nat {
    bytes::count_matches(rx, bytes::ascii("USB_UART_HPSYS"@)) + bytes::count_matches(
        rx,
        bytes::ascii("USB_UART_CHIP_RESET"@),
    )
}

/// The bytes tell of a reset through USB-JTAG at position `i`.
pub open spec fn usb_reset_at(rx: Seq<u8>, i: int) -> bool {
    bytes::occurs_at(rx, bytes::ascii("USB_UART_HPSYS"@), i) || bytes::occurs_at(
        rx,
        bytes::ascii("USB_UART_CHIP_RESET"@),
        i,
    )
}

/// The CLI has spoken after a reset through USB-JTAG. What it said before the reset
/// does not tell whether the chip came back.
pub open spec fn cli_seen(rx: Seq<u8>) -> bool {
    exists|i: int| #[trigger]
        usb_reset_at(rx, i) && bytes::occurs_behind(rx, bytes::ascii("ESP-CSI-CLI"@), i)
}

/// The fault that the bytes give away, if any.
///
/// One ROM banner with CLI output after it is a normal boot; a repeating banner is a
/// reset loop, and a lone USB reset banner with no CLI after it is a chip that halted
/// there.
pub open spec fn boot_fault(rx: Seq<u8>) -> Option<BootFault> {
    if usb_resets(rx) >= 2 {
        Some(BootFault::UsbResetLoop)
    } else if usb_resets(rx) == 1 && !cli_seen(rx) {
        Some(BootFault::UsbResetHalt)
    } else if bytes::occurs(rx, bytes::ascii("waiting for download"@)) {
        Some(BootFault::DownloadMode)
    } else if bytes::count_matches(rx, bytes::ascii("ESP-ROM:"@)) >= 3 {
        Some(BootFault::BootLoop)
    } else {
        None
    }
}

impl BootFault {
    /// The description for the user, with the action that recovers the board.
    pub open spec fn text(self) -> Seq<char> {
        match self {
            BootFault::UsbResetLoop =>
                "USB-JTAG reset loop (rst:0x15 USB_UART_HPSYS) — known ESP32-C5/C6 post-flash wedge; software reset cannot recover it. Power-cycle the USB port: replug the board, or `uhubctl -a cycle` on a power-switchable hub."@,
            BootFault::UsbResetHalt =>
                "chip halted after a USB-JTAG-triggered reset (rst:0x15 USB_UART_HPSYS) — known ESP32-C5/C6 wedge; software reset cannot recover it. Power-cycle the USB port (replug, or `uhubctl -a cycle`); if it persists across a power cycle, reflash the firmware."@,
            BootFault::DownloadMode =>
                "chip is stuck in ROM download mode (waiting for download) — reflash it or reset out of download mode"@,
            BootFault::BootLoop =>
                "boot loop: ROM banner repeating; firmware never reaches the CLI — reflash a known-good image or power-cycle the board"@,
        }
    }

    /// The description for the user, with the action that recovers the board.
    pub fn describe(self) -> (r: String)
        ensures
            r@ == self.text(),
    {
        match self {
            BootFault::UsbResetLoop =>
                "USB-JTAG reset loop (rst:0x15 USB_UART_HPSYS) — known ESP32-C5/C6 post-flash wedge; software reset cannot recover it. Power-cycle the USB port: replug the board, or `uhubctl -a cycle` on a power-switchable hub.".to_string(),
            BootFault::UsbResetHalt =>
                "chip halted after a USB-JTAG-triggered reset (rst:0x15 USB_UART_HPSYS) — known ESP32-C5/C6 wedge; software reset cannot recover it. Power-cycle the USB port (replug, or `uhubctl -a cycle`); if it persists across a power cycle, reflash the firmware.".to_string(),
            BootFault::DownloadMode =>
                "chip is stuck in ROM download mode (waiting for download) — reflash it or reset out of download mode".to_string(),
            BootFault::BootLoop =>
                "boot loop: ROM banner repeating; firmware never reaches the CLI — reflash a known-good image or power-cycle the board".to_string(),
        }
    }
}

/// The signatures are ASCII and not empty.
proof fn lemma_signatures()
    ensures
        vstd::utf8::is_ascii_chars("USB_UART_HPSYS"@),
        vstd::utf8::is_ascii_chars("USB_UART_CHIP_RESET"@),
        vstd::utf8::is_ascii_chars("ESP-CSI-CLI"@),
        vstd::utf8::is_ascii_chars("waiting for download"@),
        vstd::utf8::is_ascii_chars("ESP-ROM:"@),
        "USB_UART_HPSYS"@.len() == 14,
        "USB_UART_CHIP_RESET"@.len() == 19,
        "ESP-CSI-CLI"@.len() == 11,
        "waiting for download"@.len() == 20,
        "ESP-ROM:"@.len() == 8,
{
    reveal_strlit("USB_UART_HPSYS");
    reveal_strlit("USB_UART_CHIP_RESET");
    reveal_strlit("ESP-CSI-CLI");
    reveal_strlit("waiting for download");
    reveal_strlit("ESP-ROM:");
}

/// Whether the CLI has spoken after a reset through USB-JTAG.
fn cli_after_reset(rx: &[u8]) -> (r: bool)
    ensures
        r == cli_seen(rx@),
{
    proof {
        lemma_signatures();
    }
    let ghost marker = bytes::ascii("ESP-CSI-CLI"@);
    let hpsys = bytes::find_subsequence(rx, bytes::ascii_bytes("USB_UART_HPSYS"));
    let chip = bytes::find_subsequence(rx, bytes::ascii_bytes("USB_UART_CHIP_RESET"));
    let first = match hpsys {
        Some(a) => match chip {
            Some(b) => if a < b {
                a
            } else {
                b
            },
            None => a,
        },
        None => match chip {
            Some(b) => b,
            None => {
                return false;
            },
        },
    };
    assert(usb_reset_at(rx@, first as int));
    assert forall|i: int| usb_reset_at(rx@, i) implies first <= i by {}
    let r = bytes::stands_behind(rx, bytes::ascii_bytes("ESP-CSI-CLI"), first);
    proof {
        if cli_seen(rx@) {
            let i = choose|i: int| #[trigger]
                usb_reset_at(rx@, i) && bytes::occurs_behind(rx@, marker, i);
            let j = choose|j: int| i < j && #[trigger] bytes::occurs_at(rx@, marker, j);
            assert(first < j && bytes::occurs_at(rx@, marker, j));
        }
    }
    r
}

/// The known fault that the bytes give away, if any.
pub fn classify(rx: &[u8]) -> (r: Option<BootFault>)
    ensures
        r == boot_fault(rx@),
{
    proof {
        lemma_signatures();
    }
    let resets = bytes::count_subsequence(rx, bytes::ascii_bytes("USB_UART_HPSYS")).saturating_add(
        bytes::count_subsequence(rx, bytes::ascii_bytes("USB_UART_CHIP_RESET")),
    );
    if resets >= 2 {
        Some(BootFault::UsbResetLoop)
    } else if resets == 1 && !cli_after_reset(rx) {
        Some(BootFault::UsbResetHalt)
    } else if bytes::find_subsequence(rx, bytes::ascii_bytes("waiting for download")).is_some() {
        Some(BootFault::DownloadMode)
    } else if bytes::count_subsequence(rx, bytes::ascii_bytes("ESP-ROM:")) >= 3 {
        Some(BootFault::BootLoop)
    } else {
        None
    }
}

/// Classify raw serial bytes against the known chip faults. The signatures are plain
/// ASCII, so other bytes in between, text or not, do not matter.
pub fn detect_boot_fault(rx: &[u8]) -> (r: Option<String>)
    ensures
        match r {
            Some(text) => boot_fault(rx@) is Some && text@ == (boot_fault(rx@)->0).text(),
            None => boot_fault(rx@) is None,
        },
{
    match classify(rx) {
        Some(fault) => Some(fault.describe()),
        None => None,
    }
}

// ─── Laws ─────────────────────────────────────────────────────────────────

/// A banner that tells of a USB reset, seen twice in one window, is a reset loop,
/// whatever else stands in it.
pub proof fn law_repeated_reset_is_a_loop(banner: Seq<u8>)
    requires
        usb_resets(banner) >= 1,
    ensures
        boot_fault(banner + banner) == Some(BootFault::UsbResetLoop),
{
    lemma_signatures();
    bytes::law_count_append(banner, banner, bytes::ascii("USB_UART_HPSYS"@));
    bytes::law_count_append(banner, banner, bytes::ascii("USB_UART_CHIP_RESET"@));
}

/// A reset loop stays one, whatever arrives before and after it.
pub proof fn law_reset_loop_persists(before: Seq<u8>, rx: Seq<u8>, after: Seq<u8>)
    requires
        boot_fault(rx) == Some(BootFault::UsbResetLoop),
    ensures
        boot_fault(before + rx + after) == Some(BootFault::UsbResetLoop),
{
    lemma_signatures();
    let hpsys = bytes::ascii("USB_UART_HPSYS"@);
    let chip = bytes::ascii("USB_UART_CHIP_RESET"@);
    bytes::law_count_append(before, rx, hpsys);
    bytes::law_count_append(before, rx, chip);
    bytes::law_count_append(before + rx, after, hpsys);
    bytes::law_count_append(before + rx, after, chip);
}

/// A single reset after which the CLI speaks is a normal boot.
pub proof fn law_single_reset_then_cli_is_healthy(rx: Seq<u8>)
    requires
        usb_resets(rx) == 1,
        cli_seen(rx),
        !bytes::occurs(rx, bytes::ascii("waiting for download"@)),
        bytes::count_matches(rx, bytes::ascii("ESP-ROM:"@)) < 3,
    ensures
        boot_fault(rx) is None,
{
}

/// A single reset with nothing from the CLI behind it is a chip that halted there,
/// whatever the CLI said before.
pub proof fn law_single_reset_then_silence_is_a_halt(rx: Seq<u8>)
    requires
        usb_resets(rx) == 1,
        forall|i: int, j: int|
            #[trigger] usb_reset_at(rx, i) && #[trigger] bytes::occurs_at(
                rx,
                bytes::ascii("ESP-CSI-CLI"@),
                j,
            ) ==> j <= i,
    ensures
        boot_fault(rx) == Some(BootFault::UsbResetHalt),
{
}

/// A fault is never called without one of its signatures: bytes that hold none are
/// healthy.
pub proof fn law_no_signature_no_fault(rx: Seq<u8>)
    requires
        !bytes::occurs(rx, bytes::ascii("USB_UART_HPSYS"@)),
        !bytes::occurs(rx, bytes::ascii("USB_UART_CHIP_RESET"@)),
        !bytes::occurs(rx, bytes::ascii("waiting for download"@)),
        !bytes::occurs(rx, bytes::ascii("ESP-ROM:"@)),
    ensures
        boot_fault(rx) is None,
{
    lemma_signatures();
    bytes::law_count_occurs(rx, bytes::ascii("USB_UART_HPSYS"@));
    bytes::law_count_occurs(rx, bytes::ascii("USB_UART_CHIP_RESET"@));
    bytes::law_count_occurs(rx, bytes::ascii("ESP-ROM:"@));
}

/// The banner of a reset through USB-JTAG, in either spelling.
pub open spec fn is_reset_token(t: Seq<u8>) -> bool {
    t == bytes::ascii("USB_UART_HPSYS"@) || t == bytes::ascii("USB_UART_CHIP_RESET"@)
}

/// Two resets anywhere in the bytes, spelled alike or not, are a reset loop; and a reset loop
/// is called only where two stand at different places.
pub proof fn law_two_resets_are_a_loop(
    rx: &[u8],
    r: Option<BootFault>,
    before: Seq<u8>,
    first: Seq<u8>,
    between: Seq<u8>,
    second: Seq<u8>,
    behind: Seq<u8>,
)
    requires
        call_ensures(classify, (rx,), r),
    ensures
        is_reset_token(first) && is_reset_token(second) && rx@ == before + first + between + second
            + behind ==> r == Some(BootFault::UsbResetLoop),
        r == Some(BootFault::UsbResetLoop) ==> exists|i: int, j: int|
            i < j && #[trigger] usb_reset_at(rx@, i) && #[trigger] usb_reset_at(rx@, j),
{
    lemma_signatures();
    let hpsys = bytes::ascii("USB_UART_HPSYS"@);
    let chip = bytes::ascii("USB_UART_CHIP_RESET"@);
    if is_reset_token(first) && is_reset_token(second) && rx@ == before + first + between + second
        + behind {
        lemma_token_counts(before, first, between + second + behind);
        lemma_token_counts(between, second, behind);
        let a = before + first;
        let b = between + second + behind;
        assert(rx@ =~= a + b);
        lemma_token_counts(before, first, Seq::empty());
        assert(before + first + Seq::<u8>::empty() =~= a);
        bytes::law_count_append(a, b, hpsys);
        bytes::law_count_append(a, b, chip);
    }
    if r == Some(BootFault::UsbResetLoop) {
        if bytes::count_matches(rx@, hpsys) >= 2 {
            lemma_two_places(rx@, hpsys);
        } else if bytes::count_matches(rx@, chip) >= 2 {
            lemma_two_places(rx@, chip);
        } else {
            bytes::law_count_occurs(rx@, hpsys);
            bytes::law_count_occurs(rx@, chip);
            let i = choose|i: int| bytes::occurs_at(rx@, hpsys, i);
            let j = choose|j: int| bytes::occurs_at(rx@, chip, j);
            assert(usb_reset_at(rx@, i) && usb_reset_at(rx@, j));
            if i == j {
                reveal_strlit("USB_UART_HPSYS");
                reveal_strlit("USB_UART_CHIP_RESET");
                assert(hpsys[9] != chip[9]);
                assert(rx@.subrange(i, i + 14)[9] == rx@[i + 9]);
                assert(rx@.subrange(i, i + 19)[9] == rx@[i + 9]);
            }
        }
    }
}

proof fn lemma_token_counts(before: Seq<u8>, token: Seq<u8>, behind: Seq<u8>)
    requires
        is_reset_token(token),
    ensures
        usb_resets(before + token + behind) >= 1,
{
    lemma_signatures();
    let whole = before + token + behind;
    bytes::law_occurrence_is_a_cut(whole, token, before, behind);
    bytes::law_count_occurs(whole, token);
}

proof fn lemma_two_places(rx: Seq<u8>, n: Seq<u8>)
    requires
        n.len() > 0,
        is_reset_token(n),
        bytes::count_matches(rx, n) >= 2,
    ensures
        exists|i: int, j: int|
            i < j && #[trigger] usb_reset_at(rx, i) && #[trigger] usb_reset_at(rx, j),
{
    bytes::law_count_is_largest(rx, n, 2);
    let i = choose|i: int| #[trigger]
        bytes::occurs_at(rx, n, i) && bytes::stands_times(rx.skip(i + n.len()), n, 1);
    let rest = rx.skip(i + n.len());
    let k = choose|k: int| #[trigger]
        bytes::occurs_at(rest, n, k) && bytes::stands_times(rest.skip(k + n.len()), n, 0);
    let j = i + n.len() + k;
    assert(rx.subrange(j, j + n.len()) =~= rest.subrange(k, k + n.len()));
    assert(bytes::occurs_at(rx, n, j));
    assert(usb_reset_at(rx, i) && usb_reset_at(rx, j));
}

/// Bytes that tell of no reset through USB: a chip that waits for a download is in download
/// mode; else the ROM banner at three places or more is a boot loop, and at fewer no fault.
pub proof fn law_without_a_reset(rx: &[u8], r: Option<BootFault>)
    requires
        call_ensures(classify, (rx,), r),
        forall|i: int| !usb_reset_at(rx@, i),
    ensures
        r == Some(BootFault::DownloadMode) <==> exists|a: Seq<u8>, b: Seq<u8>| #[trigger]
            (a + bytes::ascii("waiting for download"@) + b) == rx@,
        r == Some(BootFault::BootLoop) <==> bytes::stands_times(
            rx@,
            bytes::ascii("ESP-ROM:"@),
            3,
        ) && !(exists|a: Seq<u8>, b: Seq<u8>| #[trigger]
            (a + bytes::ascii("waiting for download"@) + b) == rx@),
        r is Some ==> r == Some(BootFault::DownloadMode) || r == Some(BootFault::BootLoop),
{
    lemma_no_reset(rx@);
    lemma_without_resets(rx@);
}

proof fn lemma_no_reset(rx: Seq<u8>)
    requires
        forall|i: int| !usb_reset_at(rx, i),
    ensures
        usb_resets(rx) == 0,
{
    lemma_signatures();
    let hpsys = bytes::ascii("USB_UART_HPSYS"@);
    let chip = bytes::ascii("USB_UART_CHIP_RESET"@);
    bytes::law_count_occurs(rx, hpsys);
    bytes::law_count_occurs(rx, chip);
    if bytes::occurs(rx, hpsys) {
        let i = choose|i: int| bytes::occurs_at(rx, hpsys, i);
        assert(usb_reset_at(rx, i));
    }
    if bytes::occurs(rx, chip) {
        let i = choose|i: int| bytes::occurs_at(rx, chip, i);
        assert(usb_reset_at(rx, i));
    }
}

proof fn lemma_without_resets(rx: Seq<u8>)
    ensures
        bytes::occurs(rx, bytes::ascii("waiting for download"@)) <==> exists|
            a: Seq<u8>,
            b: Seq<u8>,
        | #[trigger]
            (a + bytes::ascii("waiting for download"@) + b) == rx,
        bytes::count_matches(rx, bytes::ascii("ESP-ROM:"@)) >= 3 <==> bytes::stands_times(
            rx,
            bytes::ascii("ESP-ROM:"@),
            3,
        ),
{
    lemma_signatures();
    let waiting = bytes::ascii("waiting for download"@);
    bytes::law_count_is_largest(rx, bytes::ascii("ESP-ROM:"@), 3);
    bytes::law_occurrence_is_a_cut(rx, waiting, Seq::empty(), Seq::empty());
    if exists|a: Seq<u8>, b: Seq<u8>| #[trigger] (a + waiting + b) == rx {
        let (a, b) = choose|a: Seq<u8>, b: Seq<u8>| #[trigger] (a + waiting + b) == rx;
        bytes::law_occurrence_is_a_cut(rx, waiting, a, b);
    }
}

/// Three ROM banners, whatever stands around and between them, are a fault in any case; and a
/// boot loop where no reset and no wait for a download is told of.
pub proof fn law_three_banners_are_a_fault(
    rx: &[u8],
    r: Option<BootFault>,
    a: Seq<u8>,
    b: Seq<u8>,
    c: Seq<u8>,
    d: Seq<u8>,
)
    requires
        call_ensures(classify, (rx,), r),
        rx@ == a + bytes::ascii("ESP-ROM:"@) + b + bytes::ascii("ESP-ROM:"@) + c + bytes::ascii(
            "ESP-ROM:"@,
        ) + d,
    ensures
        r is Some,
        (forall|i: int| !usb_reset_at(rx@, i)) && !bytes::occurs(
            rx@,
            bytes::ascii("waiting for download"@),
        ) ==> r == Some(BootFault::BootLoop),
{
    lemma_signatures();
    let banner = bytes::ascii("ESP-ROM:"@);
    let x = a + banner + b;
    let y = banner + c;
    let z = banner + d;
    bytes::law_occurrence_is_a_cut(x, banner, a, b);
    bytes::law_occurrence_is_a_cut(y, banner, Seq::empty(), c);
    bytes::law_occurrence_is_a_cut(z, banner, Seq::empty(), d);
    assert(Seq::<u8>::empty() + banner + c =~= y);
    assert(Seq::<u8>::empty() + banner + d =~= z);
    bytes::law_count_occurs(x, banner);
    bytes::law_count_occurs(y, banner);
    bytes::law_count_occurs(z, banner);
    bytes::law_count_append(x, y, banner);
    bytes::law_count_append(x + y, z, banner);
    assert(rx@ =~= x + y + z);
    if forall|i: int| !usb_reset_at(rx@, i) {
        lemma_no_reset(rx@);
    }
}

/// A fault that the ROM tells of does not go away when more arrives: neither a boot loop nor
/// download mode turns healthy, and of a boot loop further banners keep it one.
pub proof fn law_rom_faults_persist(
    rx: &[u8],
    longer: &[u8],
    more: Seq<u8>,
    r: Option<BootFault>,
    s: Option<BootFault>,
)
    requires
        call_ensures(classify, (rx,), r),
        call_ensures(classify, (longer,), s),
        longer@ == rx@ + more,
    ensures
        r == Some(BootFault::BootLoop) || r == Some(BootFault::DownloadMode) ==> s is Some,
        r == Some(BootFault::BootLoop) && (forall|i: int| !usb_reset_at(longer@, i))
            && !bytes::occurs(longer@, bytes::ascii("waiting for download"@)) ==> s == Some(
            BootFault::BootLoop,
        ),
        r == Some(BootFault::UsbResetLoop) ==> s == Some(BootFault::UsbResetLoop),
{
    lemma_signatures();
    bytes::law_count_append(rx@, more, bytes::ascii("ESP-ROM:"@));
    bytes::law_count_append(rx@, more, bytes::ascii("USB_UART_HPSYS"@));
    bytes::law_count_append(rx@, more, bytes::ascii("USB_UART_CHIP_RESET"@));
    let waiting = bytes::ascii("waiting for download"@);
    if bytes::occurs(rx@, waiting) {
        let i = choose|i: int| bytes::occurs_at(rx@, waiting, i);
        assert(longer@.subrange(i, i + waiting.len()) =~= rx@.subrange(i, i + waiting.len()));
        assert(bytes::occurs_at(longer@, waiting, i));
    }
    if forall|i: int| !usb_reset_at(longer@, i) {
        lemma_no_reset(longer@);
    }
}

/// One reset is a halt exactly if the CLI does not speak behind it; where it does, what the
/// ROM tells of decides as if there had been no reset.
pub proof fn law_one_reset(rx: &[u8], r: Option<BootFault>, at: int)
    requires
        call_ensures(classify, (rx,), r),
        usb_reset_at(rx@, at),
        forall|i: int| #[trigger] usb_reset_at(rx@, i) ==> i == at,
    ensures
        r == Some(BootFault::UsbResetHalt) <==> forall|j: int|
            at < j ==> !bytes::occurs_at(rx@, bytes::ascii("ESP-CSI-CLI"@), j),
        r != Some(BootFault::UsbResetLoop),
        r != Some(BootFault::UsbResetHalt) ==> {
            if bytes::occurs(rx@, bytes::ascii("waiting for download"@)) {
                r == Some(BootFault::DownloadMode)
            } else if bytes::stands_times(rx@, bytes::ascii("ESP-ROM:"@), 3) {
                r == Some(BootFault::BootLoop)
            } else {
                r is None
            }
        },
{
    lemma_signatures();
    let hpsys = bytes::ascii("USB_UART_HPSYS"@);
    let chip = bytes::ascii("USB_UART_CHIP_RESET"@);
    let marker = bytes::ascii("ESP-CSI-CLI"@);
    bytes::law_count_is_largest(rx@, bytes::ascii("ESP-ROM:"@), 3);
    law_two_resets_are_a_loop(
        rx,
        r,
        Seq::empty(),
        Seq::empty(),
        Seq::empty(),
        Seq::empty(),
        Seq::empty(),
    );
    bytes::law_count_occurs(rx@, hpsys);
    bytes::law_count_occurs(rx@, chip);
    assert(usb_resets(rx@) == 1);
    if cli_seen(rx@) {
        let i = choose|i: int| #[trigger]
            usb_reset_at(rx@, i) && bytes::occurs_behind(rx@, marker, i);
        let j = choose|j: int| i < j && #[trigger] bytes::occurs_at(rx@, marker, j);
        assert(at < j && bytes::occurs_at(rx@, marker, j));
    } else {
        assert forall|j: int| at < j implies !bytes::occurs_at(rx@, marker, j) by {
            if bytes::occurs_at(rx@, marker, j) {
                assert(bytes::occurs_behind(rx@, marker, at));
            }
        }
    }
}

/// A fault is reported with its own description, and none without a fault.
pub proof fn law_faults_are_described(rx: &[u8], r: Option<BootFault>, text: Option<String>)
    requires
        call_ensures(classify, (rx,), r),
        call_ensures(detect_boot_fault, (rx,), text),
    ensures
        text is Some <==> r is Some,
        r == Some(BootFault::UsbResetLoop) ==> text->0@
            == "USB-JTAG reset loop (rst:0x15 USB_UART_HPSYS) — known ESP32-C5/C6 post-flash wedge; software reset cannot recover it. Power-cycle the USB port: replug the board, or `uhubctl -a cycle` on a power-switchable hub."@,
        r == Some(BootFault::UsbResetHalt) ==> text->0@
            == "chip halted after a USB-JTAG-triggered reset (rst:0x15 USB_UART_HPSYS) — known ESP32-C5/C6 wedge; software reset cannot recover it. Power-cycle the USB port (replug, or `uhubctl -a cycle`); if it persists across a power cycle, reflash the firmware."@,
        r == Some(BootFault::DownloadMode) ==> text->0@
            == "chip is stuck in ROM download mode (waiting for download) — reflash it or reset out of download mode"@,
        r == Some(BootFault::BootLoop) ==> text->0@
            == "boot loop: ROM banner repeating; firmware never reaches the CLI — reflash a known-good image or power-cycle the board"@,
{
}

} // verus!
