//! The serial side: fault signatures, the info exchange, the modem lines, recovery.
use csi_webserver_core::bytes::{ascii_bytes, count_subsequence, find_subsequence, stands_behind};
use csi_webserver_core::serial::boot_fault::{classify, BootFault};
use csi_webserver_core::serial::detect_boot_fault;
use csi_webserver_core::serial::exchange::{
    InfoExchange, InfoExchangeError, Quiesce, ReadOutcome, WriteOutcome, RETAIN_CAP,
};
use csi_webserver_core::serial::info::{parse_info_block, parse_info_text};
use csi_webserver_core::serial::lines::{
    describe_pulse_failure, failure_ends_plan, plan_on_open, reset_pulse, LineStep,
};
use csi_webserver_core::serial::recovery::{RecoveryLadder, Rung};
use csi_webserver_core::serial::status::DeviceStatus;

/// The exact banner an ESP32-C5 spews when wedged in the USB-JTAG reset
/// loop (rst:0x15) after flashing — repeats until a USB power cycle.
const C5_WEDGE_BANNER: &str = "ESP-ROM:esp32c5-eco2-20250121\r\n\
    Build:Jan 21 2025\r\n\
    rst:0x15 (USB_UART_HPSYS),boot:0x10 (SPI_FAST_FLASH_BOOT)\r\n\
    Core0 Saved PC:0x40038598\r\n";

#[test]
fn usb_jtag_reset_loop_detected_on_repeat() {
    let two = format!("{C5_WEDGE_BANNER}{C5_WEDGE_BANNER}");
    let fault = detect_boot_fault(two.as_bytes()).expect("wedge not detected");
    assert!(fault.contains("USB-JTAG reset loop"));
    assert!(fault.contains("power-cycle") || fault.contains("Power-cycle"));
}

#[test]
fn boot_banner_followed_by_cli_is_not_a_fault() {
    // A single ROM banner that then reaches the CLI is a normal reset (e.g. after espflash
    // or a port open). `detect_boot_fault` only runs after an info-exchange timeout, so the
    // meaningful "not a fault" case is a banner with CLI output after it — the `ESP-CSI-CLI`
    // marker suppresses the lone-wedge classification.
    let recovered = format!("{C5_WEDGE_BANNER}ESP-CSI-CLI/0.7.0\r\nchip=esp32c5\r\nEND-INFO\r\n");
    assert!(detect_boot_fault(recovered.as_bytes()).is_none());
}

#[test]
fn lone_wedge_banner_after_timeout_is_a_fault() {
    // A lone USB_UART_HPSYS banner with no CLI after it (only reached once the info exchange
    // already timed out) means the chip reset via USB-JTAG and never came back — a wedge.
    let fault = detect_boot_fault(C5_WEDGE_BANNER.as_bytes()).expect("lone wedge not detected");
    assert!(fault.contains("USB-JTAG-triggered reset"));
}

#[test]
fn download_mode_detected() {
    let rx = b"ESP-ROM:esp32c5-eco2-20250121\r\nwaiting for download\r\n";
    let fault = detect_boot_fault(rx).expect("download mode not detected");
    assert!(fault.contains("download mode"));
}

#[test]
fn generic_boot_loop_detected() {
    let banner = "ESP-ROM:esp32c5-eco2-20250121\r\nrst:0x3 (RTC_SW_SYS_RST)\r\n";
    let rx = banner.repeat(3);
    let fault = detect_boot_fault(rx.as_bytes()).expect("boot loop not detected");
    assert!(fault.contains("boot loop"));
}

#[test]
fn normal_cli_output_is_healthy() {
    assert!(detect_boot_fault(b"ESP-CSI-CLI/0.7.0\r\nchip=esp32c5\r\nEND-INFO\r\n").is_none());
    assert!(detect_boot_fault(b"").is_none());
}

#[test]
fn fault_signatures_take_precedence_in_order() {
    assert_eq!(classify(b"USB_UART_HPSYS USB_UART_CHIP_RESET"), Some(BootFault::UsbResetLoop));
    assert_eq!(
        classify(b"USB_UART_CHIP_RESET waiting for download"),
        Some(BootFault::UsbResetHalt)
    );
    assert_eq!(
        classify(b"USB_UART_HPSYS ESP-CSI-CLI waiting for download"),
        Some(BootFault::DownloadMode)
    );
    assert_eq!(classify(b"ESP-ROM:ESP-ROM:"), None);
    assert_eq!(classify(b"ESP-ROM:\xff\x00ESP-ROM:\xc3ESP-ROM:"), Some(BootFault::BootLoop));
    assert_eq!(classify(b"USB_UART_\xffHPSYS"), None);
}

#[test]
fn cli_text_before_a_reset_does_not_count() {
    let rx = b"ESP-CSI-CLI/0.7.0\r\nrst:0x15 (USB_UART_HPSYS),boot:0x10 (SPI_FAST_FLASH_BOOT)\r\n";
    let fault = detect_boot_fault(rx).expect("halt not detected");
    assert!(fault.contains("USB-JTAG-triggered reset"));
    assert_eq!(
        classify(b"ESP-CSI-CLI USB_UART_CHIP_RESET waiting for download"),
        Some(BootFault::UsbResetHalt)
    );
    assert_eq!(classify(b"ESP-CSI-CLI USB_UART_CHIP_RESET ESP-CSI-CLI"), None);
    assert_eq!(classify(b"USB_UART_HPSYSESP-CSI-CLI"), None);
    assert_eq!(classify(b"USB_UART_HPSYS ESP-CSI-CL"), Some(BootFault::UsbResetHalt));
}

#[test]
fn fault_descriptions_name_the_action() {
    assert_eq!(
        BootFault::UsbResetLoop.describe(),
        "USB-JTAG reset loop (rst:0x15 USB_UART_HPSYS) — known ESP32-C5/C6 post-flash \
         wedge; software reset cannot recover it. Power-cycle the USB port: replug the \
         board, or `uhubctl -a cycle` on a power-switchable hub."
    );
    assert_eq!(
        BootFault::UsbResetHalt.describe(),
        "chip halted after a USB-JTAG-triggered reset (rst:0x15 USB_UART_HPSYS) — known \
         ESP32-C5/C6 wedge; software reset cannot recover it. Power-cycle the USB port \
         (replug, or `uhubctl -a cycle`); if it persists across a power cycle, reflash \
         the firmware."
    );
    assert_eq!(
        BootFault::DownloadMode.describe(),
        "chip is stuck in ROM download mode (waiting for download) — reflash it or \
         reset out of download mode"
    );
    assert_eq!(
        BootFault::BootLoop.describe(),
        "boot loop: ROM banner repeating; firmware never reaches the CLI — reflash a \
         known-good image or power-cycle the board"
    );
}

// ─── Bytes ────────────────────────────────────────────────────────────────

#[test]
fn subsequences_are_found_and_counted() {
    assert_eq!(find_subsequence(b"abcabc", b"ca"), Some(2));
    assert_eq!(find_subsequence(b"abc", b"abcd"), None);
    assert_eq!(find_subsequence(b"abc", b""), None);
    assert_eq!(find_subsequence(b"", b"a"), None);
    assert_eq!(count_subsequence(b"aaaaa", b"aa"), 2);
    assert_eq!(count_subsequence(b"abab", b"ab"), 2);
    assert_eq!(count_subsequence(b"", b"ab"), 0);
    assert!(stands_behind(b"abcab", b"ab", 0));
    assert!(!stands_behind(b"abcab", b"ab", 3));
    assert!(!stands_behind(b"ab", b"ab", 0));
    assert_eq!(ascii_bytes("q\r\n"), b"q\r\n");
}

// ─── The info block ───────────────────────────────────────────────────────

#[test]
fn info_block_is_parsed() {
    let block = b"junk\xff\xfe\r\nESP-CSI-CLI/0.7.2\r\n  name=esp-csi-cli-rs \r\nversion=0.7.2\r\n\
        chip=esp32c5\r\nmac=AA:BB:CC:DD:EE:FF\r\nprotocol=2\r\nfeatures=a, b ,,c\r\nother=x\r\n\
        no equals sign\r\nname=a=b\r\nEND-INFO\r\nchip=late\r\n";
    let info = parse_info_block(block).expect("not parsed");
    assert_eq!(info.banner_version, "0.7.2");
    assert_eq!(info.name.as_deref(), Some("a=b"));
    assert_eq!(info.version.as_deref(), Some("0.7.2"));
    assert_eq!(info.chip.as_deref(), Some("esp32c5"));
    assert_eq!(info.mac.as_deref(), Some("AA:BB:CC:DD:EE:FF"));
    assert_eq!(info.protocol, Some(2));
    assert_eq!(info.features, vec!["a", "b", "c"]);
}

#[test]
fn info_block_decodes_utf8_lossily() {
    // Valid UTF-8 is kept, an invalid byte becomes the replacement character.
    let info = parse_info_block("ESP-CSI-CLI/1\nname=é\nEND-INFO\n".as_bytes()).unwrap();
    assert_eq!(info.name.as_deref(), Some("é"));
    let info = parse_info_block(b"ESP-CSI-CLI/1\nname=a\xffb\nEND-INFO\n").unwrap();
    assert_eq!(info.name.as_deref(), Some("a\u{fffd}b"));
}

#[test]
fn text_around_an_info_block_does_not_matter() {
    let block = "ESP-CSI-CLI/1\nchip=esp32\nEND-INFO\n";
    let alone = parse_info_block(block.as_bytes()).unwrap();
    for (before, behind) in [
        ("", ""),
        ("END-INFO\nchip=early\n", "chip=late\nEND-INFO\n"),
        ("  \n\n", "ESP-CSI-CLI/2\nchip=other\nEND-INFO\n"),
        ("boot é\r\n", "no line end"),
    ] {
        let whole = format!("{before}{block}{behind}");
        let info = parse_info_block(whole.as_bytes()).unwrap();
        assert_eq!(info.banner_version, alone.banner_version);
        assert_eq!(info.chip, alone.chip);
        assert_eq!(info.name, None);
    }
}

#[test]
fn info_block_fields_are_optional() {
    let info = parse_info_text("ESP-CSI-CLI/\nEND-INFO").unwrap();
    assert_eq!(info.banner_version, "");
    assert_eq!(info.name, None);
    assert_eq!(info.version, None);
    assert_eq!(info.chip, None);
    assert_eq!(info.mac, None);
    assert_eq!(info.protocol, None);
    assert!(info.features.is_empty());
}

#[test]
fn info_protocol_must_be_a_number() {
    for (value, expected) in [
        ("2", Some(2)),
        ("+7", Some(7)),
        ("007", Some(7)),
        ("4294967295", Some(u32::MAX)),
        ("4294967296", None),
        ("99999999999999999999999", None),
        ("", None),
        ("+", None),
        ("-1", None),
        ("2x", None),
    ] {
        let text = format!("ESP-CSI-CLI/1\nprotocol=1\nprotocol={value}\nEND-INFO\n");
        assert_eq!(parse_info_text(&text).unwrap().protocol, expected, "{value}");
    }
}

#[test]
fn info_block_errors() {
    assert_eq!(
        parse_info_text("hello\nEND-INFO\n").unwrap_err(),
        "info magic prefix 'ESP-CSI-CLI/' not seen — firmware is not esp-csi-cli-rs"
    );
    assert_eq!(
        parse_info_text("END-INFO\nESP-CSI-CLI/1\nname=x\n").unwrap_err(),
        "END-INFO sentinel not seen in info block"
    );
    assert!(parse_info_text("").is_err());
    assert!(parse_info_text("ESP-CSI-CLI/1\nEND-INFOX\n").is_err());
}

// ─── The exchange ─────────────────────────────────────────────────────────

#[test]
fn exchange_requests() {
    assert_eq!(InfoExchange::request(), "\r\ninfo\r\n");
    assert_eq!(Quiesce::request(), "q\r\n");
}

#[test]
fn exchange_write_outcomes() {
    assert!(InfoExchange::written(WriteOutcome::Done).is_ok());
    match InfoExchange::written(WriteOutcome::Failed("gone".to_string())) {
        Err(InfoExchangeError::Hard(m)) => assert_eq!(m, "Serial write error: gone"),
        other => panic!("{other:?}"),
    }
    match InfoExchange::written(WriteOutcome::TimedOut) {
        Err(InfoExchangeError::Hard(m)) => {
            assert_eq!(m, "serial write timed out — USB endpoint may be wedged")
        }
        other => panic!("{other:?}"),
    }
}

#[test]
fn exchange_reads_on_until_the_sentinel() {
    let mut exchange = InfoExchange::new(Vec::new());
    exchange.received.extend_from_slice(b"ESP-CSI-CLI/0.7.0\r\n");
    assert!(exchange.after_read(ReadOutcome::Data).is_none());
    exchange.received.extend_from_slice(b"chip=esp32c6\r\nEND-INFO\r\n");
    let info = exchange.after_read(ReadOutcome::Data).expect("not complete").expect("not parsed");
    assert_eq!(info.chip.as_deref(), Some("esp32c6"));
}

#[test]
fn exchange_failures() {
    let mut exchange = InfoExchange::new(Vec::new());
    match exchange.after_read(ReadOutcome::Eof) {
        Some(Err(InfoExchangeError::Hard(m))) => {
            assert_eq!(m, "serial closed during info exchange")
        }
        other => panic!("{other:?}"),
    }
    match exchange.after_read(ReadOutcome::Failed("io".to_string())) {
        Some(Err(InfoExchangeError::Hard(m))) => assert_eq!(m, "Serial read error: io"),
        other => panic!("{other:?}"),
    }
    match exchange.after_read(ReadOutcome::TimedOut) {
        Some(Err(InfoExchangeError::Soft(m))) => {
            assert_eq!(m, "info command timed out; firmware may not be esp-csi-cli-rs")
        }
        other => panic!("{other:?}"),
    }
    exchange.received.extend_from_slice(b"END-INFO\n");
    match exchange.after_read(ReadOutcome::Data) {
        Some(Err(InfoExchangeError::Soft(m))) => assert_eq!(
            m,
            "info magic prefix 'ESP-CSI-CLI/' not seen — firmware is not esp-csi-cli-rs"
        ),
        other => panic!("{other:?}"),
    }
}

#[test]
fn exchange_timeout_counts_the_boot_context() {
    let mut exchange = InfoExchange::new(b"USB_UART_HPSYS".to_vec());
    match exchange.after_read(ReadOutcome::TimedOut) {
        Some(Err(e)) => {
            assert!(matches!(e, InfoExchangeError::BootFault(_)));
            assert!(e.message().contains("USB-JTAG-triggered reset"));
        }
        other => panic!("{other:?}"),
    }
    exchange.received.extend_from_slice(b"USB_UART_HPSYS");
    match exchange.after_read(ReadOutcome::TimedOut) {
        Some(Err(InfoExchangeError::BootFault(m))) => assert!(m.contains("USB-JTAG reset loop")),
        other => panic!("{other:?}"),
    }
}

#[test]
fn quiesce_keeps_the_head_of_the_stream() {
    assert!(Quiesce::begin(WriteOutcome::TimedOut).is_none());
    assert!(Quiesce::begin(WriteOutcome::Failed("x".to_string())).is_some());
    let mut quiesce = Quiesce::begin(WriteOutcome::Done).expect("not begun");
    assert!(quiesce.after_read(ReadOutcome::Data, b"abc"));
    assert!(quiesce.after_read(ReadOutcome::Data, &vec![7u8; RETAIN_CAP]));
    assert_eq!(quiesce.retained.len(), RETAIN_CAP);
    assert_eq!(&quiesce.retained[..4], b"abc\x07");
    assert!(quiesce.after_read(ReadOutcome::Data, b"more"));
    assert_eq!(quiesce.retained.len(), RETAIN_CAP);
    assert!(!quiesce.after_read(ReadOutcome::TimedOut, b""));
    assert!(!quiesce.after_read(ReadOutcome::Eof, b""));
    assert!(!quiesce.after_read(ReadOutcome::Failed("x".to_string()), b""));
}

// ─── Modem lines ──────────────────────────────────────────────────────────

#[test]
fn line_plans() {
    assert_eq!(plan_on_open(true), vec![LineStep::Rts(false), LineStep::Dtr(false)]);
    assert_eq!(
        plan_on_open(false),
        vec![
            LineStep::Dtr(false),
            LineStep::Rts(true),
            LineStep::Pause(100),
            LineStep::Rts(false),
        ]
    );
    assert_eq!(
        reset_pulse(),
        vec![
            LineStep::Dtr(false),
            LineStep::Rts(true),
            LineStep::Dtr(false),
            LineStep::Pause(100),
            LineStep::Rts(false),
        ]
    );
}

#[test]
fn line_failures() {
    assert!(failure_ends_plan(false, LineStep::Rts(true)));
    assert!(!failure_ends_plan(true, LineStep::Rts(false)));
    assert!(!failure_ends_plan(false, LineStep::Dtr(false)));
    assert_eq!(
        describe_pulse_failure(LineStep::Rts(true), "io").as_deref(),
        Some("RTS assert failed: io")
    );
    assert_eq!(
        describe_pulse_failure(LineStep::Rts(false), "io").as_deref(),
        Some("RTS deassert failed: io")
    );
    assert_eq!(describe_pulse_failure(LineStep::Dtr(false), "io"), None);
}

// ─── Recovery ─────────────────────────────────────────────────────────────

/// The rungs of `n` failures in a row.
fn rungs(native_usb: bool, carried: u32, n: usize) -> Vec<Rung> {
    let mut ladder = RecoveryLadder::new(native_usb, carried);
    (0..n).map(|_| ladder.fail()).collect()
}

#[test]
fn recovery_escalates() {
    assert_eq!(
        rungs(true, 0, 7),
        vec![
            Rung::Wait,
            Rung::Restart,
            Rung::Wait,
            Rung::PulseReset,
            Rung::Wait,
            Rung::GiveUp,
            Rung::GiveUp,
        ]
    );
    assert_eq!(
        rungs(false, 0, 6),
        vec![Rung::Wait, Rung::Restart, Rung::Wait, Rung::Wait, Rung::Wait, Rung::GiveUp]
    );
    assert_eq!(rungs(true, 1, 3), vec![Rung::Wait, Rung::GiveUp, Rung::GiveUp]);
}

#[test]
fn recovery_rungs_fire_once_per_connection() {
    let mut ladder = RecoveryLadder::new(true, 0);
    let mut restarts = 0;
    for round in 0..20 {
        if ladder.fail() == Rung::Restart {
            restarts += 1;
        }
        if round % 3 == 2 {
            ladder.succeed();
        }
    }
    assert_eq!(restarts, 1);
}

// ─── Status ───────────────────────────────────────────────────────────────

#[test]
fn status_follows_the_connection() {
    let mut status = DeviceStatus::new(Some("old fault".to_string()), 2);
    assert_eq!(status.recovery_cycles, 2);
    status.on_opened();
    assert!(status.serial_connected);

    status.note(&InfoExchangeError::Soft("silent".to_string()));
    assert_eq!(status.fault.as_deref(), Some("old fault"));
    status.note(&InfoExchangeError::BootFault("wedge".to_string()));
    assert_eq!(status.fault.as_deref(), Some("wedge"));
    status.take_rung(Rung::GiveUp);
    assert_eq!(status.fault.as_deref(), Some("wedge"));
    status.take_rung(Rung::Restart);
    assert_eq!(status.recovery_cycles, 3);

    let info = parse_info_text("ESP-CSI-CLI/1\nchip=esp32\nEND-INFO\n").unwrap();
    status.verify(info);
    assert!(status.firmware_verified);
    assert_eq!(status.fault, None);
    assert_eq!(status.recovery_cycles, 0);

    status.collection_running = true;
    status.on_closed();
    assert!(!status.serial_connected);
    assert!(!status.collection_running);
    assert!(!status.firmware_verified);
    assert!(status.device_info.is_none());

    status.declare_terminal_fault();
    assert_eq!(
        status.fault.as_deref(),
        Some(
            "unresponsive after every automated recovery step (firmware restart, \
             USB-JTAG reset pulse) — the application does not boot. Press the board's \
             EN/reset button, replug the cable, or power-cycle the port (e.g. `uhubctl -a \
             cycle` on a power-switchable hub)."
        )
    );
    status.on_open_failed();
    assert!(status.fault.is_some());
}
