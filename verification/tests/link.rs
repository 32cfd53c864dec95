//! One open connection.
use csi_webserver_core::models::{DeviceInfo, OutputMode};
use csi_webserver_core::serial::exchange::InfoExchangeError;
use csi_webserver_core::serial::info::parse_info_text;
use csi_webserver_core::serial::link::{
    info_refusal, restart_request, wants_reverify, ChipInfo, ConnectionExit, DecodeReport,
    FramePlan, FrameRead, Link, ReadStep, SinkAction,
};
use csi_webserver_core::serial::recovery::Rung;
use csi_webserver_core::serial::status::DeviceStatus;

/// Wire layouts of two chips.
fn layout(name: &str) -> Option<u8> {
    match name {
        "esp32" => Some(1),
        "esp32c6" => Some(6),
        _ => None,
    }
}

fn identified(chip: &str) -> DeviceInfo {
    parse_info_text(&format!("ESP-CSI-CLI/1\nchip={chip}\nEND-INFO\n")).unwrap()
}

fn connected(mode: OutputMode, path: Option<&str>) -> (Link<u8>, DeviceStatus) {
    let mut status = DeviceStatus::new(None, 0);
    status.on_opened();
    let link = Link::open(
        false,
        mode,
        path.map(str::to_string),
        &mut status,
        Ok(identified("esp32c6")),
        layout,
    )
    .expect("not opened");
    (link, status)
}

/// A connection whose first chunk is behind it.
fn streaming(mode: OutputMode) -> Link<u8> {
    let (mut link, _) = connected(mode, Some("dump.parquet"));
    let mut buf = b"echo\0".to_vec();
    assert_eq!(link.on_read(FrameRead::Chunk, &mut buf, true), ReadStep::Skip);
    link
}

#[test]
fn chip_needs_a_known_layout() {
    let chip = ChipInfo::from_info(&identified("esp32"), layout).expect("no chip");
    assert_eq!(chip.name, "esp32");
    assert_eq!(chip.variant, 1);
    assert!(ChipInfo::from_info(&identified("esp32p4"), layout).is_none());
    let unnamed = parse_info_text("ESP-CSI-CLI/1\nEND-INFO\n").unwrap();
    assert!(ChipInfo::from_info(&unnamed, layout).is_none());
}

#[test]
fn connection_opens_verified() {
    let (link, status) = connected(OutputMode::Both, Some("p"));
    assert!(status.firmware_verified);
    assert_eq!(link.chip.as_ref().map(|c| c.variant), Some(6));
    assert!(link.drop_next_chunk);
    assert!(!link.sink_open);
    assert_eq!(link.session_path.as_deref(), Some("p"));
}

#[test]
fn connection_opens_unverified_or_not_at_all() {
    let mut status = DeviceStatus::new(None, 3);
    let link: Link<u8> = Link::open(
        true,
        OutputMode::Stream,
        None,
        &mut status,
        Err(InfoExchangeError::BootFault("wedge".to_string())),
        layout,
    )
    .expect("not opened");
    assert!(!status.firmware_verified);
    assert_eq!(status.fault.as_deref(), Some("wedge"));
    assert_eq!(link.ladder.carried_cycles, 3);
    assert!(link.chip.is_none());
    assert!(link.drains_first());

    let broken: Result<Link<u8>, ConnectionExit> = Link::open(
        true,
        OutputMode::Stream,
        None,
        &mut status,
        Err(InfoExchangeError::Hard("io".to_string())),
        layout,
    );
    assert!(matches!(broken, Err(ConnectionExit::Disconnected)));
}

#[test]
fn reconnects_only_after_a_lost_link() {
    assert!(ConnectionExit::Disconnected.reconnects());
    assert!(!ConnectionExit::CommandChannelClosed.reconnects());
    assert!(!ConnectionExit::Shutdown.reconnects());
}

#[test]
fn frames_are_forwarded_verbatim_while_collecting() {
    let mut link = streaming(OutputMode::Stream);
    let mut buf = b"\x01frame\xff\0".to_vec();
    assert_eq!(
        link.on_read(FrameRead::Chunk, &mut buf, true),
        ReadStep::Frame(FramePlan { decode: false, broadcast: true })
    );
    assert_eq!(buf, b"\x01frame\xff");
    link.after_frame(&mut buf, true);
    assert!(buf.is_empty());

    // Without its delimiter, as at the end of a stream.
    let mut buf = b"tail".to_vec();
    assert!(matches!(link.on_read(FrameRead::Chunk, &mut buf, true), ReadStep::Frame(_)));
    assert_eq!(buf, b"tail");
    link.after_frame(&mut buf, false);

    let mut buf = b"\0".to_vec();
    assert_eq!(link.on_read(FrameRead::Chunk, &mut buf, true), ReadStep::Skip);
    assert!(buf.is_empty());

    let mut buf = b"late\0".to_vec();
    assert_eq!(link.on_read(FrameRead::Chunk, &mut buf, false), ReadStep::Skip);
    assert!(buf.is_empty());

    assert_eq!(link.on_metrics_tick(), (2, 1));
    assert_eq!(link.on_metrics_tick(), (0, 0));
}

#[test]
fn reads_that_end_the_connection() {
    let mut link = streaming(OutputMode::Stream);
    let mut buf = b"part".to_vec();
    assert_eq!(
        link.on_read(FrameRead::Eof, &mut buf, true),
        ReadStep::Exit(ConnectionExit::Disconnected)
    );
    assert_eq!(
        link.on_read(FrameRead::Failed, &mut buf, true),
        ReadStep::Exit(ConnectionExit::Disconnected)
    );
}

#[test]
fn chunk_after_a_command_is_dropped() {
    let mut link = streaming(OutputMode::Stream);
    assert_eq!(link.on_command(Some("start".to_string())).unwrap(), "start\r\n");
    let mut buf = b"start echoed\0".to_vec();
    assert_eq!(link.on_read(FrameRead::Chunk, &mut buf, true), ReadStep::Skip);
    let mut buf = b"frame\0".to_vec();
    assert!(matches!(link.on_read(FrameRead::Chunk, &mut buf, true), ReadStep::Frame(_)));
    assert_eq!(link.on_command(None), Err(ConnectionExit::CommandChannelClosed));
}

#[test]
fn chunk_around_an_exchange_is_dropped() {
    let mut link = streaming(OutputMode::Stream);
    let mut buf = b"half a fr".to_vec();
    link.begin_exchange(&mut buf);
    assert!(buf.is_empty());
    assert!(link.drop_next_chunk);
}

#[test]
fn decoding_needs_an_open_file_and_a_chip() {
    let mut link = streaming(OutputMode::Both);
    let mut buf = b"f\0".to_vec();
    assert_eq!(
        link.on_read(FrameRead::Chunk, &mut buf, true),
        ReadStep::Frame(FramePlan { decode: false, broadcast: true })
    );
    link.on_sink_opened();
    let mut buf = b"f\0".to_vec();
    assert_eq!(
        link.on_read(FrameRead::Chunk, &mut buf, true),
        ReadStep::Frame(FramePlan { decode: true, broadcast: true })
    );
    link.mode = OutputMode::Dump;
    let mut buf = b"f\0".to_vec();
    assert_eq!(
        link.on_read(FrameRead::Chunk, &mut buf, true),
        ReadStep::Frame(FramePlan { decode: true, broadcast: false })
    );
    link.chip = None;
    let mut buf = b"f\0".to_vec();
    assert_eq!(
        link.on_read(FrameRead::Chunk, &mut buf, true),
        ReadStep::Frame(FramePlan { decode: false, broadcast: false })
    );
}

#[test]
fn decode_errors_are_reported_sparsely() {
    let mut link = streaming(OutputMode::Dump);
    let mut totals = Vec::new();
    for n in 1..=40u64 {
        match link.on_decode_error(&[0x00, 0x0f, 0xa9]) {
            DecodeReport::Frame(hex) => {
                assert!(n <= 3);
                assert_eq!(hex, "000fa9");
            }
            DecodeReport::Total(total) => {
                assert_eq!(total, n);
                totals.push(total);
            }
            DecodeReport::Quiet => {}
        }
    }
    assert_eq!(totals, vec![4, 8, 16, 32]);
}

#[test]
fn verification_is_repeated_while_idle() {
    assert!(wants_reverify(false, false));
    assert!(!wants_reverify(true, false));
    assert!(!wants_reverify(false, true));
    assert_eq!(info_refusal(false), None);
    assert_eq!(
        info_refusal(true).as_deref(),
        Some("collection is running; CLI is locked until stop")
    );
    assert_eq!(restart_request(), "\r\nrestart\r\n");
}

#[test]
fn repeated_verification_climbs_the_ladder() {
    let mut status = DeviceStatus::new(None, 0);
    let mut link: Link<u8> = Link::open(
        true,
        OutputMode::Stream,
        None,
        &mut status,
        Err(InfoExchangeError::Soft("silent".to_string())),
        layout,
    )
    .expect("not opened");
    let soft = || Err(InfoExchangeError::Soft("silent".to_string()));
    assert_eq!(link.after_reverify(&mut status, soft(), layout), Ok(Rung::Wait));
    assert_eq!(link.after_reverify(&mut status, soft(), layout), Ok(Rung::Restart));
    assert_eq!(status.recovery_cycles, 1);
    let fault = Err(InfoExchangeError::BootFault("wedge".to_string()));
    assert_eq!(link.after_reverify(&mut status, fault, layout), Ok(Rung::Wait));
    assert_eq!(status.fault.as_deref(), Some("wedge"));
    assert_eq!(link.after_reverify(&mut status, soft(), layout), Ok(Rung::PulseReset));

    let hard = Err(InfoExchangeError::Hard("io".to_string()));
    assert_eq!(
        link.after_reverify(&mut status, hard, layout),
        Err(ConnectionExit::Disconnected)
    );

    let ok = Ok(identified("esp32"));
    assert_eq!(link.after_reverify(&mut status, ok, layout), Ok(Rung::Wait));
    assert!(status.firmware_verified);
    assert_eq!(status.fault, None);
    assert_eq!(link.ladder.verify_failures, 0);
    assert_eq!(link.chip.as_ref().map(|c| c.variant), Some(1));
}

#[test]
fn info_requests_are_answered() {
    let (mut link, mut status) = connected(OutputMode::Stream, None);
    let (answer, exit) = link.after_info_request(&mut status, Ok(identified("esp32")), layout);
    assert_eq!(answer.unwrap().chip.as_deref(), Some("esp32"));
    assert_eq!(exit, None);

    let soft = Err(InfoExchangeError::Soft("silent".to_string()));
    let (answer, exit) = link.after_info_request(&mut status, soft, layout);
    assert_eq!(answer.unwrap_err(), "silent");
    assert_eq!(exit, None);
    assert!(!status.firmware_verified);
    assert!(status.device_info.is_none());

    let fault = Err(InfoExchangeError::BootFault("wedge".to_string()));
    let (answer, exit) = link.after_info_request(&mut status, fault, layout);
    assert_eq!(answer.unwrap_err(), "wedge");
    assert_eq!(exit, None);
    assert_eq!(status.fault.as_deref(), Some("wedge"));

    let hard = Err(InfoExchangeError::Hard("io".to_string()));
    let (answer, exit) = link.after_info_request(&mut status, hard, layout);
    assert_eq!(answer.unwrap_err(), "io");
    assert_eq!(exit, Some(ConnectionExit::Disconnected));
}

#[test]
fn dump_file_follows_the_settings() {
    let (mut link, _) = connected(OutputMode::Stream, None);
    assert!(matches!(link.sync_sink(), SinkAction::Keep));
    assert!(matches!(link.on_settings(Some(OutputMode::Dump), None), SinkAction::Keep));
    match link.on_settings(None, Some(Some("a.parquet".to_string()))) {
        SinkAction::Open { path, chip } => {
            assert_eq!(path, "a.parquet");
            assert_eq!(chip, "esp32c6");
        }
        other => panic!("{other:?}"),
    }
    link.on_sink_opened();
    // The same path again reuses the file, another one takes its place.
    assert!(matches!(
        link.on_settings(None, Some(Some("a.parquet".to_string()))),
        SinkAction::Keep
    ));
    assert!(link.sink_open);
    match link.on_settings(None, Some(Some("b.parquet".to_string()))) {
        SinkAction::Open { path, .. } => assert_eq!(path, "b.parquet"),
        other => panic!("{other:?}"),
    }
    assert!(!link.sink_open);
    link.on_sink_opened();
    assert!(matches!(link.on_settings(Some(OutputMode::Stream), None), SinkAction::Close));
    assert!(!link.sink_open);
    assert!(matches!(link.on_settings(Some(OutputMode::Both), None), SinkAction::Open { .. }));
    link.on_sink_opened();
    assert!(matches!(link.on_settings(None, Some(None)), SinkAction::Close));
    assert_eq!(link.session_path, None);
    assert!(matches!(link.on_settings(None, None), SinkAction::Keep));
}

#[test]
fn dump_file_of_another_path_is_closed_in_any_case() {
    let (mut link, _) = connected(OutputMode::Dump, Some("a.parquet"));
    link.on_sink_opened();
    assert!(matches!(
        link.on_settings(Some(OutputMode::Stream), Some(Some("b.parquet".to_string()))),
        SinkAction::Close
    ));
    assert!(!link.sink_open);
    let (mut link, _) = connected(OutputMode::Dump, Some("a.parquet"));
    link.on_sink_opened();
    link.chip = None;
    assert!(matches!(
        link.on_settings(None, Some(Some("b.parquet".to_string()))),
        SinkAction::Unidentified { .. }
    ));
    assert!(!link.sink_open);
}

#[test]
fn dump_file_needs_a_known_chip() {
    let (mut link, _) = connected(OutputMode::Dump, Some("a.parquet"));
    link.chip = None;
    match link.sync_sink() {
        SinkAction::Unidentified { path } => assert_eq!(path, "a.parquet"),
        other => panic!("{other:?}"),
    }
}
