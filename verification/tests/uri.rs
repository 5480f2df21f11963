use rusteron::aeron_custom::{
    get_counter_key, get_counter_label, get_to_driver_heartbeat_ms, is_ready, AeronErrorLogger, AeronSystemCounterType,
    AeronUriStringBuilder,
};
use rusteron::common::{AeronCError, AeronErrorType, ControlMode, Media};

#[test]
fn an_address_is_built_in_the_order_of_first_setting() -> Result<(), AeronCError> {
    let mut builder = AeronUriStringBuilder::default();
    builder
        .media(Media::Udp)?
        .control_mode(ControlMode::Dynamic)?
        .reliable(false)?
        .ttl(2)?
        .endpoint("localhost:1235")?
        .control("localhost:1234")?
        .session_id("-2")?
        .linger_timeout(-9223372036854775808)?
        .ttl(7)?;
    assert_eq!(
        builder.build(1024)?,
        "aeron:udp?control-mode=dynamic|reliable=false|ttl=7|endpoint=localhost:1235|control=localhost:1234|session-id=-2|linger=-9223372036854775808"
    );
    Ok(())
}

#[test]
fn a_qualifier_stands_before_the_scheme() -> Result<(), AeronCError> {
    let mut builder = AeronUriStringBuilder::new();
    builder.prefix("aeron-spy")?.media(Media::Ipc)?.initial_term_id(0)?.term_length("65536")?;
    assert_eq!(builder.build(64)?, "aeron-spy:aeron:ipc?init-term-id=0|term-length=65536");
    let mut dst = String::from("old");
    builder.build_into(&mut dst)?;
    assert_eq!(dst, "aeron-spy:aeron:ipc?init-term-id=0|term-length=65536");
    Ok(())
}

#[test]
fn an_address_needs_a_media_and_room() {
    let mut builder = AeronUriStringBuilder::new();
    builder.alias("a").unwrap();
    assert_eq!(builder.build(100), Err(AeronCError::from_code(-1)));
    let mut dst = String::from("old");
    assert_eq!(builder.build_into(&mut dst), Err(AeronCError::from_code(-1)));
    assert_eq!(dst, "old");
    builder.media(Media::Ipc).unwrap();
    // aeron:ipc?alias=a has 17 characters
    assert_eq!(builder.build(17), Err(AeronCError::from_code(-1)));
    assert_eq!(builder.build(18).unwrap(), "aeron:ipc?alias=a");
    assert_eq!(builder.get("alias"), Some(String::from("a")));
    assert_eq!(builder.get("ttl"), None);
}

#[test]
fn every_setter_has_its_key() -> Result<(), AeronCError> {
    let mut b = AeronUriStringBuilder::new();
    b.media(Media::Udp)?
        .term_id(1)?
        .term_offset(2)?
        .mtu_length(3)?
        .sparse_term(true)?
        .eos(true)?
        .tether(false)?
        .tags("t")?
        .interface("i")?
        .group(true)?
        .rejoin(false)?
        .fc("max")?
        .gtag("g")?
        .cc("cubic")?
        .spies_simulate_connection(true)?
        .ats(false)?
        .socket_sndbuf(4)?
        .socket_rcvbuf(5)?
        .receiver_window(6)?
        .media_rcv_timestamp_offset("m")?
        .channel_rcv_timestamp_offset("r")?
        .channel_snd_timestamp_offset("s")?
        .timestamp_offset_reserved("x")?
        .response_correlation_id(7)?
        .nak_delay(8)?
        .untethered_window_limit_timeout(9)?
        .untethered_resting_timeout(10)?
        .max_resend(11)?
        .stream_id(12)?
        .publication_window(13)?;
    assert_eq!(
        b.build(4096)?,
        "aeron:udp?term-id=1|term-offset=2|mtu=3|sparse=true|eos=true|tether=false|tags=t|interface=i|group=true|rejoin=false|fc=max|gtag=g|cc=cubic|ssc=true|ats=false|so-sndbuf=4|so-rcvbuf=5|rcv-wnd=6|media-rcv-ts-offset=m|channel-rcv-ts-offset=r|channel-snd-ts-offset=s|reserved=x|response-correlation-id=7|nak-delay=8|untethered-window-limit-timeout=9|untethered-resting-timeout=10|max-resend=11|stream-id=12|pub-wnd=13"
    );
    Ok(())
}

#[test]
fn counter_kinds_have_their_ids() {
    assert_eq!(AeronSystemCounterType::try_from(0), Ok(AeronSystemCounterType::BytesSent));
    assert_eq!(AeronSystemCounterType::try_from(15), Ok(AeronSystemCounterType::Errors));
    assert_eq!(AeronSystemCounterType::try_from(40), Ok(AeronSystemCounterType::DummyLast));
    assert_eq!(AeronSystemCounterType::try_from(41), Err(AeronCError::from_code(-1)));
    assert_eq!(AeronSystemCounterType::try_from(-7), Err(AeronCError::from_code(-7)));
    for id in 0..=40 {
        assert_eq!(AeronSystemCounterType::try_from(id).unwrap().id(), id);
    }
}

#[test]
fn error_kinds_and_codes() {
    for code in [-1, -2, -3, -4, -5, -6, -1000, -1001, -1002, -1003, -234324, 0, 17, -99] {
        assert_eq!(AeronErrorType::from_code(code).code(), code);
    }
    assert_eq!(AeronErrorType::from_code(-1003), AeronErrorType::ClientErrorBufferFull);
    assert_eq!(AeronErrorType::from_code(5), AeronErrorType::Unknown(5));
    assert_eq!(AeronErrorType::PublicationClosed.to_string(), "Publication Closed");
    assert_eq!(AeronErrorType::Unknown(1).to_string(), "Unknown Error");
    assert!(AeronCError::from_code(-2).is_back_pressured());
    assert!(AeronCError::from_code(-3).is_admin_action());
    assert!(AeronCError::from_code(-3).is_back_pressured_or_admin_action());
    assert!(!AeronCError::from_code(-4).is_back_pressured_or_admin_action());
    assert_eq!(AeronCError::from_kind(AeronErrorType::TimedOut).kind(), AeronErrorType::TimedOut);
    assert_eq!(Media::Udp.as_str(), "udp");
    assert_eq!(ControlMode::Response.as_str(), "response");
    assert_eq!(AeronErrorLogger.message(-4, "closed"), "aeron error -4: closed");
}

#[test]
fn what_a_foreign_call_left_is_read_to_the_first_zero() {
    assert_eq!(get_counter_label(5, b"label\0rest\0"), Ok(String::from("label")));
    assert_eq!(get_counter_label(0, b"whole"), Ok(String::from("whole")));
    assert_eq!(get_counter_label(0, &[0xe9, 0]), Ok(String::from("\u{e9}")));
    assert_eq!(get_counter_label(0, b""), Ok(String::new()));
    assert_eq!(get_counter_label(-1, b"label\0"), Err(AeronCError::from_code(-1)));
    assert_eq!(get_counter_key(0, &[1, 2, 0, 3]), Ok(vec![1, 2]));
    assert_eq!(get_counter_key(0, &[0]), Ok(vec![]));
    assert_eq!(get_counter_key(-7, &[1]), Err(AeronCError::from_code(-7)));
    assert_eq!(get_to_driver_heartbeat_ms(0), Ok(0));
    assert_eq!(get_to_driver_heartbeat_ms(1_700_000_000_000), Ok(1_700_000_000_000));
    assert_eq!(get_to_driver_heartbeat_ms(-1), Err(AeronCError::from_code(-1)));
    assert_eq!(get_to_driver_heartbeat_ms(i64::MIN), Err(AeronCError::from_code(i32::MIN)));
    assert!(is_ready(true, 1));
    assert!(!is_ready(true, 0));
    assert!(!is_ready(false, 1));
}
