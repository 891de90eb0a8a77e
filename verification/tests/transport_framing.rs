use persona_mind::error::Error;
use persona_mind::transport::{MindSocketMode, DEFAULT_MAXIMUM_FRAME_BYTES};
use persona_mind::{MindDaemon, MindDaemonEndpoint, MindFrameCodec, StoreLocation};

#[test]
fn frame_prefix_is_big_endian() {
    let codec = MindFrameCodec::default();
    assert_eq!(codec.frame_length([0, 0, 1, 2]), 258);
    assert_eq!(codec.frame_length([1, 0, 0, 0]), 16_777_216);
    assert_eq!(codec.frame_length([255, 255, 255, 255]), u32::MAX);
    assert_eq!(codec.maximum_frame_bytes, DEFAULT_MAXIMUM_FRAME_BYTES);
    assert_eq!(DEFAULT_MAXIMUM_FRAME_BYTES, 1024 * 1024);
}

#[test]
fn frames_over_the_limit_are_refused() {
    let codec = MindFrameCodec::new(16);
    assert_eq!(codec.check_length(16), Ok(16));
    assert_eq!(
        codec.check_length(17),
        Err(Error::FrameTooLarge {
            found: 17,
            limit: 16
        })
    );
}

#[test]
fn socket_mode_parses_octal_like_from_str_radix() {
    for text in ["600", "+755", "0", "17777777777", "37777777777", "", "+", "8", "-1", "40000000000", "7a"] {
        let expected = u32::from_str_radix(text, 8).ok();
        assert_eq!(
            MindSocketMode::from_octal_text(text).map(MindSocketMode::as_octal),
            expected,
            "mode text {text:?}"
        );
    }
    assert_eq!(MindSocketMode::new(0o600).as_octal(), 384);
}

#[test]
fn daemon_builder_keeps_its_parts() {
    let endpoint = MindDaemonEndpoint::new("/run/mind.sock".to_string());
    assert_eq!(endpoint.as_path(), "/run/mind.sock");
    let daemon = MindDaemon::new(endpoint, StoreLocation::new("/var/mind.redb"), None);
    assert_eq!(daemon.socket_mode(), None);
    let daemon = daemon.with_socket_mode(MindSocketMode::new(0o660));
    assert_eq!(daemon.socket_mode(), Some(MindSocketMode::new(0o660)));
    assert_eq!(daemon.endpoint().as_path(), "/run/mind.sock");
    assert_eq!(daemon.store().as_path(), "/var/mind.redb");
    assert_eq!(daemon.codec(), MindFrameCodec::default());
}
