use gotoo_pixel_engine::{frame_len, mirror_address, mirror_route, parse_port, request_path, response_head, MirrorRoute};

#[test]
fn request_path_is_the_target_without_query() {
    assert_eq!(request_path("GET /frame.rgba?x=1 HTTP/1.1\r\nHost: a\r\n\r\n"), "/frame.rgba");
    assert_eq!(request_path("  GET   /health  "), "/health");
    assert_eq!(request_path(""), "/");
    assert_eq!(request_path("GET\r\n/ignored"), "/");
    assert_eq!(request_path("\nGET /x HTTP/1.1"), "/");
    assert_eq!(request_path("GET ?only HTTP/1.1"), "");
}

#[test]
fn routes_match_exact_paths() {
    assert_eq!(mirror_route("/"), MirrorRoute::Page);
    assert_eq!(mirror_route("/stream.rgba"), MirrorRoute::Stream);
    assert_eq!(mirror_route("/frame.rgba"), MirrorRoute::Frame);
    assert_eq!(mirror_route("/health"), MirrorRoute::Health);
    assert_eq!(mirror_route("/health/"), MirrorRoute::NotFound);
}

#[test]
fn response_heads_name_status_type_and_length() {
    assert_eq!(
        response_head("200 OK", "text/plain; charset=utf-8", 3),
        "HTTP/1.1 200 OK\r\nContent-Type: text/plain; charset=utf-8\r\nContent-Length: 3\r\nCache-Control: no-store, no-cache, must-revalidate\r\nConnection: close\r\n\r\n"
    );
}

#[test]
fn frame_lengths_are_checked() {
    assert_eq!(frame_len(320, 180), Some(230_400));
    assert_eq!(frame_len(0, 7), Some(0));
    if usize::BITS == 64 {
        assert_eq!(frame_len(u32::MAX, u32::MAX), None);
    }
}

#[test]
fn ports_follow_unsigned_decimal_syntax() {
    for text in ["8080", "+80", "65535", "65536", "", "+", "-1", "08", "8 0", "99999999999"] {
        assert_eq!(parse_port(text), text.parse::<u16>().ok(), "{text}");
    }
}

#[test]
fn mirror_settings_choose_the_listening_address() {
    assert_eq!(mirror_address(" ON ").as_deref(), Some("0.0.0.0:7878"));
    assert_eq!(mirror_address("Yes").as_deref(), Some("0.0.0.0:7878"));
    assert_eq!(mirror_address("off"), None);
    assert_eq!(mirror_address("No"), None);
    assert_eq!(mirror_address("0"), None);
    assert_eq!(mirror_address("   "), None);
    assert_eq!(mirror_address(" 9000\n").as_deref(), Some("0.0.0.0:9000"));
    assert_eq!(mirror_address("127.0.0.1:9").as_deref(), Some("127.0.0.1:9"));
}
