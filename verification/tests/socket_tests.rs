use dockctl::error::DockerErrorKind;
use dockctl::image::Image;
use dockctl::protocol::Protocol;
use dockctl::socket::Socket;
use dockctl::socket_map::SocketMap;

#[test]
fn socket_map_constructor_test() {
    let map = SocketMap::new(20, Socket::new(455, Protocol::TCP));
    assert_eq!(map.outer_port, 20);
}

#[test]
fn selfbind_test() {
    let sock = SocketMap::self_bound(Socket::new(455, Protocol::TCP));
    assert_eq!(sock.inner_socket.port, sock.outer_port)
}

#[test]
fn parse_socket_tcp_is_case_insensitive() {
    for text in ["6379/tcp", "6379/TCP", "6379/Tcp", "6379/tCp"] {
        let sock = Socket::try_from(text.to_string()).unwrap();
        assert_eq!(sock.port, 6379);
        assert_eq!(sock.protocol, Protocol::TCP);
    }
}

#[test]
fn parse_socket_udp_is_case_insensitive() {
    let sock = Socket::try_from("53/UdP".to_string()).unwrap();
    assert_eq!(sock.port, 53);
    assert_eq!(sock.protocol, Protocol::UDP);
}

#[test]
fn parse_socket_unknown_protocol_is_preserved_verbatim() {
    let sock = Socket::try_from("80/Sctp".to_string()).unwrap();
    assert_eq!(sock.port, 80);
    assert_eq!(sock.protocol, Protocol::Other("Sctp".to_string()));
}

#[test]
fn parse_socket_empty_protocol_means_all() {
    let sock = Socket::try_from("80/".to_string()).unwrap();
    assert_eq!(sock.port, 80);
    assert_eq!(sock.protocol, Protocol::All);
}

#[test]
fn parse_socket_without_slash_fails_invalid_input() {
    let err = Socket::try_from("6379".to_string()).unwrap_err();
    assert_eq!(err.kind, DockerErrorKind::InvalidInput);
}

#[test]
fn parse_socket_with_two_slashes_fails_invalid_input() {
    let err = Socket::try_from("1/2/3".to_string()).unwrap_err();
    assert_eq!(err.kind, DockerErrorKind::InvalidInput);
}

#[test]
fn parse_socket_empty_string_fails_invalid_input() {
    let err = Socket::try_from("".to_string()).unwrap_err();
    assert_eq!(err.kind, DockerErrorKind::InvalidInput);
}

#[test]
fn parse_socket_bad_port_fails_invalid_input() {
    for text in ["abc/tcp", "/tcp", "70000/tcp", "-1/tcp", " 80/tcp"] {
        let err = Socket::try_from(text.to_string()).unwrap_err();
        assert_eq!(err.kind, DockerErrorKind::InvalidInput, "input {:?}", text);
    }
}

#[test]
fn parse_socket_accepts_plus_sign_like_integer_parsing() {
    let sock = Socket::try_from("+6379/tcp".to_string()).unwrap();
    assert_eq!(sock.port, 6379);
}

#[test]
fn parse_socket_largest_port() {
    let sock = Socket::try_from("65535/udp".to_string()).unwrap();
    assert_eq!(sock.port, 65535);
    assert_eq!(sock.protocol, Protocol::UDP);
}

#[test]
fn format_socket_all_is_bare_port() {
    assert_eq!(Socket::new(6379, Protocol::All).format_protocol(), "6379");
}

#[test]
fn format_socket_tcp_has_suffix() {
    assert_eq!(Socket::new(6379, Protocol::TCP).format_protocol(), "6379/tcp");
}

#[test]
fn format_socket_udp_has_suffix() {
    assert_eq!(Socket::new(53, Protocol::UDP).format_protocol(), "53/udp");
}

#[test]
fn format_socket_other_is_bare_port() {
    assert_eq!(
        Socket::new(80, Protocol::Other("sctp".to_string())).format_protocol(),
        "80"
    );
}

#[test]
fn format_socket_map_joins_outer_and_inner() {
    let map = SocketMap::new(8080, Socket::new(80, Protocol::TCP));
    assert_eq!(map.format(), "8080:80/tcp");
}

#[test]
fn format_protocol_tokens() {
    assert_eq!(Protocol::TCP.format(), "tcp");
    assert_eq!(Protocol::UDP.format(), "udp");
    assert_eq!(Protocol::Other("sctp".to_string()).format(), "sctp");
    assert_eq!(Protocol::All.format(), "");
}

#[test]
fn image_round_trip_formats() {
    assert_eq!(Image::new_latest("redis").format(), "redis:latest");
    assert_eq!(
        Image::new_with_version("redis", "7.4.0-alpine").format(),
        "redis:7.4.0-alpine"
    );
    assert_eq!(Image::Tag("redis:7".to_string()).format(), "redis:7");
}
