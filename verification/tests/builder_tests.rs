use dockctl::action::CreateAction;
use dockctl::builder::BoundSockets;
use dockctl::builder::ContainerCommandBuilder;
use dockctl::error::DockerErrorKind;
use dockctl::image::Image;
use dockctl::protocol::Protocol;
use dockctl::socket::Socket;
use dockctl::socket_map::SocketMap;

#[test]
fn mod_constructor_test() {
    let builder = ContainerCommandBuilder::new();
    assert_eq!(builder.image, None);
    assert!(builder.sockets == BoundSockets::Dynamic);
    assert_eq!(builder.environment.len(), 0);
    assert!(!builder.detatched);
}

#[test]
fn image_test() {
    let builder = ContainerCommandBuilder::new().image(Image::new_latest("redis"));
    assert!(builder
        .image
        .is_some_and(|i| i == Image::Latest("redis".into())));
}

#[test]
fn socket_test() {
    let builder = ContainerCommandBuilder::new()
        .socket(SocketMap::self_bound(Socket::new(8080u16, Protocol::TCP)));

    if let BoundSockets::Static(socks) = builder.sockets {
        assert!(socks.first().is_some_and(
            |s| s.inner_socket.port == 8080u16 && s.inner_socket.protocol == Protocol::TCP
        ))
    } else {
        assert!(false)
    }
}

#[test]
fn detached_test() {
    let builder = ContainerCommandBuilder::new();
    assert!(!builder.detatched);
    let builder_detached = builder.detached();
    assert!(builder_detached.detatched);
}

#[test]
fn build_ordered_args() {
    let args = ContainerCommandBuilder::new()
        .action(CreateAction::Run)
        .selfbound_socket(Socket::new(6379, Protocol::All))
        .image(Image::new_with_version("redis", "7.4.0-alpine"))
        .detached()
        .named("Redis")
        .build()
        .unwrap();
    assert_eq!(
        args,
        vec![
            "run".to_string(),
            "--name".to_string(),
            "Redis".to_string(),
            "-p".to_string(),
            "6379:6379".to_string(),
            "-d".to_string(),
            "redis:7.4.0-alpine".to_string(),
        ]
    );
}

#[test]
fn build_detached_create_is_invalid_configuration() {
    let err = ContainerCommandBuilder::new()
        .detached()
        .image(Image::new_latest("redis"))
        .named("r")
        .build()
        .unwrap_err();
    assert_eq!(err.kind, DockerErrorKind::InvalidConfiguration);
}

#[test]
fn build_without_image_is_missing_configuration() {
    let err = ContainerCommandBuilder::new()
        .action(CreateAction::Run)
        .named("r")
        .build()
        .unwrap_err();
    assert_eq!(err.kind, DockerErrorKind::MissingConfiguration);
}

#[test]
fn build_create_without_detach_succeeds() {
    let args = ContainerCommandBuilder::new()
        .image(Image::new_latest("redis"))
        .build()
        .unwrap();
    assert_eq!(
        args,
        vec!["create".to_string(), "-P".to_string(), "redis:latest".to_string()]
    );
}

#[test]
fn environment_replaces_existing_key_in_place() {
    let builder = ContainerCommandBuilder::new()
        .with_environment_variable("A", "1")
        .with_environment_variable("B", "2")
        .with_environment_variable("A", "3");
    assert_eq!(
        builder.environment,
        vec![
            ("A".to_string(), "3".to_string()),
            ("B".to_string(), "2".to_string()),
        ]
    );
}

#[test]
fn environment_flags_in_insertion_order() {
    let args = ContainerCommandBuilder::new()
        .action(CreateAction::Run)
        .with_environment_variable("A", "1")
        .with_environment_variable("B", "2")
        .image(Image::new_latest("redis"))
        .build()
        .unwrap();
    assert_eq!(
        args,
        vec![
            "run".to_string(),
            "-e".to_string(),
            "A".to_string(),
            "=".to_string(),
            "1".to_string(),
            "-e".to_string(),
            "B".to_string(),
            "=".to_string(),
            "2".to_string(),
            "-P".to_string(),
            "redis:latest".to_string(),
        ]
    );
}

#[test]
fn dynamic_socket_discards_static_bindings() {
    let builder = ContainerCommandBuilder::new()
        .socket(SocketMap::new(80, Socket::new(8080, Protocol::TCP)))
        .dynamic_socket();
    assert!(builder.sockets == BoundSockets::Dynamic);
}

#[test]
fn static_socket_discards_dynamic_mode() {
    let builder = ContainerCommandBuilder::new()
        .dynamic_socket()
        .socket(SocketMap::new(80, Socket::new(8080, Protocol::TCP)));
    if let BoundSockets::Static(socks) = builder.sockets {
        assert_eq!(socks.len(), 1);
        assert_eq!(socks[0].outer_port, 80);
    } else {
        assert!(false)
    }
}

#[test]
fn default_builder_matches_new() {
    let builder = ContainerCommandBuilder::default();
    assert_eq!(builder.image, None);
    assert!(builder.sockets == BoundSockets::Dynamic);
    assert_eq!(builder.environment.len(), 0);
    assert!(!builder.detatched);
    assert!(builder.name.is_none());
    assert!(builder.action == CreateAction::Create);
}
