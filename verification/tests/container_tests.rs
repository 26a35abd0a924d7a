use dockctl::container::ConatinerStatus;
use dockctl::container::Container;
use dockctl::container::ContainerData;
use dockctl::container::listing_invocation;
use dockctl::container::parse_listing;
use dockctl::container::run_invocation;
use dockctl::container::start_by_id_or_name_invocation;
use dockctl::container::stop_by_id_or_name_invocation;
use dockctl::error::DockerErrorKind;
use dockctl::protocol::Protocol;
use dockctl::socket::Socket;

#[test]
fn parse_record_running_with_socket() {
    let c = Container::try_from("abc123;redis:7;sh;2024-01-01;myredis;Up 2 days;6379/tcp".to_string())
        .unwrap();
    assert_eq!(c.container.id, "abc123");
    assert_eq!(c.container.image, "redis:7");
    assert_eq!(c.container.entrypoint, "sh");
    assert_eq!(c.container.created, "2024-01-01");
    assert_eq!(c.container.name, "myredis");
    assert_eq!(
        c.status,
        ConatinerStatus::Running(Socket::new(6379, Protocol::TCP))
    );
}

#[test]
fn parse_record_five_fields_is_malformed() {
    let err = Container::try_from("a;b;c;d;e".to_string()).unwrap_err();
    assert_eq!(err.kind, DockerErrorKind::MalformedRecord);
}

#[test]
fn parse_record_unknown_status_token() {
    let err = Container::try_from("a;b;c;d;e;unknown".to_string()).unwrap_err();
    assert_eq!(err.kind, DockerErrorKind::UnknownStatus);
}

#[test]
fn parse_record_running_without_ports_field_is_malformed() {
    let err = Container::try_from("a;b;c;d;e;running".to_string()).unwrap_err();
    assert_eq!(err.kind, DockerErrorKind::MalformedRecord);
}

#[test]
fn parse_record_running_with_bad_socket_propagates_socket_error() {
    let err = Container::try_from("a;b;c;d;e;Up 2 days;notasocket".to_string()).unwrap_err();
    assert_eq!(err.kind, DockerErrorKind::InvalidInput);
}

#[test]
fn parse_record_status_token_is_case_insensitive() {
    let c = Container::try_from("a;b;c;d;e;UP 2 days;80/udp".to_string()).unwrap();
    assert_eq!(c.status, ConatinerStatus::Running(Socket::new(80, Protocol::UDP)));
    let c = Container::try_from("a;b;c;d;e;CREATED".to_string()).unwrap();
    assert_eq!(c.status, ConatinerStatus::Created);
}

#[test]
fn parse_record_payload_free_statuses() {
    let cases = [
        ("created", ConatinerStatus::Created),
        ("stopped", ConatinerStatus::Stopped),
        ("paused", ConatinerStatus::Paused),
        ("restarting", ConatinerStatus::Restarting),
        ("removing", ConatinerStatus::Removing),
        ("exited", ConatinerStatus::Exited),
        ("dead", ConatinerStatus::Dead),
    ];
    for (token, expected) in cases {
        let record = format!("a;b;c;d;e;{} (0) 2 hours ago", token);
        let c = Container::try_from(record).unwrap();
        assert_eq!(c.status, expected, "token {:?}", token);
    }
}

#[test]
fn parse_listing_keeps_only_wellformed_records() {
    let payload = "abc123;redis:7;sh;2024-01-01;myredis;Up 2 days;6379/tcp\nnot a record";
    let containers = parse_listing(payload);
    assert_eq!(containers.len(), 1);
    assert_eq!(containers[0].container.id, "abc123");
}

#[test]
fn parse_listing_ignores_trailing_blank_line() {
    let payload = "a;b;c;d;e;Created\n";
    let containers = parse_listing(payload);
    assert_eq!(containers.len(), 1);
    assert_eq!(containers[0].status, ConatinerStatus::Created);
}

#[test]
fn parse_listing_empty_output_is_empty() {
    assert_eq!(parse_listing("").len(), 0);
}

fn sample_listing() -> Vec<Container> {
    parse_listing(
        "id1;redis:7;sh;2024-01-01;cache;Up 2 days;6379/tcp\nid2;nginx;sh;2024-01-02;web;Exited (0) 2 days ago",
    )
}

#[test]
fn get_by_id_finds_container() {
    let containers = sample_listing();
    let c = Container::try_get_by_id_or_name("id2", &containers).unwrap();
    assert_eq!(c.container.name, "web");
}

#[test]
fn get_by_name_finds_container() {
    let containers = sample_listing();
    let c = Container::try_get_by_id_or_name("cache", &containers).unwrap();
    assert_eq!(c.container.id, "id1");
}

#[test]
fn get_by_unknown_name_is_not_found() {
    let containers = sample_listing();
    let err = Container::try_get_by_id_or_name("nope", &containers).unwrap_err();
    assert_eq!(err.kind, DockerErrorKind::NotFound);
}

fn container_with_status(status: ConatinerStatus) -> Container {
    Container {
        container: ContainerData {
            id: "id1".to_string(),
            image: "redis:7".to_string(),
            entrypoint: "sh".to_string(),
            created: "2024-01-01".to_string(),
            name: "cache".to_string(),
        },
        status,
    }
}

#[test]
fn start_invocation_is_noop_when_running() {
    let running = container_with_status(ConatinerStatus::Running(Socket::new(6379, Protocol::TCP)));
    assert!(running.start_invocation().is_none());
    let stopped = container_with_status(ConatinerStatus::Stopped);
    assert_eq!(
        stopped.start_invocation().unwrap(),
        vec!["start".to_string(), "id1".to_string()]
    );
}

#[test]
fn stop_invocation_is_noop_when_stopped() {
    let stopped = container_with_status(ConatinerStatus::Stopped);
    assert!(stopped.stop_invocation().is_none());
    let exited = container_with_status(ConatinerStatus::Exited);
    assert_eq!(
        exited.stop_invocation().unwrap(),
        vec!["stop".to_string(), "id1".to_string()]
    );
}

#[test]
fn listing_invocation_uses_fixed_template() {
    assert_eq!(
        listing_invocation(),
        vec![
            "ps".to_string(),
            "-a".to_string(),
            "--format".to_string(),
            "{{.ID}};{{.Image}};{{.Command}};{{.CreatedAt}};{{.Names}};{{.Status}};{{.Ports}}"
                .to_string(),
        ]
    );
}

#[test]
fn run_invocation_places_args_before_detach_flag() {
    assert_eq!(
        run_invocation("redis:latest", Some(vec!["--rm".to_string()])),
        vec![
            "run".to_string(),
            "--rm".to_string(),
            "-d".to_string(),
            "redis:latest".to_string(),
        ]
    );
    assert_eq!(
        run_invocation("redis:latest", None),
        vec!["run".to_string(), "-d".to_string(), "redis:latest".to_string()]
    );
}

#[test]
fn lifecycle_invocations_by_id_or_name() {
    assert_eq!(
        start_by_id_or_name_invocation("cache"),
        vec!["start".to_string(), "cache".to_string()]
    );
    assert_eq!(
        stop_by_id_or_name_invocation("cache"),
        vec!["stop".to_string(), "cache".to_string()]
    );
}
