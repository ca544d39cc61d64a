use testcontainers::container::{Command, ContainerAsync};
use testcontainers::fake::FakeDocker;
use testcontainers::generic::GenericImage;
use testcontainers::image::Image;
use testcontainers::mongo::{Mongo, MongoArgs};
use testcontainers::parity_ethereum::{ParityEthereum, ParityEthereumArgs};
use testcontainers::ports::{Port, PortMapping, Protocol};
use testcontainers::wait::WaitFor;

#[test]
fn mongo_default_descriptor() {
    let image = Mongo::default();
    assert_eq!(image.descriptor(), "mongo:4.0.17");
}

#[test]
fn mongo_with_tag_changes_descriptor() {
    let image = Mongo::default().with_tag("4.2.0");
    assert_eq!(image.descriptor(), "mongo:4.2.0");
}

#[test]
fn mongo_waits_for_connections_message_on_stdout() {
    let image = Mongo::default();
    let conditions = image.ready_conditions();
    assert_eq!(conditions.len(), 1);
    match &conditions[0] {
        WaitFor::StdOutMessage { message } => {
            assert_eq!(message.as_slice(), b"waiting for connections on port");
        },
        _ => panic!("expected a stdout message condition"),
    }
}

#[test]
fn mongo_has_no_ports_by_default() {
    let image = Mongo::default();
    assert!(image.ports().is_none());
}

#[test]
fn mongo_with_mapped_port_declares_it() {
    let image = Mongo::default().with_mapped_port(Port::new(49153, 27017));
    let declared = image.ports();
    assert_eq!(declared, Some(vec![Port { local: 49153, internal: 27017 }]));
}

#[test]
fn mongo_args_are_empty() {
    let args: MongoArgs = Mongo::default().args();
    assert!(args.to_args().is_empty());
}

#[test]
fn parity_default_descriptor() {
    let image = ParityEthereum::default();
    assert_eq!(image.descriptor(), "parity/parity:v2.2.9");
}

#[test]
fn parity_with_tag_changes_descriptor() {
    let image = ParityEthereum::default().with_tag("v2.5.0");
    assert_eq!(image.descriptor(), "parity/parity:v2.5.0");
}

#[test]
fn parity_waits_for_public_node_url_on_stderr() {
    let image = ParityEthereum::default();
    let conditions = image.ready_conditions();
    assert_eq!(conditions.len(), 1);
    match &conditions[0] {
        WaitFor::StdErrMessage { message } => {
            assert_eq!(message.as_slice(), b"Public node URL:");
        },
        _ => panic!("expected a stderr message condition"),
    }
}

#[test]
fn parity_args_are_the_dev_configuration() {
    let args: ParityEthereumArgs = ParityEthereum::default().args();
    let v = args.to_args();
    assert_eq!(
        v,
        vec![
            "--config=dev".to_string(),
            "--jsonrpc-apis=all".to_string(),
            "--unsafe-expose".to_string(),
            "--tracing=on".to_string(),
        ]
    );
}

#[test]
fn mongo_container_becomes_ready_and_resolves_port() {
    let image = Mongo::default();
    let fake = FakeDocker::new(
        "mongo01".to_string(),
        vec![
            b"2019-04-02T00:00:00.000+0000 I CONTROL  [initandlisten] MongoDB starting\n".to_vec(),
            b"2019-04-02T00:00:01.000+0000 I NETWORK  [initandlisten] waiting for connections on port 27017\n".to_vec(),
        ],
        vec![],
        vec![PortMapping { internal: 27017, protocol: Protocol::Tcp, host: 49153 }],
    );
    let mut c = match ContainerAsync::new("mongo01".to_string(), fake, image, Command::Remove) {
        Ok(c) => c,
        Err(_) => panic!("construction should have succeeded"),
    };
    assert_eq!(c.get_host_port(27017), Ok(49153));
    c.dispose();
    assert_eq!(c.docker_client().stop_count(), 1);
    assert_eq!(c.docker_client().rm_count(), 1);
}

#[test]
fn generic_image_carries_descriptor_and_args() {
    let image = GenericImage::new("redis:5.0").with_args(vec!["--appendonly".to_string()]);
    assert_eq!(image.descriptor(), "redis:5.0");
    assert_eq!(image.args(), vec!["--appendonly".to_string()]);
}

#[test]
fn generic_image_with_mapped_port_declares_it() {
    let image = GenericImage::new("redis:5.0")
        .with_mapped_port(Port::new(49160, 6379))
        .with_mapped_port(Port::new(49161, 6380));
    let declared = image.ports();
    assert_eq!(
        declared,
        Some(vec![
            Port { local: 49160, internal: 6379 },
            Port { local: 49161, internal: 6380 },
        ])
    );
}

#[test]
fn images_declare_no_env_vars_or_volumes() {
    assert!(Mongo::default().env_vars().is_empty());
    assert!(Mongo::default().volumes().is_empty());
    assert!(ParityEthereum::default().env_vars().is_empty());
    assert!(ParityEthereum::default().volumes().is_empty());
}

#[test]
fn with_args_replaces_generic_image_arguments() {
    let image = GenericImage::new("redis:5.0")
        .with_args(vec!["--appendonly".to_string()])
        .with_args(vec!["--port".to_string(), "6380".to_string()]);
    assert_eq!(image.args(), vec!["--port".to_string(), "6380".to_string()]);
}
