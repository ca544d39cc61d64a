use testcontainers::container::{Command, ContainerAsync, PortError, WaitError};
use testcontainers::fake::FakeDocker;
use testcontainers::generic::GenericImage;
use testcontainers::ports::{Port, PortMapping, Protocol};
use testcontainers::wait::WaitFor;

fn build(
    out: Vec<Vec<u8>>,
    err: Vec<Vec<u8>>,
    ports: Vec<PortMapping>,
    image: GenericImage,
    command: Command,
) -> Result<ContainerAsync<GenericImage, FakeDocker>, (WaitError, FakeDocker)> {
    let fake = FakeDocker::new("abcdef123456".to_string(), out, err, ports);
    ContainerAsync::new("abcdef123456".to_string(), fake, image, command)
}

fn must_build(
    out: Vec<Vec<u8>>,
    err: Vec<Vec<u8>>,
    ports: Vec<PortMapping>,
    image: GenericImage,
    command: Command,
) -> ContainerAsync<GenericImage, FakeDocker> {
    match build(out, err, ports, image, command) {
        Ok(c) => c,
        Err(_) => panic!("construction should have succeeded"),
    }
}

#[test]
fn empty_strategy_returns_without_delay() {
    let image = GenericImage::new("svc");
    let c = must_build(vec![], vec![], vec![], image, Command::Remove);
    assert_eq!(c.id(), "abcdef123456");
    assert!(c.docker_client().sleeps().is_empty());
    assert_eq!(c.docker_client().stop_count(), 0);
    assert_eq!(c.docker_client().rm_count(), 0);
}

#[test]
fn none_only_strategy_returns_without_delay() {
    let image = GenericImage::new("svc")
        .with_wait_for(WaitFor::Nothing)
        .with_wait_for(WaitFor::Nothing);
    let c = must_build(vec![], vec![], vec![], image, Command::Remove);
    assert!(c.docker_client().sleeps().is_empty());
}

#[test]
fn fixed_delay_is_slept_exactly() {
    let image = GenericImage::new("svc").with_wait_for(WaitFor::millis(500));
    let c = must_build(vec![], vec![], vec![], image, Command::Remove);
    assert_eq!(c.docker_client().sleeps().as_slice(), &[500]);
}

#[test]
fn delays_accumulate_in_order() {
    let image = GenericImage::new("svc")
        .with_wait_for(WaitFor::millis(200))
        .with_wait_for(WaitFor::Nothing)
        .with_wait_for(WaitFor::millis(300));
    let c = must_build(vec![], vec![], vec![], image, Command::Remove);
    assert_eq!(c.docker_client().sleeps().as_slice(), &[200, 300]);
}

#[test]
fn log_message_resolves_after_second_line() {
    let image = GenericImage::new("svc").with_wait_for(WaitFor::message_on_stdout("ready"));
    let out = vec![b"initializing\n".to_vec(), b"ready\n".to_vec()];
    let c = must_build(out, vec![], vec![], image, Command::Remove);
    assert_eq!(c.id(), "abcdef123456");
}

#[test]
fn log_message_found_across_chunk_boundary() {
    let image = GenericImage::new("svc").with_wait_for(WaitFor::message_on_stdout("ready"));
    let out = vec![b"initializing\nrea".to_vec(), b"dy\n".to_vec()];
    must_build(out, vec![], vec![], image, Command::Remove);
}

#[test]
fn closed_stream_is_distinct_ready_failure() {
    let image = GenericImage::new("svc").with_wait_for(WaitFor::message_on_stdout("ready"));
    let out = vec![b"initializing\n".to_vec()];
    match build(out, vec![], vec![], image, Command::Remove) {
        Ok(_) => panic!("construction should have failed"),
        Err((e, fake)) => {
            let WaitError::EndOfStream { id, condition_index, .. } = e;
            assert_eq!(id, "abcdef123456");
            assert_eq!(condition_index, 0);
            assert_eq!(fake.stop_count(), 0);
            assert_eq!(fake.rm_count(), 0);
        },
    }
}

#[test]
fn stderr_condition_reads_stderr() {
    let image =
        GenericImage::new("svc").with_wait_for(WaitFor::message_on_stderr("Public node URL:"));
    let err = vec![b"booting\n".to_vec(), b"Public node URL: enode://x\n".to_vec()];
    must_build(vec![], err, vec![], image, Command::Remove);
}

#[test]
fn second_condition_failure_reports_its_index() {
    let image = GenericImage::new("svc")
        .with_wait_for(WaitFor::message_on_stdout("starting"))
        .with_wait_for(WaitFor::message_on_stdout("ready"));
    let out = vec![b"starting up\n".to_vec()];
    match build(out, vec![], vec![], image, Command::Remove) {
        Ok(_) => panic!("construction should have failed"),
        Err((e, _)) => {
            let WaitError::EndOfStream { condition_index, .. } = e;
            assert_eq!(condition_index, 1);
        },
    }
}

#[test]
fn get_host_port_resolves_declared_mapping() {
    let image = GenericImage::new("svc");
    let mapping = PortMapping { internal: 27017, protocol: Protocol::Tcp, host: 49153 };
    let c = must_build(vec![], vec![], vec![mapping], image, Command::Remove);
    assert_eq!(c.get_host_port(27017), Ok(49153));
}

#[test]
fn get_host_port_fails_distinctly_for_undeclared_port() {
    let image = GenericImage::new("svc");
    let mapping = PortMapping { internal: 27017, protocol: Protocol::Tcp, host: 49153 };
    let c = must_build(vec![], vec![], vec![mapping], image, Command::Remove);
    assert_eq!(
        c.get_host_port(9999),
        Err(PortError::NotMapped { internal: 9999, protocol: Protocol::Tcp })
    );
}

#[test]
fn dispose_issues_one_stop_remove_pair() {
    let image = GenericImage::new("svc");
    let mut c = must_build(vec![], vec![], vec![], image, Command::Remove);
    c.dispose();
    assert_eq!(c.docker_client().stop_count(), 1);
    assert_eq!(c.docker_client().rm_count(), 1);
}

#[test]
fn second_dispose_is_a_no_op() {
    let image = GenericImage::new("svc");
    let mut c = must_build(vec![], vec![], vec![], image, Command::Remove);
    c.dispose();
    c.dispose();
    assert_eq!(c.docker_client().stop_count(), 1);
    assert_eq!(c.docker_client().rm_count(), 1);
}

#[test]
fn keep_policy_disposal_issues_no_calls() {
    let image = GenericImage::new("svc");
    let mut c = must_build(vec![], vec![], vec![], image, Command::Keep);
    c.dispose();
    c.dispose();
    assert_eq!(c.docker_client().stop_count(), 0);
    assert_eq!(c.docker_client().rm_count(), 0);
}

#[test]
fn start_stop_delegate_to_client() {
    let image = GenericImage::new("svc");
    let mut c = must_build(vec![], vec![], vec![], image, Command::Keep);
    c.start();
    c.stop();
    assert_eq!(c.docker_client().start_count(), 1);
    assert_eq!(c.docker_client().stop_count(), 1);
}

#[test]
fn rm_consumes_handle_and_removes() {
    let image = GenericImage::new("svc");
    let c = must_build(vec![], vec![], vec![], image, Command::Keep);
    let client = c.rm();
    assert_eq!(client.rm_count(), 1);
    assert_eq!(client.stop_count(), 0);
}

#[test]
fn independent_handles_do_not_interfere() {
    let ids = ["aaa111", "bbb222", "ccc333"];
    let hosts: [u16; 3] = [49153, 49154, 49155];
    let mut handles = Vec::new();
    for k in 0..3 {
        let image = GenericImage::new("svc").with_wait_for(WaitFor::message_on_stdout("up"));
        let fake = FakeDocker::new(
            ids[k].to_string(),
            vec![b"service up\n".to_vec()],
            vec![],
            vec![PortMapping { internal: 8080, protocol: Protocol::Tcp, host: hosts[k] }],
        );
        let c = match ContainerAsync::new(ids[k].to_string(), fake, image, Command::Remove) {
            Ok(c) => c,
            Err(_) => panic!("construction should have succeeded"),
        };
        handles.push(c);
    }
    for k in 0..3 {
        assert_eq!(handles[k].id(), ids[k]);
        assert_eq!(handles[k].get_host_port(8080), Ok(hosts[k]));
    }
    for mut c in handles {
        c.dispose();
        assert_eq!(c.docker_client().stop_count(), 1);
        assert_eq!(c.docker_client().rm_count(), 1);
    }
}

#[test]
fn declared_port_binding_is_carried() {
    let p = Port::new(49153, 27017);
    assert_eq!(p, Port { local: 49153, internal: 27017 });
}
