use microclaw::sandbox::{
    refusal, AppleContainer, AppleContainerRunner, AuditEvent, AuditLog, CommandResult,
    ContainerBackend, DockerBackend, DockerRunner, DockerRunnerExec, EgressPolicy, Executor, Mount,
    MountPolicy, PolicyError, RunSpec, SecretBroker,
};

struct StubExecutor;

impl Executor for StubExecutor {
    fn run(&self, args: &[String]) -> Result<CommandResult, String> {
        Ok(CommandResult {
            status: 0,
            stdout: args.join(" "),
            stderr: String::new(),
        })
    }
}

struct ProcessExecutor;

impl Executor for ProcessExecutor {
    fn run(&self, _args: &[String]) -> Result<CommandResult, String> {
        Err("no process is started here".to_string())
    }
}

fn strings(words: &[&str]) -> Vec<String> {
    words.iter().map(|word| word.to_string()).collect()
}

#[test]
fn apple_backend_reports_name() {
    let backend = AppleContainer::new();
    assert_eq!(backend.name(), "apple");
}

#[test]
fn docker_backend_reports_name() {
    let backend = DockerBackend::new();
    assert_eq!(backend.name(), "docker");
}

#[test]
fn builds_docker_command() {
    let mut spec = RunSpec::new("microclaw-agent:latest", vec!["/bin/sh".into()]);
    spec.add_mount(Mount::read_only("/host/data", "/workspace/data"));
    spec.add_env("TOKEN", "redacted");

    let args = DockerRunner::build_command(&spec);
    assert_eq!(args[0], "docker");
    assert!(args.contains(&"run".to_string()));
    assert!(args.contains(&"--rm".to_string()));
    assert!(args
        .iter()
        .any(|arg| arg.contains("/host/data:/workspace/data:ro")));
    assert!(args.iter().any(|arg| arg == "TOKEN=redacted"));
    assert!(args.iter().any(|arg| arg == "microclaw-agent:latest"));
}

#[test]
fn runner_executes_via_executor() {
    let spec = RunSpec::new("microclaw-agent:latest", vec!["/bin/sh".into()]);
    let runner = AppleContainerRunner::new(StubExecutor);
    let result = runner.run(&spec).unwrap();
    assert!(result.stdout.contains("container"));
    assert!(result.stdout.contains("microclaw-agent:latest"));
}

#[test]
fn docker_disables_network_when_no_egress() {
    let spec = RunSpec::new("microclaw-agent:latest", vec!["/bin/sh".into()]);
    let args = DockerRunner::build_command(&spec);
    assert!(args.iter().any(|arg| arg == "--network=none"));
}

#[test]
fn docker_allows_network_when_egress_present() {
    let mut spec = RunSpec::new("microclaw-agent:latest", vec!["/bin/sh".into()]);
    spec.add_egress_host("api.example.com");
    let args = DockerRunner::build_command(&spec);
    assert!(!args.iter().any(|arg| arg == "--network=none"));
}

#[test]
fn apple_container_disables_network_when_no_egress() {
    let spec = RunSpec::new("microclaw-agent:latest", vec!["/bin/sh".into()]);
    let args = AppleContainerRunner::<ProcessExecutor>::build_command(&spec);
    assert!(args.iter().any(|arg| arg == "--network=none"));
}

#[test]
fn apple_container_allows_network_when_egress_present() {
    let mut spec = RunSpec::new("microclaw-agent:latest", vec!["/bin/sh".into()]);
    spec.add_egress_host("api.example.com");
    let args = AppleContainerRunner::<ProcessExecutor>::build_command(&spec);
    assert!(!args.iter().any(|arg| arg == "--network=none"));
}

#[test]
fn network_disabled_default_is_true() {
    let spec = RunSpec::new("microclaw-agent:latest", vec!["/bin/sh".into()]);
    assert!(spec.network_disabled());
}

#[test]
fn network_disabled_false_when_egress_present() {
    let mut spec = RunSpec::new("microclaw-agent:latest", vec!["/bin/sh".into()]);
    spec.add_egress_host("api.example.com");
    assert!(!spec.network_disabled());
}

#[test]
fn apple_runner_exec_uses_network_default() {
    let executor = ProcessExecutor;
    let runner = AppleContainerRunner::new(executor);
    let spec = RunSpec::new("microclaw-agent:latest", vec!["/bin/sh".into()]);
    let args = AppleContainerRunner::<ProcessExecutor>::build_command(&spec);
    assert!(args.contains(&"--network=none".to_string()));
    let _ = runner; // compile check
}

#[test]
fn runner_blocks_disallowed_mounts() {
    let mut spec = RunSpec::new("microclaw-agent:latest", vec!["/bin/sh".into()]);
    spec.add_mount(Mount::read_only("/blocked/path", "/workspace/data"));
    let mount_policy = MountPolicy::new(vec!["/allowed".to_string()]);
    let egress_policy = EgressPolicy::new(vec![]);
    let runner = AppleContainerRunner::new(StubExecutor);
    let result = runner.run_with_policy(&spec, &mount_policy, &egress_policy);
    assert!(result.is_err());
}

#[test]
fn runner_blocks_disallowed_egress() {
    let mut spec = RunSpec::new("microclaw-agent:latest", vec!["/bin/sh".into()]);
    spec.add_egress_host("api.example.com");
    let mount_policy = MountPolicy::new(vec![]);
    let egress_policy = EgressPolicy::new(vec![]);
    let runner = AppleContainerRunner::new(StubExecutor);
    let result = runner.run_with_policy(&spec, &mount_policy, &egress_policy);
    assert!(result.is_err());
}

#[test]
fn broker_denies_unlisted_secret_and_logs() {
    let mut secrets = Vec::new();
    secrets.push(("API_KEY".to_string(), "secret".to_string()));
    let mut broker = SecretBroker::new(vec!["API_KEY".to_string()], secrets);

    assert_eq!(broker.request("TOKEN"), None);
    let events = broker.audit().entries();
    assert_eq!(events.len(), 1);
    assert_eq!(
        events[0],
        AuditEvent {
            action: "secret.request".to_string(),
            target: "TOKEN".to_string(),
            allowed: false,
        }
    );
}

#[test]
fn broker_returns_secret_and_logs() {
    let mut secrets = Vec::new();
    secrets.push(("API_KEY".to_string(), "secret".to_string()));
    let mut broker = SecretBroker::new(vec!["API_KEY".to_string()], secrets);

    assert_eq!(broker.request("API_KEY"), Some("secret".to_string()));
    let events = broker.audit().entries();
    assert_eq!(events.len(), 1);
    assert_eq!(
        events[0],
        AuditEvent {
            action: "secret.request".to_string(),
            target: "API_KEY".to_string(),
            allowed: true,
        }
    );
}

fn full_spec() -> RunSpec {
    let mut spec = RunSpec::new("img:1", strings(&["/bin/sh", "-c", "echo hi"]));
    spec.add_mount(Mount::read_only("/host/a", "/a"));
    spec.add_mount(Mount {
        source: "/host/b".to_string(),
        target: "/b".to_string(),
        read_only: false,
    });
    spec.add_env("K1", "v1");
    spec.add_env("K2", "");
    spec
}

#[test]
fn docker_command_has_every_part_in_order() {
    let spec = full_spec();
    assert_eq!(
        DockerRunner::build_command(&spec),
        strings(&[
            "docker",
            "run",
            "--rm",
            "--network=none",
            "-v",
            "/host/a:/a:ro",
            "-v",
            "/host/b:/b",
            "-e",
            "K1=v1",
            "-e",
            "K2=",
            "img:1",
            "/bin/sh",
            "-c",
            "echo hi",
        ])
    );
}

#[test]
fn apple_command_has_every_part_in_order() {
    let mut spec = full_spec();
    spec.add_egress_host("api.example.com");
    assert_eq!(
        AppleContainerRunner::<StubExecutor>::build_command(&spec),
        strings(&[
            "container",
            "run",
            "--rm",
            "--mount",
            "type=bind,src=/host/a,dst=/a,readonly",
            "--mount",
            "type=bind,src=/host/b,dst=/b",
            "--env",
            "K1=v1",
            "--env",
            "K2=",
            "img:1",
            "/bin/sh",
            "-c",
            "echo hi",
        ])
    );
}

#[test]
fn bare_spec_builds_the_shortest_commands() {
    let spec = RunSpec::new("img", vec![]);
    assert_eq!(
        DockerRunner::build_command(&spec),
        strings(&["docker", "run", "--rm", "--network=none", "img"])
    );
    assert_eq!(
        AppleContainerRunner::<StubExecutor>::build_command(&spec),
        strings(&["container", "run", "--rm", "--network=none", "img"])
    );
}

#[test]
fn network_switch_can_be_spelled_by_a_variable() {
    // with egress the switch itself is gone, but a variable may read like it
    let mut spec = RunSpec::new("img", vec![]);
    spec.add_egress_host("api.example.com");
    spec.add_env("--network", "none");
    let args = DockerRunner::build_command(&spec);
    assert_eq!(args, strings(&["docker", "run", "--rm", "-e", "--network=none", "img"]));
}

#[test]
fn mount_arguments_are_rendered_both_ways() {
    let ro = Mount::read_only("/src", "/dst");
    assert!(ro.read_only);
    assert_eq!(ro.to_docker_arg(), "/src:/dst:ro");
    assert_eq!(ro.to_apple_arg(), "type=bind,src=/src,dst=/dst,readonly");
    let rw = Mount { source: "s".to_string(), target: "t".to_string(), read_only: false };
    assert_eq!(rw.to_docker_arg(), "s:t");
    assert_eq!(rw.to_apple_arg(), "type=bind,src=s,dst=t");
}

#[test]
fn mount_policy_reports_the_first_offender() {
    let policy = MountPolicy::new(strings(&["/allowed", "/data/"]));
    let ok = [Mount::read_only("/allowed/x", "/x"), Mount::read_only("/data/y", "/y")];
    assert!(policy.validate(&ok).is_ok());
    assert!(policy.validate(&[]).is_ok());
    // a prefix is a prefix of characters, not of path segments
    assert!(policy.validate(&[Mount::read_only("/allowed-not", "/x")]).is_ok());
    let bad = [
        Mount::read_only("/allowed/x", "/x"),
        Mount::read_only("/data", "/first"),
        Mount::read_only("/etc", "/second"),
    ];
    match policy.validate(&bad) {
        Err(PolicyError::MountNotAllowed(source)) => assert_eq!(source, "/data"),
        other => panic!("policy answered: {:?}", other),
    }
    // without prefixes nothing may be mounted; the empty prefix opens everything
    let none = MountPolicy::new(vec![]);
    assert!(none.validate(&[Mount::read_only("/x", "/x")]).is_err());
    assert!(none.validate(&[]).is_ok());
    let all = MountPolicy::new(strings(&[""]));
    assert!(all.validate(&[Mount::read_only("/x", "/x")]).is_ok());
}

#[test]
fn egress_policy_names_hosts_exactly() {
    let policy = EgressPolicy::new(strings(&["api.example.com", "b.example.com"]));
    assert!(policy.allows("api.example.com"));
    assert!(policy.allows("b.example.com"));
    assert!(!policy.allows("example.com"));
    assert!(!policy.allows("api.example.com."));
    assert!(!policy.allows("API.example.com"));
    assert!(!policy.allows(""));
}

#[test]
fn spec_validation_checks_mounts_before_hosts() {
    let mounts = MountPolicy::new(strings(&["/ok"]));
    let egress = EgressPolicy::new(strings(&["good.example"]));
    let mut spec = RunSpec::new("img", vec![]);
    assert!(spec.validate(&mounts, &egress).is_ok());
    spec.add_egress_host("good.example");
    spec.add_egress_host("bad.example");
    spec.add_egress_host("worse.example");
    match spec.validate(&mounts, &egress) {
        Err(PolicyError::EgressNotAllowed(host)) => assert_eq!(host, "bad.example"),
        other => panic!("policy answered: {:?}", other),
    }
    spec.add_mount(Mount::read_only("/nope", "/n"));
    match spec.validate(&mounts, &egress) {
        Err(PolicyError::MountNotAllowed(source)) => assert_eq!(source, "/nope"),
        other => panic!("policy answered: {:?}", other),
    }
}

#[test]
fn refused_run_is_reported_and_never_executed() {
    struct Exploding;
    impl Executor for Exploding {
        fn run(&self, _args: &[String]) -> Result<CommandResult, String> {
            panic!("a refused spec reached the executor");
        }
    }
    let mounts = MountPolicy::new(strings(&["/allowed"]));
    let egress = EgressPolicy::new(vec![]);
    let mut spec = RunSpec::new("img", vec![]);
    spec.add_mount(Mount::read_only("/blocked/\"path\"", "/w"));
    let apple = AppleContainerRunner::new(Exploding);
    assert_eq!(
        apple.run_with_policy(&spec, &mounts, &egress).unwrap_err(),
        "policy violation: MountNotAllowed(\"/blocked/\\\"path\\\"\")"
    );
    let docker = DockerRunnerExec::new(Exploding);
    assert_eq!(
        docker.run_with_policy(&spec, &mounts, &egress).unwrap_err(),
        "policy violation: MountNotAllowed(\"/blocked/\\\"path\\\"\")"
    );
    let mut spec = RunSpec::new("img", vec![]);
    spec.add_egress_host("api.example.com");
    assert_eq!(
        refusal(&spec, &mounts, &egress).as_deref(),
        Some("policy violation: EgressNotAllowed(\"api.example.com\")")
    );
    assert_eq!(
        PolicyError::EgressNotAllowed("h".to_string()).violation_message(),
        "policy violation: EgressNotAllowed(\"h\")"
    );
    let free = RunSpec::new("img", vec![]);
    assert_eq!(refusal(&free, &mounts, &egress), None);
}

#[test]
fn allowed_run_hands_the_command_line_to_the_executor() {
    let mounts = MountPolicy::new(strings(&["/host"]));
    let egress = EgressPolicy::new(strings(&["api.example.com"]));
    let mut spec = full_spec();
    spec.add_egress_host("api.example.com");
    let docker = DockerRunnerExec::new(StubExecutor);
    let result = docker.run_with_policy(&spec, &mounts, &egress).unwrap();
    assert_eq!(result.status, 0);
    assert_eq!(
        result.stdout,
        "docker run --rm -v /host/a:/a:ro -v /host/b:/b -e K1=v1 -e K2= img:1 /bin/sh -c echo hi"
    );
    let plain = docker.run(&RunSpec::new("img", vec![])).unwrap();
    assert_eq!(plain.stdout, "docker run --rm --network=none img");
    let apple = AppleContainerRunner::new(StubExecutor);
    let result = apple.run_with_policy(&spec, &mounts, &egress).unwrap();
    assert!(result.stdout.starts_with("container run --rm --mount type=bind,src=/host/a"));
    // what the executor reports is passed on as it is
    let failing = AppleContainerRunner::new(ProcessExecutor);
    assert_eq!(
        failing.run(&RunSpec::new("img", vec![])).unwrap_err(),
        "no process is started here"
    );
}

#[test]
fn broker_needs_both_the_allowlist_and_a_stored_value() {
    let secrets = vec![
        ("A".to_string(), "old".to_string()),
        ("B".to_string(), "b".to_string()),
        ("A".to_string(), "new".to_string()),
    ];
    let mut broker = SecretBroker::new(strings(&["A", "C"]), secrets);
    // of two values under one key the later one counts
    assert_eq!(broker.request("A").as_deref(), Some("new"));
    // stored but not listed
    assert_eq!(broker.request("B"), None);
    // listed but not stored
    assert_eq!(broker.request("C"), None);
    assert_eq!(broker.request(""), None);
    let log: Vec<(String, bool)> = broker
        .audit()
        .entries()
        .iter()
        .map(|event| (event.target.clone(), event.allowed))
        .collect();
    assert_eq!(
        log,
        vec![
            ("A".to_string(), true),
            ("B".to_string(), false),
            ("C".to_string(), false),
            ("".to_string(), false)
        ]
    );
    assert!(broker.audit().entries().iter().all(|event| event.action == "secret.request"));
}

#[test]
fn audit_log_only_grows() {
    let mut log = AuditLog::new();
    assert!(log.entries().is_empty());
    for i in 0..3 {
        log.record(AuditEvent {
            action: "x".to_string(),
            target: format!("t{}", i),
            allowed: i % 2 == 0,
        });
        assert_eq!(log.entries().len(), i + 1);
    }
    assert_eq!(log.entries()[0].target, "t0");
    assert_eq!(log.entries()[2].target, "t2");
    assert!(!log.entries()[1].allowed);
}

#[test]
fn run_spec_builders_append() {
    let spec = full_spec();
    assert_eq!(spec.image, "img:1");
    assert_eq!(spec.command, strings(&["/bin/sh", "-c", "echo hi"]));
    assert_eq!(spec.mounts.len(), 2);
    assert_eq!(spec.mounts[1].source, "/host/b");
    assert_eq!(
        spec.env,
        vec![("K1".to_string(), "v1".to_string()), ("K2".to_string(), "".to_string())]
    );
    assert!(spec.egress_hosts.is_empty());
}
