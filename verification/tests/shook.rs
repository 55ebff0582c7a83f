use hmac::{Hmac, KeyInit, Mac};
use toolbox::shook::config::{
    default_config_kioyu, default_config_server, default_cpus, default_memory, validate_ports,
    validate_runners, Config, ConfigDevOp, ConfigKioyu, ConfigServer, ConfigViolation, IResolve,
    RawConfig, RawConfigRunner, RawRunnerConfigInner, RunnerViolation, Vendor,
};
use toolbox::shook::error::{submission_reply, Reply, ShookServerError};
use toolbox::shook::maps::{
    resolve_map, EntryMap, PortMap, ResolveStrategy, RunnerMap, SecretMap, TextMap,
};
use toolbox::shook::signature::verify_signature;
use toolbox::shook::webhook::{
    contains_name, find_runner, github_runner_payload, standing_payloads, validate_event,
    validate_repository, validate_sender, vendor_refusal, vendor_supported, Event, Owner, Repository, RunnerSpec, Sender, WebhookPayload, WorkflowJob,
};

fn s(x: &str) -> String {
    x.to_string()
}

fn text_map(entries: &[(&str, &str)]) -> TextMap {
    let mut m = TextMap::empty();
    for (k, v) in entries {
        m.insert(s(k), s(v));
    }
    m
}

fn port_map(entries: &[(u16, u16)]) -> PortMap {
    let mut m = PortMap::empty();
    for (k, v) in entries {
        m.insert(*k, *v);
    }
    m
}

fn sorted_texts(m: &TextMap) -> Vec<(String, String)> {
    let mut e = m.entries();
    e.sort();
    e
}

fn sorted_ports(m: &PortMap) -> Vec<(u16, u16)> {
    let mut e = m.entries();
    e.sort();
    e
}

fn devop(repos: &[&str], users: &[&str]) -> ConfigDevOp {
    ConfigDevOp {
        vendor: Vendor::Github,
        token: s("tok"),
        webhook_secret: s("secret"),
        allowed_repositories: repos.iter().map(|r| s(r)).collect(),
        allowed_users: users.iter().map(|u| s(u)).collect(),
    }
}

fn inner(image: &str, count: usize, cpus: u8, memory: u32) -> RawRunnerConfigInner {
    RawRunnerConfigInner {
        image: s(image),
        count,
        cpus,
        memory,
        volumes: None,
        volumes_strategy: ResolveStrategy::default_strategy(),
        ports: None,
        ports_strategy: ResolveStrategy::default_strategy(),
        envs: None,
        envs_strategy: ResolveStrategy::default_strategy(),
        secrets: None,
        secrets_strategy: ResolveStrategy::default_strategy(),
    }
}

fn runner_map(runners: Vec<(String, RawRunnerConfigInner)>) -> RunnerMap {
    let mut m = RunnerMap::new();
    for (name, runner) in runners {
        m.insert(name, runner);
    }
    m
}

fn raw_runners(runners: Vec<(String, RawRunnerConfigInner)>) -> RawConfigRunner {
    let runners = runner_map(runners);
    RawConfigRunner {
        cpus: None,
        memory: None,
        volumes: None,
        ports: None,
        envs: None,
        secrets: None,
        runners,
    }
}

fn raw_config(runners: Vec<(String, RawRunnerConfigInner)>) -> RawConfig {
    RawConfig {
        server: default_config_server(),
        devop: devop(&["repo"], &["alice"]),
        kioyu: default_config_kioyu(),
        runners: raw_runners(runners),
    }
}

#[test]
fn defaults() {
    assert_eq!(default_config_kioyu(), ConfigKioyu { memory: 1024, max_retries: 1 });
    assert_eq!(default_config_server(), ConfigServer { port: 8787 });
    assert_eq!(default_cpus(), 1);
    assert_eq!(default_memory(), 512);
    assert_eq!(ResolveStrategy::default_strategy(), ResolveStrategy::Merge);
}

#[test]
fn signature_matches_known_hmac() {
    let body = "The quick brown fox jumps over the lazy dog";
    let header = "sha256=f7bc83f430538424b13298e6aa6fb143ef4d59a14946175997479dbc2d1a3cd8";
    assert_eq!(verify_signature(body, "key", header), Ok(()));
}

#[test]
fn signature_matches_github_example() {
    let header = "sha256=757107ea0eb2509fc211221cce984b8a37570b6d7586c22c46f4379c8b043e17";
    assert_eq!(verify_signature("Hello, World!", "It's a Secret to Everybody", header), Ok(()));
}

#[test]
fn signature_mismatch_is_refused() {
    let body = "The quick brown fox jumps over the lazy dog";
    let wrong = "sha256=f7bc83f430538424b13298e6aa6fb143ef4d59a14946175997479dbc2d1a3cd9";
    assert_eq!(verify_signature(body, "key", wrong), Err(ShookServerError::RequestSignaturesMismatch));
    assert_eq!(verify_signature(body, "key", ""), Err(ShookServerError::RequestSignaturesMismatch));
    let upper = "sha256=F7BC83F430538424B13298E6AA6FB143EF4D59A14946175997479DBC2D1A3CD8";
    assert_eq!(verify_signature(body, "key", upper), Err(ShookServerError::RequestSignaturesMismatch));
    let bare = "f7bc83f430538424b13298e6aa6fb143ef4d59a14946175997479dbc2d1a3cd8";
    assert_eq!(verify_signature(body, "key", bare), Err(ShookServerError::RequestSignaturesMismatch));
    assert_eq!(verify_signature(body, "other", body), Err(ShookServerError::RequestSignaturesMismatch));
}

#[test]
fn status_codes() {
    assert_eq!(ShookServerError::Microsandbox(s("down")).status_code(), 500);
    assert_eq!(ShookServerError::RequestSignaturesMismatch.status_code(), 400);
    assert_eq!(ShookServerError::Validator(s("x")).status_code(), 400);
    assert_eq!(ShookServerError::MissingHeader(s("x")).status_code(), 400);
}

#[test]
fn resolve_map_strategies() {
    let global = || Some(text_map(&[("A", "1"), ("B", "2")]));
    let local = || Some(text_map(&[("B", "3"), ("C", "4")]));
    let merged = resolve_map(global(), local(), ResolveStrategy::Merge);
    assert_eq!(sorted_texts(&merged), vec![(s("A"), s("1")), (s("B"), s("3")), (s("C"), s("4"))]);
    let replaced = resolve_map(global(), local(), ResolveStrategy::Replace);
    assert_eq!(sorted_texts(&replaced), vec![(s("B"), s("3")), (s("C"), s("4"))]);
    let ignored = resolve_map(global(), local(), ResolveStrategy::Ignore);
    assert_eq!(sorted_texts(&ignored), vec![(s("A"), s("1")), (s("B"), s("2"))]);
    let none = resolve_map::<TextMap>(None, None, ResolveStrategy::Merge);
    assert!(none.entries().is_empty());
    let only_local = resolve_map(None, local(), ResolveStrategy::Ignore);
    assert!(only_local.entries().is_empty());
}

#[test]
fn maps_insert_and_merge() {
    let mut p = port_map(&[(80, 8080)]);
    p.insert(80, 9090);
    p.insert(443, 8443);
    assert_eq!(sorted_ports(&p), vec![(80, 9090), (443, 8443)]);
    let mut sec = SecretMap::empty();
    sec.insert(s("TOKEN"), s("abc"), s("api.example.com"));
    let mut other = SecretMap::empty();
    other.insert(s("TOKEN"), s("xyz"), s("example.org"));
    sec.merge_from(&other);
    assert_eq!(sec.entries(), vec![(s("TOKEN"), (s("xyz"), s("example.org")))]);
}

#[test]
fn port_validation() {
    assert_eq!(validate_ports(&port_map(&[(80, 8080), (22, 2222)])), Ok(()));
    assert_eq!(
        validate_ports(&port_map(&[(80, 0)])),
        Err(RunnerViolation::InvalidPort { local: 80, remote: 0 })
    );
    assert_eq!(
        validate_ports(&port_map(&[(0, 22)])),
        Err(RunnerViolation::InvalidPort { local: 0, remote: 22 })
    );
}

#[test]
fn runner_validation() {
    assert_eq!(inner("img", 1, 1, 1).validate(), Ok(()));
    assert_eq!(inner("img", 1, 0, 512).validate(), Err(RunnerViolation::Cpus));
    assert_eq!(inner("img", 1, 2, 0).validate(), Err(RunnerViolation::Memory));
    let mut r = inner("img", 1, 2, 512);
    r.ports = Some(port_map(&[(0, 1)]));
    assert_eq!(r.validate(), Err(RunnerViolation::InvalidPort { local: 0, remote: 1 }));
}

#[test]
fn runners_validation() {
    assert_eq!(validate_runners(&RunnerMap::new()), Err(ConfigViolation::NoRunner));
    let rs = runner_map(vec![(s("good"), inner("a", 1, 1, 256)), (s("bad"), inner("b", 1, 0, 256))]);
    assert_eq!(
        validate_runners(&rs),
        Err(ConfigViolation::InvalidRunner { name: s("bad"), violation: RunnerViolation::Cpus })
    );
    assert_eq!(validate_runners(&runner_map(vec![(s("good"), inner("a", 1, 1, 256))])), Ok(()));
}

#[test]
fn runner_map_keeps_one_runner_per_name() {
    let rs = runner_map(vec![
        (s("linux"), inner("a", 1, 1, 256)),
        (s("mac"), inner("b", 1, 1, 256)),
        (s("linux"), inner("c", 1, 2, 512)),
    ]);
    let mut names: Vec<(String, String)> =
        rs.iter().into_iter().map(|(n, r)| (n.clone(), r.image.clone())).collect();
    names.sort();
    assert_eq!(names, vec![(s("linux"), s("c")), (s("mac"), s("b"))]);
}

#[test]
fn shared_runner_settings_validation() {
    let mut raw = raw_runners(vec![(s("r"), inner("a", 1, 1, 256))]);
    assert_eq!(raw.validate(), Ok(()));
    raw.cpus = Some(0);
    assert_eq!(raw.validate(), Err(ConfigViolation::Runners(RunnerViolation::Cpus)));
    raw.cpus = Some(4);
    raw.memory = Some(0);
    assert_eq!(raw.validate(), Err(ConfigViolation::Runners(RunnerViolation::Memory)));
    raw.memory = None;
    raw.ports = Some(port_map(&[(5, 0)]));
    assert_eq!(
        raw.validate(),
        Err(ConfigViolation::Runners(RunnerViolation::InvalidPort { local: 5, remote: 0 }))
    );
}

#[test]
fn config_validation() {
    assert_eq!(raw_config(vec![(s("r"), inner("a", 3, 1, 256))]).validate(), Ok(()));
    let mut c = raw_config(vec![(s("r"), inner("a", 1, 1, 256))]);
    c.server.port = 0;
    assert_eq!(c.validate(), Err(ConfigViolation::ServerPort));
    let mut c = raw_config(vec![(s("r"), inner("a", 1, 1, 256))]);
    c.devop.allowed_repositories.clear();
    assert_eq!(c.validate(), Err(ConfigViolation::NoAllowedRepository));
    let mut c = raw_config(vec![(s("r"), inner("a", 1, 1, 256))]);
    c.devop.allowed_users.clear();
    assert_eq!(c.validate(), Err(ConfigViolation::NoAllowedUser));
    let c = raw_config(Vec::new());
    assert_eq!(c.validate(), Err(ConfigViolation::NoRunner));
}

#[test]
fn config_validation_reports_the_first_broken_rule() {
    let mut c = raw_config(vec![(s("r"), inner("a", 1, 0, 256))]);
    c.server.port = 0;
    c.devop.allowed_repositories.clear();
    c.devop.allowed_users.clear();
    assert_eq!(c.validate(), Err(ConfigViolation::ServerPort));
    c.server.port = 8080;
    assert_eq!(c.validate(), Err(ConfigViolation::NoAllowedRepository));
    c.devop = devop(&["repo"], &[]);
    assert_eq!(c.validate(), Err(ConfigViolation::NoAllowedUser));
    c.devop = devop(&["repo"], &["alice"]);
    assert_eq!(
        c.validate(),
        Err(ConfigViolation::InvalidRunner { name: s("r"), violation: RunnerViolation::Cpus })
    );
    let mut both = raw_runners(vec![(s("r"), inner("a", 1, 0, 0))]);
    both.memory = Some(0);
    assert_eq!(both.validate(), Err(ConfigViolation::Runners(RunnerViolation::Memory)));
    assert_eq!(inner("a", 1, 0, 0).validate(), Err(RunnerViolation::Cpus));
}

#[test]
fn multi_instance_runner_needs_single_user_and_repo() {
    let mut c = raw_config(vec![(s("r"), inner("a", 2, 1, 256))]);
    c.devop = devop(&["repo"], &["alice", "bob"]);
    assert_eq!(c.validate_config(), Err(ConfigViolation::TooManyUsers));
    assert_eq!(c.validate(), Err(ConfigViolation::TooManyUsers));
    c.devop = devop(&["repo", "other"], &["alice"]);
    assert_eq!(c.validate(), Err(ConfigViolation::TooManyRepositories));
    let mut single = raw_config(vec![(s("r"), inner("a", 1, 1, 256))]);
    single.devop = devop(&["repo", "other"], &["alice", "bob"]);
    assert_eq!(single.validate(), Ok(()));
}

#[test]
fn resolve_runners_combines_maps() {
    let mut runner = inner("ubuntu", 1, 2, 2048);
    runner.envs = Some(text_map(&[("MODE", "ci")]));
    runner.volumes = Some(text_map(&[("/data", "/mnt")]));
    runner.volumes_strategy = ResolveStrategy::Replace;
    runner.ports_strategy = ResolveStrategy::Ignore;
    let mut raw = raw_runners(vec![(s("big"), runner), (s("small"), inner("alpine", 1, 1, 128))]);
    raw.envs = Some(text_map(&[("MODE", "default"), ("LANG", "C")]));
    raw.volumes = Some(text_map(&[("/cache", "/c")]));
    raw.ports = Some(port_map(&[(80, 8080)]));
    let mut config = raw_config(Vec::new());
    config.runners = raw;
    config.kioyu.memory = 1024;
    let resolved: Config = config.resolve();
    assert_eq!(resolved.kioyu.memory, 2048);
    assert_eq!(resolved.kioyu.max_retries, 1);
    assert_eq!(resolved.runners.len(), 2);
    let big = find_runner(&resolved.runners, &s("big")).unwrap();
    assert_eq!(big.name, "big");
    assert_eq!(big.image, "ubuntu");
    assert_eq!(big.cpus, 2);
    assert_eq!(sorted_texts(&big.envs), vec![(s("LANG"), s("C")), (s("MODE"), s("ci"))]);
    assert_eq!(sorted_texts(&big.volumes), vec![(s("/data"), s("/mnt"))]);
    assert_eq!(sorted_ports(&big.ports), vec![(80, 8080)]);
    let small = find_runner(&resolved.runners, &s("small")).unwrap();
    assert_eq!(small.name, "small");
    assert_eq!(sorted_texts(&small.envs), vec![(s("LANG"), s("C")), (s("MODE"), s("default"))]);
    assert_eq!(sorted_texts(&small.volumes), vec![(s("/cache"), s("/c"))]);
}

#[test]
fn dispatcher_memory_kept_when_larger() {
    let mut config = raw_config(vec![(s("r"), inner("a", 1, 1, 256))]);
    config.kioyu.memory = 4096;
    let resolved = config.resolve();
    assert_eq!(resolved.kioyu.memory, 4096);
}

fn payload(action: Event, sender: &str, labels: &[&str]) -> WebhookPayload {
    WebhookPayload {
        action,
        repository: Repository { name: s("repo"), owner: Owner { login: s("acme") } },
        sender: Sender { login: s(sender) },
        workflow_job: WorkflowJob {
            workflow_name: s("CI"),
            name: s("build"),
            id: 4217,
            labels: labels.iter().map(|l| s(l)).collect(),
        },
    }
}

fn config_with_runner() -> Config {
    let mut runner = inner("ubuntu", 1, 2, 2048);
    runner.envs = Some(text_map(&[("MODE", "ci")]));
    raw_config(vec![(s("linux"), runner)]).resolve()
}

#[test]
fn events_and_names() {
    assert_eq!(validate_event(&Event::Queued), Ok(()));
    assert!(matches!(validate_event(&Event::Completed), Err(ShookServerError::Validator(_))));
    let names = vec![s("a"), s("b")];
    assert!(contains_name(&names, &s("b")));
    assert!(!contains_name(&names, &s("c")));
    assert!(vendor_supported(Vendor::Github));
    assert!(!vendor_supported(Vendor::Gitlab));
}

#[test]
fn sender_and_repository_checks() {
    let d = devop(&["repo"], &["alice"]);
    assert_eq!(validate_sender(&Sender { login: s("alice") }, &d), Ok(()));
    assert!(matches!(validate_sender(&Sender { login: s("eve") }, &d), Err(ShookServerError::Validator(_))));
    assert_eq!(validate_repository(&s("repo"), &d), Ok(()));
    assert!(matches!(validate_repository(&s("nope"), &d), Err(ShookServerError::Validator(_))));
    let config = config_with_runner();
    let spec = RunnerSpec { owner: s("acme"), repo: s("repo"), job: s("build"), id: 1, runner: s("linux") };
    assert_eq!(spec.validate(&config), Ok(()));
    let spec = RunnerSpec { repo: s("other"), ..spec };
    assert!(spec.validate(&config).is_err());
}

#[test]
fn runner_payload_for_valid_webhook() {
    let config = config_with_runner();
    let p = payload(Event::Queued, "alice", &["self-hosted", "linux"]);
    assert_eq!(p.validate(&config), Ok(()));
    let r = p.runner_payload(&config).ok().unwrap();
    assert_eq!(r.sandbox_name, "acme-repo-build-4217");
    assert_eq!(r.image, "ubuntu");
    assert_eq!(r.cpus, 2);
    assert_eq!(r.memory, 2048);
    assert_eq!(sorted_texts(&r.envs), vec![(s("MODE"), s("ci"))]);
    assert_eq!(r.owner, "acme");
    assert_eq!(r.repo, "repo");
    assert_eq!(r.token, "tok");
}

#[test]
fn runner_payload_refusals() {
    let config = config_with_runner();
    let p = payload(Event::Completed, "alice", &["self-hosted", "linux"]);
    assert!(matches!(
        p.runner_payload(&config),
        Err(ShookServerError::Validator(m)) if m == "action: Unsupported event"
    ));
    let p = payload(Event::Queued, "eve", &["self-hosted", "linux"]);
    assert!(matches!(
        p.runner_payload(&config),
        Err(ShookServerError::Validator(m)) if m == "sender: Sender not allowed"
    ));
    let p = payload(Event::Waiting, "eve", &["self-hosted", "linux"]);
    assert!(matches!(
        p.runner_payload(&config),
        Err(ShookServerError::Validator(m))
            if m == "action: Unsupported event\nsender: Sender not allowed"
    ));
    let p = payload(Event::Queued, "alice", &["self-hosted"]);
    match p.runner_payload(&config) {
        Err(ShookServerError::Parse(msg)) => assert_eq!(msg, "Runner label not found: [\"self-hosted\"]"),
        _ => panic!("expected Parse"),
    }
    let p = payload(Event::Queued, "alice", &["self-hosted", "windows"]);
    match p.runner_payload(&config) {
        Err(ShookServerError::Parse(msg)) => assert_eq!(msg, "Runner not found: windows"),
        _ => panic!("expected Parse"),
    }
}

#[test]
fn find_runner_takes_first_match() {
    let mut config = raw_config(vec![(s("x"), inner("first", 1, 1, 1))]).resolve();
    let second = raw_config(vec![(s("x"), inner("second", 1, 1, 1))]).resolve();
    config.runners.extend(second.runners);
    assert_eq!(find_runner(&config.runners, &s("x")).map(|r| r.image.as_str()), Some("first"));
    assert!(find_runner(&config.runners, &s("y")).is_none());
}

const SECRET: &str = "test-secret";

fn make_signature(secret: &str, body: &str) -> String {
    let mut mac = <Hmac<sha2::Sha256> as KeyInit>::new_from_slice(secret.as_bytes()).unwrap();
    mac.update(body.as_bytes());
    format!("sha256={}", hex::encode(&mac.finalize().into_bytes()[..]))
}

#[test]
fn verify_signature_valid() {
    for body in ["hello world", r#"{"event":"Queued"}"#, ""] {
        let sig = make_signature(SECRET, body);
        assert!(verify_signature(body, SECRET, &sig).is_ok());
    }
}

#[test]
fn verify_signature_bad_secret() {
    for bad_secret in ["wrong-secret", ""] {
        let body = "some payload";
        let sig = make_signature(bad_secret, body);
        assert!(verify_signature(body, SECRET, &sig).is_err());
    }
}

#[test]
fn verify_signature_missing_header() {
    assert!(verify_signature("body", SECRET, "").is_err());
}

#[test]
fn verify_signature_tampered_body() {
    let sig = make_signature(SECRET, "original body");
    assert_eq!(
        verify_signature("tampered body", SECRET, &sig),
        Err(ShookServerError::RequestSignaturesMismatch)
    );
}

#[test]
fn error_messages_and_replies() {
    assert_eq!(ShookServerError::MissingHeader(s("X-Hub-Signature-256")).message(), "Missing header: X-Hub-Signature-256");
    assert_eq!(ShookServerError::RequestSignaturesMismatch.message(), "Request signatures didn't match!");
    assert_eq!(ShookServerError::Parse(s("Runner not found: x")).message(), "Runner not found: x");
    assert_eq!(
        ShookServerError::Microsandbox(s("boom")).reply(),
        Reply { status: 500, body: s("boom") }
    );
    assert_eq!(
        ShookServerError::SerdeJson(s("expected value")).reply(),
        Reply { status: 400, body: s("expected value") }
    );
    assert_eq!(submission_reply(Ok(())), Reply { status: 200, body: s("OK") });
    assert_eq!(submission_reply(Err(s("queue closed"))), Reply { status: 500, body: s("queue closed") });
    assert_eq!(vendor_refusal(Vendor::Github), None);
    assert_eq!(vendor_refusal(Vendor::Gitea), Some(Reply { status: 500, body: s("Unsupported vendor") }));
}

#[test]
fn github_request_checks_signature_first() {
    let config = config_with_runner();
    let body = "{}";
    let good = make_signature("secret", body);
    let decoded = || Ok(payload(Event::Queued, "alice", &["self-hosted", "linux"]));
    assert!(matches!(
        github_runner_payload(&config, "sha256=00", body, decoded()),
        Err(ShookServerError::RequestSignaturesMismatch)
    ));
    assert!(matches!(
        github_runner_payload(&config, &good, body, Err(s("bad json"))),
        Err(ShookServerError::SerdeJson(m)) if m == "bad json"
    ));
    let p = github_runner_payload(&config, &good, body, decoded()).ok().unwrap();
    assert_eq!(p.sandbox_name, "acme-repo-build-4217");
    assert!(matches!(
        github_runner_payload(&config, &good, body, Ok(payload(Event::Waiting, "alice", &["a", "linux"]))),
        Err(ShookServerError::Validator(_))
    ));
}

#[test]
fn standing_jobs_per_instance() {
    let mut big = inner("ubuntu", 2, 2, 2048);
    big.ports = Some(port_map(&[(80, 8080)]));
    let mut c = raw_config(vec![(s("big"), big), (s("none"), inner("x", 0, 1, 1)), (s("one"), inner("alpine", 1, 1, 64))]);
    c.devop = devop(&["repo"], &["alice"]);
    let config = c.resolve();
    let jobs = standing_payloads(&config);
    let mut names: Vec<&str> = jobs.iter().map(|j| j.sandbox_name.as_str()).collect();
    names.sort();
    assert_eq!(names, vec!["big-0", "big-1", "one-0"]);
    let big0 = jobs.iter().find(|j| j.sandbox_name == "big-0").unwrap();
    assert_eq!(big0.image, "ubuntu");
    assert!(big0.ports.entries().is_empty());
    let one = jobs.iter().find(|j| j.sandbox_name == "one-0").unwrap();
    assert_eq!(one.memory, 64);
    assert_eq!(one.owner, "alice");
    assert_eq!(one.repo, "repo");
    assert_eq!(one.token, "tok");
}
