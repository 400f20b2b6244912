use devbox::cloud::{
    choose_provider_rows, container_group_url, creation_outcome, devbox_port, find_field, group_address,
    os_type, provider_slots, registry_credential, reported_state, wait_step, AwsProvider, AzureProvider,
    ProviderRow, ProviderSetting, ProviderSlots, WaitStep,
};
use devbox::providers::{
    artifactory_from_columns, connection_plan, local_address, ssh_login, tunnel_reply, tunnel_step, Artifactory,
    ConnectionPlan, DockerProviderMod, ProviderEnum, SessionSource, SshLogin, TunnelConfig, TunnelStep,
};

fn art() -> Artifactory {
    Artifactory::new("registry.io".to_string(), "devbox".to_string(), Some("me".to_string()), None)
}

fn tunnel(key: Option<&str>, password: Option<&str>) -> TunnelConfig {
    TunnelConfig {
        remote_ip: "192.168.175.129".to_string(),
        ssh_port: None,
        service_port: 2375,
        private_key: key.map(|k| k.to_string()),
        passphrase: None,
        username: "kali".to_string(),
        password: password.map(|p| p.to_string()),
        local_port: 2376,
    }
}

fn fields(items: &[(&str, &str)]) -> Vec<(String, String)> {
    items.iter().map(|(k, v)| (k.to_string(), v.to_string())).collect()
}

#[test]
fn provider_names_round_trip() {
    for p in [ProviderEnum::Docker, ProviderEnum::Azure, ProviderEnum::Aws] {
        assert_eq!(ProviderEnum::from(p.to_string()), p);
    }
    assert_eq!(ProviderEnum::Aws.to_string(), "aws");
    assert_eq!(ProviderEnum::from("azure".to_string()), ProviderEnum::Azure);
    assert_eq!(ProviderEnum::from("gcp".to_string()), ProviderEnum::Docker);
    assert_eq!(ProviderEnum::from("AWS".to_string()), ProviderEnum::Docker);
}

#[test]
fn artifactory_needs_server_and_repository() {
    let a = artifactory_from_columns(Some("s".to_string()), Some("r".to_string()), None, Some("p".to_string())).unwrap();
    assert_eq!(a.server, "s");
    assert_eq!(a.repository_name, "r");
    assert_eq!(a.username, None);
    assert_eq!(a.password.as_deref(), Some("p"));
    assert!(artifactory_from_columns(Some("s".to_string()), None, None, None).is_none());
    assert!(artifactory_from_columns(None, Some("r".to_string()), None, None).is_none());
}

#[test]
fn tunnel_settings() {
    let cfg = tunnel(Some("/root/.ssh/id"), Some("pw"));
    assert_eq!(cfg.port(), 22);
    assert!(matches!(ssh_login(&cfg), Some(SshLogin::Key { path, .. }) if path == "/root/.ssh/id"));
    assert!(matches!(ssh_login(&tunnel(None, Some("pw"))), Some(SshLogin::Password(p)) if p == "pw"));
    assert!(ssh_login(&tunnel(None, None)).is_none());
    let mut with_port = tunnel(None, None);
    with_port.ssh_port = Some(2222);
    assert_eq!(with_port.port(), 2222);
}

#[test]
fn connection_plans() {
    match connection_plan(&Some(tunnel(None, Some("x")))) {
        ConnectionPlan::Tunnel { remote_port, local_port, address } => {
            assert_eq!(remote_port, 2375);
            assert_eq!(local_port, 2376);
            assert_eq!(address, "127.0.0.1:2376");
        }
        ConnectionPlan::Local => panic!("expected a tunnel"),
    }
    assert!(matches!(connection_plan(&None), ConnectionPlan::Local));
    assert_eq!(local_address(0), "127.0.0.1:0");
}

#[test]
fn tunnel_replies() {
    assert_eq!(tunnel_reply(0, 5), "SUCCESS");
    assert_eq!(tunnel_reply(2375, 2376), "Tunnel updated: local 2376 -> remote 2375");
}

#[test]
fn azure_and_aws_from_config() {
    let cfg = fields(&[
        ("tanent", "\"t\""),
        ("subscription", "\"sub\""),
        ("location", "\"eastus\""),
        ("resource_group", "\"rg\""),
        ("address_type", "\"Private\""),
    ]);
    let az = AzureProvider::new(&cfg, art());
    assert_eq!(az.subscription, "\"sub\"");
    assert_eq!(az.token, "TOKEN");
    assert_eq!(az.address_type.as_deref(), Some("\"Private\""));
    assert_eq!(az.artifactory.server, "registry.io");
    let aws = AwsProvider::new(&fields(&[("access_key", "1"), ("secret_key", "2"), ("region", "\"eu\"")]), art());
    assert_eq!(aws.region, "\"eu\"");
    assert_eq!(find_field(&cfg, "location").as_deref(), Some("\"eastus\""));
    assert_eq!(find_field(&cfg, "missing"), None);
}

fn row(name: &str, config: &str, with_art: bool) -> ProviderRow {
    ProviderRow {
        name: name.to_string(),
        config: config.to_string(),
        fields: Vec::new(),
        artifactory: if with_art { Some(art()) } else { None },
        tunnel: None,
    }
}

#[test]
fn provider_rows_last_one_decides() {
    let rows = vec![
        row("azure", "{}", true),
        row("docker", "", false),
        row("aws", "{}", false),
        row("gcp", "{}", true),
        row("docker", "\"{}\"", true),
        row("azure", "", true),
    ];
    let choice = choose_provider_rows(&rows);
    assert_eq!(choice.azure, None);
    assert_eq!(choice.aws, None);
    assert_eq!(choice.docker, Some(4));
    let rows = vec![row("azure", "{}", true), row("aws", "{}", true)];
    let choice = choose_provider_rows(&rows);
    assert_eq!(choice.azure, Some(0));
    assert_eq!(choice.aws, Some(1));
    assert_eq!(choice.docker, None);
}

#[test]
fn container_group_parts() {
    assert_eq!(devbox_port().port, 80);
    let addr = group_address(&None);
    assert_eq!(addr.kind, "Public");
    assert_eq!(addr.ports.len(), 1);
    assert_eq!(addr.ports[0].protocol, "tcp");
    assert_eq!(addr.ports[0].port, 80);
    assert_eq!(group_address(&Some("Private".to_string())).kind, "Private");
    let cred = registry_credential(&art());
    assert_eq!(cred.server, "registry.io");
    assert_eq!(cred.username, "me");
    assert_eq!(cred.password, "");
    assert_eq!(os_type(&None), "Linux");
    assert_eq!(os_type(&Some("Windows".to_string())), "Windows");
    assert_eq!(
        container_group_url("s", "rg", "box", "2021-10-01"),
        "https://management.azure.com/subscriptions/s/resourceGroups/rg/providers/Microsoft.ContainerInstance/containerGroups/box?api-version=2021-10-01"
    );
}

#[test]
fn azure_states() {
    assert_eq!(wait_step("Running"), WaitStep::Done);
    assert_eq!(wait_step("Failed"), WaitStep::Failed);
    assert_eq!(wait_step("Stopped"), WaitStep::Failed);
    assert_eq!(wait_step("Terminated"), WaitStep::Failed);
    assert_eq!(wait_step("Creating"), WaitStep::Wait);
    assert_eq!(wait_step("running"), WaitStep::Wait);
    assert_eq!(reported_state(Some("Succeeded".to_string())), "Succeeded");
    assert_eq!(reported_state(None), "notfound");
    assert_eq!(creation_outcome(Some("/sub/x".to_string())), ("success".to_string(), "/sub/x".to_string()));
    assert_eq!(creation_outcome(None), ("notfound".to_string(), "Not Found".to_string()));
}

#[test]
fn tunnel_steps() {
    assert!(matches!(tunnel_step(0, Some(tunnel(None, Some("kali"))), false), Ok(TunnelStep::Close)));
    match tunnel_step(2375, Some(tunnel(None, Some("kali"))), true) {
        Ok(TunnelStep::Open(SessionSource::Connect(cfg))) => assert_eq!(cfg.local_port, 2376),
        _ => panic!("a configured tunnel connects anew"),
    }
    assert!(matches!(tunnel_step(2375, None, true), Ok(TunnelStep::Open(SessionSource::Reuse))));
    match tunnel_step(2375, None, false) {
        Err(e) => assert_eq!(e, "no ssh_session available"),
        _ => panic!("no session to reuse"),
    }
}

fn azure_provider(location: &str) -> AzureProvider {
    AzureProvider::new(
        &fields(&[
            ("tanent", "\"t\""),
            ("subscription", "\"s\""),
            ("location", location),
            ("resource_group", "\"g\""),
            ("address_type", "\"Public\""),
        ]),
        art(),
    )
}

#[test]
fn configuring_a_provider_changes_only_its_slot() {
    let aws = AwsProvider::new(&fields(&[("access_key", "1"), ("secret_key", "2"), ("region", "\"eu\"")]), art());
    let remote = DockerProviderMod { artifactory: Some(art()), remote: Some(tunnel(None, Some("kali"))) };
    let current = ProviderSlots { docker: remote, azure: None, aws: Some(aws) };

    let slots = provider_slots(ProviderSetting::Azure(azure_provider("\"l\"")), current);
    assert_eq!(slots.azure.as_ref().map(|a| a.location.clone()), Some("\"l\"".to_string()));
    assert_eq!(slots.aws.as_ref().map(|a| a.region.clone()), Some("\"eu\"".to_string()));
    assert_eq!(slots.docker.artifactory.as_ref().map(|a| a.server.clone()), Some("registry.io".to_string()));
    assert_eq!(slots.docker.remote.as_ref().map(|r| r.service_port), Some(2375));

    let local = DockerProviderMod { artifactory: None, remote: None };
    let slots = provider_slots(ProviderSetting::Docker(local), slots);
    assert!(slots.docker.artifactory.is_none() && slots.docker.remote.is_none());
    assert_eq!(slots.azure.map(|a| a.location), Some("\"l\"".to_string()));
    assert_eq!(slots.aws.map(|a| a.region), Some("\"eu\"".to_string()));
}
