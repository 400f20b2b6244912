use vstd::prelude::*;

use crate::text::{decimal, decimal_string, same_text};

verus! {

/// Where a devbox runs.
#[derive(PartialEq, Eq, Structural, Clone, Copy, Debug, Hash)]
pub enum ProviderEnum {
    Docker,
    Azure,
    Aws,
}

/// The name a provider is stored and requested under.
pub open spec fn provider_name(p: ProviderEnum) -> Seq<char> {
    match p {
        ProviderEnum::Docker => "docker"@,
        ProviderEnum::Azure => "azure"@,
        ProviderEnum::Aws => "aws"@,
    }
}

/// The provider a stored name stands for; any name but `aws` and `azure`
/// stands for Docker.
pub open spec fn provider_from_name(s: Seq<char>) -> ProviderEnum {
    if s == "aws"@ {
        ProviderEnum::Aws
    } else if s == "azure"@ {
        ProviderEnum::Azure
    } else {
        ProviderEnum::Docker
    }
}

impl From<String> for ProviderEnum {
    fn from(s: String) -> (res: Self) {
        if same_text(s.as_str(), "aws") {
            ProviderEnum::Aws
        } else if same_text(s.as_str(), "azure") {
            ProviderEnum::Azure
        } else {
            ProviderEnum::Docker
        }
    }
}

impl vstd::std_specs::convert::FromSpecImpl<String> for ProviderEnum {
    open spec fn obeys_from_spec() -> bool {
        true
    }

    open spec fn from_spec(s: String) -> ProviderEnum {
        provider_from_name(s@)
    }
}

impl ProviderEnum {
    /// The provider's name: `docker`, `azure` or `aws`.
    pub fn to_string(&self) -> (res: String)
        ensures
            res@ == provider_name(*self),
    {
        match self {
            ProviderEnum::Docker => String::from_str("docker"),
            ProviderEnum::Azure => String::from_str("azure"),
            ProviderEnum::Aws => String::from_str("aws"),
        }
    }
}

/// A provider's name reads back as the same provider.
pub proof fn lemma_provider_name_round_trip(p: ProviderEnum)
    ensures
        provider_from_name(provider_name(p)) == p,
{
    reveal_strlit("docker");
    reveal_strlit("azure");
    reveal_strlit("aws");
    assert("docker"@.len() == 6 && "azure"@.len() == 5 && "aws"@.len() == 3);
}

/// The provider a request names.
#[derive(Clone, Debug)]
pub struct ProviderModQuery {
    pub provider: ProviderEnum,
}

/// An image registry that a provider pushes devbox images to.
#[derive(Clone, Debug)]
pub struct Artifactory {
    pub server: String,
    pub repository_name: String,
    pub username: Option<String>,
    pub password: Option<String>,
}

impl Artifactory {
    /// A registry with the given server, repository and credentials.
    pub fn new(
        server: String,
        repository_name: String,
        username: Option<String>,
        password: Option<String>,
    ) -> (res: Self)
        ensures
            res.server == server,
            res.repository_name == repository_name,
            res.username == username,
            res.password == password,
    {
        Artifactory { server, repository_name, username, password }
    }
}

impl Artifactory {
    /// The name an image is pushed under: `{server}/{repository_name}/{image_name}`.
    pub fn image_reference(&self, image_name: &str) -> (res: String)
        ensures
            res@ == self.server@ + "/"@ + self.repository_name@ + "/"@ + image_name@,
    {
        let mut s = self.server.clone();
        s.append("/");
        s.append(self.repository_name.as_str());
        s.append("/");
        s.append(image_name);
        s
    }
}

/// The registry of a stored provider row: present when both its server and
/// its repository name are.
pub fn artifactory_from_columns(
    server: Option<String>,
    repository_name: Option<String>,
    username: Option<String>,
    password: Option<String>,
) -> (res: Option<Artifactory>)
    ensures
        (server is Some && repository_name is Some) <==> res is Some,
        res is Some ==> res->0.server == server->0 && res->0.repository_name == repository_name->0
            && res->0.username == username && res->0.password == password,
{
    match (server, repository_name) {
        (Some(s), Some(r)) => Some(Artifactory::new(s, r, username, password)),
        _ => None,
    }
}

/// How to reach a remote machine over SSH and which port to forward.
#[derive(Clone, Debug)]
pub struct TunnelConfig {
    pub remote_ip: String,
    pub ssh_port: Option<u16>,
    pub service_port: u32,
    pub private_key: Option<String>,
    pub passphrase: Option<String>,
    pub username: String,
    pub password: Option<String>,
    pub local_port: u32,
}

impl TunnelConfig {
    /// The SSH port to connect to: the configured one, else 22.
    pub fn port(&self) -> (res: u16)
        ensures
            res == match self.ssh_port {
                Some(p) => p,
                None => 22u16,
            },
    {
        match self.ssh_port {
            Some(p) => p,
            None => 22,
        }
    }
}

/// How the service logs in over SSH: with the configured key, else with the
/// configured password.
#[derive(Clone, Debug)]
pub enum SshLogin {
    Key { path: String, passphrase: Option<String> },
    Password(String),
}

/// The login to use for a tunnel: the private key when one is configured,
/// else the password; `None` when neither is (the service cannot log in).
pub fn ssh_login(cfg: &TunnelConfig) -> (res: Option<SshLogin>)
    ensures
        match cfg.private_key {
            Some(k) => res == Some(SshLogin::Key { path: k, passphrase: cfg.passphrase }),
            None => match cfg.password {
                Some(p) => res == Some(SshLogin::Password(p)),
                None => res is None,
            },
        },
{
    match &cfg.private_key {
        Some(k) => Some(
            SshLogin::Key {
                path: k.clone(),
                passphrase: match &cfg.passphrase {
                    Some(p) => Some(p.clone()),
                    None => None,
                },
            },
        ),
        None => match &cfg.password {
            Some(p) => Some(SshLogin::Password(p.clone())),
            None => None,
        },
    }
}

/// The Docker provider's settings: a registry and a remote Docker host.
#[derive(Clone, Debug)]
pub struct DockerProviderMod {
    pub artifactory: Option<Artifactory>,
    pub remote: Option<TunnelConfig>,
}

/// The address of a Docker daemon reached through a local tunnel end.
pub open spec fn tunnel_address(local_port: u32) -> Seq<char> {
    "127.0.0.1:"@ + decimal(local_port as nat)
}

/// `127.0.0.1:{local_port}`.
pub fn local_address(local_port: u32) -> (res: String)
    ensures
        res@ == tunnel_address(local_port),
{
    let mut s = String::from_str("127.0.0.1:");
    let port = decimal_string(local_port);
    s.append(port.as_str());
    s
}

/// How the Docker connection is made after a configuration change.
#[derive(Clone, Debug)]
pub enum ConnectionPlan {
    /// Open a tunnel forwarding `local_port` to `remote_port` on the remote
    /// host, and talk HTTP to `address`.
    Tunnel { remote_port: u32, local_port: u32, address: String },
    /// Close any tunnel and use the local Docker daemon.
    Local,
}

/// A remote Docker host is reached through a tunnel from its service port to
/// the configured local port; without one, the local daemon is used.
pub fn connection_plan(remote: &Option<TunnelConfig>) -> (res: ConnectionPlan)
    ensures
        match remote {
            Some(cfg) => res matches ConnectionPlan::Tunnel { remote_port, local_port, address }
                && remote_port == cfg.service_port && local_port == cfg.local_port && address@
                == tunnel_address(cfg.local_port),
            None => res is Local,
        },
{
    match remote {
        Some(cfg) => ConnectionPlan::Tunnel {
            remote_port: cfg.service_port,
            local_port: cfg.local_port,
            address: local_address(cfg.local_port),
        },
        None => ConnectionPlan::Local,
    }
}

/// The reply to a tunnel update: `SUCCESS` when the tunnel is only closed
/// (remote port 0), else which ports are now forwarded.
pub open spec fn tunnel_reply_spec(new_remote: u32, new_local: u32) -> Seq<char> {
    if new_remote == 0 {
        "SUCCESS"@
    } else {
        "Tunnel updated: local "@ + decimal(new_local as nat) + " -> remote "@ + decimal(
            new_remote as nat,
        )
    }
}

/// The reply to a tunnel update.
pub fn tunnel_reply(new_remote: u32, new_local: u32) -> (res: String)
    ensures
        res@ == tunnel_reply_spec(new_remote, new_local),
{
    if new_remote == 0 {
        String::from_str("SUCCESS")
    } else {
        let mut s = String::from_str("Tunnel updated: local ");
        let local = decimal_string(new_local);
        s.append(local.as_str());
        s.append(" -> remote ");
        let remote = decimal_string(new_remote);
        s.append(remote.as_str());
        s
    }
}

/// Where the SSH session of a new tunnel comes from.
#[derive(Clone, Debug)]
pub enum SessionSource {
    /// A new session to the configured host.
    Connect(TunnelConfig),
    /// The session the service already holds.
    Reuse,
}

/// What a tunnel update does once the running tunnel is stopped.
#[derive(Clone, Debug)]
pub enum TunnelStep {
    /// No new tunnel: the session and tunnel are dropped.
    Close,
    /// A new tunnel over a session from the given source.
    Open(SessionSource),
}

/// A tunnel update to remote port 0 only closes the tunnel; any other opens a
/// new one, over a new session when a configuration is given, else over the
/// session already held, and fails when there is none.
pub fn tunnel_step(new_remote: u32, refresh: Option<TunnelConfig>, has_session: bool) -> (res: Result<
    TunnelStep,
    String,
>)
    ensures
        new_remote == 0 ==> res matches Ok(TunnelStep::Close),
        new_remote != 0 && refresh is Some ==> (res matches Ok(
            TunnelStep::Open(SessionSource::Connect(cfg)),
        ) && cfg == refresh->0),
        new_remote != 0 && refresh is None && has_session ==> res matches Ok(
            TunnelStep::Open(SessionSource::Reuse),
        ),
        new_remote != 0 && refresh is None && !has_session ==> (res matches Err(e) && e@
            == "no ssh_session available"@),
{
    if new_remote == 0 {
        Ok(TunnelStep::Close)
    } else {
        match refresh {
            Some(cfg) => Ok(TunnelStep::Open(SessionSource::Connect(cfg))),
            None => if has_session {
                Ok(TunnelStep::Open(SessionSource::Reuse))
            } else {
                Err(String::from_str("no ssh_session available"))
            },
        }
    }
}

} // verus!
