use vstd::prelude::*;

use crate::model::DevBox;
use crate::providers::{Artifactory, ProviderEnum};
use crate::text::{same_text, trim_end_char, trim_trailing_slashes};

verus! {

/// What a devbox action request asks for.
#[derive(PartialEq, Eq, Structural, Clone, Copy, Debug, Hash)]
pub enum ActionEnum {
    Start,
    Stop,
    Delete,
}

/// The action named in a request.
#[derive(Clone, Debug)]
pub struct ActionQuery {
    pub action: ActionEnum,
}

/// A devbox creation request: the provider, the devbox directory and the builder.
#[derive(Clone, Debug)]
pub struct ProviderQuery {
    pub provider: ProviderEnum,
    pub path: String,
    pub builder: String,
}

/// A container named in a request.
#[derive(Clone, Debug)]
pub struct ContainerQuery {
    pub name: String,
}

/// One devbox in a listing.
#[derive(Clone, Debug)]
pub struct ContainerListResponse {
    pub id: i32,
    pub name: String,
    pub provider: String,
    pub status: String,
}

/// A builder named in a request.
#[derive(Clone, Debug)]
pub struct BuilderModQuery {
    pub builder: String,
}

/// A registry to set for a provider.
#[derive(Clone, Debug)]
pub struct ArtifactoryMod {
    pub provider: String,
    pub config: Artifactory,
}

/// Azure settings as a request gives them.
#[derive(Clone, Debug)]
pub struct AzureMod {
    pub tanent: String,
    pub subscription: String,
    pub token: String,
    pub location: String,
    pub resource_group: String,
    pub address_type: Option<String>,
}

/// AWS settings as a request gives them.
#[derive(Clone, Debug)]
pub struct AwsMod {
    pub access_key: String,
    pub secret_key: String,
    pub region: String,
}

/// A remote Docker host as a request gives it.
#[derive(Clone, Debug)]
pub struct RemoteConfig {
    pub remote_ip: String,
    pub ssh_port: Option<u16>,
    pub service_port: u32,
    pub private_key: Option<String>,
    pub passphrase: Option<String>,
    pub username: String,
    pub password: Option<String>,
    pub local_port: u32,
}

/// The image and features a stored container was made from.
#[derive(Clone, Debug)]
pub struct ContainerConfig {
    pub image: String,
    pub features: Option<Vec<String>>,
}

/// A stored container: its name, its status and its configuration.
#[derive(Clone, Debug)]
pub struct Container {
    pub name: String,
    pub status: Option<String>,
    pub config: ContainerConfig,
}

impl Container {
    /// The container `container` renamed to `name`, with the given status or,
    /// when none is given, `Creating`.
    pub fn new(name: &str, status: Option<&str>, container: Container) -> (res: Self)
        ensures
            res.name@ == name@,
            res.status is Some,
            res.status->0@ == (match status {
                Some(s) => s@,
                None => "Creating"@,
            }),
            res.config == container.config,
    {
        Container {
            name: String::from_str(name),
            status: match status {
                Some(s) => Some(String::from_str(s)),
                None => Some(String::from_str("Creating")),
            },
            config: container.config,
        }
    }
}

/// The store of devboxes, providers, registries and builders, kept in one
/// database file.
#[derive(Clone, Debug)]
pub struct DB {
    pub db_path: String,
}

impl DB {
    /// The store kept in the file at `db_path`.
    pub fn at(db_path: &str) -> (res: Self)
        ensures
            res.db_path@ == db_path@,
    {
        DB { db_path: String::from_str(db_path) }
    }
}

/// The store the service uses unless told otherwise.
#[derive(Clone, Debug)]
pub struct DefaultDB;

impl DefaultDB {
    /// The file the default store is kept in: `devbox.db`.
    pub fn path() -> (res: String)
        ensures
            res@ == "devbox.db"@,
    {
        String::from_str("devbox.db")
    }
}

/// What is recorded of a devbox after an action on it succeeds.
#[derive(Clone, Debug)]
pub enum ActionOutcome {
    /// The devbox is gone: forget it.
    Forget,
    /// The devbox now has this status.
    Status(String),
}

/// Starting records `running`, stopping records `exited`, deleting forgets the devbox.
pub fn action_outcome(action: ActionEnum) -> (res: ActionOutcome)
    ensures
        match action {
            ActionEnum::Start => res matches ActionOutcome::Status(s) && s@ == "running"@,
            ActionEnum::Stop => res matches ActionOutcome::Status(s) && s@ == "exited"@,
            ActionEnum::Delete => res is Forget,
        },
{
    match action {
        ActionEnum::Start => ActionOutcome::Status(String::from_str("running")),
        ActionEnum::Stop => ActionOutcome::Status(String::from_str("exited")),
        ActionEnum::Delete => ActionOutcome::Forget,
    }
}

/// The state Docker reports of a container.
#[derive(Clone, Debug)]
pub enum ContainerState {
    Running,
    Exited,
    Other,
}

/// The status recorded for a Docker container: `running`, `exited`, or
/// `unknown` for any other state or none.
pub fn docker_status(state: Option<ContainerState>) -> (res: String)
    ensures
        res@ == (match state {
            Some(ContainerState::Running) => "running"@,
            Some(ContainerState::Exited) => "exited"@,
            _ => "unknown"@,
        }),
{
    match state {
        Some(ContainerState::Running) => String::from_str("running"),
        Some(ContainerState::Exited) => String::from_str("exited"),
        _ => String::from_str("unknown"),
    }
}

/// The status recorded when a provider was asked: its answer, or `unknown`
/// when it could not answer.
pub fn recorded_status(answer: Option<String>) -> (res: String)
    ensures
        res@ == (match answer {
            Some(s) => s@,
            None => "unknown"@,
        }),
{
    match answer {
        Some(s) => s,
        None => String::from_str("unknown"),
    }
}

/// Named result of `str::to_lowercase`: the Unicode lower-case mapping of a text.
pub uninterp spec fn lowercase(s: Seq<char>) -> Seq<char>;

/// Calls `str::to_lowercase`. Claimed: the result is `lowercase(s@)`, a
/// function of the text alone; nothing more is stated of the mapping.
#[verifier::external_body]
fn to_lower(s: &str) -> (res: String)
    ensures
        res@ == lowercase(s@),
{
    s.to_lowercase()
}

/// The provider to ask for a stored devbox's status: its stored provider name
/// in lower case must be `docker`, `azure` or `aws`; for any other name no
/// provider is asked and the status is `unknown`.
pub fn status_provider(stored: &str) -> (res: Option<ProviderEnum>)
    ensures
        res == (if lowercase(stored@) == "docker"@ {
            Some(ProviderEnum::Docker)
        } else if lowercase(stored@) == "azure"@ {
            Some(ProviderEnum::Azure)
        } else if lowercase(stored@) == "aws"@ {
            Some(ProviderEnum::Aws)
        } else {
            None
        }),
{
    let name = to_lower(stored);
    if same_text(name.as_str(), "docker") {
        Some(ProviderEnum::Docker)
    } else if same_text(name.as_str(), "azure") {
        Some(ProviderEnum::Azure)
    } else if same_text(name.as_str(), "aws") {
        Some(ProviderEnum::Aws)
    } else {
        None
    }
}

/// Whether `c` has the Unicode property White_Space, the characters that
/// `str::trim` removes.
pub open spec fn is_white_space(c: char) -> bool {
    let n = c as int;
    ||| 0x9 <= n <= 0xd
    ||| n == 0x20
    ||| n == 0x85
    ||| n == 0xa0
    ||| n == 0x1680
    ||| 0x2000 <= n <= 0x200a
    ||| n == 0x2028
    ||| n == 0x2029
    ||| n == 0x202f
    ||| n == 0x205f
    ||| n == 0x3000
}

/// `s` without its leading white space.
pub open spec fn trim_white_start(s: Seq<char>) -> Seq<char>
    decreases s.len(),
{
    if s.len() > 0 && is_white_space(s[0]) {
        trim_white_start(s.drop_first())
    } else {
        s
    }
}

/// `s` without its trailing white space.
pub open spec fn trim_white_end(s: Seq<char>) -> Seq<char>
    decreases s.len(),
{
    if s.len() > 0 && is_white_space(s.last()) {
        trim_white_end(s.drop_last())
    } else {
        s
    }
}

/// `s` without leading and trailing white space.
pub open spec fn trimmed(s: Seq<char>) -> Seq<char> {
    trim_white_end(trim_white_start(s))
}

/// Calls `str::trim`. Claimed, as its documentation says: the result is the
/// text with leading and trailing White_Space characters removed.
#[verifier::external_body]
fn trim(s: &str) -> (res: String)
    ensures
        res@ == trimmed(s@),
{
    s.trim().to_string()
}

/// Whether a terminal message asks to end the session: it reads
/// `__disconnect__` once surrounding white space is trimmed.
pub fn is_disconnect(message: &str) -> (res: bool)
    ensures
        res == (trimmed(message@) == "__disconnect__"@),
{
    let t = trim(message);
    same_text(t.as_str(), "__disconnect__")
}

/// Why a devbox creation request is refused, if it is: a body that names
/// neither an image nor a build, else a devbox directory that failed
/// validation (with the validator's message).
pub fn request_error(devbox: Option<&DevBox>, path_error: Option<String>) -> (res: Option<String>)
    ensures
        match devbox {
            Some(d) if !d.valid() => res is Some && res->0@
                == "Invalid Creation, need either Image or Dockerfile"@,
            _ => match path_error {
                Some(e) => res is Some && res->0@ == e@,
                None => res is None,
            },
        },
{
    match devbox {
        Some(d) => {
            if !d.is_valid() {
                return Some(String::from_str("Invalid Creation, need either Image or Dockerfile"));
            }
        },
        None => {},
    }
    path_error
}

/// Why a provider cannot take requests, if it cannot: no state yet, or a
/// cloud provider that is not configured. Docker is always available.
pub fn provider_unavailable(
    initialized: bool,
    azure_configured: bool,
    aws_configured: bool,
    provider: ProviderEnum,
) -> (res: Option<String>)
    ensures
        !initialized ==> res is Some && res->0@ == "AppState is not initialized"@,
        initialized && provider == ProviderEnum::Azure && !azure_configured ==> res is Some
            && res->0@ == "Azure config is not initialized"@,
        initialized && provider == ProviderEnum::Aws && !aws_configured ==> res is Some
            && res->0@ == "Aws config is not initialized"@,
        initialized && (provider == ProviderEnum::Docker || (provider == ProviderEnum::Azure
            && azure_configured) || (provider == ProviderEnum::Aws && aws_configured)) ==> res is None,
{
    if !initialized {
        return Some(String::from_str("AppState is not initialized"));
    }
    match provider {
        ProviderEnum::Azure => if !azure_configured {
            Some(String::from_str("Azure config is not initialized"))
        } else {
            None
        },
        ProviderEnum::Aws => if !aws_configured {
            Some(String::from_str("Aws config is not initialized"))
        } else {
            None
        },
        ProviderEnum::Docker => None,
    }
}

/// The message refusing a remote builder whose configuration is not a tunnel
/// configuration.
pub open spec fn remote_builder_message() -> Seq<char> {
    "Remote builder should have
                    remote_ip: String,
                    ssh_port: Optional integer,
                    service_port: integer,
                    private_key: Optional String,
                    passphrase: Optional String,
                    username: String,
                    password: Optional String,
                    local_port: integer,"@
}

/// Why a builder cannot be added, if it cannot: a remote builder (`remote`
/// is 1) needs a configuration that reads as a tunnel configuration.
pub fn builder_config_error(remote: u16, config_is_tunnel: bool) -> (res: Option<String>)
    ensures
        remote == 1 && !config_is_tunnel ==> res is Some && res->0@ == remote_builder_message(),
        !(remote == 1 && !config_is_tunnel) ==> res is None,
{
    if remote == 1 && !config_is_tunnel {
        Some(
            String::from_str(
                "Remote builder should have
                    remote_ip: String,
                    ssh_port: Optional integer,
                    service_port: integer,
                    private_key: Optional String,
                    passphrase: Optional String,
                    username: String,
                    password: Optional String,
                    local_port: integer,",
            ),
        )
    } else {
        None
    }
}

/// The builders the service can drive.
#[derive(PartialEq, Eq, Structural, Clone, Copy, Debug)]
pub enum BuilderKind {
    Docker,
}

/// The builder a stored builder kind names: only `docker` is known; any
/// other kind is refused with `No valid builder provided`.
pub fn builder_kind(kind: &str) -> (res: Result<BuilderKind, String>)
    ensures
        kind@ == "docker"@ ==> res == Ok::<BuilderKind, String>(BuilderKind::Docker),
        kind@ != "docker"@ ==> res is Err && res->Err_0@ == "No valid builder provided"@,
{
    if same_text(kind, "docker") {
        Ok(BuilderKind::Docker)
    } else {
        Err(String::from_str("No valid builder provided"))
    }
}

/// Whether the Docker builder can start from a stored builder kind: only
/// `docker` can; any other kind is refused with `Error initializing builder`.
pub fn docker_builder_check(kind: &str) -> (res: Result<(), String>)
    ensures
        kind@ == "docker"@ ==> res is Ok,
        kind@ != "docker"@ ==> (res matches Err(e) && e@ == "Error initializing builder"@),
{
    if same_text(kind, "docker") {
        Ok(())
    } else {
        Err(String::from_str("Error initializing builder"))
    }
}

/// Where a devbox directory keeps its description: `{path}/devbox.json`,
/// trailing slashes of the directory dropped.
pub fn devbox_config_path(path: &str) -> (res: String)
    ensures
        res@ == trim_end_char(path@, '/') + "/devbox.json"@,
{
    let mut s = trim_trailing_slashes(path);
    s.append("/devbox.json");
    s
}

/// Where a task request given as a devbox directory keeps its description:
/// `{request}/devbox.json`.
pub fn request_file_path(request: &str) -> (res: String)
    ensures
        res@ == request@ + "/devbox.json"@,
{
    let mut s = String::from_str(request);
    s.append("/devbox.json");
    s
}

/// Whether a new devbox is started as soon as it is created.
pub fn starts_on_create(devbox: &DevBox) -> (res: bool)
    ensures
        res == (devbox.start_on_create == Some(true)),
{
    match devbox.start_on_create {
        Some(b) => b,
        None => false,
    }
}

} // verus!
