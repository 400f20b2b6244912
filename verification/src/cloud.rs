use vstd::prelude::*;

use crate::providers::{Artifactory, DockerProviderMod, TunnelConfig};
use crate::text::same_text;

verus! {

/// The text of the field `key` of a JSON object given as (name, JSON text)
/// entries: the first entry with that name.
pub open spec fn field(entries: Seq<(String, String)>, key: Seq<char>) -> Option<Seq<char>>
    decreases entries.len(),
{
    if entries.len() == 0 {
        None
    } else if entries[0].0@ == key {
        Some(entries[0].1@)
    } else {
        field(entries.drop_first(), key)
    }
}

/// The text of the field `key`, if the object has one.
pub fn find_field(entries: &Vec<(String, String)>, key: &str) -> (res: Option<String>)
    ensures
        res.deep_view() == field(entries@, key@),
{
    let mut i: usize = 0;
    assert(entries@.skip(0) =~= entries@);
    while i < entries.len()
        invariant
            i <= entries@.len(),
            field(entries@, key@) == field(entries@.skip(i as int), key@),
        decreases entries.len() - i,
    {
        if same_text(entries[i].0.as_str(), key) {
            return Some(entries[i].1.clone());
        }
        assert(entries@.skip(i as int).drop_first() =~= entries@.skip(i + 1));
        i = i + 1;
    }
    None
}

/// The fields an Azure configuration must have.
pub open spec fn azure_config_complete(entries: Seq<(String, String)>) -> bool {
    &&& field(entries, "tanent"@) is Some
    &&& field(entries, "subscription"@) is Some
    &&& field(entries, "location"@) is Some
    &&& field(entries, "resource_group"@) is Some
    &&& field(entries, "address_type"@) is Some
}

/// The fields an AWS configuration must have.
pub open spec fn aws_config_complete(entries: Seq<(String, String)>) -> bool {
    &&& field(entries, "access_key"@) is Some
    &&& field(entries, "secret_key"@) is Some
    &&& field(entries, "region"@) is Some
}

/// Azure Container Instances settings, and the registry images are pushed to.
#[derive(Clone, Debug)]
pub struct AzureProvider {
    pub tanent: String,
    pub subscription: String,
    pub token: String,
    pub location: String,
    pub resource_group: String,
    /// `Public` or `Private`.
    pub address_type: Option<String>,
    pub artifactory: Artifactory,
}

fn required_field(entries: &Vec<(String, String)>, key: &str) -> (res: String)
    requires
        field(entries@, key@) is Some,
    ensures
        res@ == field(entries@, key@)->0,
{
    match find_field(entries, key) {
        Some(v) => v,
        None => String::new(),
    }
}

impl AzureProvider {
    /// Azure settings read from a configuration object: each setting is the
    /// JSON text of its field; the token starts as a placeholder, `TOKEN`.
    pub fn new(config: &Vec<(String, String)>, artifactory: Artifactory) -> (res: Self)
        requires
            azure_config_complete(config@),
        ensures
            res.tanent@ == field(config@, "tanent"@)->0,
            res.subscription@ == field(config@, "subscription"@)->0,
            res.token@ == "TOKEN"@,
            res.location@ == field(config@, "location"@)->0,
            res.resource_group@ == field(config@, "resource_group"@)->0,
            res.address_type is Some && res.address_type->0@ == field(config@, "address_type"@)->0,
            res.artifactory == artifactory,
    {
        AzureProvider {
            tanent: required_field(config, "tanent"),
            subscription: required_field(config, "subscription"),
            token: String::from_str("TOKEN"),
            location: required_field(config, "location"),
            resource_group: required_field(config, "resource_group"),
            address_type: Some(required_field(config, "address_type")),
            artifactory,
        }
    }
}

/// AWS settings, and the registry images are pushed to.
#[derive(Clone, Debug)]
pub struct AwsProvider {
    pub access_key: String,
    pub secret_key: String,
    pub region: String,
    pub artifactory: Artifactory,
}

impl AwsProvider {
    /// AWS settings read from a configuration object, each the JSON text of its field.
    pub fn new(config: &Vec<(String, String)>, artifactory: Artifactory) -> (res: Self)
        requires
            aws_config_complete(config@),
        ensures
            res.access_key@ == field(config@, "access_key"@)->0,
            res.secret_key@ == field(config@, "secret_key"@)->0,
            res.region@ == field(config@, "region"@)->0,
            res.artifactory == artifactory,
    {
        AwsProvider {
            access_key: required_field(config, "access_key"),
            secret_key: required_field(config, "secret_key"),
            region: required_field(config, "region"),
            artifactory,
        }
    }
}

/// A stored provider configuration: the provider's name, its configuration
/// text and the fields of that text read as a JSON object, its registry if
/// one is stored, and (for Docker) the remote host the text describes.
#[derive(Clone, Debug)]
pub struct ProviderRow {
    pub name: String,
    pub config: String,
    pub fields: Vec<(String, String)>,
    pub artifactory: Option<Artifactory>,
    pub tunnel: Option<TunnelConfig>,
}

/// The index of the last row named `name`.
pub open spec fn last_row_named(rows: Seq<ProviderRow>, name: Seq<char>) -> Option<int>
    decreases rows.len(),
{
    if rows.len() == 0 {
        None
    } else if rows.last().name@ == name {
        Some(rows.len() - 1)
    } else {
        last_row_named(rows.drop_last(), name)
    }
}

/// A cloud provider's row counts when its configuration is not empty and a
/// registry is stored with it.
pub open spec fn usable_cloud_row(rows: Seq<ProviderRow>, name: Seq<char>) -> Option<int> {
    match last_row_named(rows, name) {
        Some(i) => if rows[i].config@.len() > 0 && rows[i].artifactory is Some {
            Some(i)
        } else {
            None
        },
        None => None,
    }
}

/// A row position as an index.
pub open spec fn as_index(pos: Option<int>) -> Option<usize> {
    match pos {
        Some(i) => Some(i as usize),
        None => None,
    }
}

/// Which stored rows configure the providers: the last row of each name
/// decides. Rows with other names are ignored.
#[derive(Clone, Debug)]
pub struct ProviderChoice {
    pub azure: Option<usize>,
    pub aws: Option<usize>,
    pub docker: Option<usize>,
}

/// Picks, from the stored rows, the row that configures each provider: for
/// Azure and AWS the last row of that name when it is usable, for Docker the
/// last Docker row.
pub fn choose_provider_rows(rows: &Vec<ProviderRow>) -> (res: ProviderChoice)
    ensures
        res.azure == as_index(usable_cloud_row(rows@, "azure"@)),
        res.aws == as_index(usable_cloud_row(rows@, "aws"@)),
        res.docker == as_index(last_row_named(rows@, "docker"@)),
{
    let mut azure: Option<usize> = None;
    let mut aws: Option<usize> = None;
    let mut docker: Option<usize> = None;
    let mut i: usize = 0;
    assert(rows@.take(0) =~= Seq::<ProviderRow>::empty());
    while i < rows.len()
        invariant
            i <= rows@.len(),
            match last_row_named(rows@.take(i as int), "azure"@) {
                Some(k) => 0 <= k < i && azure == (if rows@[k].config@.len() > 0
                    && rows@[k].artifactory is Some {
                    Some(k as usize)
                } else {
                    None
                }),
                None => azure is None,
            },
            match last_row_named(rows@.take(i as int), "aws"@) {
                Some(k) => 0 <= k < i && aws == (if rows@[k].config@.len() > 0
                    && rows@[k].artifactory is Some {
                    Some(k as usize)
                } else {
                    None
                }),
                None => aws is None,
            },
            docker == as_index(last_row_named(rows@.take(i as int), "docker"@)),
            forall|k: int| #[trigger]
                last_row_named(rows@.take(i as int), "docker"@) == Some(k) ==> 0 <= k < i,
        decreases rows.len() - i,
    {
        let row = &rows[i];
        proof {
            reveal_strlit("docker");
            reveal_strlit("azure");
            reveal_strlit("aws");
            assert("docker"@.len() == 6 && "azure"@.len() == 5 && "aws"@.len() == 3);
        }
        let usable = row.config.as_str().unicode_len() > 0 && row.artifactory.is_some();
        assert(rows@.take(i + 1).drop_last() =~= rows@.take(i as int));
        assert(rows@.take(i + 1).last() == rows@[i as int]);
        if same_text(row.name.as_str(), "azure") {
            azure = if usable {
                Some(i)
            } else {
                None
            };
        } else if same_text(row.name.as_str(), "aws") {
            aws = if usable {
                Some(i)
            } else {
                None
            };
        } else if same_text(row.name.as_str(), "docker") {
            docker = Some(i);
        }
        i = i + 1;
    }
    assert(rows@.take(rows.len() as int) =~= rows@);
    ProviderChoice { azure, aws, docker }
}


/// A container port opened in a container group.
#[derive(Clone, Debug)]
pub struct Port {
    pub port: u16,
}

/// A port the group's address exposes, with its protocol.
#[derive(Clone, Debug)]
pub struct IpPort {
    pub protocol: String,
    pub port: u16,
}

/// The address of a container group: its kind (`Public` or `Private`, the
/// `type` of the request) and ports.
#[derive(Clone, Debug)]
pub struct IpAddress {
    pub kind: String,
    pub ports: Vec<IpPort>,
}

/// Credentials for pulling the devbox image from a registry.
#[derive(Clone, Debug)]
pub struct ImageRegistryCredential {
    pub server: String,
    pub username: String,
    pub password: String,
}

/// The port every devbox container group opens.
pub fn devbox_port() -> (res: Port)
    ensures
        res.port == 80,
{
    Port { port: 80 }
}

/// The group address: the configured kind, `Public` by default, exposing TCP port 80.
pub fn group_address(address_type: &Option<String>) -> (res: IpAddress)
    ensures
        res.kind@ == (match address_type {
            Some(t) => t@,
            None => "Public"@,
        }),
        res.ports@.len() == 1,
        res.ports@[0].protocol@ == "tcp"@,
        res.ports@[0].port == 80,
{
    let kind = match address_type {
        Some(t) => t.clone(),
        None => String::from_str("Public"),
    };
    let mut ports = Vec::new();
    ports.push(IpPort { protocol: String::from_str("tcp"), port: 80 });
    IpAddress { kind: kind, ports }
}

/// The credentials for a registry; a missing user name or password is empty.
pub fn registry_credential(art: &Artifactory) -> (res: ImageRegistryCredential)
    ensures
        res.server@ == art.server@,
        res.username@ == (match art.username {
            Some(u) => u@,
            None => Seq::empty(),
        }),
        res.password@ == (match art.password {
            Some(p) => p@,
            None => Seq::empty(),
        }),
{
    ImageRegistryCredential {
        server: art.server.clone(),
        username: match &art.username {
            Some(u) => u.clone(),
            None => String::new(),
        },
        password: match &art.password {
            Some(p) => p.clone(),
            None => String::new(),
        },
    }
}

/// The operating system of a container group: the devbox's target platform, else `Linux`.
pub fn os_type(target_platform: &Option<String>) -> (res: String)
    ensures
        res@ == (match target_platform {
            Some(t) => t@,
            None => "Linux"@,
        }),
{
    match target_platform {
        Some(t) => t.clone(),
        None => String::from_str("Linux"),
    }
}

/// The Azure management address of a container group, for an API version.
pub open spec fn container_group_url_spec(
    subscription: Seq<char>,
    resource_group: Seq<char>,
    name: Seq<char>,
    api_version: Seq<char>,
) -> Seq<char> {
    "https://management.azure.com/subscriptions/"@ + subscription + "/resourceGroups/"@
        + resource_group + "/providers/Microsoft.ContainerInstance/containerGroups/"@ + name
        + "?api-version="@ + api_version
}

/// The Azure management address of the container group `name`.
pub fn container_group_url(subscription: &str, resource_group: &str, name: &str, api_version: &str) -> (res:
    String)
    ensures
        res@ == container_group_url_spec(subscription@, resource_group@, name@, api_version@),
{
    let mut s = String::from_str("https://management.azure.com/subscriptions/");
    s.append(subscription);
    s.append("/resourceGroups/");
    s.append(resource_group);
    s.append("/providers/Microsoft.ContainerInstance/containerGroups/");
    s.append(name);
    s.append("?api-version=");
    s.append(api_version);
    s
}

/// What to do after reading a container group's provisioning state.
#[derive(PartialEq, Eq, Structural, Clone, Copy, Debug)]
pub enum WaitStep {
    /// The group runs.
    Done,
    /// Provisioning failed or the group stopped.
    Failed,
    /// Ask again later.
    Wait,
}

/// `Running` ends the wait; `Failed`, `Stopped` and `Terminated` end it with an
/// error; any other state means waiting longer.
pub fn wait_step(state: &str) -> (res: WaitStep)
    ensures
        res == (if state@ == "Running"@ {
            WaitStep::Done
        } else if state@ == "Failed"@ || state@ == "Stopped"@ || state@ == "Terminated"@ {
            WaitStep::Failed
        } else {
            WaitStep::Wait
        }),
{
    if same_text(state, "Running") {
        WaitStep::Done
    } else if same_text(state, "Failed") || same_text(state, "Stopped") || same_text(
        state,
        "Terminated",
    ) {
        WaitStep::Failed
    } else {
        WaitStep::Wait
    }
}

/// The state a status reply reports: its provisioning state, else `notfound`.
pub fn reported_state(provisioning_state: Option<String>) -> (res: String)
    ensures
        res@ == (match provisioning_state {
            Some(s) => s@,
            None => "notfound"@,
        }),
{
    match provisioning_state {
        Some(s) => s,
        None => String::from_str("notfound"),
    }
}

/// The outcome of a creation request: `success` with the group id the reply
/// carries, else `notfound` with `Not Found`.
pub fn creation_outcome(id: Option<String>) -> (res: (String, String))
    ensures
        match id {
            Some(i) => res.0@ == "success"@ && res.1@ == i@,
            None => res.0@ == "notfound"@ && res.1@ == "Not Found"@,
        },
{
    match id {
        Some(i) => (String::from_str("success"), i),
        None => (String::from_str("notfound"), String::from_str("Not Found")),
    }
}

/// A provider configuration posted to the service.
#[derive(Clone, Debug)]
pub enum ProviderSetting {
    Azure(AzureProvider),
    Aws(AwsProvider),
    Docker(DockerProviderMod),
}

/// The providers the service runs with.
#[derive(Clone, Debug)]
pub struct ProviderSlots {
    pub docker: DockerProviderMod,
    pub azure: Option<AzureProvider>,
    pub aws: Option<AwsProvider>,
}

/// The providers after one is configured: the configured provider's slot
/// takes the new setting; the other slots stay as they were.
pub fn provider_slots(setting: ProviderSetting, current: ProviderSlots) -> (res: ProviderSlots)
    ensures
        match setting {
            ProviderSetting::Azure(a) => res.azure == Some(a) && res.aws == current.aws
                && res.docker == current.docker,
            ProviderSetting::Aws(a) => res.aws == Some(a) && res.azure == current.azure
                && res.docker == current.docker,
            ProviderSetting::Docker(d) => res.docker == d && res.azure == current.azure
                && res.aws == current.aws,
        },
{
    let ProviderSlots { docker, azure, aws } = current;
    match setting {
        ProviderSetting::Azure(a) => ProviderSlots { docker, azure: Some(a), aws },
        ProviderSetting::Aws(a) => ProviderSlots { docker, azure, aws: Some(a) },
        ProviderSetting::Docker(d) => ProviderSlots { docker: d, azure, aws },
    }
}

} // verus!
