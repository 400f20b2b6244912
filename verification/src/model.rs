use vstd::prelude::*;

use crate::metadata::optional_list;
use crate::order::{lemma_lex_transitive, lex_lt, string_lt, strictly_sorted};
use crate::text::same_text;

verus! {

/// How a devbox image is built from a Dockerfile.
#[derive(Clone, Debug)]
pub struct Build {
    pub dockerfile: String,
    pub context: Option<String>,
}

/// A mount requested by a feature.
#[derive(Clone, Debug)]
pub struct Mount {
    pub source: String,
    pub target: String,
    pub mount_type: String,
}

/// A lifecycle hook of a feature: one command line, an argument list, or a
/// group of named commands run in parallel.
#[derive(Clone, Debug)]
pub enum LifecycleCommand {
    Single(String),
    Multiple(Vec<String>),
    ParallelGroup(Vec<(String, String)>),
}

/// A value given for a feature option: a string, a boolean, or any other JSON
/// value, held as its JSON text.
#[derive(Clone, Debug)]
pub enum OptionValue {
    Text(String),
    Flag(bool),
    Json(String),
}

/// An option that a feature declares; its default is held as JSON text.
#[derive(Clone, Debug)]
pub struct FeatureOption {
    pub option_type: String,
    pub description: Option<String>,
    pub proposals: Option<Vec<String>>,
    pub enum_values: Option<Vec<String>>,
    pub default: Option<String>,
}

/// The contents of a feature's `devcontainer-feature.json`. Maps keep the
/// order of their keys; option values are held as [`OptionValue`]s and free
/// JSON as text.
#[derive(Clone, Debug)]
pub struct DevcontainerFeature {
    pub id: String,
    pub version: String,
    pub name: String,
    pub description: Option<String>,
    pub documentation_url: Option<String>,
    pub license_url: Option<String>,
    pub keywords: Option<Vec<String>>,
    pub options: Option<Vec<(String, FeatureOption)>>,
    pub container_env: Option<Vec<(String, String)>>,
    pub privileged: Option<bool>,
    pub init: Option<bool>,
    pub cap_add: Option<Vec<String>>,
    pub security_opt: Option<Vec<String>>,
    pub entrypoint: Option<String>,
    pub customizations: Option<Vec<(String, String)>>,
    pub depends_on: Option<Vec<(String, Vec<(String, OptionValue)>)>>,
    pub installs_after: Option<Vec<String>>,
    pub legacy_ids: Option<Vec<String>>,
    pub deprecated: Option<bool>,
    pub mounts: Option<Vec<Mount>>,
    pub on_create_command: Option<LifecycleCommand>,
    pub update_content_command: Option<LifecycleCommand>,
    pub post_create_command: Option<LifecycleCommand>,
    pub post_start_command: Option<LifecycleCommand>,
    pub post_attach_command: Option<LifecycleCommand>,
}

/// A devbox request: what image to start from or build, which features to
/// install, and how to run the container. Resource limits, which are
/// fractional numbers, are not held here.
#[derive(Clone, Debug)]
pub struct DevBox {
    pub name: String,
    pub image: String,
    pub build: Option<Build>,
    pub post_start_script: Option<Vec<String>>,
    pub start_on_create: Option<bool>,
    pub features: Option<Vec<(String, Vec<(String, OptionValue)>)>>,
    pub mounts: Vec<String>,
    pub remote_user: String,
    pub ports: Option<Vec<u16>>,
    pub target_platform: Option<String>,
    pub environment: Option<Vec<(String, String)>>,
}

impl DevBox {
    /// A devbox can be created when it names an image or a build.
    pub open spec fn valid(&self) -> bool {
        self.build is Some || self.image@.len() > 0
    }

    /// Whether the devbox can be created: it needs a build or an image name.
    pub fn is_valid(&self) -> (res: bool)
        ensures
            res == self.valid(),
    {
        self.build.is_some() || self.image.as_str().unicode_len() > 0
    }
}

/// The keys of a list of (key, value) entries.
pub open spec fn entry_keys<T>(entries: Seq<(String, T)>) -> Seq<Seq<char>> {
    Seq::new(entries.len(), |i: int| entries[i].0@)
}

/// No two entries share a key, as in a hash map.
pub open spec fn keys_distinct<T>(entries: Seq<(String, T)>) -> bool {
    forall|i: int, j: int| 0 <= i < j < entries.len() ==> #[trigger] entries[i].0@ != #[trigger] entries[j].0@
}

/// The keys are distinct and ascending, as an ordered map keeps them.
pub open spec fn keys_ascending<T>(entries: Seq<(String, T)>) -> bool {
    strictly_sorted(entry_keys(entries))
}

/// Whether no two entries share a key.
pub fn has_distinct_keys<T>(entries: &Vec<(String, T)>) -> (res: bool)
    ensures
        res == keys_distinct(entries@),
{
    let n = entries.len();
    let mut j: usize = 0;
    while j < n
        invariant
            j <= n,
            n == entries@.len(),
            forall|a: int, b: int| 0 <= a < b < j ==> #[trigger] entries@[a].0@ != #[trigger] entries@[b].0@,
        decreases n - j,
    {
        let mut i: usize = 0;
        while i < j
            invariant
                i <= j < n,
                n == entries@.len(),
                forall|a: int| 0 <= a < i ==> #[trigger] entries@[a].0@ != entries@[j as int].0@,
            decreases j - i,
        {
            if same_text(entries[i].0.as_str(), entries[j].0.as_str()) {
                return false;
            }
            i = i + 1;
        }
        j = j + 1;
    }
    true
}

/// Whether the keys are distinct and ascending.
pub fn has_ascending_keys<T>(entries: &Vec<(String, T)>) -> (res: bool)
    ensures
        res == keys_ascending(entries@),
{
    let n = entries.len();
    if n == 0 {
        assert(entry_keys(entries@) =~= Seq::<Seq<char>>::empty());
        return true;
    }
    let mut i: usize = 1;
    while i < n
        invariant
            1 <= i <= n,
            n == entries@.len(),
            strictly_sorted(entry_keys(entries@.take(i as int))),
        decreases n - i,
    {
        let ghost keys = entry_keys(entries@);
        if !string_lt(entries[i - 1].0.as_str(), entries[i].0.as_str()) {
            proof {
                assert(keys[i - 1] == entries@[i - 1].0@);
                assert(keys[i as int] == entries@[i as int].0@);
                assert(!strictly_sorted(keys));
            }
            return false;
        }
        proof {
            let prev = entry_keys(entries@.take(i as int));
            let next = entry_keys(entries@.take(i + 1));
            assert forall|a: int, b: int| 0 <= a < b < next.len() implies lex_lt(
                #[trigger] next[a],
                #[trigger] next[b],
            ) by {
                if b < i {
                    assert(next[a] == prev[a] && next[b] == prev[b]);
                } else if a < i - 1 {
                    assert(next[a] == prev[a] && prev[i - 1] == next[i - 1]);
                    lemma_lex_transitive(next[a], next[i - 1], next[b]);
                }
            }
        }
        i = i + 1;
    }
    assert(entries@.take(n as int) =~= entries@);
    true
}

/// The keys of a feature description are as its JSON object keeps them:
/// options, environment, customizations and dependencies each in ascending
/// key order without repeats, and each dependency's option values without
/// repeated names.
pub open spec fn feature_keys_well_formed(f: DevcontainerFeature) -> bool {
    &&& keys_ascending(optional_list(f.options))
    &&& keys_ascending(optional_list(f.container_env))
    &&& keys_ascending(optional_list(f.customizations))
    &&& keys_ascending(optional_list(f.depends_on))
    &&& forall|i: int|
        0 <= i < optional_list(f.depends_on).len() ==> keys_distinct(
            #[trigger] optional_list(f.depends_on)[i].1@,
        )
}

/// The keys of a devbox request are as its maps keep them: no feature named
/// twice, no option value named twice for a feature, no variable set twice.
pub open spec fn devbox_keys_well_formed(d: DevBox) -> bool {
    &&& keys_distinct(optional_list(d.features))
    &&& forall|i: int|
        0 <= i < optional_list(d.features).len() ==> keys_distinct(
            #[trigger] optional_list(d.features)[i].1@,
        )
    &&& keys_distinct(optional_list(d.environment))
}

/// Whether every list of entries in `list` has distinct keys.
fn all_distinct<T>(list: &Vec<(String, Vec<(String, T)>)>) -> (res: bool)
    ensures
        res == forall|i: int| 0 <= i < list@.len() ==> keys_distinct(#[trigger] list@[i].1@),
{
    let mut i: usize = 0;
    while i < list.len()
        invariant
            i <= list@.len(),
            forall|k: int| 0 <= k < i ==> keys_distinct(#[trigger] list@[k].1@),
        decreases list.len() - i,
    {
        if !has_distinct_keys(&list[i].1) {
            return false;
        }
        i = i + 1;
    }
    true
}

fn opt_ascending<T>(list: &Option<Vec<(String, T)>>) -> (res: bool)
    ensures
        res == keys_ascending(optional_list(*list)),
{
    match list {
        Some(v) => has_ascending_keys(v),
        None => {
            assert(entry_keys(Seq::<(String, T)>::empty()) =~= Seq::<Seq<char>>::empty());
            true
        },
    }
}

fn opt_distinct<T>(list: &Option<Vec<(String, T)>>) -> (res: bool)
    ensures
        res == keys_distinct(optional_list(*list)),
{
    match list {
        Some(v) => has_distinct_keys(v),
        None => true,
    }
}

fn opt_all_distinct<T>(list: &Option<Vec<(String, Vec<(String, T)>)>>) -> (res: bool)
    ensures
        res == forall|i: int|
            0 <= i < optional_list(*list).len() ==> keys_distinct(#[trigger] optional_list(*list)[i].1@),
{
    match list {
        Some(v) => {
            let r = all_distinct(v);
            assert(optional_list(*list) == v@);
            assert(r == forall|i: int|
                0 <= i < optional_list(*list).len() ==> keys_distinct(
                    #[trigger] optional_list(*list)[i].1@,
                ));
            r
        },
        None => true,
    }
}

impl DevcontainerFeature {
    /// Whether the description's keys are as its JSON object keeps them.
    pub fn keys_checked(&self) -> (res: bool)
        ensures
            res == feature_keys_well_formed(*self),
    {
        opt_ascending(&self.options) && opt_ascending(&self.container_env) && opt_ascending(
            &self.customizations,
        ) && opt_ascending(&self.depends_on) && opt_all_distinct(&self.depends_on)
    }
}

impl DevBox {
    /// Whether the request's keys are as its maps keep them.
    pub fn keys_checked(&self) -> (res: bool)
        ensures
            res == devbox_keys_well_formed(*self),
    {
        opt_distinct(&self.features) && opt_all_distinct(&self.features) && opt_distinct(
            &self.environment,
        )
    }
}

} // verus!
