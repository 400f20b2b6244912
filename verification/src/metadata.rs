use vstd::prelude::*;

use crate::model::{DevcontainerFeature, LifecycleCommand, Mount};
use crate::order::{lemma_strictly_sorted_unique, sorted_insert, strictly_sorted};

verus! {

/// The runtime options that all the features of a devbox ask of its container,
/// merged one feature at a time.
#[derive(Clone, Debug)]
pub struct MergedMetadata {
    pub init: bool,
    pub privileged: bool,
    pub cap_add: Vec<String>,
    pub security_opt: Vec<String>,
    pub entrypoints: Vec<String>,
    /// Mounts in the order they were requested; a later mount replaces an
    /// earlier one with the same target (see [`mount_table`]).
    pub mounts: Vec<Mount>,
    pub on_create_commands: Vec<LifecycleCommand>,
    pub update_content_commands: Vec<LifecycleCommand>,
    pub post_create_commands: Vec<LifecycleCommand>,
    pub post_start_commands: Vec<LifecycleCommand>,
    pub post_attach_commands: Vec<LifecycleCommand>,
    /// Environment entries in the order they were set; a later entry replaces
    /// an earlier one with the same name (see [`env_table`]).
    pub container_env: Vec<(String, String)>,
}

/// The mounts by target: for each target, the last mount that names it.
pub open spec fn mount_table(mounts: Seq<Mount>) -> Map<Seq<char>, Mount>
    decreases mounts.len(),
{
    if mounts.len() == 0 {
        Map::empty()
    } else {
        mount_table(mounts.drop_last()).insert(mounts.last().target@, mounts.last())
    }
}

/// The environment by name: for each name, the value of its last entry.
pub open spec fn env_table(env: Seq<(String, String)>) -> Map<Seq<char>, Seq<char>>
    decreases env.len(),
{
    if env.len() == 0 {
        Map::empty()
    } else {
        env_table(env.drop_last()).insert(env.last().0@, env.last().1@)
    }
}

/// `res` holds, sorted and without repeats, exactly the strings of `a` and `b`.
pub open spec fn is_sorted_union(res: Seq<Seq<char>>, a: Seq<Seq<char>>, b: Seq<Seq<char>>) -> bool {
    &&& strictly_sorted(res)
    &&& res.to_set() == a.to_set().union(b.to_set())
}

/// The list after a feature's optional additions: unchanged when the feature
/// gives none.
pub open spec fn with_optional<T>(list: Seq<T>, extra: Option<T>) -> Seq<T> {
    match extra {
        Some(x) => list.push(x),
        None => list,
    }
}

/// Adding an optional item keeps everything held and in place: the old list
/// is a prefix of the new one, which grows by one exactly when an item is
/// given, and that item comes last.
pub proof fn lemma_with_optional_appends<T>(list: Seq<T>, extra: Option<T>)
    ensures
        with_optional(list, extra).len() == list.len() + if extra is Some {
            1int
        } else {
            0int
        },
        with_optional(list, extra).subrange(0, list.len() as int) == list,
        extra is Some ==> with_optional(list, extra).last() == extra->0,
{
    assert(with_optional(list, extra).subrange(0, list.len() as int) =~= list);
}

/// What a feature's optional list adds: nothing when absent.
pub open spec fn optional_list<T>(list: Option<Vec<T>>) -> Seq<T> {
    match list {
        Some(v) => v@,
        None => Seq::empty(),
    }
}

/// The sorted union, without repeats, of the strings of `a` and `b`.
pub fn sorted_union(a: &Vec<String>, b: &Vec<String>) -> (res: Vec<String>)
    ensures
        is_sorted_union(res.deep_view(), a.deep_view(), b.deep_view()),
{
    let mut out: Vec<String> = Vec::new();
    let mut i: usize = 0;
    assert(a.deep_view().take(0).to_set() =~= Set::<Seq<char>>::empty());
    while i < a.len()
        invariant
            i <= a.len(),
            strictly_sorted(out.deep_view()),
            out.deep_view().to_set() == a.deep_view().take(i as int).to_set(),
        decreases a.len() - i,
    {
        sorted_insert(&mut out, a[i].clone());
        assert(a.deep_view().take(i + 1) =~= a.deep_view().take(i as int).push(a[i as int]@));
        proof {
            a.deep_view().take(i as int).lemma_push_to_set_commute(a[i as int]@);
        }
        i = i + 1;
    }
    assert(a.deep_view().take(a.len() as int) =~= a.deep_view());
    let mut j: usize = 0;
    assert(b.deep_view().take(0).to_set() =~= Set::<Seq<char>>::empty());
    while j < b.len()
        invariant
            j <= b.len(),
            strictly_sorted(out.deep_view()),
            out.deep_view().to_set() == a.deep_view().to_set().union(
                b.deep_view().take(j as int).to_set(),
            ),
        decreases b.len() - j,
    {
        sorted_insert(&mut out, b[j].clone());
        assert(b.deep_view().take(j + 1) =~= b.deep_view().take(j as int).push(b[j as int]@));
        proof {
            b.deep_view().take(j as int).lemma_push_to_set_commute(b[j as int]@);
        }
        assert(out.deep_view().to_set() =~= a.deep_view().to_set().union(
            b.deep_view().take(j + 1).to_set(),
        ));
        j = j + 1;
    }
    assert(b.deep_view().take(b.len() as int) =~= b.deep_view());
    out
}

impl MergedMetadata {
    /// Nothing merged yet: no flags set and every list empty.
    pub fn new() -> (res: Self)
        ensures
            !res.init,
            !res.privileged,
            res.cap_add@.len() == 0,
            res.security_opt@.len() == 0,
            res.entrypoints@.len() == 0,
            res.mounts@.len() == 0,
            res.on_create_commands@.len() == 0,
            res.update_content_commands@.len() == 0,
            res.post_create_commands@.len() == 0,
            res.post_start_commands@.len() == 0,
            res.post_attach_commands@.len() == 0,
            res.container_env@.len() == 0,
    {
        MergedMetadata {
            init: false,
            privileged: false,
            cap_add: Vec::new(),
            security_opt: Vec::new(),
            entrypoints: Vec::new(),
            mounts: Vec::new(),
            on_create_commands: Vec::new(),
            update_content_commands: Vec::new(),
            post_create_commands: Vec::new(),
            post_start_commands: Vec::new(),
            post_attach_commands: Vec::new(),
            container_env: Vec::new(),
        }
    }

    /// Merges what one feature asks of the container: its flags are or-ed in,
    /// its capabilities and security options joined to the sorted sets held so
    /// far, its entrypoint and lifecycle commands appended, and its mounts and
    /// environment entries appended after the earlier ones, which they
    /// override by target or name.
    pub fn merge_feature(&mut self, feature: DevcontainerFeature)
        ensures
            final(self).init == (old(self).init || feature.init == Some(true)),
            final(self).privileged == (old(self).privileged || feature.privileged == Some(true)),
            match feature.cap_add {
                Some(caps) => is_sorted_union(
                    final(self).cap_add.deep_view(),
                    old(self).cap_add.deep_view(),
                    caps.deep_view(),
                ),
                None => final(self).cap_add == old(self).cap_add,
            },
            match feature.security_opt {
                Some(opts) => is_sorted_union(
                    final(self).security_opt.deep_view(),
                    old(self).security_opt.deep_view(),
                    opts.deep_view(),
                ),
                None => final(self).security_opt == old(self).security_opt,
            },
            final(self).entrypoints@ == with_optional(old(self).entrypoints@, feature.entrypoint),
            final(self).entrypoints@.subrange(0, old(self).entrypoints@.len() as int) == old(
                self,
            ).entrypoints@,
            final(self).entrypoints@.len() == old(self).entrypoints@.len() + if feature.entrypoint is Some {
                1int
            } else {
                0int
            },
            final(self).on_create_commands@.subrange(0, old(self).on_create_commands@.len() as int)
                == old(self).on_create_commands@,
            final(self).on_create_commands@.len() == old(self).on_create_commands@.len()
                + if feature.on_create_command is Some {
                1int
            } else {
                0int
            },
            final(self).update_content_commands@.subrange(
                0,
                old(self).update_content_commands@.len() as int,
            ) == old(self).update_content_commands@,
            final(self).update_content_commands@.len() == old(self).update_content_commands@.len()
                + if feature.update_content_command is Some {
                1int
            } else {
                0int
            },
            final(self).post_create_commands@.subrange(0, old(self).post_create_commands@.len() as int)
                == old(self).post_create_commands@,
            final(self).post_create_commands@.len() == old(self).post_create_commands@.len()
                + if feature.post_create_command is Some {
                1int
            } else {
                0int
            },
            final(self).post_start_commands@.subrange(0, old(self).post_start_commands@.len() as int)
                == old(self).post_start_commands@,
            final(self).post_start_commands@.len() == old(self).post_start_commands@.len()
                + if feature.post_start_command is Some {
                1int
            } else {
                0int
            },
            final(self).post_attach_commands@.subrange(0, old(self).post_attach_commands@.len() as int)
                == old(self).post_attach_commands@,
            final(self).post_attach_commands@.len() == old(self).post_attach_commands@.len()
                + if feature.post_attach_command is Some {
                1int
            } else {
                0int
            },
            final(self).mounts@ == old(self).mounts@ + optional_list(feature.mounts),
            final(self).on_create_commands@ == with_optional(
                old(self).on_create_commands@,
                feature.on_create_command,
            ),
            final(self).update_content_commands@ == with_optional(
                old(self).update_content_commands@,
                feature.update_content_command,
            ),
            final(self).post_create_commands@ == with_optional(
                old(self).post_create_commands@,
                feature.post_create_command,
            ),
            final(self).post_start_commands@ == with_optional(
                old(self).post_start_commands@,
                feature.post_start_command,
            ),
            final(self).post_attach_commands@ == with_optional(
                old(self).post_attach_commands@,
                feature.post_attach_command,
            ),
            final(self).container_env@ == old(self).container_env@ + optional_list(
                feature.container_env,
            ),
    {
        let DevcontainerFeature {
            init,
            privileged,
            cap_add,
            security_opt,
            entrypoint,
            mounts,
            on_create_command,
            update_content_command,
            post_create_command,
            post_start_command,
            post_attach_command,
            container_env,
            ..
        } = feature;
        self.init = self.init || init == Some(true);
        self.privileged = self.privileged || privileged == Some(true);
        if let Some(caps) = cap_add {
            self.cap_add = sorted_union(&self.cap_add, &caps);
        }
        if let Some(opts) = security_opt {
            self.security_opt = sorted_union(&self.security_opt, &opts);
        }
        proof {
            lemma_with_optional_appends(self.entrypoints@, entrypoint);
            lemma_with_optional_appends(self.on_create_commands@, on_create_command);
            lemma_with_optional_appends(self.update_content_commands@, update_content_command);
            lemma_with_optional_appends(self.post_create_commands@, post_create_command);
            lemma_with_optional_appends(self.post_start_commands@, post_start_command);
            lemma_with_optional_appends(self.post_attach_commands@, post_attach_command);
        }
        if let Some(ep) = entrypoint {
            self.entrypoints.push(ep);
        }
        if let Some(mut ms) = mounts {
            self.mounts.append(&mut ms);
        }
        if let Some(c) = on_create_command {
            self.on_create_commands.push(c);
        }
        if let Some(c) = update_content_command {
            self.update_content_commands.push(c);
        }
        if let Some(c) = post_create_command {
            self.post_create_commands.push(c);
        }
        if let Some(c) = post_start_command {
            self.post_start_commands.push(c);
        }
        if let Some(c) = post_attach_command {
            self.post_attach_commands.push(c);
        }
        if let Some(mut env) = container_env {
            self.container_env.append(&mut env);
        }
    }
}

/// Merging the same capabilities again changes nothing.
pub proof fn lemma_sorted_union_idempotent(
    held: Seq<Seq<char>>,
    merged: Seq<Seq<char>>,
    again: Seq<Seq<char>>,
    extra: Seq<Seq<char>>,
)
    requires
        is_sorted_union(merged, held, extra),
        is_sorted_union(again, merged, extra),
    ensures
        again == merged,
{
    assert(again.to_set() =~= merged.to_set());
    lemma_strictly_sorted_unique(again, merged);
}

/// The capabilities held after merging two features do not depend on the
/// order the features are merged in.
pub proof fn lemma_sorted_union_order_independent(
    held: Seq<Seq<char>>,
    first: Seq<Seq<char>>,
    second: Seq<Seq<char>>,
    after_first: Seq<Seq<char>>,
    after_both: Seq<Seq<char>>,
    after_second: Seq<Seq<char>>,
    after_both_swapped: Seq<Seq<char>>,
)
    requires
        is_sorted_union(after_first, held, first),
        is_sorted_union(after_both, after_first, second),
        is_sorted_union(after_second, held, second),
        is_sorted_union(after_both_swapped, after_second, first),
    ensures
        after_both == after_both_swapped,
{
    assert(after_both.to_set() =~= after_both_swapped.to_set());
    lemma_strictly_sorted_unique(after_both, after_both_swapped);
}

/// Mounts appended later override earlier ones with the same target: the
/// table of the whole list is the table of the earlier part updated by the
/// table of the later part.
pub proof fn lemma_mount_table_append(a: Seq<Mount>, b: Seq<Mount>)
    ensures
        mount_table(a + b) == mount_table(a).union_prefer_right(mount_table(b)),
    decreases b.len(),
{
    if b.len() == 0 {
        assert(a + b =~= a);
        assert(mount_table(a).union_prefer_right(mount_table(b)) =~= mount_table(a));
    } else {
        lemma_mount_table_append(a, b.drop_last());
        assert((a + b).drop_last() =~= a + b.drop_last());
        assert(mount_table(a + b) =~= mount_table(a).union_prefer_right(mount_table(b)));
    }
}

/// Environment entries appended later override earlier ones with the same name.
pub proof fn lemma_env_table_append(a: Seq<(String, String)>, b: Seq<(String, String)>)
    ensures
        env_table(a + b) == env_table(a).union_prefer_right(env_table(b)),
    decreases b.len(),
{
    if b.len() == 0 {
        assert(a + b =~= a);
        assert(env_table(a).union_prefer_right(env_table(b)) =~= env_table(a));
    } else {
        lemma_env_table_append(a, b.drop_last());
        assert((a + b).drop_last() =~= a + b.drop_last());
        assert(env_table(a + b) =~= env_table(a).union_prefer_right(env_table(b)));
    }
}

} // verus!
