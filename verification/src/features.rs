use vstd::prelude::*;

use crate::metadata::optional_list;
use crate::model::{DevcontainerFeature, FeatureOption, OptionValue};
use crate::text::{after_last, last_segment, same_text};

verus! {

/// Named result of `str::to_uppercase`: the Unicode upper-case mapping of a text.
pub uninterp spec fn uppercase(s: Seq<char>) -> Seq<char>;

/// Calls `str::to_uppercase`. Claimed: the result is `uppercase(s@)`, a function
/// of the text alone; nothing more is stated of the Unicode mapping.
#[verifier::external_body]
fn to_upper(s: &str) -> (res: String)
    ensures
        res@ == uppercase(s@),
{
    s.to_uppercase()
}

/// The value given for `key`: the first entry with that name.
pub open spec fn lookup(params: Seq<(String, OptionValue)>, key: Seq<char>) -> Option<OptionValue>
    decreases params.len(),
{
    if params.len() == 0 {
        None
    } else if params[0].0@ == key {
        Some(params[0].1)
    } else {
        lookup(params.drop_first(), key)
    }
}

/// How an option value reads in an `ENV` line: a string as itself, a boolean
/// as `true` or `false`, any other value as its JSON text.
pub open spec fn value_text(v: OptionValue) -> Seq<char> {
    match v {
        OptionValue::Text(s) => s@,
        OptionValue::Flag(b) => if b {
            "true"@
        } else {
            "false"@
        },
        OptionValue::Json(t) => t@,
    }
}

/// The JSON text of an option's default, `null` when it has none.
pub open spec fn default_text(opt: FeatureOption) -> Seq<char> {
    match opt.default {
        Some(t) => t@,
        None => "null"@,
    }
}

/// `ENV NAME=value` for an option: the given value, else the option's default.
pub open spec fn option_env_line(
    name: Seq<char>,
    opt: FeatureOption,
    params: Seq<(String, OptionValue)>,
) -> Seq<char> {
    "ENV "@ + uppercase(name) + "="@ + match lookup(params, name) {
        Some(v) => value_text(v),
        None => default_text(opt),
    }
}

/// `ENV NAME=value` for a container environment entry.
pub open spec fn env_line(name: Seq<char>, value: Seq<char>) -> Seq<char> {
    "ENV "@ + uppercase(name) + "="@ + value
}

/// `ENV NAME=''`, which clears an option after the feature is installed.
pub open spec fn reset_line(name: Seq<char>) -> Seq<char> {
    "ENV "@ + uppercase(name) + "=''"@
}

/// The line that copies a feature's files into the image.
pub open spec fn copy_line(id: Seq<char>) -> Seq<char> {
    "COPY ./features/"@ + id + " /features/"@ + id
}

/// The line that runs a feature's install script.
pub open spec fn run_line(id: Seq<char>) -> Seq<char> {
    "RUN cd /features/"@ + after_last(id, '/') + "/ && bash ./install.sh"@
}

/// The Dockerfile lines that install a feature with the given option values:
/// one `ENV` per option, one per container environment entry, the copy and
/// install lines, then one `ENV` per option that clears it again.
pub open spec fn feature_commands_spec(
    feature: DevcontainerFeature,
    params: Seq<(String, OptionValue)>,
) -> Seq<Seq<char>> {
    let opts = optional_list(feature.options);
    let env = optional_list(feature.container_env);
    Seq::new(opts.len(), |i: int| option_env_line(opts[i].0@, opts[i].1, params)) + Seq::new(
        env.len(),
        |i: int| env_line(env[i].0@, env[i].1@),
    ) + seq![copy_line(feature.id@), run_line(feature.id@)] + Seq::new(
        opts.len(),
        |i: int| reset_line(opts[i].0@),
    )
}

proof fn lemma_lookup_first(params: Seq<(String, OptionValue)>, key: Seq<char>, k: int)
    requires
        0 <= k < params.len(),
        params[k].0@ == key,
        forall|j: int| 0 <= j < k ==> #[trigger] params[j].0@ != key,
    ensures
        lookup(params, key) == Some(params[k].1),
    decreases k,
{
    if k > 0 {
        let rest = params.drop_first();
        assert forall|j: int| 0 <= j < k - 1 implies #[trigger] rest[j].0@ != key by {
            assert(rest[j] == params[j + 1]);
        }
        lemma_lookup_first(rest, key, k - 1);
    }
}

proof fn lemma_lookup_none(params: Seq<(String, OptionValue)>, key: Seq<char>)
    requires
        forall|j: int| 0 <= j < params.len() ==> #[trigger] params[j].0@ != key,
    ensures
        lookup(params, key) is None,
    decreases params.len(),
{
    if params.len() > 0 {
        let rest = params.drop_first();
        assert forall|j: int| 0 <= j < rest.len() implies #[trigger] rest[j].0@ != key by {
            assert(rest[j] == params[j + 1]);
        }
        lemma_lookup_none(rest, key);
    }
}

/// An option asked for is written with the value of the first parameter of
/// its name: `ENV NAME=` followed by a string as itself, a flag as `true` or
/// `false`, any other value as its JSON text.
pub proof fn lemma_option_line_given(
    feature: DevcontainerFeature,
    params: Seq<(String, OptionValue)>,
    i: int,
    k: int,
)
    requires
        0 <= i < optional_list(feature.options).len(),
        0 <= k < params.len(),
        params[k].0@ == optional_list(feature.options)[i].0@,
        forall|j: int| 0 <= j < k ==> #[trigger] params[j].0@ != optional_list(feature.options)[i].0@,
    ensures
        feature_commands_spec(feature, params)[i] == "ENV "@ + uppercase(
            optional_list(feature.options)[i].0@,
        ) + "="@ + match params[k].1 {
            OptionValue::Text(s) => s@,
            OptionValue::Flag(true) => "true"@,
            OptionValue::Flag(false) => "false"@,
            OptionValue::Json(t) => t@,
        },
{
    lemma_lookup_first(params, optional_list(feature.options)[i].0@, k);
}

/// An option not asked for is written with its default's JSON text, `null`
/// when it has none.
pub proof fn lemma_option_line_default(feature: DevcontainerFeature, params: Seq<(String, OptionValue)>, i: int)
    requires
        0 <= i < optional_list(feature.options).len(),
        forall|j: int| 0 <= j < params.len() ==> #[trigger] params[j].0@ != optional_list(feature.options)[i].0@,
    ensures
        feature_commands_spec(feature, params)[i] == "ENV "@ + uppercase(
            optional_list(feature.options)[i].0@,
        ) + "="@ + match optional_list(feature.options)[i].1.default {
            Some(t) => t@,
            None => "null"@,
        },
{
    lemma_lookup_none(params, optional_list(feature.options)[i].0@);
}

/// The layout of a feature's lines: one per option, then one per environment
/// entry (`ENV NAME=value`), then the copy and install lines, then one
/// clearing line per option (`ENV NAME=''`).
pub proof fn lemma_feature_lines_layout(feature: DevcontainerFeature, params: Seq<(String, OptionValue)>)
    ensures
        ({
            let lines = feature_commands_spec(feature, params);
            let opts = optional_list(feature.options);
            let env = optional_list(feature.container_env);
            &&& lines.len() == 2 * opts.len() + env.len() + 2
            &&& forall|j: int| 0 <= j < env.len() ==> #[trigger] lines[opts.len() + j] == "ENV "@
                + uppercase(env[j].0@) + "="@ + env[j].1@
            &&& lines[(opts.len() + env.len()) as int] == "COPY ./features/"@ + feature.id@ + " /features/"@
                + feature.id@
            &&& lines[(opts.len() + env.len() + 1) as int] == "RUN cd /features/"@ + after_last(feature.id@, '/')
                + "/ && bash ./install.sh"@
            &&& forall|m: int| 0 <= m < opts.len() ==> #[trigger] lines[opts.len() + env.len() + 2 + m]
                == "ENV "@ + uppercase(opts[m].0@) + "=''"@
        }),
{
}

/// The index of the first parameter named `key`.
fn find_param(params: &Vec<(String, OptionValue)>, key: &str) -> (res: Option<usize>)
    ensures
        match res {
            Some(i) => i < params@.len() && lookup(params@, key@) == Some(params@[i as int].1),
            None => lookup(params@, key@) is None,
        },
{
    let mut i: usize = 0;
    assert(params@.skip(0) =~= params@);
    while i < params.len()
        invariant
            i <= params@.len(),
            lookup(params@, key@) == lookup(params@.skip(i as int), key@),
        decreases params.len() - i,
    {
        if same_text(params[i].0.as_str(), key) {
            return Some(i);
        }
        assert(params@.skip(i as int).drop_first() =~= params@.skip(i + 1));
        i = i + 1;
    }
    None
}

/// `a` followed by `b` and `c`.
fn concat3(a: &str, b: &str, c: &str) -> (res: String)
    ensures
        res@ == a@ + b@ + c@,
{
    let mut s = String::from_str(a);
    s.append(b);
    s.append(c);
    s
}

/// `a` followed by `b`, `c` and `d`.
fn concat4(a: &str, b: &str, c: &str, d: &str) -> (res: String)
    ensures
        res@ == a@ + b@ + c@ + d@,
{
    let mut s = String::from_str(a);
    s.append(b);
    s.append(c);
    s.append(d);
    s
}

/// The text of a given option value.
fn value_string(v: &OptionValue) -> (res: String)
    ensures
        res@ == value_text(*v),
        match *v {
            OptionValue::Text(s) => res@ == s@,
            OptionValue::Flag(true) => res@ == "true"@,
            OptionValue::Flag(false) => res@ == "false"@,
            OptionValue::Json(t) => res@ == t@,
        },
{
    match v {
        OptionValue::Text(s) => s.clone(),
        OptionValue::Flag(b) => if *b {
            String::from_str("true")
        } else {
            String::from_str("false")
        },
        OptionValue::Json(t) => t.clone(),
    }
}

/// The Dockerfile lines that install `feature` with the option values `params`
/// (what the service keeps, per feature id, before ordering the features).
pub fn feature_commands(feature: &DevcontainerFeature, params: &Vec<(String, OptionValue)>) -> (res:
    Vec<String>)
    ensures
        res.deep_view() == feature_commands_spec(*feature, params@),
{
    let ghost opts = optional_list(feature.options);
    let ghost env = optional_list(feature.container_env);
    let empty_opts: Vec<(String, FeatureOption)> = Vec::new();
    let empty_env: Vec<(String, String)> = Vec::new();
    let options = match &feature.options {
        Some(o) => o,
        None => &empty_opts,
    };
    let container_env = match &feature.container_env {
        Some(e) => e,
        None => &empty_env,
    };
    assert(options@ == opts);
    assert(container_env@ == env);
    let mut out: Vec<String> = Vec::new();
    let mut i: usize = 0;
    while i < options.len()
        invariant
            i <= options@.len(),
            options@ == opts,
            out.deep_view() =~= Seq::new(
                i as nat,
                |k: int| option_env_line(opts[k].0@, opts[k].1, params@),
            ),
        decreases options.len() - i,
    {
        let name = options[i].0.as_str();
        let upper = to_upper(name);
        let value = match find_param(params, name) {
            Some(j) => value_string(&params[j].1),
            None => match &options[i].1.default {
                Some(t) => t.clone(),
                None => String::from_str("null"),
            },
        };
        let line = concat4("ENV ", upper.as_str(), "=", value.as_str());
        assert(line@ == option_env_line(opts[i as int].0@, opts[i as int].1, params@));
        let ghost prev = out.deep_view();
        out.push(line);
        assert(out.deep_view() =~= prev.push(option_env_line(opts[i as int].0@, opts[i as int].1, params@)));
        i = i + 1;
    }
    let ghost first = out.deep_view();
    let mut j: usize = 0;
    while j < container_env.len()
        invariant
            j <= container_env@.len(),
            container_env@ == env,
            out.deep_view() =~= first + Seq::new(j as nat, |k: int| env_line(env[k].0@, env[k].1@)),
        decreases container_env.len() - j,
    {
        let upper = to_upper(container_env[j].0.as_str());
        let line = concat4("ENV ", upper.as_str(), "=", container_env[j].1.as_str());
        let ghost prev = out.deep_view();
        out.push(line);
        assert(out.deep_view() =~= prev.push(env_line(env[j as int].0@, env[j as int].1@)));
        j = j + 1;
    }
    let id = feature.id.as_str();
    let ghost prev = out.deep_view();
    out.push(concat4("COPY ./features/", id, " /features/", id));
    let tail = last_segment(id);
    out.push(concat3("RUN cd /features/", tail.as_str(), "/ && bash ./install.sh"));
    let ghost second = out.deep_view();
    assert(second =~= prev + seq![copy_line(feature.id@), run_line(feature.id@)]);
    let mut k: usize = 0;
    while k < options.len()
        invariant
            k <= options@.len(),
            options@ == opts,
            out.deep_view() =~= second + Seq::new(k as nat, |m: int| reset_line(opts[m].0@)),
        decreases options.len() - k,
    {
        let upper = to_upper(options[k].0.as_str());
        let line = concat3("ENV ", upper.as_str(), "=''");
        let ghost prev = out.deep_view();
        out.push(line);
        assert(out.deep_view() =~= prev.push(reset_line(opts[k as int].0@)));
        k = k + 1;
    }
    assert(out.deep_view() =~= feature_commands_spec(*feature, params@));
    out
}


/// The install lines of each feature, by feature id. A later entry for an id
/// replaces an earlier one, as a map insert does.
#[derive(Clone, Debug)]
pub struct CommandTable {
    pub entries: Vec<(String, Vec<String>)>,
}

/// The table the entries stand for: each id maps to the lines of its last entry.
pub open spec fn command_table(entries: Seq<(String, Vec<String>)>) -> Map<
    Seq<char>,
    Seq<Seq<char>>,
>
    decreases entries.len(),
{
    if entries.len() == 0 {
        Map::empty()
    } else {
        command_table(entries.drop_last()).insert(
            entries.last().0@,
            entries.last().1.deep_view(),
        )
    }
}

impl CommandTable {
    /// The table as a map from feature id to install lines.
    pub open spec fn view(&self) -> Map<Seq<char>, Seq<Seq<char>>> {
        command_table(self.entries@)
    }

    /// An empty table.
    pub fn new() -> (res: Self)
        ensures
            res.view() == Map::<Seq<char>, Seq<Seq<char>>>::empty(),
    {
        CommandTable { entries: Vec::new() }
    }

    /// Sets the install lines of feature `id`, replacing any it had.
    pub fn insert(&mut self, id: String, commands: Vec<String>)
        ensures
            final(self).view() == old(self).view().insert(id@, commands.deep_view()),
    {
        let ghost before = self.entries@;
        self.entries.push((id, commands));
        assert(self.entries@.drop_last() =~= before);
    }

    /// Removes feature `id` from the table and hands back its install lines,
    /// if it had any.
    pub fn take(&mut self, id: &str) -> (res: Option<Vec<String>>)
        ensures
            final(self).view() == old(self).view().remove(id@),
            match res {
                Some(cmds) => old(self).view().contains_key(id@) && cmds.deep_view() == old(
                    self,
                ).view()[id@],
                None => !old(self).view().contains_key(id@),
            },
    {
        let ghost all = self.entries@;
        let mut kept: Vec<(String, Vec<String>)> = Vec::new();
        let mut found: Option<Vec<String>> = None;
        let mut i: usize = 0;
        let n = self.entries.len();
        assert(all.take(0) =~= Seq::<(String, Vec<String>)>::empty());
        assert(all.skip(0) =~= all);
        while self.entries.len() > 0
            invariant
                i <= n,
                n == all.len(),
                self.entries@ == all.skip(i as int),
                command_table(kept@) == command_table(all.take(i as int)).remove(id@),
                match found {
                    Some(cmds) => command_table(all.take(i as int)).contains_key(id@)
                        && cmds.deep_view() == command_table(all.take(i as int))[id@],
                    None => !command_table(all.take(i as int)).contains_key(id@),
                },
            decreases self.entries.len(),
        {
            let entry = self.entries.remove(0);
            assert(all.skip(i as int).drop_first() =~= all.skip(i + 1));
            assert(all.take(i + 1).drop_last() =~= all.take(i as int));
            assert(all.take(i + 1).last() == entry);
            let ghost before_kept = kept@;
            if same_text(entry.0.as_str(), id) {
                found = Some(entry.1);
                assert(command_table(all.take(i + 1)).remove(id@) =~= command_table(
                    all.take(i as int),
                ).remove(id@));
            } else {
                kept.push(entry);
                assert(kept@.drop_last() =~= before_kept);
                assert(command_table(kept@) =~= command_table(all.take(i + 1)).remove(id@));
            }
            i = i + 1;
        }
        assert(all.take(n as int) =~= all);
        self.entries = kept;
        found
    }
}

/// A feature in install order, with the option values it was asked for and
/// whether something required it.
#[derive(Clone, Debug)]
pub struct FeatureNode {
    pub name: String,
    pub params: Vec<(String, OptionValue)>,
    pub required: bool,
}

/// The lines every feature-based Dockerfile starts with.
pub open spec fn prelude_lines() -> Seq<Seq<char>> {
    seq![
        "RUN useradd -m -d /home/vscode vscode"@,
        "RUN touch home/vscode/.zshrc"@,
        "RUN mkdir /features"@,
    ]
}

/// The install lines taken from `table` for the features named in `names`,
/// latest first; a feature's lines are emitted once, at its latest mention.
/// A name finds its lines under its last path segment.
pub open spec fn emitted(names: Seq<Seq<char>>, table: Map<Seq<char>, Seq<Seq<char>>>) -> Seq<
    Seq<char>,
>
    decreases names.len(),
{
    if names.len() == 0 {
        Seq::empty()
    } else {
        let key = after_last(names.last(), '/');
        if table.contains_key(key) {
            table[key] + emitted(names.drop_last(), table.remove(key))
        } else {
            emitted(names.drop_last(), table)
        }
    }
}

/// A feature loaded twice in a row is installed once: its lines are taken at
/// the later mention and the earlier mention finds none.
pub proof fn lemma_repeated_feature_installed_once(
    names: Seq<Seq<char>>,
    name: Seq<char>,
    table: Map<Seq<char>, Seq<Seq<char>>>,
)
    ensures
        emitted(names.push(name).push(name), table) == emitted(names.push(name), table),
{
    let key = after_last(name, '/');
    let twice = names.push(name).push(name);
    assert(twice.drop_last() =~= names.push(name));
    assert(names.push(name).drop_last() =~= names);
    assert(twice.last() == name);
    assert(names.push(name).last() == name);
    if table.contains_key(key) {
        assert(!table.remove(key).contains_key(key));
        assert(emitted(names.push(name), table.remove(key)) == emitted(names, table.remove(key)));
        assert(emitted(twice, table) == table[key] + emitted(names.push(name), table.remove(key)));
        assert(emitted(names.push(name), table) == table[key] + emitted(names, table.remove(key)));
    } else {
        assert(emitted(twice, table) == emitted(names.push(name), table));
    }
}

/// The key under which the `i`-th name finds its install lines: its last path segment.
pub open spec fn name_key(names: Seq<Seq<char>>, i: int) -> Seq<char> {
    after_last(names[i], '/')
}

/// Whether some name has key `k`.
pub open spec fn mentions(names: Seq<Seq<char>>, k: Seq<char>) -> bool {
    exists|i: int| 0 <= i < names.len() && #[trigger] name_key(names, i) == k
}

/// The lines of a feature that is mentioned and has lines are among those emitted.
proof fn lemma_block_emitted(names: Seq<Seq<char>>, table: Map<Seq<char>, Seq<Seq<char>>>, k: Seq<char>) -> (parts: (
    Seq<Seq<char>>,
    Seq<Seq<char>>,
))
    requires
        mentions(names, k),
        table.contains_key(k),
    ensures
        emitted(names, table) == parts.0 + table[k] + parts.1,
    decreases names.len(),
{
    let n = names.len() - 1;
    let key = after_last(names.last(), '/');
    let rest = names.drop_last();
    assert(name_key(names, n) == key);
    if key == k {
        assert(emitted(names, table) == table[key] + emitted(rest, table.remove(key)));
        assert(emitted(names, table) =~= Seq::empty() + table[k] + emitted(rest, table.remove(key)));
        (Seq::empty(), emitted(rest, table.remove(key)))
    } else {
        let i = choose|i: int| 0 <= i < names.len() && #[trigger] name_key(names, i) == k;
        assert(name_key(rest, i) == name_key(names, i));
        let next = if table.contains_key(key) {
            table.remove(key)
        } else {
            table
        };
        assert(next.contains_key(k) && next[k] == table[k]);
        let (x, y) = lemma_block_emitted(rest, next, k);
        if table.contains_key(key) {
            assert(emitted(names, table) =~= (table[key] + x) + table[k] + y);
            (table[key] + x, y)
        } else {
            (x, y)
        }
    }
}

/// A feature whose latest mention comes after every mention of another is
/// installed first: when `kb` is mentioned at `p` and `ka` is mentioned only
/// before `p`, the lines of `kb` come before those of `ka` in what is emitted.
pub proof fn lemma_later_mention_installed_first(
    names: Seq<Seq<char>>,
    table: Map<Seq<char>, Seq<Seq<char>>>,
    ka: Seq<char>,
    kb: Seq<char>,
    p: int,
) -> (parts: (Seq<Seq<char>>, Seq<Seq<char>>, Seq<Seq<char>>))
    requires
        0 <= p < names.len(),
        name_key(names, p) == kb,
        mentions(names, ka),
        forall|q: int| p < q < names.len() ==> #[trigger] name_key(names, q) != ka,
        ka != kb,
        table.contains_key(ka),
        table.contains_key(kb),
    ensures
        emitted(names, table) == parts.0 + table[kb] + parts.1 + table[ka] + parts.2,
    decreases names.len(),
{
    let n = names.len() - 1;
    let key = after_last(names.last(), '/');
    let rest = names.drop_last();
    assert(name_key(names, n) == key);
    let r = choose|i: int| 0 <= i < names.len() && #[trigger] name_key(names, i) == ka;
    if key == kb {
        let table2 = table.remove(kb);
        assert(table2.contains_key(ka) && table2[ka] == table[ka]);
        assert(r < n);
        assert(name_key(rest, r) == ka);
        let (y, z) = lemma_block_emitted(rest, table2, ka);
        assert(emitted(names, table) == table[kb] + emitted(rest, table2));
        assert(emitted(names, table) =~= Seq::empty() + table[kb] + y + table[ka] + z);
        (Seq::empty(), y, z)
    } else {
        assert(p < n);
        assert(key != ka);
        assert(r < n);
        assert(name_key(rest, r) == ka);
        assert(name_key(rest, p) == kb);
        assert forall|q: int| p < q < rest.len() implies #[trigger] name_key(rest, q) != ka by {
            assert(name_key(rest, q) == name_key(names, q));
        }
        let next = if table.contains_key(key) {
            table.remove(key)
        } else {
            table
        };
        assert(next.contains_key(ka) && next[ka] == table[ka]);
        assert(next.contains_key(kb) && next[kb] == table[kb]);
        let (x, y, z) = lemma_later_mention_installed_first(rest, next, ka, kb, p);
        if table.contains_key(key) {
            assert(emitted(names, table) =~= (table[key] + x) + table[kb] + y + table[ka] + z);
            (table[key] + x, y, z)
        } else {
            (x, y, z)
        }
    }
}

/// The names of the features in install order.
pub open spec fn node_names(order: Seq<FeatureNode>) -> Seq<Seq<char>> {
    Seq::new(order.len(), |i: int| order[i].name@)
}

/// The feature part of the Dockerfile: the prelude, then the install lines of
/// the features from the last one loaded to the first, each feature once.
pub fn dockerfile_commands(order: &Vec<FeatureNode>, table: CommandTable) -> (res: Vec<String>)
    ensures
        res.deep_view() == prelude_lines() + emitted(node_names(order@), table.view()),
{
    let mut table = table;
    let ghost names = node_names(order@);
    let ghost start = table.view();
    let mut out: Vec<String> = Vec::new();
    out.push(String::from_str("RUN useradd -m -d /home/vscode vscode"));
    out.push(String::from_str("RUN touch home/vscode/.zshrc"));
    out.push(String::from_str("RUN mkdir /features"));
    assert(out.deep_view() =~= prelude_lines());
    let mut i = order.len();
    assert(names.take(i as int) =~= names);
    while i > 0
        invariant
            i <= order@.len(),
            names == node_names(order@),
            prelude_lines() + emitted(names, start) == out.deep_view() + emitted(
                names.take(i as int),
                table.view(),
            ),
        decreases i,
    {
        let ghost pre = names.take(i as int);
        assert(pre.drop_last() =~= names.take(i - 1));
        assert(pre.last() == order@[i - 1].name@);
        let key = last_segment(order[i - 1].name.as_str());
        let ghost before = out.deep_view();
        let ghost t = table.view();
        match table.take(key.as_str()) {
            Some(cmds) => {
                let mut cmds = cmds;
                let mut j: usize = 0;
                let ghost c = cmds.deep_view();
                while j < cmds.len()
                    invariant
                        j <= cmds.len(),
                        c == cmds.deep_view(),
                        out.deep_view() == before + c.take(j as int),
                    decreases cmds.len() - j,
                {
                    let ghost prev = out.deep_view();
                    out.push(cmds[j].clone());
                    assert(c.take(j + 1) =~= c.take(j as int).push(c[j as int]));
                    assert(out.deep_view() =~= prev.push(c[j as int]));
                    j = j + 1;
                }
                assert(c.take(cmds.len() as int) =~= c);
                assert(emitted(pre, t) == c + emitted(names.take(i - 1), table.view()));
                assert(out.deep_view() + emitted(names.take(i - 1), table.view()) =~= before
                    + emitted(pre, t));
            },
            None => {
                assert(table.view() =~= t);
                assert(emitted(pre, t) == emitted(names.take(i - 1), table.view()));
            },
        }
        i = i - 1;
    }
    assert(out.deep_view() + emitted(names.take(0), table.view()) =~= out.deep_view());
    out
}


/// Where a feature's description lives: `{base}/features/{name}/devcontainer-feature.json`.
pub fn feature_file_path(base: &str, name: &str) -> (res: String)
    ensures
        res@ == base@ + "/features/"@ + name@ + "/devcontainer-feature.json"@,
{
    let mut s = String::from_str(base);
    s.append("/features/");
    s.append(name);
    s.append("/devcontainer-feature.json");
    s
}

/// A feature still to be loaded: its name, the option values asked for it,
/// and whether something required it.
#[derive(Clone, Debug)]
pub struct PendingFeature {
    pub name: String,
    pub params: Vec<(String, OptionValue)>,
    pub required: bool,
}

/// A pending feature as plain values.
pub open spec fn pending_view(p: PendingFeature) -> (Seq<char>, Seq<(String, OptionValue)>, bool) {
    (p.name@, p.params@, p.required)
}

/// A stack of pending features as plain values.
pub open spec fn pending_views(s: Seq<PendingFeature>) -> Seq<
    (Seq<char>, Seq<(String, OptionValue)>, bool),
> {
    Seq::new(s.len(), |i: int| pending_view(s[i]))
}

/// Features named with their option values, all marked `required`.
pub open spec fn as_pending(list: Seq<(String, Vec<(String, OptionValue)>)>, required: bool) -> Seq<
    (Seq<char>, Seq<(String, OptionValue)>, bool),
> {
    Seq::new(list.len(), |i: int| (list[i].0@, list[i].1@, required))
}

/// Features named without option values, not required.
pub open spec fn as_optional(names: Seq<String>) -> Seq<(Seq<char>, Seq<(String, OptionValue)>, bool)> {
    Seq::new(names.len(), |i: int| (names[i]@, Seq::<(String, OptionValue)>::empty(), false))
}

/// The walk through a devbox's features and their dependencies, depth first:
/// each feature, then what it depends on, then what it installs after, in the
/// order listed. Loading a feature's description is left to the caller, who
/// takes the next pending feature, loads it and hands it to [`FeatureWalk::visit`].
#[derive(Clone, Debug)]
pub struct FeatureWalk {
    /// Features still to load; the last one is loaded next.
    pub pending: Vec<PendingFeature>,
    /// Features loaded so far, in the order they were loaded.
    pub order: Vec<FeatureNode>,
}

/// Moves the entries of `list` onto `stack`, last entry first, so that the
/// first entry ends on top.
fn push_reversed(
    stack: &mut Vec<PendingFeature>,
    list: Vec<(String, Vec<(String, OptionValue)>)>,
    required: bool,
)
    ensures
        pending_views(final(stack)@) == pending_views(old(stack)@) + as_pending(
            list@,
            required,
        ).reverse(),
{
    let ghost all = list@;
    let ghost base = pending_views(stack@);
    let mut list = list;
    assert(as_pending(all.skip(all.len() as int), required) =~= Seq::empty());
    while list.len() > 0
        invariant
            list@ == all.take(list@.len() as int),
            list@.len() <= all.len(),
            pending_views(stack@) == base + as_pending(all.skip(list@.len() as int), required).reverse(),
        decreases list@.len(),
    {
        let ghost k = list@.len() - 1;
        let item = list.pop().unwrap();
        let (name, params) = item;
        let ghost prev = pending_views(stack@);
        stack.push(PendingFeature { name, params, required });
        assert(list@ =~= all.take(k));
        assert(as_pending(all.skip(k), required) =~= seq![(all[k].0@, all[k].1@, required)] + as_pending(
            all.skip(k + 1),
            required,
        ));
        assert(pending_views(stack@) =~= prev.push((all[k].0@, all[k].1@, required)));
        assert(pending_views(stack@) =~= base + as_pending(all.skip(k), required).reverse());
    }
    assert(all.skip(0) =~= all);
}

impl FeatureWalk {
    /// A walk over the features a devbox lists, all required, the first one on top.
    pub fn start(features: Option<Vec<(String, Vec<(String, OptionValue)>)>>) -> (res: Self)
        ensures
            pending_views(res.pending@) == as_pending(optional_list(features), true).reverse(),
            res.order@.len() == 0,
    {
        let mut pending: Vec<PendingFeature> = Vec::new();
        assert(pending_views(pending@) =~= Seq::empty());
        match features {
            Some(list) => push_reversed(&mut pending, list, true),
            None => {
                assert(as_pending(Seq::empty(), true).reverse() =~= Seq::empty());
            },
        }
        FeatureWalk { pending, order: Vec::new() }
    }

    /// The next feature to load, taken off the stack; `None` when the walk is done.
    pub fn next(&mut self) -> (res: Option<PendingFeature>)
        ensures
            final(self).order@ == old(self).order@,
            match res {
                Some(p) => old(self).pending@.len() > 0 && p == old(self).pending@.last()
                    && final(self).pending@ == old(self).pending@.drop_last(),
                None => old(self).pending@.len() == 0 && final(self).pending@ == old(self).pending@,
            },
    {
        self.pending.pop()
    }

    /// Records that `current` was loaded, and schedules what its description
    /// lists: the features it depends on (required, with their option values)
    /// come before the features it installs after (not required, no values).
    pub fn visit(
        &mut self,
        current: PendingFeature,
        depends_on: Option<Vec<(String, Vec<(String, OptionValue)>)>>,
        installs_after: Option<Vec<String>>,
    )
        ensures
            final(self).order@.len() == old(self).order@.len() + 1,
            forall|i: int| 0 <= i < old(self).order@.len() ==> #[trigger] final(self).order@[i] == old(
                self,
            ).order@[i],
            final(self).order@.last().name == current.name,
            final(self).order@.last().params == current.params,
            final(self).order@.last().required == current.required,
            pending_views(final(self).pending@) == pending_views(old(self).pending@) + as_optional(
                optional_list(installs_after),
            ).reverse() + as_pending(optional_list(depends_on), true).reverse(),
    {
        let PendingFeature { name, params, required } = current;
        self.order.push(FeatureNode { name, params, required });
        let ghost base = pending_views(self.pending@);
        match installs_after {
            Some(names) => {
                let mut list: Vec<(String, Vec<(String, OptionValue)>)> = Vec::new();
                let mut names = names;
                let ghost all = names@;
                assert(as_pending(list@, false) =~= as_optional(all.take(0)));
                assert(all.skip(0) =~= all);
                while names.len() > 0
                    invariant
                        names@.len() + list@.len() == all.len(),
                        names@ == all.skip(list@.len() as int),
                        as_pending(list@, false) == as_optional(all.take(list@.len() as int)),
                    decreases names@.len(),
                {
                    let k = list.len();
                    let name = names.remove(0);
                    assert(name == all[k as int]);
                    assert(all.skip(k as int).drop_first() =~= all.skip(k + 1));
                    let no_values: Vec<(String, OptionValue)> = Vec::new();
                    let ghost prev = as_pending(list@, false);
                    list.push((name, no_values));
                    assert(as_pending(list@, false) =~= prev.push((all[k as int]@, Seq::<(String, OptionValue)>::empty(), false)));
                    assert(as_pending(list@, false) =~= as_optional(all.take(k + 1)));
                }
                assert(all.take(all.len() as int) =~= all);
                push_reversed(&mut self.pending, list, false);
            },
            None => {
                assert(as_optional(Seq::empty()).reverse() =~= Seq::empty());
                assert(pending_views(self.pending@) =~= base + as_optional(Seq::empty()).reverse());
            },
        }
        let ghost mid = pending_views(self.pending@);
        match depends_on {
            Some(deps) => push_reversed(&mut self.pending, deps, true),
            None => {
                assert(as_pending(Seq::empty(), true).reverse() =~= Seq::empty());
                assert(pending_views(self.pending@) =~= mid + as_pending(Seq::empty(), true).reverse());
            },
        }
    }
}


/// A feature as the walk sees it: its name, the option values asked for it
/// and whether something required it.
pub type WalkItem = (Seq<char>, Seq<(String, OptionValue)>, bool);

/// What loading a feature brings in: the feature, then the features its
/// description says it depends on and installs after, each with what loading
/// it brings in in turn.
pub struct FeatureTree {
    pub item: WalkItem,
    pub deps: Seq<FeatureTree>,
    pub after: Seq<FeatureTree>,
}

/// The features of a list of trees, one per tree.
pub open spec fn tree_items(ts: Seq<FeatureTree>) -> Seq<WalkItem> {
    Seq::new(ts.len(), |i: int| ts[i].item)
}

/// The order in which loading the trees one after the other, each feature
/// followed at once by what it depends on and then by what it installs
/// after, meets the features.
pub open spec fn preorder(ts: Seq<FeatureTree>) -> Seq<WalkItem>
    decreases ts,
{
    if ts.len() == 0 {
        Seq::empty()
    } else {
        proof {
            assert(decreases_to!(ts => ts[0]));
            assert(ts.drop_first() =~= ts.subrange(1, ts.len() as int));
        }
        seq![ts[0].item] + preorder(ts[0].deps) + preorder(ts[0].after) + preorder(ts.drop_first())
    }
}

/// The number of features the trees hold.
pub open spec fn forest_size(ts: Seq<FeatureTree>) -> nat
    decreases ts,
{
    if ts.len() == 0 {
        0
    } else {
        proof {
            assert(decreases_to!(ts => ts[0]));
            assert(ts.drop_first() =~= ts.subrange(1, ts.len() as int));
        }
        1 + forest_size(ts[0].deps) + forest_size(ts[0].after) + forest_size(ts.drop_first())
    }
}

/// The stack after one round of the walk: the top feature is taken off, and
/// what it installs after and what it depends on are put on, each list in
/// reverse, so that its first dependency comes next.
pub open spec fn walk_round(stack: Seq<FeatureTree>) -> Seq<FeatureTree> {
    stack.drop_last() + stack.last().after.reverse() + stack.last().deps.reverse()
}

/// The features the walk meets, round after round, for at most `fuel` rounds.
pub open spec fn walk_run(stack: Seq<FeatureTree>, fuel: nat) -> Seq<WalkItem>
    decreases fuel,
{
    if fuel == 0 || stack.len() == 0 {
        Seq::empty()
    } else {
        seq![stack.last().item] + walk_run(walk_round(stack), (fuel - 1) as nat)
    }
}

proof fn lemma_preorder_append(a: Seq<FeatureTree>, b: Seq<FeatureTree>)
    ensures
        preorder(a + b) == preorder(a) + preorder(b),
        forest_size(a + b) == forest_size(a) + forest_size(b),
    decreases a.len(),
{
    if a.len() == 0 {
        assert(a + b =~= b);
    } else {
        lemma_preorder_append(a.drop_first(), b);
        assert((a + b).drop_first() =~= a.drop_first() + b);
        assert((a + b)[0] == a[0]);
    }
}

proof fn lemma_single(t: FeatureTree)
    ensures
        preorder(seq![t]) == seq![t.item] + preorder(t.deps) + preorder(t.after),
        forest_size(seq![t]) == 1 + forest_size(t.deps) + forest_size(t.after),
{
    let one = seq![t];
    assert(one[0] == t);
    assert(one.drop_first() =~= Seq::<FeatureTree>::empty());
    assert(preorder(one) == seq![t.item] + preorder(t.deps) + preorder(t.after) + preorder(
        one.drop_first(),
    ));
    assert(preorder(seq![t]) =~= seq![t.item] + preorder(t.deps) + preorder(t.after));
    assert(forest_size(one.drop_first()) == 0);
    assert(forest_size(one) == 1 + forest_size(t.deps) + forest_size(t.after) + forest_size(
        one.drop_first(),
    ));
}

proof fn lemma_forest_size_reverse(a: Seq<FeatureTree>)
    ensures
        forest_size(a.reverse()) == forest_size(a),
    decreases a.len(),
{
    if a.len() > 0 {
        let rest = a.drop_first();
        lemma_forest_size_reverse(rest);
        assert(a.reverse() =~= rest.reverse() + seq![a[0]]);
        lemma_preorder_append(rest.reverse(), seq![a[0]]);
        lemma_single(a[0]);
    }
}

proof fn lemma_walk_run_preorder(stack: Seq<FeatureTree>, fuel: nat)
    requires
        fuel >= forest_size(stack),
    ensures
        walk_run(stack, fuel) == preorder(stack.reverse()),
    decreases fuel,
{
    if stack.len() == 0 {
        assert(stack.reverse() =~= Seq::<FeatureTree>::empty());
    } else {
        let t = stack.last();
        let rest = stack.drop_last();
        let next = walk_round(stack);
        assert(forest_size(stack) == forest_size(rest) + 1 + forest_size(t.deps) + forest_size(
            t.after,
        )) by {
            assert(stack =~= rest + seq![t]);
            lemma_preorder_append(rest, seq![t]);
            lemma_single(t);
        }
        assert(forest_size(next) + 1 == forest_size(stack)) by {
            lemma_preorder_append(rest + t.after.reverse(), t.deps.reverse());
            lemma_preorder_append(rest, t.after.reverse());
            lemma_forest_size_reverse(t.after);
            lemma_forest_size_reverse(t.deps);
        }
        lemma_walk_run_preorder(next, (fuel - 1) as nat);
        assert(preorder(next.reverse()) == preorder(t.deps) + preorder(t.after) + preorder(
            rest.reverse(),
        )) by {
            assert(next.reverse() =~= t.deps + (t.after + rest.reverse()));
            lemma_preorder_append(t.deps, t.after + rest.reverse());
            lemma_preorder_append(t.after, rest.reverse());
        }
        assert(preorder(stack.reverse()) == seq![t.item] + preorder(t.deps) + preorder(t.after)
            + preorder(rest.reverse())) by {
            assert(stack.reverse() =~= seq![t] + rest.reverse());
            lemma_preorder_append(seq![t], rest.reverse());
            lemma_single(t);
        }
        assert(walk_run(stack, fuel) == seq![t.item] + walk_run(next, (fuel - 1) as nat));
        assert(walk_run(stack, fuel) =~= preorder(stack.reverse()));
    }
}

/// The walk installs features in the order the devbox's features are loaded
/// one after the other, each feature followed at once by everything it
/// depends on and then by everything it installs after: started with the
/// devbox's features (the first on top), and run round after round, it meets
/// the features in that depth-first order, once per feature it loads.
pub proof fn lemma_walk_is_depth_first(trees: Seq<FeatureTree>)
    ensures
        walk_run(trees.reverse(), forest_size(trees)) == preorder(trees),
        forest_size(trees.reverse()) == forest_size(trees),
{
    lemma_forest_size_reverse(trees);
    lemma_walk_run_preorder(trees.reverse(), forest_size(trees));
    assert(trees.reverse().reverse() =~= trees);
}

/// The walk ends: a stack of trees holds features exactly when it is not
/// empty, and each round takes one feature off its count, so a walk over
/// finite (acyclic) dependencies stops after as many rounds as it loads
/// features.
pub proof fn lemma_walk_round_shrinks(stack: Seq<FeatureTree>)
    ensures
        forest_size(stack) == 0 <==> stack.len() == 0,
        stack.len() > 0 ==> forest_size(walk_round(stack)) + 1 == forest_size(stack),
{
    if stack.len() > 0 {
        let t = stack.last();
        let rest = stack.drop_last();
        assert(stack =~= rest + seq![t]);
        lemma_preorder_append(rest, seq![t]);
        lemma_single(t);
        lemma_preorder_append(rest + t.after.reverse(), t.deps.reverse());
        lemma_preorder_append(rest, t.after.reverse());
        lemma_forest_size_reverse(t.after);
        lemma_forest_size_reverse(t.deps);
    }
}

/// The trees met by the depth-first walk, in order: each tree, then the
/// trees of what it depends on, then those of what it installs after.
pub open spec fn subtrees(ts: Seq<FeatureTree>) -> Seq<FeatureTree>
    decreases ts,
{
    if ts.len() == 0 {
        Seq::empty()
    } else {
        proof {
            assert(decreases_to!(ts => ts[0]));
            assert(ts.drop_first() =~= ts.subrange(1, ts.len() as int));
        }
        seq![ts[0]] + subtrees(ts[0].deps) + subtrees(ts[0].after) + subtrees(ts.drop_first())
    }
}

/// The features met are the features of the trees met.
proof fn lemma_subtrees_items(ts: Seq<FeatureTree>)
    ensures
        preorder(ts) == tree_items(subtrees(ts)),
    decreases ts,
{
    if ts.len() > 0 {
        assert(decreases_to!(ts => ts[0]));
        assert(ts.drop_first() =~= ts.subrange(1, ts.len() as int));
        lemma_subtrees_items(ts[0].deps);
        lemma_subtrees_items(ts[0].after);
        lemma_subtrees_items(ts.drop_first());
        let a = seq![ts[0]];
        let b = subtrees(ts[0].deps);
        let c = subtrees(ts[0].after);
        let d = subtrees(ts.drop_first());
        assert(tree_items(a + b + c + d) =~= tree_items(a) + tree_items(b) + tree_items(c)
            + tree_items(d));
        assert(tree_items(a) =~= seq![ts[0].item]);
    }
}

/// Each tree of a list is met by the walk over that list.
proof fn lemma_root_met(us: Seq<FeatureTree>, k: int) -> (j: int)
    requires
        0 <= k < us.len(),
    ensures
        0 <= j < subtrees(us).len(),
        subtrees(us)[j] == us[k],
    decreases us.len(),
{
    if k == 0 {
        0
    } else {
        let rest = us.drop_first();
        let j0 = lemma_root_met(rest, k - 1);
        let head = seq![us[0]] + subtrees(us[0].deps) + subtrees(us[0].after);
        assert(subtrees(us) == head + subtrees(rest));
        head.len() + j0
    }
}

/// What a feature depends on is met after it: for the tree met at `i` and its
/// `k`-th dependency, the walk meets that dependency's tree at some `j > i`.
pub proof fn lemma_dependency_met_later(ts: Seq<FeatureTree>, i: int, k: int) -> (j: int)
    requires
        0 <= i < subtrees(ts).len(),
        0 <= k < subtrees(ts)[i].deps.len(),
    ensures
        i < j < subtrees(ts).len(),
        subtrees(ts)[j] == subtrees(ts)[i].deps[k],
    decreases ts,
{
    assert(ts.len() > 0);
    assert(decreases_to!(ts => ts[0]));
    assert(ts.drop_first() =~= ts.subrange(1, ts.len() as int));
    let t = ts[0];
    let b = subtrees(t.deps);
    let c = subtrees(t.after);
    let d = subtrees(ts.drop_first());
    let all = subtrees(ts);
    assert(all == seq![t] + b + c + d);
    if i == 0 {
        assert(all[0] == t);
        let j0 = lemma_root_met(t.deps, k);
        assert(all[1 + j0] == b[j0]);
        1 + j0
    } else if i < 1 + b.len() {
        assert(all[i] == b[i - 1]);
        let j0 = lemma_dependency_met_later(t.deps, i - 1, k);
        assert(all[1 + j0] == b[j0]);
        1 + j0
    } else if i < 1 + b.len() + c.len() {
        let off = 1 + b.len();
        assert(all[i] == c[i - off]);
        let j0 = lemma_dependency_met_later(t.after, i - off, k);
        assert(all[off + j0] == c[j0]);
        off + j0
    } else {
        let off = 1 + b.len() + c.len();
        assert(all[i] == d[i - off]);
        let j0 = lemma_dependency_met_later(ts.drop_first(), i - off, k);
        assert(all[off + j0] == d[j0]);
        off + j0
    }
}

/// What a feature installs after is met after it: for the tree met at `i`
/// and the `k`-th feature it installs after, the walk meets that feature's
/// tree at some `j > i`.
pub proof fn lemma_installs_after_met_later(ts: Seq<FeatureTree>, i: int, k: int) -> (j: int)
    requires
        0 <= i < subtrees(ts).len(),
        0 <= k < subtrees(ts)[i].after.len(),
    ensures
        i < j < subtrees(ts).len(),
        subtrees(ts)[j] == subtrees(ts)[i].after[k],
    decreases ts,
{
    assert(ts.len() > 0);
    assert(decreases_to!(ts => ts[0]));
    assert(ts.drop_first() =~= ts.subrange(1, ts.len() as int));
    let t = ts[0];
    let b = subtrees(t.deps);
    let c = subtrees(t.after);
    let d = subtrees(ts.drop_first());
    let all = subtrees(ts);
    assert(all == seq![t] + b + c + d);
    if i == 0 {
        assert(all[0] == t);
        let j0 = lemma_root_met(t.after, k);
        let off = 1 + b.len();
        assert(all[off + j0] == c[j0]);
        off + j0
    } else if i < 1 + b.len() {
        assert(all[i] == b[i - 1]);
        let j0 = lemma_installs_after_met_later(t.deps, i - 1, k);
        assert(all[1 + j0] == b[j0]);
        1 + j0
    } else if i < 1 + b.len() + c.len() {
        let off = 1 + b.len();
        assert(all[i] == c[i - off]);
        let j0 = lemma_installs_after_met_later(t.after, i - off, k);
        assert(all[off + j0] == c[j0]);
        off + j0
    } else {
        let off = 1 + b.len() + c.len();
        assert(all[i] == d[i - off]);
        let j0 = lemma_installs_after_met_later(ts.drop_first(), i - off, k);
        assert(all[off + j0] == d[j0]);
        off + j0
    }
}

/// The feature names the walk meets, in order.
pub open spec fn walk_names(ts: Seq<FeatureTree>) -> Seq<Seq<char>> {
    Seq::new(preorder(ts).len(), |i: int| preorder(ts)[i].0)
}

/// A feature's dependencies are installed before it: take the latest time the
/// walk meets feature `f` (at `i`), and one of the features it depends on
/// there; when both have install lines under different keys, the
/// dependency's lines come first in what is emitted.
pub proof fn lemma_dependency_installed_first(
    trees: Seq<FeatureTree>,
    table: Map<Seq<char>, Seq<Seq<char>>>,
    i: int,
    k: int,
) -> (parts: (Seq<Seq<char>>, Seq<Seq<char>>, Seq<Seq<char>>))
    requires
        0 <= i < subtrees(trees).len(),
        0 <= k < subtrees(trees)[i].deps.len(),
        forall|q: int| i < q < walk_names(trees).len() ==> #[trigger] name_key(walk_names(trees), q)
            != name_key(walk_names(trees), i),
        after_last(subtrees(trees)[i].deps[k].item.0, '/') != name_key(walk_names(trees), i),
        table.contains_key(name_key(walk_names(trees), i)),
        table.contains_key(after_last(subtrees(trees)[i].deps[k].item.0, '/')),
    ensures
        emitted(walk_names(trees), table) == parts.0 + table[after_last(
            subtrees(trees)[i].deps[k].item.0,
            '/',
        )] + parts.1 + table[name_key(walk_names(trees), i)] + parts.2,
{
    let names = walk_names(trees);
    lemma_subtrees_items(trees);
    let j = lemma_dependency_met_later(trees, i, k);
    let ka = name_key(names, i);
    let kb = after_last(subtrees(trees)[i].deps[k].item.0, '/');
    assert(preorder(trees)[j] == subtrees(trees)[j].item);
    assert(name_key(names, j) == kb);
    assert(mentions(names, ka));
    lemma_later_mention_installed_first(names, table, ka, kb, j)
}

/// One round of [`FeatureWalk`] is one round of the stack of trees: when the
/// pending features are those of `stack`, and the feature on top, once
/// loaded, lists what its tree holds, then what [`FeatureWalk::next`] and
/// [`FeatureWalk::visit`] leave pending is the features of the next stack,
/// and the feature they record is the top one.
pub proof fn lemma_walk_round(
    stack: Seq<FeatureTree>,
    pending: Seq<WalkItem>,
    depends_on: Option<Vec<(String, Vec<(String, OptionValue)>)>>,
    installs_after: Option<Vec<String>>,
)
    requires
        stack.len() > 0,
        pending == tree_items(stack),
        tree_items(stack.last().deps) == as_pending(optional_list(depends_on), true),
        tree_items(stack.last().after) == as_optional(optional_list(installs_after)),
    ensures
        pending.last() == stack.last().item,
        tree_items(walk_round(stack)) == pending.drop_last() + as_optional(
            optional_list(installs_after),
        ).reverse() + as_pending(optional_list(depends_on), true).reverse(),
{
    let t = stack.last();
    assert(tree_items(t.after.reverse()) =~= tree_items(t.after).reverse());
    assert(tree_items(t.deps.reverse()) =~= tree_items(t.deps).reverse());
    assert(tree_items(stack.drop_last()) =~= pending.drop_last());
    assert(tree_items(walk_round(stack)) =~= tree_items(stack.drop_last()) + tree_items(
        t.after.reverse(),
    ) + tree_items(t.deps.reverse()));
}

/// A feature that another installs after is installed before it: take the
/// latest time the walk meets feature `f` (at `i`), and one of the features
/// it installs after there; when both have install lines under different
/// keys, that feature's lines come first in what is emitted.
pub proof fn lemma_installs_after_installed_first(
    trees: Seq<FeatureTree>,
    table: Map<Seq<char>, Seq<Seq<char>>>,
    i: int,
    k: int,
) -> (parts: (Seq<Seq<char>>, Seq<Seq<char>>, Seq<Seq<char>>))
    requires
        0 <= i < subtrees(trees).len(),
        0 <= k < subtrees(trees)[i].after.len(),
        forall|q: int| i < q < walk_names(trees).len() ==> #[trigger] name_key(walk_names(trees), q)
            != name_key(walk_names(trees), i),
        after_last(subtrees(trees)[i].after[k].item.0, '/') != name_key(walk_names(trees), i),
        table.contains_key(name_key(walk_names(trees), i)),
        table.contains_key(after_last(subtrees(trees)[i].after[k].item.0, '/')),
    ensures
        emitted(walk_names(trees), table) == parts.0 + table[after_last(
            subtrees(trees)[i].after[k].item.0,
            '/',
        )] + parts.1 + table[name_key(walk_names(trees), i)] + parts.2,
{
    let names = walk_names(trees);
    lemma_subtrees_items(trees);
    let j = lemma_installs_after_met_later(trees, i, k);
    let ka = name_key(names, i);
    let kb = after_last(subtrees(trees)[i].after[k].item.0, '/');
    assert(preorder(trees)[j] == subtrees(trees)[j].item);
    assert(name_key(names, j) == kb);
    assert(mentions(names, ka));
    lemma_later_mention_installed_first(names, table, ka, kb, j)
}

} // verus!
