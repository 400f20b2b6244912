use devbox::features::{
    dockerfile_commands, feature_commands, feature_file_path, CommandTable, FeatureNode, FeatureWalk,
};
use devbox::metadata::{sorted_union, MergedMetadata};
use devbox::model::{DevcontainerFeature, FeatureOption, LifecycleCommand, Mount, OptionValue};

fn strings(items: &[&str]) -> Vec<String> {
    items.iter().map(|s| s.to_string()).collect()
}

fn feature(id: &str) -> DevcontainerFeature {
    DevcontainerFeature {
        id: id.to_string(),
        version: "1.0.0".to_string(),
        name: id.to_string(),
        description: None,
        documentation_url: None,
        license_url: None,
        keywords: None,
        options: None,
        container_env: None,
        privileged: None,
        init: None,
        cap_add: None,
        security_opt: None,
        entrypoint: None,
        customizations: None,
        depends_on: None,
        installs_after: None,
        legacy_ids: None,
        deprecated: None,
        mounts: None,
        on_create_command: None,
        update_content_command: None,
        post_create_command: None,
        post_start_command: None,
        post_attach_command: None,
    }
}

fn option(default: Option<&str>) -> FeatureOption {
    FeatureOption {
        option_type: "string".to_string(),
        description: None,
        proposals: None,
        enum_values: None,
        default: default.map(|d| d.to_string()),
    }
}

#[test]
fn feature_commands_for_options_and_env() {
    let mut f = feature("ghcr.io/devcontainers/features/node");
    f.options = Some(vec![
        ("version".to_string(), option(Some("\"lts\""))),
        ("installYarn".to_string(), option(None)),
        ("nodeGypDependencies".to_string(), option(Some("true"))),
    ]);
    f.container_env = Some(vec![("npm_path".to_string(), "/usr/local".to_string())]);
    let params = vec![
        ("version".to_string(), OptionValue::Text("18".to_string())),
        ("installYarn".to_string(), OptionValue::Flag(false)),
    ];
    let cmds = feature_commands(&f, &params);
    assert_eq!(
        cmds,
        strings(&[
            "ENV VERSION=18",
            "ENV INSTALLYARN=false",
            "ENV NODEGYPDEPENDENCIES=true",
            "ENV NPM_PATH=/usr/local",
            "COPY ./features/ghcr.io/devcontainers/features/node /features/ghcr.io/devcontainers/features/node",
            "RUN cd /features/node/ && bash ./install.sh",
            "ENV VERSION=''",
            "ENV INSTALLYARN=''",
            "ENV NODEGYPDEPENDENCIES=''",
        ])
    );
}

#[test]
fn feature_commands_use_json_text_of_defaults_and_other_values() {
    let mut f = feature("go");
    f.options = Some(vec![("list".to_string(), option(Some("\"latest\""))), ("n".to_string(), option(None))]);
    let params = vec![("n".to_string(), OptionValue::Json("[1,2]".to_string()))];
    let cmds = feature_commands(&f, &params);
    assert_eq!(cmds[0], "ENV LIST=\"latest\"");
    assert_eq!(cmds[1], "ENV N=[1,2]");
    let g = feature("plain");
    assert_eq!(
        feature_commands(&g, &Vec::new()),
        strings(&["COPY ./features/plain /features/plain", "RUN cd /features/plain/ && bash ./install.sh"])
    );
    let mut h = feature("nul");
    h.options = Some(vec![("x".to_string(), option(None))]);
    assert_eq!(feature_commands(&h, &Vec::new())[0], "ENV X=null");
}

#[test]
fn command_table_replaces_and_takes() {
    let mut t = CommandTable::new();
    t.insert("node".to_string(), strings(&["a"]));
    t.insert("go".to_string(), strings(&["g"]));
    t.insert("node".to_string(), strings(&["b", "c"]));
    assert_eq!(t.take("node"), Some(strings(&["b", "c"])));
    assert_eq!(t.take("node"), None);
    assert_eq!(t.take("go"), Some(strings(&["g"])));
    assert_eq!(t.take("rust"), None);
}

fn node(name: &str) -> FeatureNode {
    FeatureNode { name: name.to_string(), params: Vec::new(), required: true }
}

#[test]
fn dockerfile_commands_latest_first_each_once() {
    let mut t = CommandTable::new();
    t.insert("node".to_string(), strings(&["N1", "N2"]));
    t.insert("common".to_string(), strings(&["C"]));
    let order = vec![node("features/node"), node("x/common"), node("node"), node("missing")];
    let out = dockerfile_commands(&order, t);
    assert_eq!(
        out,
        strings(&[
            "RUN useradd -m -d /home/vscode vscode",
            "RUN touch home/vscode/.zshrc",
            "RUN mkdir /features",
            "N1",
            "N2",
            "C",
        ])
    );
}

#[test]
fn feature_walk_is_depth_first() {
    let top = vec![("a".to_string(), Vec::new()), ("b".to_string(), Vec::new())];
    let mut walk = FeatureWalk::start(Some(top));
    let mut seen = Vec::new();
    while let Some(cur) = walk.next() {
        seen.push((cur.name.clone(), cur.required));
        let (deps, after) = match cur.name.as_str() {
            "a" => (
                Some(vec![("a1".to_string(), vec![("v".to_string(), OptionValue::Flag(true))])]),
                Some(vec!["a2".to_string()]),
            ),
            "a1" => (Some(vec![("a11".to_string(), Vec::new())]), None),
            _ => (None, None),
        };
        walk.visit(cur, deps, after);
    }
    let names: Vec<&str> = walk.order.iter().map(|n| n.name.as_str()).collect();
    assert_eq!(names, vec!["a", "a1", "a11", "a2", "b"]);
    assert_eq!(
        seen,
        vec![
            ("a".to_string(), true),
            ("a1".to_string(), true),
            ("a11".to_string(), true),
            ("a2".to_string(), false),
            ("b".to_string(), true),
        ]
    );
    assert!(matches!(walk.order[1].params[0].1, OptionValue::Flag(true)));
    let mut empty = FeatureWalk::start(None);
    assert!(empty.next().is_none());
}

#[test]
fn feature_path() {
    assert_eq!(feature_file_path("/work", "node"), "/work/features/node/devcontainer-feature.json");
}

#[test]
fn sorted_union_sorts_and_dedups() {
    let out = sorted_union(&strings(&["SYS_PTRACE", "NET_ADMIN"]), &strings(&["AUDIT", "NET_ADMIN"]));
    assert_eq!(out, strings(&["AUDIT", "NET_ADMIN", "SYS_PTRACE"]));
}

#[test]
fn merge_feature_combines_options() {
    let mut m = MergedMetadata::new();
    let mut f = feature("one");
    f.init = Some(true);
    f.cap_add = Some(strings(&["SYS_PTRACE", "NET_ADMIN"]));
    f.security_opt = Some(strings(&["seccomp=unconfined"]));
    f.entrypoint = Some("/start.sh".to_string());
    f.mounts = Some(vec![Mount { source: "vol".to_string(), target: "/data".to_string(), mount_type: "volume".to_string() }]);
    f.container_env = Some(vec![("A".to_string(), "1".to_string())]);
    f.post_start_command = Some(LifecycleCommand::Single("echo hi".to_string()));
    m.merge_feature(f);
    let mut g = feature("two");
    g.privileged = Some(false);
    g.init = Some(false);
    g.cap_add = Some(strings(&["NET_ADMIN", "AUDIT_WRITE"]));
    g.container_env = Some(vec![("A".to_string(), "2".to_string())]);
    m.merge_feature(g);
    assert!(m.init);
    assert!(!m.privileged);
    assert_eq!(m.cap_add, strings(&["AUDIT_WRITE", "NET_ADMIN", "SYS_PTRACE"]));
    assert_eq!(m.security_opt, strings(&["seccomp=unconfined"]));
    assert_eq!(m.entrypoints, strings(&["/start.sh"]));
    assert_eq!(m.mounts.len(), 1);
    assert_eq!(m.container_env, vec![("A".to_string(), "1".to_string()), ("A".to_string(), "2".to_string())]);
    assert_eq!(m.post_start_commands.len(), 1);
    assert!(m.on_create_commands.is_empty());
}

#[test]
fn dependencies_are_installed_before_their_dependents() {
    let top = vec![("app".to_string(), Vec::new())];
    let mut walk = FeatureWalk::start(Some(top));
    let mut table = CommandTable::new();
    let mut rounds = 0;
    while let Some(cur) = walk.next() {
        rounds += 1;
        table.insert(cur.name.clone(), vec![format!("INSTALL {}", cur.name)]);
        let deps = match cur.name.as_str() {
            "app" => Some(vec![("lib".to_string(), Vec::new())]),
            "lib" => Some(vec![("base".to_string(), Vec::new())]),
            _ => None,
        };
        walk.visit(cur, deps, None);
    }
    assert_eq!(rounds, 3);
    let out = dockerfile_commands(&walk.order, table);
    assert_eq!(out[3..].to_vec(), strings(&["INSTALL base", "INSTALL lib", "INSTALL app"]));
}

#[test]
fn feature_keys_are_checked() {
    let mut f = feature("node");
    f.options = Some(vec![("a".to_string(), option(None)), ("b".to_string(), option(None))]);
    assert!(f.keys_checked());
    f.options = Some(vec![("b".to_string(), option(None)), ("a".to_string(), option(None))]);
    assert!(!f.keys_checked());
    f.options = None;
    f.depends_on = Some(vec![(
        "dep".to_string(),
        vec![("v".to_string(), OptionValue::Flag(true)), ("v".to_string(), OptionValue::Flag(false))],
    )]);
    assert!(!f.keys_checked());
}
