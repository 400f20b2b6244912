use devbox::api::{
    action_outcome, builder_config_error, builder_kind, docker_builder_check, devbox_config_path, docker_status, is_disconnect,
    provider_unavailable, recorded_status, request_error, starts_on_create, status_provider, ActionEnum,
    ActionOutcome, BuilderKind, Container, ContainerConfig, ContainerState, DefaultDB, DB,
};
use devbox::model::{Build, DevBox};
use devbox::providers::ProviderEnum;
use devbox::task::{
    clear_blocking_task_id, current_task_id, get_blocking_task_id, set_blocking_task_id, task_log_path,
    TaskContext,
};

fn devbox(image: &str, build: Option<Build>) -> DevBox {
    DevBox {
        name: "box".to_string(),
        image: image.to_string(),
        build,
        post_start_script: None,
        start_on_create: None,
        features: None,
        mounts: Vec::new(),
        remote_user: "vscode".to_string(),
        ports: None,
        target_platform: None,
        environment: None,
    }
}

#[test]
fn devbox_validity() {
    assert!(devbox("ubuntu", None).is_valid());
    assert!(!devbox("", None).is_valid());
    assert!(devbox("", Some(Build { dockerfile: "Dockerfile".to_string(), context: None })).is_valid());
    let mut d = devbox("x", None);
    assert!(!starts_on_create(&d));
    d.start_on_create = Some(true);
    assert!(starts_on_create(&d));
    d.start_on_create = Some(false);
    assert!(!starts_on_create(&d));
}

#[test]
fn container_new_defaults_status() {
    let base = Container {
        name: "old".to_string(),
        status: None,
        config: ContainerConfig { image: "nginx".to_string(), features: None },
    };
    let c = Container::new("web", None, base.clone());
    assert_eq!(c.name, "web");
    assert_eq!(c.status.as_deref(), Some("Creating"));
    assert_eq!(c.config.image, "nginx");
    let d = Container::new("web", Some("Running"), base);
    assert_eq!(d.status.as_deref(), Some("Running"));
}

#[test]
fn actions_and_statuses() {
    assert!(matches!(action_outcome(ActionEnum::Start), ActionOutcome::Status(s) if s == "running"));
    assert!(matches!(action_outcome(ActionEnum::Stop), ActionOutcome::Status(s) if s == "exited"));
    assert!(matches!(action_outcome(ActionEnum::Delete), ActionOutcome::Forget));
    assert_eq!(docker_status(Some(ContainerState::Running)), "running");
    assert_eq!(docker_status(Some(ContainerState::Exited)), "exited");
    assert_eq!(docker_status(Some(ContainerState::Other)), "unknown");
    assert_eq!(docker_status(None), "unknown");
    assert_eq!(recorded_status(Some("exited".to_string())), "exited");
    assert_eq!(recorded_status(None), "unknown");
    assert_eq!(status_provider("Docker"), Some(ProviderEnum::Docker));
    assert_eq!(status_provider("azure"), Some(ProviderEnum::Azure));
    assert_eq!(status_provider("AWS"), Some(ProviderEnum::Aws));
    assert_eq!(status_provider("gcp"), None);
}

#[test]
fn disconnect_message() {
    assert!(is_disconnect("__disconnect__"));
    assert!(is_disconnect("  __disconnect__\r\n"));
    assert!(!is_disconnect("ls -la"));
}

#[test]
fn request_checks() {
    let bad = devbox("", None);
    assert_eq!(
        request_error(Some(&bad), Some("path".to_string())).as_deref(),
        Some("Invalid Creation, need either Image or Dockerfile")
    );
    let good = devbox("ubuntu", None);
    assert_eq!(request_error(Some(&good), Some("path: Not a valid directory".to_string())).as_deref(), Some("path: Not a valid directory"));
    assert_eq!(request_error(None, None), None);
    assert_eq!(request_error(Some(&good), None), None);
    assert_eq!(provider_unavailable(false, true, true, ProviderEnum::Docker).as_deref(), Some("AppState is not initialized"));
    assert_eq!(provider_unavailable(true, false, true, ProviderEnum::Azure).as_deref(), Some("Azure config is not initialized"));
    assert_eq!(provider_unavailable(true, true, false, ProviderEnum::Aws).as_deref(), Some("Aws config is not initialized"));
    assert_eq!(provider_unavailable(true, false, false, ProviderEnum::Docker), None);
    assert_eq!(provider_unavailable(true, true, true, ProviderEnum::Azure), None);
}

#[test]
fn builder_checks() {
    assert!(builder_config_error(1, false).unwrap().starts_with("Remote builder should have"));
    assert_eq!(builder_config_error(1, true), None);
    assert_eq!(builder_config_error(0, false), None);
    assert_eq!(builder_kind("docker"), Ok(BuilderKind::Docker));
    assert_eq!(builder_kind("podman"), Err("No valid builder provided".to_string()));
    assert_eq!(docker_builder_check("docker"), Ok(()));
    assert_eq!(docker_builder_check("podman"), Err("Error initializing builder".to_string()));
}

#[test]
fn paths() {
    assert_eq!(devbox_config_path("/work/proj//"), "/work/proj/devbox.json");
    assert_eq!(devbox_config_path("proj"), "proj/devbox.json");
    assert_eq!(task_log_path("abc"), "./data/task_logs/abc.log");
    assert_eq!(DB::at("x.db").db_path, "x.db");
    assert_eq!(DefaultDB::path(), "devbox.db");
}

#[test]
fn blocking_task_id_reads_back() {
    let mut ctx = TaskContext::new();
    assert_eq!(current_task_id(&ctx), None);
    set_blocking_task_id(&mut ctx, "task-1".to_string());
    assert_eq!(get_blocking_task_id(&ctx).as_deref(), Some("task-1"));
    assert_eq!(current_task_id(&ctx).as_deref(), Some("task-1"));
    ctx.async_task_id = Some("async-7".to_string());
    assert_eq!(current_task_id(&ctx).as_deref(), Some("async-7"));
    clear_blocking_task_id(&mut ctx);
    assert_eq!(get_blocking_task_id(&ctx), None);
    assert_eq!(current_task_id(&ctx).as_deref(), Some("async-7"));
    ctx.async_task_id = None;
    assert_eq!(current_task_id(&ctx), None);
}

#[test]
fn request_and_image_names() {
    assert_eq!(devbox::api::request_file_path("/work/p"), "/work/p/devbox.json");
    let art = devbox::providers::Artifactory::new("reg.io".to_string(), "team".to_string(), None, None);
    assert_eq!(art.image_reference("box"), "reg.io/team/box");
}

#[test]
fn devbox_keys_are_checked() {
    let mut d = devbox("ubuntu", None);
    d.environment = Some(vec![("B".to_string(), "1".to_string()), ("A".to_string(), "2".to_string())]);
    assert!(d.keys_checked());
    d.environment = Some(vec![("A".to_string(), "1".to_string()), ("A".to_string(), "2".to_string())]);
    assert!(!d.keys_checked());
    d.environment = None;
    d.features = Some(vec![("node".to_string(), Vec::new()), ("node".to_string(), Vec::new())]);
    assert!(!d.keys_checked());
}
