use zerospider::deploy::cli::{
    convert_target_config, create_deployment_config, find_target, load_deploy_config,
    parse_deployment_mode, parse_label, validation_verdict, DeploymentSettingsConfig,
    DeploymentTargetConfig, ValidationVerdict,
};
use zerospider::deploy::remote::{
    action_after, deployment_steps, first_action, health_check_command, rollback_commands,
    ssh_arguments, DeployAction, DeployError, DeploymentConfig, DeploymentMode, DeploymentStatus,
    DeploymentStep, DeploymentTarget, RemoteDeployer,
};
use zerospider::deploy::DeployCommands;

#[test]
fn test_deployment_target_builder() {
    let target = DeploymentTarget::new("server-1", "192.168.1.100", "deploy")
        .with_port(2222)
        .with_ssh_key("~/.ssh/deploy_key")
        .with_label("env", "production");

    assert_eq!(target.id, "server-1");
    assert_eq!(target.port, 2222);
    assert_eq!(target.labels.get("env"), Some(&"production".to_string()));
}

#[test]
fn test_deployment_config_default() {
    let config = DeploymentConfig::default();
    assert_eq!(config.name, "zerospider");
    assert!(config.auto_start);
    assert!(config.restart_on_failure);
}

#[test]
fn test_deployment_step_builder() {
    let step = DeploymentStep::new("deploy", "cp binary /usr/bin/")
        .with_timeout(120)
        .with_rollback("rm /usr/bin/binary");

    assert_eq!(step.name, "deploy");
    assert_eq!(step.timeout, 120);
    assert!(step.rollback_command.is_some());
}

#[test]
fn test_remote_deployer_new() {
    let deployer = RemoteDeployer::new(DeploymentMode::Direct);
    assert_eq!(deployer.list_targets().len(), 0);
}

#[test]
fn test_register_target() {
    let mut deployer = RemoteDeployer::new(DeploymentMode::Direct);
    let target = DeploymentTarget::new("test-server", "192.168.1.200", "deploy")
        .with_label("env", "staging");

    deployer.register_target(target);
    assert_eq!(deployer.list_targets().len(), 1);

    let status = deployer.get_status("test-server");
    assert!(status.is_some());
    assert!(!status.unwrap().deployed);
}

#[test]
fn test_set_config() {
    let mut deployer = RemoteDeployer::new(DeploymentMode::Direct);
    let config = DeploymentConfig::default();

    deployer.set_config(config);
    // the configuration is now there to be deployed
    deployer.register_target(DeploymentTarget::new("s", "h", "u"));
    assert!(deployer.plan_deploy("s", "zerospider").is_ok());
}

#[test]
fn test_list_targets() {
    let mut deployer = RemoteDeployer::new(DeploymentMode::Direct);

    deployer.register_target(DeploymentTarget::new("server-1", "192.168.1.1", "deploy"));
    deployer.register_target(DeploymentTarget::new("server-2", "192.168.1.2", "deploy"));

    let targets = deployer.list_targets();
    assert_eq!(targets.len(), 2);
}

#[test]
fn test_deployment_mode_direct() {
    let mode = DeploymentMode::Direct;
    assert!(matches!(mode, DeploymentMode::Direct));
}

#[test]
fn test_deployment_mode_docker() {
    let mode = DeploymentMode::Docker;
    assert!(matches!(mode, DeploymentMode::Docker));
}

#[test]
fn test_deployment_mode_systemd() {
    let mode = DeploymentMode::Systemd;
    assert!(matches!(mode, DeploymentMode::Systemd));
}

#[test]
fn test_deployment_status_healthy() {
    let status = DeploymentStatus {
        target_id: "test".to_string(),
        deployed: true,
        version: Some("1.0.0".to_string()),
        running: true,
        last_health_check: Some(std::time::Instant::now()),
        uptime: Some(300),
        restart_count: 0,
    };

    assert!(status.healthy());
}

#[test]
fn test_deployment_status_not_deployed() {
    let status = DeploymentStatus {
        target_id: "test".to_string(),
        deployed: false,
        version: None,
        running: false,
        last_health_check: None,
        uptime: None,
        restart_count: 0,
    };

    assert!(!status.healthy());
}

#[test]
fn test_deployment_status_deployed_not_running() {
    let status = DeploymentStatus {
        target_id: "test".to_string(),
        deployed: true,
        version: Some("1.0.0".to_string()),
        running: false,
        last_health_check: None,
        uptime: None,
        restart_count: 2,
    };

    assert!(!status.healthy());
}

#[test]
fn target_builder_sets_every_field() {
    let target = DeploymentTarget::new("server-1", "192.168.1.100", "deploy");
    assert_eq!(target.host, "192.168.1.100");
    assert_eq!(target.user, "deploy");
    assert_eq!(target.port, 22);
    assert!(target.ssh_key_path.is_none());
    assert!(target.labels.is_empty());
    let target = target
        .with_ssh_key("~/.ssh/deploy_key")
        .with_label("env", "staging")
        .with_label("zone", "eu")
        .with_label("env", "production");
    assert_eq!(target.ssh_key_path.as_deref(), Some("~/.ssh/deploy_key"));
    assert_eq!(target.labels.len(), 2);
    assert_eq!(target.labels.get("env"), Some(&"production".to_string()));
    assert_eq!(target.labels.get("zone"), Some(&"eu".to_string()));
    assert_eq!(target.labels.get("none"), None);
    assert_eq!(target.labels.key_at(0), "env");
}

#[test]
fn config_default_has_every_field() {
    let config = DeploymentConfig::default();
    assert_eq!(config.version, "latest");
    assert_eq!(config.local_binary, "./target/release/zerospider");
    assert_eq!(config.binary_path, "/usr/local/bin/zerospider");
    assert!(config.config_path.is_none());
    assert!(config.env_vars.is_empty());
    assert_eq!(config.working_dir, "/opt/zerospider");
    assert_eq!(config.health_check_interval, 30);
    assert_eq!(config.max_restarts, 3);
    assert!(config.use_sudo);
    let moved = config.with_local_binary("/tmp/bin");
    assert_eq!(moved.local_binary, "/tmp/bin");
    assert_eq!(moved.name, "zerospider");
}

#[test]
fn step_builder_defaults() {
    let step = DeploymentStep::new("deploy", "cp binary /usr/bin/");
    assert_eq!(step.command, "cp binary /usr/bin/");
    assert_eq!(step.expected_exit_code, 0);
    assert_eq!(step.timeout, 60);
    assert!(step.rollback_command.is_none());
    let step = step.with_rollback("rm /usr/bin/binary");
    assert_eq!(step.rollback_command.as_deref(), Some("rm /usr/bin/binary"));
    assert_eq!(step.timeout, 60);
}

fn commands(steps: &[DeploymentStep]) -> Vec<(String, String)> {
    steps.iter().map(|s| (s.name.clone(), s.command.clone())).collect()
}

fn pair(name: &str, command: &str) -> (String, String) {
    (name.to_string(), command.to_string())
}

#[test]
fn direct_steps_with_sudo() {
    let target = DeploymentTarget::new("s", "192.168.1.1", "deploy");
    let config = DeploymentConfig::default();
    let steps = deployment_steps(DeploymentMode::Direct, &target, &config);
    assert_eq!(
        commands(&steps),
        vec![
            pair("create_dir", "sudo mkdir -p /opt/zerospider"),
            pair(
                "upload_binary",
                "scp ./target/release/zerospider deploy@192.168.1.1:/usr/local/bin/zerospider"
            ),
            pair("make_executable", "sudo chmod +x /usr/local/bin/zerospider"),
            pair("start_service", "cd /opt/zerospider && sudo /usr/local/bin/zerospider &"),
        ]
    );
    assert_eq!(steps[0].rollback_command.as_deref(), Some("rm -rf /opt/zerospider"));
    assert!(steps[1..].iter().all(|s| s.rollback_command.is_none()));
    assert!(steps.iter().all(|s| s.timeout == 60 && s.expected_exit_code == 0));
}

#[test]
fn direct_steps_without_sudo_keep_the_gap() {
    let target = DeploymentTarget::new("s", "h", "u");
    let mut config = DeploymentConfig::default();
    config.use_sudo = false;
    let steps = deployment_steps(DeploymentMode::Direct, &target, &config);
    assert_eq!(steps[0].command, " mkdir -p /opt/zerospider");
    assert_eq!(steps[2].command, " chmod +x /usr/local/bin/zerospider");
    assert_eq!(steps[3].command, "cd /opt/zerospider &&  /usr/local/bin/zerospider &");
}

#[test]
fn docker_steps_name_the_version() {
    let target = DeploymentTarget::new("s", "h", "u");
    let mut config = DeploymentConfig::default();
    config.version = "1.2.3".to_string();
    let deployer = RemoteDeployer::new(DeploymentMode::Docker);
    assert_eq!(deployer.mode(), DeploymentMode::Docker);
    let steps = deployer.build_deployment_steps(&target, &config);
    assert_eq!(
        commands(&steps),
        vec![
            pair("pull_image", "docker pull zerospider:1.2.3"),
            pair("stop_existing", "docker stop zerospider || true"),
            pair("remove_existing", "docker rm zerospider || true"),
            pair(
                "run_container",
                "docker run -d --name zerospider -p 8080:8080 zerospider:1.2.3"
            ),
        ]
    );
}

#[test]
fn systemd_steps() {
    let target = DeploymentTarget::new("s", "example.org", "ops");
    let config = DeploymentConfig::default().with_local_binary("/build/zs");
    let steps = deployment_steps(DeploymentMode::Systemd, &target, &config);
    assert_eq!(
        commands(&steps),
        vec![
            pair("upload_binary", "scp /build/zs ops@example.org:/usr/local/bin/zerospider"),
            pair("install_service", "sudo systemctl daemon-reload"),
            pair("enable_service", "sudo systemctl enable zerospider"),
            pair("start_service", "sudo systemctl start zerospider"),
        ]
    );
}

#[test]
fn rollback_commands_by_mode() {
    assert_eq!(
        rollback_commands(DeploymentMode::Direct),
        vec!["pkill -x zerospider || true", "rm -rf /opt/zerospider"]
    );
    assert_eq!(
        rollback_commands(DeploymentMode::Docker),
        vec!["docker stop zerospider || true", "docker rm zerospider || true"]
    );
    assert_eq!(
        rollback_commands(DeploymentMode::Systemd),
        vec!["systemctl stop zerospider || true", "systemctl disable zerospider || true"]
    );
    assert_eq!(health_check_command(), "pgrep -x zerospider > /dev/null");
}

#[test]
fn ssh_arguments_address_the_target() {
    let target = DeploymentTarget::new("s", "10.0.0.7", "deploy").with_port(2222);
    assert_eq!(
        ssh_arguments(&target, "uptime"),
        vec!["-o", "StrictHostKeyChecking=no", "-p", "2222", "deploy@10.0.0.7", "uptime"]
    );
}

#[test]
fn deployment_goes_step_by_step() {
    let steps = deployment_steps(
        DeploymentMode::Direct,
        &DeploymentTarget::new("s", "h", "u"),
        &DeploymentConfig::default(),
    );
    assert_eq!(first_action(&steps), DeployAction::Execute(0));
    assert_eq!(action_after(&steps, 0, true), DeployAction::Execute(1));
    assert_eq!(action_after(&steps, 2, true), DeployAction::Execute(3));
    assert_eq!(action_after(&steps, 3, true), DeployAction::Finish);
    // only the first step has a rollback
    assert_eq!(action_after(&steps, 0, false), DeployAction::RollBackAndFail(0));
    assert_eq!(action_after(&steps, 1, false), DeployAction::Fail(1));
    assert_eq!(first_action(&vec![]), DeployAction::Finish);
}

#[test]
fn plan_deploy_needs_target_and_config() {
    let mut deployer = RemoteDeployer::new(DeploymentMode::Systemd);
    assert_eq!(
        deployer.plan_deploy("s", "zerospider").unwrap_err(),
        DeployError::TargetNotFound("s".to_string())
    );
    deployer.register_target(DeploymentTarget::new("s", "h", "u"));
    assert_eq!(
        deployer.plan_deploy("s", "zerospider").unwrap_err(),
        DeployError::ConfigNotFound("zerospider".to_string())
    );
    deployer.set_config(DeploymentConfig::default());
    let steps = deployer.plan_deploy("s", "zerospider").unwrap();
    assert_eq!(steps.len(), 4);
    assert_eq!(steps[3].command, "sudo systemctl start zerospider");
    // the target is looked up first
    assert_eq!(
        deployer.plan_deploy("t", "other").unwrap_err(),
        DeployError::TargetNotFound("t".to_string())
    );
    assert_eq!(deployer.get_target("s").unwrap().host, "h");
    assert_eq!(
        deployer.get_target("t").unwrap_err(),
        DeployError::TargetNotFound("t".to_string())
    );
}

#[test]
fn status_follows_deploy_check_and_rollback() {
    let mut deployer = RemoteDeployer::new(DeploymentMode::Direct);
    deployer.register_target(DeploymentTarget::new("s", "h", "u"));
    let mut config = DeploymentConfig::default();
    config.version = "2.0".to_string();
    config.auto_start = false;
    deployer.set_config(config);

    assert!(!deployer.record_deployed("s", "missing"));
    assert!(!deployer.record_deployed("t", "zerospider"));
    assert!(!deployer.get_status("s").unwrap().deployed);

    assert!(deployer.record_deployed("s", "zerospider"));
    let status = deployer.get_status("s").unwrap();
    assert_eq!(status.target_id, "s");
    assert!(status.deployed);
    assert_eq!(status.version.as_deref(), Some("2.0"));
    assert!(!status.running);
    assert!(!status.healthy());

    let at = std::time::Instant::now();
    assert_eq!(deployer.record_health_check("s", true, at), Ok(true));
    let status = deployer.get_status("s").unwrap();
    assert!(status.running);
    assert_eq!(status.last_health_check, Some(at));
    assert!(status.healthy());
    assert_eq!(deployer.record_health_check("s", false, at), Ok(false));
    assert!(!deployer.get_status("s").unwrap().running);
    assert_eq!(
        deployer.record_health_check("t", true, at),
        Err(DeployError::TargetNotFound("t".to_string()))
    );

    assert_eq!(
        deployer.plan_rollback("s").unwrap(),
        vec!["pkill -x zerospider || true", "rm -rf /opt/zerospider"]
    );
    assert!(deployer.plan_rollback("t").is_err());
    assert!(deployer.record_rollback("s"));
    let status = deployer.get_status("s").unwrap();
    assert!(!status.deployed);
    assert!(!status.running);
    assert_eq!(status.version.as_deref(), Some("2.0"));
    assert!(!deployer.record_rollback("t"));
}

#[test]
fn registering_again_resets_the_status_and_keeps_the_place() {
    let mut deployer = RemoteDeployer::new(DeploymentMode::Direct);
    deployer.register_target(DeploymentTarget::new("a", "h1", "u"));
    deployer.register_target(DeploymentTarget::new("b", "h2", "u"));
    deployer.set_config(DeploymentConfig::default());
    assert!(deployer.record_deployed("a", "zerospider"));
    deployer.register_target(DeploymentTarget::new("a", "h3", "u"));
    let targets = deployer.list_targets();
    assert_eq!(targets.len(), 2);
    assert_eq!(targets[0].host, "h3");
    assert_eq!(targets[1].id, "b");
    assert!(!deployer.get_status("a").unwrap().deployed);
    assert!(deployer.get_status("c").is_none());
}

#[test]
fn deploy_errors_have_their_texts() {
    assert_eq!(DeployError::TargetNotFound("s".to_string()).message(), "Target not found: s");
    assert_eq!(DeployError::ConfigNotFound("c".to_string()).message(), "Config not found: c");
    assert_eq!(
        DeployError::UnknownServer("s".to_string()).message(),
        "Deployment target 's' not found"
    );
    assert_eq!(
        DeployError::NoTargets.message(),
        "No deployment targets configured. Add targets to your config.toml under [deploy.servers]"
    );
}

#[test]
fn deployment_mode_is_parsed_leniently() {
    assert_eq!(parse_deployment_mode("docker"), DeploymentMode::Docker);
    assert_eq!(parse_deployment_mode("Docker"), DeploymentMode::Docker);
    assert_eq!(parse_deployment_mode("SYSTEMD"), DeploymentMode::Systemd);
    assert_eq!(parse_deployment_mode("direct"), DeploymentMode::Direct);
    assert_eq!(parse_deployment_mode("docker "), DeploymentMode::Direct);
    assert_eq!(parse_deployment_mode(""), DeploymentMode::Direct);
}

fn text_pair(key: &str, value: &str) -> (String, String) {
    (key.to_string(), value.to_string())
}

#[test]
fn labels_split_at_the_first_separator() {
    assert_eq!(parse_label("env:production"), text_pair("env", "production"));
    assert_eq!(parse_label("env=staging"), text_pair("env", "staging"));
    assert_eq!(parse_label("a=b:c"), text_pair("a=b", "c"));
    assert_eq!(parse_label("a:b:c"), text_pair("a", "b:c"));
    assert_eq!(parse_label("a:b=c"), text_pair("a", "b=c"));
    assert_eq!(parse_label("solo"), text_pair("solo", "solo"));
    assert_eq!(parse_label(":x"), text_pair("", "x"));
    assert_eq!(parse_label("x="), text_pair("x", ""));
    assert_eq!(parse_label(""), text_pair("", ""));
}

fn server(id: &str, labels: &[&str]) -> DeploymentTargetConfig {
    DeploymentTargetConfig {
        id: id.to_string(),
        host: format!("{}.example.org", id),
        port: 2200,
        user: "deploy".to_string(),
        ssh_key: Some("/keys/id".to_string()),
        labels: labels.iter().map(|l| l.to_string()).collect(),
    }
}

#[test]
fn configured_server_becomes_a_target() {
    let target = convert_target_config(&server("web", &["env:test", "fast", "env=prod"]));
    assert_eq!(target.id, "web");
    assert_eq!(target.host, "web.example.org");
    assert_eq!(target.port, 2200);
    assert_eq!(target.user, "deploy");
    assert_eq!(target.ssh_key_path.as_deref(), Some("/keys/id"));
    assert_eq!(target.labels.len(), 2);
    assert_eq!(target.labels.get("env"), Some(&"prod".to_string()));
    assert_eq!(target.labels.get("fast"), Some(&"fast".to_string()));
}

#[test]
fn load_deploy_config_wants_a_server() {
    assert_eq!(load_deploy_config(&vec![]).unwrap_err(), DeployError::NoTargets);
    let targets = load_deploy_config(&vec![server("a", &[]), server("b", &["x:y"])]).unwrap();
    assert_eq!(targets.len(), 2);
    assert_eq!(targets[0].id, "a");
    assert_eq!(targets[1].labels.get("x"), Some(&"y".to_string()));
}

#[test]
fn find_target_takes_the_first_with_the_id() {
    let targets = vec![
        DeploymentTarget::new("a", "h1", "u"),
        DeploymentTarget::new("b", "h2", "u"),
        DeploymentTarget::new("a", "h3", "u"),
    ];
    assert_eq!(find_target("a", &targets).unwrap().host, "h1");
    assert_eq!(find_target("b", &targets).unwrap().host, "h2");
    let missing = find_target("c", &targets).unwrap_err();
    assert_eq!(missing, DeployError::UnknownServer("c".to_string()));
    assert_eq!(missing.message(), "Deployment target 'c' not found");
    assert!(find_target("a", &[]).is_err());
}

#[test]
fn settings_become_a_deployment_config() {
    let settings = DeploymentSettingsConfig {
        mode: "systemd".to_string(),
        binary_path: "/srv/bin/zs".to_string(),
        config_path: Some("/etc/zs.toml".to_string()),
        working_dir: "/srv/zs".to_string(),
        auto_start: false,
        health_check_interval_secs: 45,
        restart_on_failure: true,
        max_restarts: 7,
        use_sudo: false,
    };
    let config = create_deployment_config(&settings, "3.1", "/home/me/zs");
    assert_eq!(config.name, "zerospider");
    assert_eq!(config.version, "3.1");
    assert_eq!(config.local_binary, "/home/me/zs");
    assert_eq!(config.binary_path, "/srv/bin/zs");
    assert_eq!(config.config_path.as_deref(), Some("/etc/zs.toml"));
    assert!(config.env_vars.is_empty());
    assert_eq!(config.working_dir, "/srv/zs");
    assert!(!config.auto_start);
    assert_eq!(config.health_check_interval, 45);
    assert!(config.restart_on_failure);
    assert_eq!(config.max_restarts, 7);
    assert!(!config.use_sudo);
    assert_eq!(parse_deployment_mode(&settings.mode), DeploymentMode::Systemd);
}

#[test]
fn validation_passes_without_errors() {
    assert_eq!(validation_verdict(false, false), ValidationVerdict::Ready);
    assert_eq!(validation_verdict(true, false), ValidationVerdict::Errors);
    assert_eq!(validation_verdict(false, true), ValidationVerdict::Warnings);
    assert_eq!(validation_verdict(true, true), ValidationVerdict::ErrorsAndWarnings);
    assert!(ValidationVerdict::Ready.passes());
    assert!(ValidationVerdict::Warnings.passes());
    assert!(!ValidationVerdict::Errors.passes());
    assert!(!ValidationVerdict::ErrorsAndWarnings.passes());
}

#[test]
fn commands_name_their_server() {
    let deploy = DeployCommands::Deploy { server: "web".to_string() };
    assert_eq!(deploy.server(), Some(&"web".to_string()));
    let update = DeployCommands::Update { server: "db".to_string(), version: None };
    assert_eq!(update.server(), Some(&"db".to_string()));
    assert_eq!(DeployCommands::List.server(), None);
    assert_eq!(DeployCommands::Validate { server: "x".to_string() }.server(), Some(&"x".to_string()));
}
