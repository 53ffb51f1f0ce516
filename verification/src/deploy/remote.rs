//! Deployment targets, configurations, steps and statuses.
//!
//! Paths are kept as text, and durations as whole seconds.

use vstd::prelude::*;
use std::time::Instant;
use crate::strmap::StrMap;
use crate::text::{decimal, push_decimal};

verus! {

/// A server to deploy to.
#[derive(Debug, Clone)]
pub struct DeploymentTarget {
    pub id: String,
    pub host: String,
    pub port: u16,
    pub user: String,
    pub ssh_key_path: Option<String>,
    pub labels: StrMap<String>,
}

/// The text of an optional string.
pub open spec fn opt_text(s: Option<String>) -> Option<Seq<char>> {
    match s {
        Some(s) => Some(s@),
        None => None,
    }
}

/// The text stored under a key of a map of strings.
pub open spec fn text_under(map: StrMap<String>, key: Seq<char>) -> Option<Seq<char>> {
    opt_text(map.lookup(key))
}

impl DeploymentTarget {
    /// A target on the SSH port 22, without key and labels.
    pub fn new(id: &str, host: &str, user: &str) -> (t: Self)
        ensures
            t.id@ == id@,
            t.host@ == host@,
            t.port == 22,
            t.user@ == user@,
            t.ssh_key_path is None,
            t.labels.keys() == Seq::<Seq<char>>::empty(),
    {
        DeploymentTarget {
            id: String::from_str(id),
            host: String::from_str(host),
            port: 22,
            user: String::from_str(user),
            ssh_key_path: None,
            labels: StrMap::new(),
        }
    }

    /// The same target on another port.
    pub fn with_port(self, port: u16) -> (t: Self)
        ensures
            t.port == port,
            t.id == self.id,
            t.host == self.host,
            t.user == self.user,
            t.ssh_key_path == self.ssh_key_path,
            t.labels == self.labels,
    {
        let mut t = self;
        t.port = port;
        t
    }

    /// The same target with the path of an SSH key.
    pub fn with_ssh_key(self, path: &str) -> (t: Self)
        ensures
            opt_text(t.ssh_key_path) == Some(path@),
            t.id == self.id,
            t.host == self.host,
            t.port == self.port,
            t.user == self.user,
            t.labels == self.labels,
    {
        let mut t = self;
        t.ssh_key_path = Some(String::from_str(path));
        t
    }

    /// The same target with one more label; a label of the same key is
    /// replaced.
    pub fn with_label(self, key: &str, value: &str) -> (t: Self)
        ensures
            t.id == self.id,
            t.host == self.host,
            t.port == self.port,
            t.user == self.user,
            t.ssh_key_path == self.ssh_key_path,
            text_under(t.labels, key@) == Some(value@),
            forall|other: Seq<char>|
                other != key@ ==> t.labels.lookup(other) == self.labels.lookup(other),
            t.labels.keys() == if self.labels.keys().contains(key@) {
                self.labels.keys()
            } else {
                self.labels.keys().push(key@)
            },
    {
        let mut t = self;
        t.labels.insert(String::from_str(key), String::from_str(value));
        t
    }
}

/// What is deployed, and how.
#[derive(Debug, Clone)]
pub struct DeploymentConfig {
    pub name: String,
    pub version: String,
    /// The binary on this machine.
    pub local_binary: String,
    /// Where the binary goes on the server.
    pub binary_path: String,
    pub config_path: Option<String>,
    pub env_vars: StrMap<String>,
    pub working_dir: String,
    pub auto_start: bool,
    /// In seconds.
    pub health_check_interval: u64,
    pub restart_on_failure: bool,
    pub max_restarts: u32,
    /// Whether remote commands run under sudo.
    pub use_sudo: bool,
}

impl Default for DeploymentConfig {
    /// The configuration of the service `zerospider` in its latest
    /// version, with the local binary at its place in the build tree.
    fn default() -> (c: Self)
        ensures
            c.name@ == "zerospider"@,
            c.version@ == "latest"@,
            c.local_binary@ == "./target/release/zerospider"@,
            c.binary_path@ == "/usr/local/bin/zerospider"@,
            c.config_path is None,
            c.env_vars.keys() == Seq::<Seq<char>>::empty(),
            c.working_dir@ == "/opt/zerospider"@,
            c.auto_start,
            c.health_check_interval == 30,
            c.restart_on_failure,
            c.max_restarts == 3,
            c.use_sudo,
    {
        DeploymentConfig {
            name: String::from_str("zerospider"),
            version: String::from_str("latest"),
            local_binary: String::from_str("./target/release/zerospider"),
            binary_path: String::from_str("/usr/local/bin/zerospider"),
            config_path: None,
            env_vars: StrMap::new(),
            working_dir: String::from_str("/opt/zerospider"),
            auto_start: true,
            health_check_interval: 30,
            restart_on_failure: true,
            max_restarts: 3,
            use_sudo: true,
        }
    }
}

impl DeploymentConfig {
    /// The same configuration with another local binary.
    pub fn with_local_binary(self, path: &str) -> (c: Self)
        ensures
            c.local_binary@ == path@,
            c.name == self.name,
            c.version == self.version,
            c.binary_path == self.binary_path,
            c.config_path == self.config_path,
            c.env_vars == self.env_vars,
            c.working_dir == self.working_dir,
            c.auto_start == self.auto_start,
            c.health_check_interval == self.health_check_interval,
            c.restart_on_failure == self.restart_on_failure,
            c.max_restarts == self.max_restarts,
            c.use_sudo == self.use_sudo,
    {
        let mut c = self;
        c.local_binary = String::from_str(path);
        c
    }
}

/// How a target stands.
#[derive(Debug, Clone)]
pub struct DeploymentStatus {
    pub target_id: String,
    pub deployed: bool,
    pub version: Option<String>,
    pub running: bool,
    pub last_health_check: Option<Instant>,
    /// In seconds.
    pub uptime: Option<u64>,
    pub restart_count: u32,
}

impl DeploymentStatus {
    /// Whether the service is deployed and running.
    pub fn healthy(&self) -> (b: bool)
        ensures
            b == (self.deployed && self.running),
    {
        self.deployed && self.running
    }

    /// Whether this is the status of a target that was just
    /// registered.
    pub open spec fn is_fresh(&self, target_id: Seq<char>) -> bool {
        &&& self.target_id@ == target_id
        &&& !self.deployed
        &&& self.version is None
        &&& !self.running
        &&& self.last_health_check is None
        &&& self.uptime is None
        &&& self.restart_count == 0
    }

    fn fresh(target_id: &str) -> (s: Self)
        ensures
            s.is_fresh(target_id@),
    {
        DeploymentStatus {
            target_id: String::from_str(target_id),
            deployed: false,
            version: None,
            running: false,
            last_health_check: None,
            uptime: None,
            restart_count: 0,
        }
    }
}

/// One command of a deployment.
#[derive(Debug, Clone)]
pub struct DeploymentStep {
    pub name: String,
    pub command: String,
    pub expected_exit_code: i32,
    /// In seconds.
    pub timeout: u64,
    pub rollback_command: Option<String>,
}

/// What a step holds, as plain values.
pub struct StepView {
    pub name: Seq<char>,
    pub command: Seq<char>,
    pub expected_exit_code: i32,
    pub timeout: u64,
    pub rollback_command: Option<Seq<char>>,
}

impl View for DeploymentStep {
    type V = StepView;

    open spec fn view(&self) -> StepView {
        StepView {
            name: self.name@,
            command: self.command@,
            expected_exit_code: self.expected_exit_code,
            timeout: self.timeout,
            rollback_command: opt_text(self.rollback_command),
        }
    }
}

/// A step that expects exit code 0 within 60 seconds and has no
/// rollback.
pub open spec fn plain_step(name: Seq<char>, command: Seq<char>) -> StepView {
    StepView { name, command, expected_exit_code: 0, timeout: 60, rollback_command: None }
}

/// A plain step with a rollback command.
pub open spec fn guarded_step(name: Seq<char>, command: Seq<char>, rollback: Seq<char>) -> StepView {
    StepView {
        name,
        command,
        expected_exit_code: 0,
        timeout: 60,
        rollback_command: Some(rollback),
    }
}

impl DeploymentStep {
    /// A step that expects exit code 0 within 60 seconds and has no
    /// rollback.
    pub fn new(name: &str, command: &str) -> (s: Self)
        ensures
            s@ == plain_step(name@, command@),
    {
        DeploymentStep {
            name: String::from_str(name),
            command: String::from_str(command),
            expected_exit_code: 0,
            timeout: 60,
            rollback_command: None,
        }
    }

    /// The same step with another timeout, in seconds.
    pub fn with_timeout(self, timeout: u64) -> (s: Self)
        ensures
            s@ == (StepView { timeout, ..self@ }),
    {
        let mut s = self;
        s.timeout = timeout;
        s
    }

    /// The same step with a command that undoes it.
    pub fn with_rollback(self, command: &str) -> (s: Self)
        ensures
            s@ == (StepView { rollback_command: Some(command@), ..self@ }),
    {
        let mut s = self;
        s.rollback_command = Some(String::from_str(command));
        s
    }
}

/// How the service is run on the server.
#[derive(Debug, Clone, Copy, PartialEq, Eq, Structural)]
pub enum DeploymentMode {
    Direct,
    Docker,
    Systemd,
}

/// Why a deployment command cannot go on.
#[derive(Debug, Clone, PartialEq, Eq)]
pub enum DeployError {
    /// No target is registered under this id.
    TargetNotFound(String),
    /// No configuration is set under this name.
    ConfigNotFound(String),
    /// No target is configured at all.
    NoTargets,
    /// No configured target has this id.
    UnknownServer(String),
}

/// The text of an error.
pub open spec fn deploy_error_text(e: DeployError) -> Seq<char> {
    match e {
        DeployError::TargetNotFound(id) => "Target not found: "@ + id@,
        DeployError::ConfigNotFound(name) => "Config not found: "@ + name@,
        DeployError::NoTargets =>
            "No deployment targets configured. Add targets to your config.toml under [deploy.servers]"@,
        DeployError::UnknownServer(id) => "Deployment target '"@ + id@ + "' not found"@,
    }
}

/// Whether the error says that no target is registered under `id`.
pub open spec fn target_not_found(e: DeployError, id: Seq<char>) -> bool {
    e matches DeployError::TargetNotFound(named) && named@ == id
}

impl DeployError {
    /// The text of the error.
    pub fn message(&self) -> (s: String)
        ensures
            s@ == deploy_error_text(*self),
    {
        match self {
            DeployError::TargetNotFound(id) => {
                let mut s = String::from_str("Target not found: ");
                s.append(id.as_str());
                s
            },
            DeployError::ConfigNotFound(name) => {
                let mut s = String::from_str("Config not found: ");
                s.append(name.as_str());
                s
            },
            DeployError::NoTargets => String::from_str(
                "No deployment targets configured. Add targets to your config.toml under [deploy.servers]",
            ),
            DeployError::UnknownServer(id) => {
                let mut s = String::from_str("Deployment target '");
                s.append(id.as_str());
                s.append("' not found");
                s
            },
        }
    }
}

// ---------------------------------------------------------------------
// The steps of a deployment
// ---------------------------------------------------------------------

/// The word put before a remote command: `sudo`, or nothing.
pub open spec fn sudo_prefix(config: DeploymentConfig) -> Seq<char> {
    if config.use_sudo {
        "sudo"@
    } else {
        ""@
    }
}

/// The command that copies the local binary to the server.
pub open spec fn upload_command(target: DeploymentTarget, config: DeploymentConfig) -> Seq<char> {
    "scp "@ + config.local_binary@ + " "@ + target.user@ + "@"@ + target.host@ + ":"@
        + config.binary_path@
}

/// The steps of a direct deployment: make the directory, copy the
/// binary, make it executable, start it.
pub open spec fn direct_steps(target: DeploymentTarget, config: DeploymentConfig) -> Seq<StepView> {
    seq![
        guarded_step(
            "create_dir"@,
            sudo_prefix(config) + " mkdir -p "@ + config.working_dir@,
            "rm -rf "@ + config.working_dir@,
        ),
        plain_step("upload_binary"@, upload_command(target, config)),
        plain_step("make_executable"@, sudo_prefix(config) + " chmod +x "@ + config.binary_path@),
        plain_step(
            "start_service"@,
            "cd "@ + config.working_dir@ + " && "@ + sudo_prefix(config) + " "@
                + config.binary_path@ + " &"@,
        ),
    ]
}

/// The steps of a deployment with Docker: pull the image, stop and
/// remove the old container, run the new one.
pub open spec fn docker_steps(config: DeploymentConfig) -> Seq<StepView> {
    seq![
        plain_step("pull_image"@, "docker pull zerospider:"@ + config.version@),
        plain_step("stop_existing"@, "docker stop zerospider || true"@),
        plain_step("remove_existing"@, "docker rm zerospider || true"@),
        plain_step(
            "run_container"@,
            "docker run -d --name zerospider -p 8080:8080 zerospider:"@ + config.version@,
        ),
    ]
}

/// The steps of a deployment under systemd: copy the binary, reload
/// the units, enable and start the service.
pub open spec fn systemd_steps(target: DeploymentTarget, config: DeploymentConfig) -> Seq<
    StepView,
> {
    seq![
        plain_step("upload_binary"@, upload_command(target, config)),
        plain_step("install_service"@, sudo_prefix(config) + " systemctl daemon-reload"@),
        plain_step("enable_service"@, sudo_prefix(config) + " systemctl enable zerospider"@),
        plain_step("start_service"@, sudo_prefix(config) + " systemctl start zerospider"@),
    ]
}

/// The steps of a deployment, by mode.
pub open spec fn steps_for(
    mode: DeploymentMode,
    target: DeploymentTarget,
    config: DeploymentConfig,
) -> Seq<StepView> {
    match mode {
        DeploymentMode::Direct => direct_steps(target, config),
        DeploymentMode::Docker => docker_steps(config),
        DeploymentMode::Systemd => systemd_steps(target, config),
    }
}

/// The commands that undo a deployment, by mode. Their failure is of
/// no account.
pub open spec fn rollback_commands_for(mode: DeploymentMode) -> Seq<Seq<char>> {
    match mode {
        DeploymentMode::Direct => seq!["pkill -x zerospider || true"@, "rm -rf /opt/zerospider"@],
        DeploymentMode::Docker => seq![
            "docker stop zerospider || true"@,
            "docker rm zerospider || true"@,
        ],
        DeploymentMode::Systemd => seq![
            "systemctl stop zerospider || true"@,
            "systemctl disable zerospider || true"@,
        ],
    }
}

/// The views of a list of steps.
pub open spec fn step_views(steps: Seq<DeploymentStep>) -> Seq<StepView> {
    Seq::new(steps.len(), |i: int| steps[i]@)
}

/// The texts of a list of strings.
pub open spec fn string_views(v: Seq<String>) -> Seq<Seq<char>> {
    Seq::new(v.len(), |i: int| v[i]@)
}

fn sudo_word(config: &DeploymentConfig) -> (s: &'static str)
    ensures
        s@ == sudo_prefix(*config),
{
    if config.use_sudo {
        "sudo"
    } else {
        ""
    }
}

fn upload_step(target: &DeploymentTarget, config: &DeploymentConfig) -> (s: DeploymentStep)
    ensures
        s@ == plain_step("upload_binary"@, upload_command(*target, *config)),
{
    let mut cmd = String::from_str("scp ");
    cmd.append(config.local_binary.as_str());
    cmd.append(" ");
    cmd.append(target.user.as_str());
    cmd.append("@");
    cmd.append(target.host.as_str());
    cmd.append(":");
    cmd.append(config.binary_path.as_str());
    DeploymentStep::new("upload_binary", cmd.as_str())
}

fn sudo_step(config: &DeploymentConfig, name: &str, rest: &str) -> (s: DeploymentStep)
    ensures
        s@ == plain_step(name@, sudo_prefix(*config) + rest@),
{
    let mut cmd = String::from_str(sudo_word(config));
    cmd.append(rest);
    DeploymentStep::new(name, cmd.as_str())
}

fn sudo_path_step(config: &DeploymentConfig, name: &str, verb: &str, path: &str) -> (s:
    DeploymentStep)
    ensures
        s@ == plain_step(name@, sudo_prefix(*config) + verb@ + path@),
{
    let mut cmd = String::from_str(sudo_word(config));
    cmd.append(verb);
    cmd.append(path);
    DeploymentStep::new(name, cmd.as_str())
}

fn version_step(config: &DeploymentConfig, name: &str, before: &str) -> (s: DeploymentStep)
    ensures
        s@ == plain_step(name@, before@ + config.version@),
{
    let mut cmd = String::from_str(before);
    cmd.append(config.version.as_str());
    DeploymentStep::new(name, cmd.as_str())
}

/// The steps that deploy `config` to `target` in the given mode.
pub fn deployment_steps(
    mode: DeploymentMode,
    target: &DeploymentTarget,
    config: &DeploymentConfig,
) -> (steps: Vec<DeploymentStep>)
    ensures
        step_views(steps@) == steps_for(mode, *target, *config),
{
    let mut steps: Vec<DeploymentStep> = Vec::new();
    match mode {
        DeploymentMode::Direct => {
            let mut undo = String::from_str("rm -rf ");
            undo.append(config.working_dir.as_str());
            let create = sudo_path_step(
                config,
                "create_dir",
                " mkdir -p ",
                config.working_dir.as_str(),
            ).with_rollback(undo.as_str());
            steps.push(create);
            steps.push(upload_step(target, config));
            steps.push(
                sudo_path_step(config, "make_executable", " chmod +x ", config.binary_path.as_str()),
            );
            let mut start = String::from_str("cd ");
            start.append(config.working_dir.as_str());
            start.append(" && ");
            start.append(sudo_word(config));
            start.append(" ");
            start.append(config.binary_path.as_str());
            start.append(" &");
            steps.push(DeploymentStep::new("start_service", start.as_str()));
            proof {
                assert(step_views(steps@) =~= direct_steps(*target, *config));
            }
        },
        DeploymentMode::Docker => {
            steps.push(version_step(config, "pull_image", "docker pull zerospider:"));
            steps.push(DeploymentStep::new("stop_existing", "docker stop zerospider || true"));
            steps.push(DeploymentStep::new("remove_existing", "docker rm zerospider || true"));
            steps.push(
                version_step(
                    config,
                    "run_container",
                    "docker run -d --name zerospider -p 8080:8080 zerospider:",
                ),
            );
            proof {
                assert(step_views(steps@) =~= docker_steps(*config));
            }
        },
        DeploymentMode::Systemd => {
            steps.push(upload_step(target, config));
            steps.push(sudo_step(config, "install_service", " systemctl daemon-reload"));
            steps.push(sudo_step(config, "enable_service", " systemctl enable zerospider"));
            steps.push(sudo_step(config, "start_service", " systemctl start zerospider"));
            proof {
                assert(step_views(steps@) =~= systemd_steps(*target, *config));
            }
        },
    }
    steps
}

/// The commands that undo a deployment in the given mode.
pub fn rollback_commands(mode: DeploymentMode) -> (commands: Vec<String>)
    ensures
        string_views(commands@) == rollback_commands_for(mode),
{
    let mut commands: Vec<String> = Vec::new();
    match mode {
        DeploymentMode::Direct => {
            commands.push(String::from_str("pkill -x zerospider || true"));
            commands.push(String::from_str("rm -rf /opt/zerospider"));
        },
        DeploymentMode::Docker => {
            commands.push(String::from_str("docker stop zerospider || true"));
            commands.push(String::from_str("docker rm zerospider || true"));
        },
        DeploymentMode::Systemd => {
            commands.push(String::from_str("systemctl stop zerospider || true"));
            commands.push(String::from_str("systemctl disable zerospider || true"));
        },
    }
    proof {
        assert(string_views(commands@) =~= rollback_commands_for(mode));
    }
    commands
}

/// The command by which the health of the service is checked.
pub fn health_check_command() -> (command: &'static str)
    ensures
        command@ == "pgrep -x zerospider > /dev/null"@,
{
    "pgrep -x zerospider > /dev/null"
}

/// The arguments with which `ssh` runs `command` on a target: no
/// strict host key checking, the port, `user@host`, the command.
pub open spec fn ssh_arguments_for(target: DeploymentTarget, command: Seq<char>) -> Seq<Seq<char>> {
    seq![
        "-o"@,
        "StrictHostKeyChecking=no"@,
        "-p"@,
        decimal(target.port as nat),
        target.user@ + "@"@ + target.host@,
        command,
    ]
}

/// The arguments with which `ssh` runs `command` on a target.
pub fn ssh_arguments(target: &DeploymentTarget, command: &str) -> (args: Vec<String>)
    ensures
        string_views(args@) == ssh_arguments_for(*target, command@),
{
    let mut args: Vec<String> = Vec::new();
    args.push(String::from_str("-o"));
    args.push(String::from_str("StrictHostKeyChecking=no"));
    args.push(String::from_str("-p"));
    let mut port = String::new();
    push_decimal(&mut port, target.port as u64);
    args.push(port);
    let mut login = String::from_str(target.user.as_str());
    login.append("@");
    login.append(target.host.as_str());
    args.push(login);
    args.push(String::from_str(command));
    proof {
        assert(Seq::<char>::empty() + decimal(target.port as nat) =~= decimal(target.port as nat));
        assert(string_views(args@) =~= ssh_arguments_for(*target, command@));
    }
    args
}

/// What the caller of a deployment does next.
#[derive(Debug, Clone, Copy, PartialEq, Eq, Structural)]
pub enum DeployAction {
    /// Run the step at this position.
    Execute(usize),
    /// The step at this position failed: run its rollback command,
    /// whatever comes of it, and report the failure of the step.
    RollBackAndFail(usize),
    /// The step at this position failed and has no rollback: report
    /// its failure.
    Fail(usize),
    /// Every step has succeeded.
    Finish,
}

/// What comes first in a deployment of `steps`.
pub fn first_action(steps: &Vec<DeploymentStep>) -> (action: DeployAction)
    ensures
        action == if steps@.len() == 0 {
            DeployAction::Finish
        } else {
            DeployAction::Execute(0)
        },
{
    if steps.len() == 0 {
        DeployAction::Finish
    } else {
        DeployAction::Execute(0)
    }
}

/// What comes after the step at position `index` has run: the next
/// step after a success, and after a failure the end, through the
/// rollback of the step if it has one.
pub fn action_after(steps: &Vec<DeploymentStep>, index: usize, succeeded: bool) -> (action:
    DeployAction)
    requires
        index < steps@.len(),
    ensures
        action == if succeeded {
            if index + 1 < steps@.len() {
                DeployAction::Execute((index + 1) as usize)
            } else {
                DeployAction::Finish
            }
        } else if steps@[index as int].rollback_command is Some {
            DeployAction::RollBackAndFail(index)
        } else {
            DeployAction::Fail(index)
        },
{
    if succeeded {
        if index < steps.len() - 1 {
            DeployAction::Execute(index + 1)
        } else {
            DeployAction::Finish
        }
    } else if steps[index].rollback_command.is_some() {
        DeployAction::RollBackAndFail(index)
    } else {
        DeployAction::Fail(index)
    }
}

// ---------------------------------------------------------------------
// The deployer
// ---------------------------------------------------------------------

/// Whether `now` is the status `prev` after a successful deployment
/// of `version`.
pub open spec fn status_deployed(
    prev: DeploymentStatus,
    now: DeploymentStatus,
    version: Seq<char>,
    auto_start: bool,
) -> bool {
    &&& now.target_id == prev.target_id
    &&& now.deployed
    &&& opt_text(now.version) == Some(version)
    &&& now.running == auto_start
    &&& now.last_health_check == prev.last_health_check
    &&& now.uptime == prev.uptime
    &&& now.restart_count == prev.restart_count
}

/// Whether `now` is the status `prev` after a health check.
pub open spec fn status_checked(
    prev: DeploymentStatus,
    now: DeploymentStatus,
    running: bool,
    at: Instant,
) -> bool {
    &&& now.target_id == prev.target_id
    &&& now.deployed == prev.deployed
    &&& now.version == prev.version
    &&& now.running == running
    &&& now.last_health_check == Some(at)
    &&& now.uptime == prev.uptime
    &&& now.restart_count == prev.restart_count
}

/// Whether `now` is the status `prev` after a rollback.
pub open spec fn status_rolled_back(prev: DeploymentStatus, now: DeploymentStatus) -> bool {
    &&& now.target_id == prev.target_id
    &&& !now.deployed
    &&& now.version == prev.version
    &&& !now.running
    &&& now.last_health_check == prev.last_health_check
    &&& now.uptime == prev.uptime
    &&& now.restart_count == prev.restart_count
}

/// Keeps the targets, the configurations and the status of each
/// target, and plans deployments in one mode.
pub struct RemoteDeployer {
    targets: StrMap<DeploymentTarget>,
    configs: StrMap<DeploymentConfig>,
    statuses: StrMap<DeploymentStatus>,
    mode: DeploymentMode,
}

impl RemoteDeployer {
    /// The mode of the deployer.
    pub closed spec fn mode_spec(&self) -> DeploymentMode {
        self.mode
    }

    /// The ids of the targets, in the order of their first
    /// registration.
    pub closed spec fn target_ids(&self) -> Seq<Seq<char>> {
        self.targets.keys()
    }

    /// The targets, each at the position of its id.
    pub closed spec fn targets(&self) -> Seq<DeploymentTarget> {
        self.targets.values()
    }

    /// The target registered under an id, if any.
    pub closed spec fn target_of(&self, id: Seq<char>) -> Option<DeploymentTarget> {
        self.targets.lookup(id)
    }

    /// The configuration set under a name, if any.
    pub closed spec fn config_of(&self, name: Seq<char>) -> Option<DeploymentConfig> {
        self.configs.lookup(name)
    }

    /// The status kept under an id, if any.
    pub closed spec fn status_of(&self, id: Seq<char>) -> Option<DeploymentStatus> {
        self.statuses.lookup(id)
    }

    /// Whether `self` differs from `before` at most in the status kept
    /// under `id`.
    pub open spec fn same_but_status(&self, before: Self, id: Seq<char>) -> bool {
        &&& self.mode_spec() == before.mode_spec()
        &&& self.target_ids() == before.target_ids()
        &&& self.targets() == before.targets()
        &&& forall|k: Seq<char>| self.target_of(k) == before.target_of(k)
        &&& forall|k: Seq<char>| self.config_of(k) == before.config_of(k)
        &&& forall|k: Seq<char>| k != id ==> self.status_of(k) == before.status_of(k)
    }

    /// A deployer without targets and configurations.
    pub fn new(mode: DeploymentMode) -> (d: Self)
        ensures
            d.mode_spec() == mode,
            d.target_ids() == Seq::<Seq<char>>::empty(),
            d.targets() == Seq::<DeploymentTarget>::empty(),
            forall|k: Seq<char>| d.target_of(k) is None,
            forall|k: Seq<char>| d.config_of(k) is None,
            forall|k: Seq<char>| d.status_of(k) is None,
    {
        RemoteDeployer {
            targets: StrMap::new(),
            configs: StrMap::new(),
            statuses: StrMap::new(),
            mode,
        }
    }

    /// The mode of the deployer.
    pub fn mode(&self) -> (m: DeploymentMode)
        ensures
            m == self.mode_spec(),
    {
        self.mode
    }

    /// Registers a target under its id, in place of a target of the
    /// same id, and gives it a fresh status.
    pub fn register_target(&mut self, target: DeploymentTarget)
        ensures
            final(self).mode_spec() == old(self).mode_spec(),
            forall|k: Seq<char>| final(self).config_of(k) == old(self).config_of(k),
            final(self).target_of(target.id@) == Some(target),
            final(self).status_of(target.id@) is Some,
            final(self).status_of(target.id@)->0.is_fresh(target.id@),
            forall|k: Seq<char>|
                k != target.id@ ==> final(self).target_of(k) == old(self).target_of(k),
            forall|k: Seq<char>|
                k != target.id@ ==> final(self).status_of(k) == old(self).status_of(k),
            final(self).target_ids() == if old(self).target_ids().contains(target.id@) {
                old(self).target_ids()
            } else {
                old(self).target_ids().push(target.id@)
            },
            final(self).targets().len() == final(self).target_ids().len(),
    {
        let status = DeploymentStatus::fresh(target.id.as_str());
        self.statuses.insert(target.id.clone(), status);
        self.targets.insert(target.id.clone(), target);
        proof {
            use_type_invariant(&self.targets);
        }
    }

    /// Sets a configuration under its name, in place of a
    /// configuration of the same name.
    pub fn set_config(&mut self, config: DeploymentConfig)
        ensures
            final(self).mode_spec() == old(self).mode_spec(),
            final(self).target_ids() == old(self).target_ids(),
            final(self).targets() == old(self).targets(),
            forall|k: Seq<char>| final(self).target_of(k) == old(self).target_of(k),
            forall|k: Seq<char>| final(self).status_of(k) == old(self).status_of(k),
            final(self).config_of(config.name@) == Some(config),
            forall|k: Seq<char>|
                k != config.name@ ==> final(self).config_of(k) == old(self).config_of(k),
    {
        self.configs.insert(config.name.clone(), config);
    }

    /// The status kept under an id, if any.
    pub fn get_status(&self, target_id: &str) -> (r: Option<&DeploymentStatus>)
        ensures
            match r {
                Some(s) => self.status_of(target_id@) == Some(*s),
                None => self.status_of(target_id@) is None,
            },
    {
        self.statuses.get(target_id)
    }

    /// The target registered under an id.
    pub fn get_target(&self, target_id: &str) -> (r: Result<&DeploymentTarget, DeployError>)
        ensures
            match r {
                Ok(t) => self.target_of(target_id@) == Some(*t),
                Err(e) => self.target_of(target_id@) is None && target_not_found(e, target_id@),
            },
    {
        match self.targets.get(target_id) {
            Some(t) => Ok(t),
            None => Err(DeployError::TargetNotFound(String::from_str(target_id))),
        }
    }

    /// The targets, in the order of their first registration.
    pub fn list_targets(&self) -> (list: Vec<&DeploymentTarget>)
        ensures
            list@.len() == self.targets().len(),
            forall|i: int| 0 <= i < list@.len() ==> *(#[trigger] list@[i]) == self.targets()[i],
    {
        let n: usize = self.targets.len();
        let mut list: Vec<&DeploymentTarget> = Vec::new();
        let mut i: usize = 0;
        while i < n
            invariant
                i <= n,
                n == self.targets().len(),
                list@.len() == i,
                forall|j: int| 0 <= j < i ==> *(#[trigger] list@[j]) == self.targets()[j],
            decreases n - i,
        {
            list.push(self.targets.value_at(i));
            i += 1;
        }
        list
    }

    /// The steps that deploy `config` to `target` in the deployer's
    /// mode.
    pub fn build_deployment_steps(&self, target: &DeploymentTarget, config: &DeploymentConfig) -> (steps:
        Vec<DeploymentStep>)
        ensures
            step_views(steps@) == steps_for(self.mode_spec(), *target, *config),
    {
        deployment_steps(self.mode, target, config)
    }

    /// The steps of the deployment of a configuration to a target. It
    /// fails if the target is not registered, else if the
    /// configuration is not set.
    pub fn plan_deploy(&self, target_id: &str, config_name: &str) -> (r: Result<
        Vec<DeploymentStep>,
        DeployError,
    >)
        ensures
            match r {
                Ok(steps) => {
                    &&& self.target_of(target_id@) is Some
                    &&& self.config_of(config_name@) is Some
                    &&& step_views(steps@) == steps_for(
                        self.mode_spec(),
                        self.target_of(target_id@)->0,
                        self.config_of(config_name@)->0,
                    )
                },
                Err(DeployError::TargetNotFound(id)) => self.target_of(target_id@) is None && id@
                    == target_id@,
                Err(DeployError::ConfigNotFound(name)) => self.target_of(target_id@) is Some
                    && self.config_of(config_name@) is None && name@ == config_name@,
                Err(_) => false,
            },
    {
        let target = match self.targets.get(target_id) {
            Some(t) => t,
            None => {
                return Err(DeployError::TargetNotFound(String::from_str(target_id)));
            },
        };
        let config = match self.configs.get(config_name) {
            Some(c) => c,
            None => {
                return Err(DeployError::ConfigNotFound(String::from_str(config_name)));
            },
        };
        Ok(deployment_steps(self.mode, target, config))
    }

    /// Notes that every step of the deployment of a configuration to a
    /// target has succeeded: the target is deployed in the
    /// configuration's version, and runs if the configuration starts
    /// it. Without that configuration or without a status of the
    /// target nothing changes.
    pub fn record_deployed(&mut self, target_id: &str, config_name: &str) -> (noted: bool)
        ensures
            final(self).same_but_status(*old(self), target_id@),
            noted == (old(self).config_of(config_name@) is Some && old(self).status_of(
                target_id@,
            ) is Some),
            noted ==> final(self).status_of(target_id@) is Some && status_deployed(
                old(self).status_of(target_id@)->0,
                final(self).status_of(target_id@)->0,
                old(self).config_of(config_name@)->0.version@,
                old(self).config_of(config_name@)->0.auto_start,
            ),
            !noted ==> final(self).status_of(target_id@) == old(self).status_of(target_id@),
    {
        let (version, auto_start) = match self.configs.get(config_name) {
            Some(c) => (c.version.clone(), c.auto_start),
            None => {
                return false;
            },
        };
        match self.statuses.position(target_id) {
            Some(i) => {
                let ghost before = self.statuses;
                let mut status = self.statuses.replace_at(i, DeploymentStatus::fresh(""));
                status.deployed = true;
                status.version = Some(version);
                status.running = auto_start;
                self.statuses.set_at(i, status);
                proof {
                    assert(self.statuses.values() =~= before.values().update(i as int, status));
                    self.statuses.lemma_update_lookup(before, i as int, status);
                }
                true
            },
            None => false,
        }
    }

    /// Notes the result of a health check of a target, made at `at`.
    /// It fails if the target is not registered.
    pub fn record_health_check(&mut self, target_id: &str, running: bool, at: Instant) -> (r:
        Result<bool, DeployError>)
        ensures
            final(self).same_but_status(*old(self), target_id@),
            match r {
                Ok(b) => {
                    &&& b == running
                    &&& old(self).target_of(target_id@) is Some
                    &&& match old(self).status_of(target_id@) {
                        Some(prev) => final(self).status_of(target_id@) is Some && status_checked(
                            prev,
                            final(self).status_of(target_id@)->0,
                            running,
                            at,
                        ),
                        None => final(self).status_of(target_id@) is None,
                    }
                },
                Err(e) => {
                    &&& old(self).target_of(target_id@) is None
                    &&& target_not_found(e, target_id@)
                    &&& final(self).status_of(target_id@) == old(self).status_of(target_id@)
                },
            },
    {
        if !self.targets.contains_key(target_id) {
            return Err(DeployError::TargetNotFound(String::from_str(target_id)));
        }
        match self.statuses.position(target_id) {
            Some(i) => {
                let ghost before = self.statuses;
                let mut status = self.statuses.replace_at(i, DeploymentStatus::fresh(""));
                status.running = running;
                status.last_health_check = Some(at);
                self.statuses.set_at(i, status);
                proof {
                    assert(self.statuses.values() =~= before.values().update(i as int, status));
                    self.statuses.lemma_update_lookup(before, i as int, status);
                }
            },
            None => {},
        }
        Ok(running)
    }

    /// The commands that undo a deployment in the deployer's mode.
    pub fn plan_rollback(&self, target_id: &str) -> (r: Result<Vec<String>, DeployError>)
        ensures
            match r {
                Ok(commands) => self.target_of(target_id@) is Some && string_views(commands@)
                    == rollback_commands_for(self.mode_spec()),
                Err(e) => self.target_of(target_id@) is None && target_not_found(e, target_id@),
            },
    {
        if !self.targets.contains_key(target_id) {
            return Err(DeployError::TargetNotFound(String::from_str(target_id)));
        }
        Ok(rollback_commands(self.mode))
    }

    /// Notes that a target was rolled back: it is neither deployed nor
    /// running. Without a status of the target nothing changes.
    pub fn record_rollback(&mut self, target_id: &str) -> (noted: bool)
        ensures
            final(self).same_but_status(*old(self), target_id@),
            noted == (old(self).status_of(target_id@) is Some),
            noted ==> final(self).status_of(target_id@) is Some && status_rolled_back(
                old(self).status_of(target_id@)->0,
                final(self).status_of(target_id@)->0,
            ),
            !noted ==> final(self).status_of(target_id@) == old(self).status_of(target_id@),
    {
        match self.statuses.position(target_id) {
            Some(i) => {
                let ghost before = self.statuses;
                let mut status = self.statuses.replace_at(i, DeploymentStatus::fresh(""));
                status.deployed = false;
                status.running = false;
                self.statuses.set_at(i, status);
                proof {
                    assert(self.statuses.values() =~= before.values().update(i as int, status));
                    self.statuses.lemma_update_lookup(before, i as int, status);
                }
                true
            },
            None => false,
        }
    }
}

} // verus!
