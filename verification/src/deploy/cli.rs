//! What the deployment commands decide before anything is run: how the
//! configured servers become targets, which mode is meant, which
//! target a command addresses, and how a validation ends.

use vstd::prelude::*;
use crate::deploy::remote::{
    opt_text, text_under, DeployError, DeploymentConfig, DeploymentMode, DeploymentTarget,
};
use crate::strmap::StrMap;
use crate::text::{chars_of, lowercase_of};

verus! {

/// A server as the configuration file describes it.
#[derive(Debug, Clone)]
pub struct DeploymentTargetConfig {
    pub id: String,
    pub host: String,
    pub port: u16,
    pub user: String,
    pub ssh_key: Option<String>,
    /// Labels as `key:value` or `key=value`, or a single word.
    pub labels: Vec<String>,
}

/// The deployment settings of the configuration file.
#[derive(Debug, Clone)]
pub struct DeploymentSettingsConfig {
    pub mode: String,
    pub binary_path: String,
    pub config_path: Option<String>,
    pub working_dir: String,
    pub auto_start: bool,
    pub health_check_interval_secs: u64,
    pub restart_on_failure: bool,
    pub max_restarts: u32,
    pub use_sudo: bool,
}

/// The mode that a word of the settings names: `docker` and `systemd`
/// in any case of letters, and direct for every other word.
pub open spec fn mode_named(word: Seq<char>) -> DeploymentMode {
    if lowercase_of(word) == "docker"@ {
        DeploymentMode::Docker
    } else if lowercase_of(word) == "systemd"@ {
        DeploymentMode::Systemd
    } else {
        DeploymentMode::Direct
    }
}

/// The mode that a word of the settings names.
pub fn parse_deployment_mode(mode_str: &str) -> (mode: DeploymentMode)
    ensures
        mode == mode_named(mode_str@),
{
    let lower = mode_str.to_lowercase();
    if lower == String::from_str("docker") {
        DeploymentMode::Docker
    } else if lower == String::from_str("systemd") {
        DeploymentMode::Systemd
    } else {
        DeploymentMode::Direct
    }
}

/// The position of the first `c` among the first `n` characters of
/// `s`, if there is one.
pub open spec fn find_upto(s: Seq<char>, c: char, n: nat) -> Option<int>
    decreases n,
{
    if n == 0 {
        None
    } else {
        match find_upto(s, c, (n - 1) as nat) {
            Some(i) => Some(i),
            None => if s[n - 1] == c {
                Some(n - 1)
            } else {
                None
            },
        }
    }
}

/// The position of the first `c` in `s`, if there is one.
pub open spec fn find_char(s: Seq<char>, c: char) -> Option<int> {
    find_upto(s, c, s.len())
}

/// A first occurrence among the first `n` characters stays the first
/// among more.
pub proof fn lemma_find_stays(s: Seq<char>, c: char, n: nat, m: nat)
    requires
        n <= m,
        find_upto(s, c, n) is Some,
    ensures
        find_upto(s, c, m) == find_upto(s, c, n),
    decreases m,
{
    if m > n {
        lemma_find_stays(s, c, n, (m - 1) as nat);
    }
}

/// What stands before and behind the character at `i`.
pub open spec fn split_around(s: Seq<char>, i: int) -> (Seq<char>, Seq<char>) {
    (s.subrange(0, i), s.subrange(i + 1, s.len() as int))
}

/// The key and the value of a label: what stands before and behind
/// its first colon; without a colon, before and behind its first equals
/// sign; without either, the label is both.
pub open spec fn label_pair(label: Seq<char>) -> (Seq<char>, Seq<char>) {
    match find_char(label, ':') {
        Some(i) => split_around(label, i),
        None => match find_char(label, '=') {
            Some(i) => split_around(label, i),
            None => (label, label),
        },
    }
}

/// The value that the first `n` labels give to `key`: that of the last
/// label with this key.
pub open spec fn label_value_upto(labels: Seq<String>, key: Seq<char>, n: nat) -> Option<Seq<char>>
    decreases n,
{
    if n == 0 {
        None
    } else if label_pair(labels[n - 1]@).0 == key {
        Some(label_pair(labels[n - 1]@).1)
    } else {
        label_value_upto(labels, key, (n - 1) as nat)
    }
}

/// The position of the first `c` in `s`, if there is one.
fn find(s: &Vec<char>, c: char) -> (r: Option<usize>)
    ensures
        match r {
            Some(i) => find_char(s@, c) == Some(i as int) && i < s@.len(),
            None => find_char(s@, c) is None,
        },
{
    let mut i: usize = 0;
    while i < s.len()
        invariant
            i <= s.len(),
            find_upto(s@, c, i as nat) is None,
        decreases s.len() - i,
    {
        if s[i] == c {
            proof {
                assert(find_upto(s@, c, (i + 1) as nat) == Some(i as int));
                lemma_find_stays(s@, c, (i + 1) as nat, s@.len());
            }
            return Some(i);
        }
        i += 1;
    }
    None
}

/// The string of the characters of `v` from `from` up to `to`.
fn string_of_range(v: &Vec<char>, from: usize, to: usize) -> (s: String)
    requires
        from <= to <= v@.len(),
    ensures
        s@ == v@.subrange(from as int, to as int),
{
    let mut s = String::new();
    let mut i: usize = from;
    while i < to
        invariant
            from <= i <= to,
            to <= v@.len(),
            s@ == v@.subrange(from as int, i as int),
        decreases to - i,
    {
        s.push(v[i]);
        proof {
            assert(v@.subrange(from as int, i + 1) =~= v@.subrange(from as int, i as int).push(
                v@[i as int],
            ));
        }
        i += 1;
    }
    s
}

/// The key and the value of a label.
pub fn parse_label(label: &str) -> (pair: (String, String))
    ensures
        (pair.0@, pair.1@) == label_pair(label@),
{
    let chars = chars_of(label);
    let n: usize = chars.len();
    match find(&chars, ':') {
        Some(i) => (string_of_range(&chars, 0, i), string_of_range(&chars, i + 1, n)),
        None => match find(&chars, '=') {
            Some(i) => (string_of_range(&chars, 0, i), string_of_range(&chars, i + 1, n)),
            None => (String::from_str(label), String::from_str(label)),
        },
    }
}

/// Whether `target` is what the configured server `cfg` describes.
pub open spec fn target_of_config(target: DeploymentTarget, cfg: DeploymentTargetConfig) -> bool {
    &&& target.id@ == cfg.id@
    &&& target.host@ == cfg.host@
    &&& target.port == cfg.port
    &&& target.user@ == cfg.user@
    &&& opt_text(target.ssh_key_path) == opt_text(cfg.ssh_key)
    &&& forall|key: Seq<char>| #[trigger]
        text_under(target.labels, key) == label_value_upto(cfg.labels@, key, cfg.labels@.len())
}

/// The target that a configured server describes.
pub fn convert_target_config(cfg: &DeploymentTargetConfig) -> (target: DeploymentTarget)
    ensures
        target_of_config(target, *cfg),
{
    let mut labels: StrMap<String> = StrMap::new();
    let mut i: usize = 0;
    while i < cfg.labels.len()
        invariant
            i <= cfg.labels.len(),
            labels.wf(),
            forall|key: Seq<char>| #[trigger]
                text_under(labels, key) == label_value_upto(cfg.labels@, key, i as nat),
        decreases cfg.labels.len() - i,
    {
        let (key, value) = parse_label(cfg.labels[i].as_str());
        let ghost before = labels;
        labels.insert(key, value);
        proof {
            assert forall|k: Seq<char>| #[trigger]
                text_under(labels, k) == label_value_upto(cfg.labels@, k, (i + 1) as nat) by {
                if k != key@ {
                    assert(text_under(before, k) == label_value_upto(cfg.labels@, k, i as nat));
                }
            }
        }
        i += 1;
    }
    let ssh_key_path: Option<String> = match &cfg.ssh_key {
        Some(s) => Some(s.clone()),
        None => None,
    };
    DeploymentTarget {
        id: cfg.id.clone(),
        host: cfg.host.clone(),
        port: cfg.port,
        user: cfg.user.clone(),
        ssh_key_path,
        labels,
    }
}

/// The targets that the configured servers describe, in their order.
/// It fails if no server is configured.
pub fn load_deploy_config(servers: &Vec<DeploymentTargetConfig>) -> (r: Result<
    Vec<DeploymentTarget>,
    DeployError,
>)
    ensures
        match r {
            Ok(targets) => {
                &&& servers@.len() > 0
                &&& targets@.len() == servers@.len()
                &&& forall|i: int|
                    0 <= i < targets@.len() ==> target_of_config(#[trigger] targets@[i], servers@[i])
            },
            Err(e) => servers@.len() == 0 && e == DeployError::NoTargets,
        },
{
    if servers.len() == 0 {
        return Err(DeployError::NoTargets);
    }
    let mut targets: Vec<DeploymentTarget> = Vec::new();
    let mut i: usize = 0;
    while i < servers.len()
        invariant
            i <= servers.len(),
            targets@.len() == i,
            forall|j: int| 0 <= j < i ==> target_of_config(#[trigger] targets@[j], servers@[j]),
        decreases servers.len() - i,
    {
        targets.push(convert_target_config(&servers[i]));
        i += 1;
    }
    Ok(targets)
}

/// Whether the error says that no configured target has the id `id`.
pub open spec fn unknown_server(e: DeployError, id: Seq<char>) -> bool {
    e matches DeployError::UnknownServer(named) && named@ == id
}

/// Whether position `i` holds the first target with the id `id`.
pub open spec fn is_first_with_id(targets: Seq<DeploymentTarget>, id: Seq<char>, i: int) -> bool {
    &&& 0 <= i < targets.len()
    &&& targets[i].id@ == id
    &&& forall|j: int| 0 <= j < i ==> (#[trigger] targets[j]).id@ != id
}

/// The first target with the id `server_id`. It fails if there is
/// none.
pub fn find_target<'a>(server_id: &str, targets: &'a [DeploymentTarget]) -> (r: Result<
    &'a DeploymentTarget,
    DeployError,
>)
    ensures
        match r {
            Ok(t) => exists|i: int|
                #[trigger] is_first_with_id(targets@, server_id@, i) && *t == targets@[i],
            Err(e) => unknown_server(e, server_id@) && forall|j: int|
                0 <= j < targets@.len() ==> (#[trigger] targets@[j]).id@ != server_id@,
        },
{
    let wanted = String::from_str(server_id);
    let mut i: usize = 0;
    while i < targets.len()
        invariant
            i <= targets.len(),
            wanted@ == server_id@,
            forall|j: int| 0 <= j < i ==> (#[trigger] targets@[j]).id@ != server_id@,
        decreases targets.len() - i,
    {
        if targets[i].id == wanted {
            proof {
                assert(is_first_with_id(targets@, server_id@, i as int));
            }
            return Ok(&targets[i]);
        }
        i += 1;
    }
    Err(DeployError::UnknownServer(wanted))
}

/// Whether `config` is the deployment of `version` that the settings
/// describe, with the local binary at `local_binary`.
pub open spec fn config_of_settings(
    config: DeploymentConfig,
    settings: DeploymentSettingsConfig,
    version: Seq<char>,
    local_binary: Seq<char>,
) -> bool {
    &&& config.name@ == "zerospider"@
    &&& config.version@ == version
    &&& config.local_binary@ == local_binary
    &&& config.binary_path@ == settings.binary_path@
    &&& opt_text(config.config_path) == opt_text(settings.config_path)
    &&& config.env_vars.keys() == Seq::<Seq<char>>::empty()
    &&& config.working_dir@ == settings.working_dir@
    &&& config.auto_start == settings.auto_start
    &&& config.health_check_interval == settings.health_check_interval_secs
    &&& config.restart_on_failure == settings.restart_on_failure
    &&& config.max_restarts == settings.max_restarts
    &&& config.use_sudo == settings.use_sudo
}

/// The deployment of `version` that the settings describe, with the
/// local binary at `local_binary`.
pub fn create_deployment_config(
    settings: &DeploymentSettingsConfig,
    version: &str,
    local_binary: &str,
) -> (config: DeploymentConfig)
    ensures
        config_of_settings(config, *settings, version@, local_binary@),
{
    let config_path: Option<String> = match &settings.config_path {
        Some(p) => Some(p.clone()),
        None => None,
    };
    DeploymentConfig {
        name: String::from_str("zerospider"),
        version: String::from_str(version),
        local_binary: String::from_str(local_binary),
        binary_path: settings.binary_path.clone(),
        config_path,
        env_vars: StrMap::new(),
        working_dir: settings.working_dir.clone(),
        auto_start: settings.auto_start,
        health_check_interval: settings.health_check_interval_secs,
        restart_on_failure: settings.restart_on_failure,
        max_restarts: settings.max_restarts,
        use_sudo: settings.use_sudo,
    }
}

/// How a validation ended.
#[derive(Debug, Clone, Copy, PartialEq, Eq, Structural)]
pub enum ValidationVerdict {
    /// Every check passed.
    Ready,
    /// Some checks failed.
    Errors,
    /// Every check passed, some with a warning.
    Warnings,
    /// Some checks failed and others gave a warning.
    ErrorsAndWarnings,
}

/// How a validation ended, given whether a check failed and whether a
/// check gave a warning.
pub fn validation_verdict(has_errors: bool, has_warnings: bool) -> (v: ValidationVerdict)
    ensures
        v == if has_errors {
            if has_warnings {
                ValidationVerdict::ErrorsAndWarnings
            } else {
                ValidationVerdict::Errors
            }
        } else if has_warnings {
            ValidationVerdict::Warnings
        } else {
            ValidationVerdict::Ready
        },
{
    if !has_errors && !has_warnings {
        ValidationVerdict::Ready
    } else if has_errors && !has_warnings {
        ValidationVerdict::Errors
    } else if !has_errors && has_warnings {
        ValidationVerdict::Warnings
    } else {
        ValidationVerdict::ErrorsAndWarnings
    }
}

impl ValidationVerdict {
    /// Whether the deployment may go on: no check failed.
    pub fn passes(&self) -> (b: bool)
        ensures
            b == (*self == ValidationVerdict::Ready || *self == ValidationVerdict::Warnings),
    {
        match self {
            ValidationVerdict::Ready => true,
            ValidationVerdict::Warnings => true,
            _ => false,
        }
    }
}

} // verus!
