//! The sandbox policy layer: what may be mounted into a container, which
//! hosts it may reach, how secrets are handed out, and the exact command
//! line that launches it.

use crate::text::{
    concat2, contains_str, debug_quoted, opt_string_view, str_debug, str_eq, str_starts_with,
    strings_view,
};
use vstd::prelude::*;
use vstd::string::*;

verus! {

/// A container runtime that can be named.
pub trait ContainerBackend {
    fn name(&self) -> &'static str;
}

/// A host directory made visible inside the container.
#[derive(Debug, Clone)]
pub struct Mount {
    pub source: String,
    pub target: String,
    pub read_only: bool,
}

/// What a [`Mount`] holds.
pub struct MountModel {
    pub source: Seq<char>,
    pub target: Seq<char>,
    pub read_only: bool,
}

impl View for Mount {
    type V = MountModel;

    open spec fn view(&self) -> MountModel {
        MountModel { source: self.source@, target: self.target@, read_only: self.read_only }
    }
}

impl MountModel {
    /// The mount as the Apple container tool takes it.
    pub open spec fn apple_arg(self) -> Seq<char> {
        "type=bind,src="@ + self.source + ",dst="@ + self.target + if self.read_only {
            ",readonly"@
        } else {
            Seq::empty()
        }
    }

    /// The mount as Docker takes it.
    pub open spec fn docker_arg(self) -> Seq<char> {
        self.source + ":"@ + self.target + if self.read_only {
            ":ro"@
        } else {
            Seq::empty()
        }
    }
}

impl Mount {
    /// A read-only mount of `source` at `target`.
    pub fn read_only(source: &str, target: &str) -> (mount: Self)
        ensures
            mount@ == (MountModel { source: source@, target: target@, read_only: true }),
    {
        Mount { source: source.to_owned(), target: target.to_owned(), read_only: true }
    }

    pub fn to_apple_arg(&self) -> (arg: String)
        ensures
            arg@ == self@.apple_arg(),
    {
        let mut arg = concat2("type=bind,src=", self.source.as_str());
        arg.append(",dst=");
        arg.append(self.target.as_str());
        if self.read_only {
            arg.append(",readonly");
        }
        assert(arg@ =~= self@.apple_arg());
        arg
    }

    pub fn to_docker_arg(&self) -> (arg: String)
        ensures
            arg@ == self@.docker_arg(),
    {
        let mut arg = concat2(self.source.as_str(), ":");
        arg.append(self.target.as_str());
        if self.read_only {
            arg.append(":ro");
        }
        assert(arg@ =~= self@.docker_arg());
        arg
    }
}

/// Why a run was refused.
#[derive(Debug, Clone)]
pub enum PolicyError {
    MountNotAllowed(String),
    EgressNotAllowed(String),
}

/// What a [`PolicyError`] holds.
pub enum PolicyErrorModel {
    MountNotAllowed(Seq<char>),
    EgressNotAllowed(Seq<char>),
}

impl View for PolicyError {
    type V = PolicyErrorModel;

    open spec fn view(&self) -> PolicyErrorModel {
        match self {
            PolicyError::MountNotAllowed(source) => PolicyErrorModel::MountNotAllowed(source@),
            PolicyError::EgressNotAllowed(host) => PolicyErrorModel::EgressNotAllowed(host@),
        }
    }
}

impl PolicyErrorModel {
    /// The message under which a refused run is reported.
    pub open spec fn violation_message(self) -> Seq<char> {
        match self {
            PolicyErrorModel::MountNotAllowed(source) => "policy violation: MountNotAllowed("@
                + debug_quoted(source) + ")"@,
            PolicyErrorModel::EgressNotAllowed(host) => "policy violation: EgressNotAllowed("@
                + debug_quoted(host) + ")"@,
        }
    }
}

impl PolicyError {
    /// The message under which a refused run is reported.
    pub fn violation_message(&self) -> (message: String)
        ensures
            message@ == self@.violation_message(),
    {
        let (mut message, subject) = match self {
            PolicyError::MountNotAllowed(source) => (
                "policy violation: MountNotAllowed(".to_owned(),
                source,
            ),
            PolicyError::EgressNotAllowed(host) => (
                "policy violation: EgressNotAllowed(".to_owned(),
                host,
            ),
        };
        let quoted = str_debug(subject.as_str());
        message.append(quoted.as_str());
        message.append(")");
        message
    }
}

/// The views of a list of mounts.
pub open spec fn mounts_view(mounts: Seq<Mount>) -> Seq<MountModel> {
    mounts.map_values(|m: Mount| m@)
}

/// Whether one of `prefixes` opens `source`.
pub open spec fn source_allowed(prefixes: Seq<Seq<char>>, source: Seq<char>) -> bool {
    exists|i: int| 0 <= i < prefixes.len() && (#[trigger] prefixes[i]).is_prefix_of(source)
}

/// The source of the first mount that no prefix opens.
pub open spec fn first_refused_mount(prefixes: Seq<Seq<char>>, mounts: Seq<MountModel>) -> Option<
    Seq<char>,
>
    decreases mounts.len(),
{
    if mounts.len() == 0 {
        None
    } else if !source_allowed(prefixes, mounts[0].source) {
        Some(mounts[0].source)
    } else {
        first_refused_mount(prefixes, mounts.skip(1))
    }
}

/// The first of `hosts` that `allowlist` does not name.
pub open spec fn first_refused_host(allowlist: Seq<Seq<char>>, hosts: Seq<Seq<char>>) -> Option<
    Seq<char>,
>
    decreases hosts.len(),
{
    if hosts.len() == 0 {
        None
    } else if !allowlist.contains(hosts[0]) {
        Some(hosts[0])
    } else {
        first_refused_host(allowlist, hosts.skip(1))
    }
}

/// The source prefixes under which mounts are allowed.
pub struct MountPolicy {
    allowed_prefixes: Vec<String>,
}

impl View for MountPolicy {
    type V = Seq<Seq<char>>;

    closed spec fn view(&self) -> Seq<Seq<char>> {
        strings_view(self.allowed_prefixes@)
    }
}

/// The outcome of checking mounts against `prefixes`.
pub open spec fn mounts_verdict(prefixes: Seq<Seq<char>>, mounts: Seq<MountModel>) -> Result<
    (),
    PolicyErrorModel,
> {
    match first_refused_mount(prefixes, mounts) {
        Some(source) => Err(PolicyErrorModel::MountNotAllowed(source)),
        None => Ok(()),
    }
}

/// The view of a policy check's outcome.
pub open spec fn verdict_view(verdict: Result<(), PolicyError>) -> Result<(), PolicyErrorModel> {
    match verdict {
        Ok(()) => Ok(()),
        Err(error) => Err(error@),
    }
}

impl MountPolicy {
    pub fn new(allowed_prefixes: Vec<String>) -> (policy: Self)
        ensures
            policy@ == strings_view(allowed_prefixes@),
    {
        MountPolicy { allowed_prefixes }
    }

    fn allows_source(&self, source: &str) -> (allowed: bool)
        ensures
            allowed == source_allowed(self@, source@),
    {
        let mut i: usize = 0;
        while i < self.allowed_prefixes.len()
            invariant
                i <= self.allowed_prefixes.len(),
                forall|j: int| 0 <= j < i ==> !(#[trigger] self@[j]).is_prefix_of(source@),
            decreases self.allowed_prefixes.len() - i,
        {
            if str_starts_with(source, self.allowed_prefixes[i].as_str()) {
                assert(self@[i as int].is_prefix_of(source@));
                return true;
            }
            i += 1;
        }
        false
    }

    /// Refuses the first mount whose source no allowed prefix opens.
    pub fn validate(&self, mounts: &[Mount]) -> (verdict: Result<(), PolicyError>)
        ensures
            verdict_view(verdict) == mounts_verdict(self@, mounts_view(mounts@)),
    {
        let ghost all = mounts_view(mounts@);
        let mut i: usize = 0;
        assert(all.skip(0) =~= all);
        while i < mounts.len()
            invariant
                i <= mounts.len(),
                all == mounts_view(mounts@),
                first_refused_mount(self@, all) == first_refused_mount(self@, all.skip(i as int)),
            decreases mounts.len() - i,
        {
            let ghost rest = all.skip(i as int);
            assert(rest[0] == mounts@[i as int]@);
            assert(rest.skip(1) =~= all.skip(i as int + 1));
            if !self.allows_source(mounts[i].source.as_str()) {
                return Err(PolicyError::MountNotAllowed(mounts[i].source.clone()));
            }
            i += 1;
        }
        Ok(())
    }
}

/// The hosts that a container may reach, each named exactly.
pub struct EgressPolicy {
    allowlist: Vec<String>,
}

impl View for EgressPolicy {
    type V = Seq<Seq<char>>;

    closed spec fn view(&self) -> Seq<Seq<char>> {
        strings_view(self.allowlist@)
    }
}

impl EgressPolicy {
    pub fn new(allowlist: Vec<String>) -> (policy: Self)
        ensures
            policy@ == strings_view(allowlist@),
    {
        EgressPolicy { allowlist }
    }

    /// Whether the allowlist names `host`.
    pub fn allows(&self, host: &str) -> (allowed: bool)
        ensures
            allowed == self@.contains(host@),
    {
        contains_str(&self.allowlist, host)
    }
}

/// One entry of the audit log.
#[derive(Debug, Clone, PartialEq, Eq)]
pub struct AuditEvent {
    pub action: String,
    pub target: String,
    pub allowed: bool,
}

/// What an [`AuditEvent`] holds.
pub struct AuditEventModel {
    pub action: Seq<char>,
    pub target: Seq<char>,
    pub allowed: bool,
}

impl View for AuditEvent {
    type V = AuditEventModel;

    open spec fn view(&self) -> AuditEventModel {
        AuditEventModel { action: self.action@, target: self.target@, allowed: self.allowed }
    }
}

/// The views of a list of audit events.
pub open spec fn events_view(events: Seq<AuditEvent>) -> Seq<AuditEventModel> {
    events.map_values(|e: AuditEvent| e@)
}

/// An append-only record of what was asked of the broker.
pub struct AuditLog {
    events: Vec<AuditEvent>,
}

impl View for AuditLog {
    type V = Seq<AuditEventModel>;

    closed spec fn view(&self) -> Seq<AuditEventModel> {
        events_view(self.events@)
    }
}

impl AuditLog {
    pub fn new() -> (log: Self)
        ensures
            log@ == Seq::<AuditEventModel>::empty(),
    {
        let events: Vec<AuditEvent> = Vec::new();
        assert(events_view(events@) =~= Seq::<AuditEventModel>::empty());
        AuditLog { events }
    }

    /// Appends `event`; nothing already recorded changes.
    pub fn record(&mut self, event: AuditEvent)
        ensures
            final(self)@ == old(self)@.push(event@),
    {
        self.events.push(event);
        assert(events_view(self.events@) =~= events_view(old(self).events@).push(event@));
    }

    pub fn entries(&self) -> (events: &[AuditEvent])
        ensures
            events_view(events@) == self@,
    {
        self.events.as_slice()
    }
}

/// The views of a list of key and value pairs.
pub open spec fn pairs_view(pairs: Seq<(String, String)>) -> Seq<(Seq<char>, Seq<char>)> {
    pairs.map_values(|p: (String, String)| (p.0@, p.1@))
}

/// The value stored under `key`; of several entries with one key the last
/// one counts.
pub open spec fn secret_for(secrets: Seq<(Seq<char>, Seq<char>)>, key: Seq<char>) -> Option<
    Seq<char>,
>
    decreases secrets.len(),
{
    if secrets.len() == 0 {
        None
    } else if secrets.last().0 == key {
        Some(secrets.last().1)
    } else {
        secret_for(secrets.drop_last(), key)
    }
}

/// What a [`SecretBroker`] holds.
pub struct SecretBrokerModel {
    pub allowlist: Seq<Seq<char>>,
    pub secrets: Seq<(Seq<char>, Seq<char>)>,
    pub audit: Seq<AuditEventModel>,
}

impl SecretBrokerModel {
    /// The secret that a request for `key` hands out: the stored value, when
    /// the allowlist names the key and a value is stored under it.
    pub open spec fn granted(self, key: Seq<char>) -> Option<Seq<char>> {
        if self.allowlist.contains(key) {
            secret_for(self.secrets, key)
        } else {
            None
        }
    }

    /// The broker after a request for `key`: one more audit entry, which
    /// names the key and says whether the secret was handed out.
    pub open spec fn after_request(self, key: Seq<char>) -> SecretBrokerModel {
        SecretBrokerModel {
            audit: self.audit.push(
                AuditEventModel {
                    action: "secret.request"@,
                    target: key,
                    allowed: self.granted(key) is Some,
                },
            ),
            ..self
        }
    }
}

/// Hands secrets out to those that may have them, and keeps a record.
pub struct SecretBroker {
    allowlist: Vec<String>,
    secrets: Vec<(String, String)>,
    audit: AuditLog,
}

impl View for SecretBroker {
    type V = SecretBrokerModel;

    closed spec fn view(&self) -> SecretBrokerModel {
        SecretBrokerModel {
            allowlist: strings_view(self.allowlist@),
            secrets: pairs_view(self.secrets@),
            audit: self.audit@,
        }
    }
}

impl SecretBroker {
    /// A broker over `secrets`, a list of keys with their values, that
    /// hands out only the keys in `allowlist`.
    pub fn new(allowlist: Vec<String>, secrets: Vec<(String, String)>) -> (broker: Self)
        ensures
            broker@ == (SecretBrokerModel {
                allowlist: strings_view(allowlist@),
                secrets: pairs_view(secrets@),
                audit: Seq::empty(),
            }),
    {
        SecretBroker { allowlist, secrets, audit: AuditLog::new() }
    }

    fn lookup(&self, key: &str) -> (value: Option<String>)
        ensures
            opt_string_view(value) == secret_for(self@.secrets, key@),
    {
        let ghost all = pairs_view(self.secrets@);
        let mut i: usize = self.secrets.len();
        assert(all.take(i as int) =~= all);
        while i > 0
            invariant
                i <= self.secrets.len(),
                all == pairs_view(self.secrets@),
                secret_for(all, key@) == secret_for(all.take(i as int), key@),
            decreases i,
        {
            let ghost front = all.take(i as int);
            assert(front.last() == all[i as int - 1]);
            assert(front.drop_last() =~= all.take(i as int - 1));
            i -= 1;
            if str_eq(self.secrets[i].0.as_str(), key) {
                return Some(self.secrets[i].1.clone());
            }
        }
        None
    }

    /// Asks for the secret stored under `key`. The request is recorded
    /// whether it is granted or not.
    pub fn request(&mut self, key: &str) -> (value: Option<String>)
        ensures
            opt_string_view(value) == old(self)@.granted(key@),
            final(self)@ == old(self)@.after_request(key@),
    {
        let value = if contains_str(&self.allowlist, key) {
            self.lookup(key)
        } else {
            None
        };
        self.audit.record(
            AuditEvent {
                action: "secret.request".to_owned(),
                target: key.to_owned(),
                allowed: value.is_some(),
            },
        );
        value
    }

    pub fn audit(&self) -> (log: &AuditLog)
        ensures
            log@ == self@.audit,
    {
        &self.audit
    }
}

/// What is to be run, and with which mounts, variables and network access.
#[derive(Debug, Clone)]
pub struct RunSpec {
    pub image: String,
    pub command: Vec<String>,
    pub mounts: Vec<Mount>,
    pub env: Vec<(String, String)>,
    pub egress_hosts: Vec<String>,
}

/// What a [`RunSpec`] holds.
pub struct RunSpecModel {
    pub image: Seq<char>,
    pub command: Seq<Seq<char>>,
    pub mounts: Seq<MountModel>,
    pub env: Seq<(Seq<char>, Seq<char>)>,
    pub egress_hosts: Seq<Seq<char>>,
}

impl View for RunSpec {
    type V = RunSpecModel;

    open spec fn view(&self) -> RunSpecModel {
        RunSpecModel {
            image: self.image@,
            command: strings_view(self.command@),
            mounts: mounts_view(self.mounts@),
            env: pairs_view(self.env@),
            egress_hosts: strings_view(self.egress_hosts@),
        }
    }
}

/// The argument that switches the network off.
pub open spec fn network_none() -> Seq<char> {
    "--network=none"@
}

/// `values`, each preceded by `flag`.
pub open spec fn flagged(flag: Seq<char>, values: Seq<Seq<char>>) -> Seq<Seq<char>>
    decreases values.len(),
{
    if values.len() == 0 {
        Seq::empty()
    } else {
        flagged(flag, values.drop_last()).push(flag).push(values.last())
    }
}

/// A variable as both runners take it: key, `=`, value.
pub open spec fn env_arg(pair: (Seq<char>, Seq<char>)) -> Seq<char> {
    pair.0 + "="@ + pair.1
}

impl RunSpecModel {
    /// The network is off exactly when no egress host is named.
    pub open spec fn network_disabled(self) -> bool {
        self.egress_hosts.len() == 0
    }

    /// The outcome of checking this spec against both policies: mounts
    /// first, then egress hosts, the first offender reported.
    pub open spec fn verdict(self, prefixes: Seq<Seq<char>>, allowlist: Seq<Seq<char>>) -> Result<
        (),
        PolicyErrorModel,
    > {
        match first_refused_mount(prefixes, self.mounts) {
            Some(source) => Err(PolicyErrorModel::MountNotAllowed(source)),
            None => match first_refused_host(allowlist, self.egress_hosts) {
                Some(host) => Err(PolicyErrorModel::EgressNotAllowed(host)),
                None => Ok(()),
            },
        }
    }

    /// The arguments common to both runners, after the runner's name:
    /// subcommand, `--rm`, the network switch if the network is off, the
    /// mounts, the variables, the image and the command words.
    pub open spec fn args_with(
        self,
        runner: Seq<char>,
        mount_flag: Seq<char>,
        mount_args: Seq<Seq<char>>,
        env_flag: Seq<char>,
    ) -> Seq<Seq<char>> {
        seq![runner, "run"@, "--rm"@] + (if self.network_disabled() {
            seq![network_none()]
        } else {
            Seq::empty()
        }) + flagged(mount_flag, mount_args) + flagged(env_flag, self.env.map_values(|p| env_arg(p)))
            + seq![self.image] + self.command
    }

    /// The Docker command line for this spec.
    pub open spec fn docker_args(self) -> Seq<Seq<char>> {
        self.args_with(
            "docker"@,
            "-v"@,
            self.mounts.map_values(|m: MountModel| m.docker_arg()),
            "-e"@,
        )
    }

    /// The Apple container command line for this spec.
    pub open spec fn apple_args(self) -> Seq<Seq<char>> {
        self.args_with(
            "container"@,
            "--mount"@,
            self.mounts.map_values(|m: MountModel| m.apple_arg()),
            "--env"@,
        )
    }
}

/// Appends to `args` each of `values`, preceded by `flag`.
fn push_flagged(args: &mut Vec<String>, flag: &str, values: &Vec<String>)
    ensures
        strings_view(final(args)@) == strings_view(old(args)@) + flagged(
            flag@,
            strings_view(values@),
        ),
{
    let ghost start = strings_view(args@);
    let ghost all = strings_view(values@);
    let mut i: usize = 0;
    assert(flagged(flag@, all.take(0)) =~= Seq::<Seq<char>>::empty());
    assert(start + Seq::<Seq<char>>::empty() =~= start);
    while i < values.len()
        invariant
            i <= values.len(),
            all == strings_view(values@),
            strings_view(args@) == start + flagged(flag@, all.take(i as int)),
        decreases values.len() - i,
    {
        let ghost before = strings_view(args@);
        args.push(flag.to_owned());
        args.push(values[i].clone());
        proof {
            let next = all.take(i as int + 1);
            assert(next.drop_last() =~= all.take(i as int));
            assert(next.last() == all[i as int]);
            assert(strings_view(args@) =~= before.push(flag@).push(all[i as int]));
            assert(strings_view(args@) =~= start + flagged(flag@, next));
        }
        i += 1;
    }
    assert(all.take(i as int) =~= all);
}

/// Appends copies of `values` to `args`.
fn push_all(args: &mut Vec<String>, values: &Vec<String>)
    ensures
        strings_view(final(args)@) == strings_view(old(args)@) + strings_view(values@),
{
    let ghost start = strings_view(args@);
    let ghost all = strings_view(values@);
    let mut i: usize = 0;
    assert(start + all.take(0) =~= start);
    while i < values.len()
        invariant
            i <= values.len(),
            all == strings_view(values@),
            strings_view(args@) == start + all.take(i as int),
        decreases values.len() - i,
    {
        let ghost before = strings_view(args@);
        args.push(values[i].clone());
        assert(strings_view(args@) =~= before.push(all[i as int]));
        assert(all.take(i as int + 1) =~= all.take(i as int).push(all[i as int]));
        assert(strings_view(args@) =~= start + all.take(i as int + 1));
        i += 1;
    }
    assert(all.take(i as int) =~= all);
}

impl RunSpec {
    /// A spec for `image` and `command`, with no mounts, no variables and
    /// the network off.
    pub fn new(image: &str, command: Vec<String>) -> (spec: Self)
        ensures
            spec@ == (RunSpecModel {
                image: image@,
                command: strings_view(command@),
                mounts: Seq::empty(),
                env: Seq::empty(),
                egress_hosts: Seq::empty(),
            }),
    {
        let mounts: Vec<Mount> = Vec::new();
        let env: Vec<(String, String)> = Vec::new();
        let egress_hosts: Vec<String> = Vec::new();
        assert(mounts_view(mounts@) =~= Seq::<MountModel>::empty());
        assert(pairs_view(env@) =~= Seq::<(Seq<char>, Seq<char>)>::empty());
        assert(strings_view(egress_hosts@) =~= Seq::<Seq<char>>::empty());
        RunSpec { image: image.to_owned(), command, mounts, env, egress_hosts }
    }

    pub fn add_mount(&mut self, mount: Mount)
        ensures
            final(self)@ == (RunSpecModel { mounts: old(self)@.mounts.push(mount@), ..old(self)@ }),
    {
        self.mounts.push(mount);
        assert(mounts_view(self.mounts@) =~= mounts_view(old(self).mounts@).push(mount@));
    }

    pub fn add_env(&mut self, key: &str, value: &str)
        ensures
            final(self)@ == (RunSpecModel {
                env: old(self)@.env.push((key@, value@)),
                ..old(self)@
            }),
    {
        self.env.push((key.to_owned(), value.to_owned()));
        assert(pairs_view(self.env@) =~= pairs_view(old(self).env@).push((key@, value@)));
    }

    pub fn add_egress_host(&mut self, host: &str)
        ensures
            final(self)@ == (RunSpecModel {
                egress_hosts: old(self)@.egress_hosts.push(host@),
                ..old(self)@
            }),
    {
        self.egress_hosts.push(host.to_owned());
        assert(strings_view(self.egress_hosts@) =~= strings_view(old(self).egress_hosts@).push(
            host@,
        ));
    }

    pub fn network_disabled(&self) -> (disabled: bool)
        ensures
            disabled == self@.network_disabled(),
    {
        self.egress_hosts.len() == 0
    }

    /// Checks the mounts against `mount_policy`, then the egress hosts
    /// against `egress_policy`, and refuses the first offender.
    pub fn validate(&self, mount_policy: &MountPolicy, egress_policy: &EgressPolicy) -> (verdict:
        Result<(), PolicyError>)
        ensures
            verdict_view(verdict) == self@.verdict(mount_policy@, egress_policy@),
    {
        match mount_policy.validate(self.mounts.as_slice()) {
            Err(error) => {
                return Err(error);
            },
            Ok(()) => {},
        }
        let ghost all = strings_view(self.egress_hosts@);
        let mut i: usize = 0;
        assert(all.skip(0) =~= all);
        while i < self.egress_hosts.len()
            invariant
                i <= self.egress_hosts.len(),
                all == strings_view(self.egress_hosts@),
                first_refused_mount(mount_policy@, self@.mounts) is None,
                first_refused_host(egress_policy@, all) == first_refused_host(
                    egress_policy@,
                    all.skip(i as int),
                ),
            decreases self.egress_hosts.len() - i,
        {
            let ghost rest = all.skip(i as int);
            assert(rest[0] == self.egress_hosts@[i as int]@);
            assert(rest.skip(1) =~= all.skip(i as int + 1));
            if !egress_policy.allows(self.egress_hosts[i].as_str()) {
                let host = self.egress_hosts[i].clone();
                return Err(PolicyError::EgressNotAllowed(host));
            }
            i += 1;
        }
        Ok(())
    }

    fn env_args(&self) -> (rendered: Vec<String>)
        ensures
            strings_view(rendered@) == self@.env.map_values(|p| env_arg(p)),
    {
        let mut rendered: Vec<String> = Vec::new();
        let mut i: usize = 0;
        while i < self.env.len()
            invariant
                i <= self.env.len(),
                rendered@.len() == i,
                forall|j: int| 0 <= j < i ==> (#[trigger] rendered@[j])@ == env_arg(self@.env[j]),
            decreases self.env.len() - i,
        {
            let mut arg = concat2(self.env[i].0.as_str(), "=");
            arg.append(self.env[i].1.as_str());
            assert(arg@ =~= env_arg(self@.env[i as int]));
            rendered.push(arg);
            i += 1;
        }
        assert(strings_view(rendered@) =~= self@.env.map_values(|p| env_arg(p)));
        rendered
    }

    fn mount_args(&self, docker: bool) -> (rendered: Vec<String>)
        ensures
            strings_view(rendered@) == if docker {
                self@.mounts.map_values(|m: MountModel| m.docker_arg())
            } else {
                self@.mounts.map_values(|m: MountModel| m.apple_arg())
            },
    {
        let mut rendered: Vec<String> = Vec::new();
        let mut i: usize = 0;
        while i < self.mounts.len()
            invariant
                i <= self.mounts.len(),
                rendered@.len() == i,
                forall|j: int|
                    0 <= j < i ==> (#[trigger] rendered@[j])@ == if docker {
                        self@.mounts[j].docker_arg()
                    } else {
                        self@.mounts[j].apple_arg()
                    },
            decreases self.mounts.len() - i,
        {
            let arg = if docker {
                self.mounts[i].to_docker_arg()
            } else {
                self.mounts[i].to_apple_arg()
            };
            rendered.push(arg);
            i += 1;
        }
        if docker {
            assert(strings_view(rendered@) =~= self@.mounts.map_values(
                |m: MountModel| m.docker_arg(),
            ));
        } else {
            assert(strings_view(rendered@) =~= self@.mounts.map_values(
                |m: MountModel| m.apple_arg(),
            ));
        }
        rendered
    }

    fn build_args(&self, runner: &str, mount_flag: &str, mounts: &Vec<String>, env_flag: &str) -> (args:
        Vec<String>)
        ensures
            strings_view(args@) == self@.args_with(
                runner@,
                mount_flag@,
                strings_view(mounts@),
                env_flag@,
            ),
    {
        let mut args: Vec<String> = Vec::new();
        args.push(runner.to_owned());
        args.push("run".to_owned());
        args.push("--rm".to_owned());
        assert(strings_view(args@) =~= seq![runner@, "run"@, "--rm"@]);
        if self.network_disabled() {
            args.push("--network=none".to_owned());
            assert(strings_view(args@) =~= seq![runner@, "run"@, "--rm"@] + seq![network_none()]);
        } else {
            assert(strings_view(args@) =~= seq![runner@, "run"@, "--rm"@] + Seq::<
                Seq<char>,
            >::empty());
        }
        push_flagged(&mut args, mount_flag, mounts);
        let env = self.env_args();
        push_flagged(&mut args, env_flag, &env);
        let ghost before = strings_view(args@);
        args.push(self.image.clone());
        assert(strings_view(args@) =~= before + seq![self@.image]);
        push_all(&mut args, &self.command);
        args
    }
}

/// Builds Docker command lines.
pub struct DockerRunner;

impl DockerRunner {
    /// The Docker command line for `spec`: `docker run --rm`, the network
    /// switch if the network is off, `-v` mounts, `-e` variables, the image
    /// and the command words, each list in its own order.
    pub fn build_command(spec: &RunSpec) -> (args: Vec<String>)
        ensures
            strings_view(args@) == spec@.docker_args(),
    {
        let mounts = spec.mount_args(true);
        spec.build_args("docker", "-v", &mounts, "-e")
    }
}

/// What a finished run reports.
#[derive(Debug, Clone)]
pub struct CommandResult {
    pub status: i32,
    pub stdout: String,
    pub stderr: String,
}

/// What carries a command line out. The library never starts a process
/// itself: it hands the arguments to an executor and passes on what comes
/// back.
pub trait Executor {
    /// Whether `outcome` is what this executor reported for a run of `args`.
    /// An executor that says nothing of its runs leaves this as it is.
    open spec fn reported(&self, args: Seq<Seq<char>>, outcome: Result<CommandResult, String>) -> bool {
        true
    }

    fn run(&self, args: &[String]) -> (outcome: Result<CommandResult, String>)
        ensures
            self.reported(strings_view(args@), outcome),
    ;
}

/// Runs specs with the Apple container tool.
pub struct AppleContainerRunner<E> {
    executor: E,
}

impl<E: Executor> AppleContainerRunner<E> {
    /// The executor that this runner hands its command lines to.
    pub closed spec fn executor(&self) -> E {
        self.executor
    }

    pub fn new(executor: E) -> (runner: Self)
        ensures
            runner.executor() == executor,
    {
        AppleContainerRunner { executor }
    }

    /// The Apple container command line for `spec`: `container run --rm`,
    /// the network switch if the network is off, `--mount` mounts, `--env`
    /// variables, the image and the command words, each list in its own
    /// order.
    pub fn build_command(spec: &RunSpec) -> (args: Vec<String>)
        ensures
            strings_view(args@) == spec@.apple_args(),
    {
        let mounts = spec.mount_args(false);
        spec.build_args("container", "--mount", &mounts, "--env")
    }

    /// Hands the command line of `spec` to the executor and returns what
    /// the executor reports.
    pub fn run(&self, spec: &RunSpec) -> (outcome: Result<CommandResult, String>)
        ensures
            self.executor().reported(spec@.apple_args(), outcome),
    {
        let args = Self::build_command(spec);
        self.executor.run(args.as_slice())
    }

    /// Runs `spec` only if both policies allow it; a refused spec never
    /// reaches the executor and is reported by its violation message.
    pub fn run_with_policy(
        &self,
        spec: &RunSpec,
        mount_policy: &MountPolicy,
        egress_policy: &EgressPolicy,
    ) -> (outcome: Result<CommandResult, String>)
        ensures
            spec@.verdict(mount_policy@, egress_policy@) matches Err(error) ==> outcome matches Err(
                message,
            ) && message@ == error.violation_message(),
            spec@.verdict(mount_policy@, egress_policy@) is Ok ==> self.executor().reported(
                spec@.apple_args(),
                outcome,
            ),
    {
        match refusal(spec, mount_policy, egress_policy) {
            Some(message) => Err(message),
            None => self.run(spec),
        }
    }
}

/// The message with which a run of `spec` is refused, when one of the
/// policies refuses it.
pub fn refusal(spec: &RunSpec, mount_policy: &MountPolicy, egress_policy: &EgressPolicy) -> (message:
    Option<String>)
    ensures
        opt_string_view(message) == match spec@.verdict(mount_policy@, egress_policy@) {
            Err(error) => Some(error.violation_message()),
            Ok(()) => None,
        },
{
    match spec.validate(mount_policy, egress_policy) {
        Err(error) => Some(error.violation_message()),
        Ok(()) => None,
    }
}

/// Runs specs with Docker.
pub struct DockerRunnerExec<E> {
    executor: E,
}

impl<E: Executor> DockerRunnerExec<E> {
    /// The executor that this runner hands its command lines to.
    pub closed spec fn executor(&self) -> E {
        self.executor
    }

    pub fn new(executor: E) -> (runner: Self)
        ensures
            runner.executor() == executor,
    {
        DockerRunnerExec { executor }
    }

    /// Hands the Docker command line of `spec` to the executor and returns
    /// what the executor reports.
    pub fn run(&self, spec: &RunSpec) -> (outcome: Result<CommandResult, String>)
        ensures
            self.executor().reported(spec@.docker_args(), outcome),
    {
        let args = DockerRunner::build_command(spec);
        self.executor.run(args.as_slice())
    }

    /// Runs `spec` only if both policies allow it; a refused spec never
    /// reaches the executor and is reported by its violation message.
    pub fn run_with_policy(
        &self,
        spec: &RunSpec,
        mount_policy: &MountPolicy,
        egress_policy: &EgressPolicy,
    ) -> (outcome: Result<CommandResult, String>)
        ensures
            spec@.verdict(mount_policy@, egress_policy@) matches Err(error) ==> outcome matches Err(
                message,
            ) && message@ == error.violation_message(),
            spec@.verdict(mount_policy@, egress_policy@) is Ok ==> self.executor().reported(
                spec@.docker_args(),
                outcome,
            ),
    {
        match refusal(spec, mount_policy, egress_policy) {
            Some(message) => Err(message),
            None => self.run(spec),
        }
    }
}

/// The Apple container runtime.
pub struct AppleContainer;

impl AppleContainer {
    pub fn new() -> (backend: Self) {
        AppleContainer
    }
}

impl ContainerBackend for AppleContainer {
    fn name(&self) -> (name: &'static str)
        ensures
            name@ == "apple"@,
    {
        "apple"
    }
}

/// The Docker runtime.
pub struct DockerBackend;

impl DockerBackend {
    pub fn new() -> (backend: Self) {
        DockerBackend
    }
}

impl ContainerBackend for DockerBackend {
    fn name(&self) -> (name: &'static str)
        ensures
            name@ == "docker"@,
    {
        "docker"
    }
}

/// What a flagged list holds: the flag and the values, nothing else.
pub proof fn flagged_holds_flag_and_values(flag: Seq<char>, values: Seq<Seq<char>>, arg: Seq<char>)
    requires
        flagged(flag, values).contains(arg),
    ensures
        arg == flag || values.contains(arg),
    decreases values.len(),
{
    if values.len() > 0 {
        let front = flagged(flag, values.drop_last());
        let all = flagged(flag, values);
        let at = choose|at: int| 0 <= at < all.len() && all[at] == arg;
        if at < front.len() {
            assert(front[at] == arg);
            flagged_holds_flag_and_values(flag, values.drop_last(), arg);
            if arg != flag {
                let k = choose|k: int|
                    0 <= k < values.drop_last().len() && values.drop_last()[k] == arg;
                assert(values[k] == arg);
            }
        } else if at == front.len() {
        } else {
            assert(values[values.len() - 1] == arg);
        }
    }
}

/// The characters of the network switch.
proof fn network_none_chars()
    ensures
        network_none().len() == 14,
        network_none()[0] == '-',
        forall|i: int| 0 <= i < 14 ==> network_none()[i] != ':',
{
    reveal_strlit("--network=none");
    let flag = "--network=none"@;
    assert(flag.len() == 14);
    assert(flag[0] == '-' && flag[1] == '-' && flag[2] == 'n' && flag[3] == 'e' && flag[4] == 't');
    assert(flag[5] == 'w' && flag[6] == 'o' && flag[7] == 'r' && flag[8] == 'k' && flag[9] == '=');
    assert(flag[10] == 'n' && flag[11] == 'o' && flag[12] == 'n' && flag[13] == 'e');
    assert forall|i: int| 0 <= i < 14 implies flag[i] != ':' by {
        if i < 5 {
            assert(i == 0 || i == 1 || i == 2 || i == 3 || i == 4);
        } else if i < 10 {
            assert(i == 5 || i == 6 || i == 7 || i == 8 || i == 9);
        } else {
            assert(i == 10 || i == 11 || i == 12 || i == 13);
        }
    }
}

/// No mount, however it is written, reads as the network switch.
pub proof fn mount_args_differ_from_network_switch(mount: MountModel)
    ensures
        mount.docker_arg() != network_none(),
        mount.apple_arg() != network_none(),
{
    network_none_chars();
    reveal_strlit(":");
    reveal_strlit("type=bind,src=");
    let docker = mount.docker_arg();
    assert(":"@.len() == 1 && ":"@[0] == ':');
    assert(docker[mount.source.len() as int] == ':');
    assert("type=bind,src="@.len() == 14 && "type=bind,src="@[0] == 't');
    assert(mount.apple_arg()[0] == 't');
}

/// With no egress host named, both command lines switch the network off:
/// the switch stands right after `--rm`.
pub proof fn network_switch_present_when_disabled(spec: RunSpecModel)
    requires
        spec.egress_hosts.len() == 0,
    ensures
        spec.docker_args().contains(network_none()),
        spec.apple_args().contains(network_none()),
        spec.docker_args()[3] == network_none(),
        spec.apple_args()[3] == network_none(),
{
    assert(spec.docker_args()[3] == network_none());
    assert(spec.apple_args()[3] == network_none());
}

/// With an egress host named, neither command line holds the network
/// switch, unless the image, a command word or a variable is itself written
/// like the switch.
pub proof fn network_switch_absent_when_enabled(spec: RunSpecModel)
    requires
        spec.egress_hosts.len() > 0,
        spec.image != network_none(),
        !spec.command.contains(network_none()),
        forall|i: int| 0 <= i < spec.env.len() ==> env_arg(#[trigger] spec.env[i]) != network_none(),
    ensures
        !spec.docker_args().contains(network_none()),
        !spec.apple_args().contains(network_none()),
{
    network_none_chars();
    reveal_strlit("docker");
    reveal_strlit("container");
    reveal_strlit("run");
    reveal_strlit("--rm");
    reveal_strlit("-v");
    reveal_strlit("-e");
    reveal_strlit("--mount");
    reveal_strlit("--env");
    assert("docker"@.len() == 6 && "container"@.len() == 9 && "run"@.len() == 3 && "--rm"@.len()
        == 4);
    assert("-v"@.len() == 2 && "-e"@.len() == 2 && "--mount"@.len() == 7 && "--env"@.len() == 5);
    let flag = network_none();
    let envs = spec.env.map_values(|p| env_arg(p));
    let docker_mounts = spec.mounts.map_values(|m: MountModel| m.docker_arg());
    let apple_mounts = spec.mounts.map_values(|m: MountModel| m.apple_arg());
    assert forall|i: int| 0 <= i < spec.mounts.len() implies docker_mounts[i] != flag
        && apple_mounts[i] != flag by {
        mount_args_differ_from_network_switch(spec.mounts[i]);
    }
    absent_from_args(spec, "docker"@, "-v"@, docker_mounts, "-e"@);
    absent_from_args(spec, "container"@, "--mount"@, apple_mounts, "--env"@);
}

/// A command line holds the network switch only if one of its parts is
/// written like it.
proof fn absent_from_args(
    spec: RunSpecModel,
    runner: Seq<char>,
    mount_flag: Seq<char>,
    mount_args: Seq<Seq<char>>,
    env_flag: Seq<char>,
)
    requires
        spec.egress_hosts.len() > 0,
        spec.image != network_none(),
        !spec.command.contains(network_none()),
        forall|i: int| 0 <= i < spec.env.len() ==> env_arg(#[trigger] spec.env[i]) != network_none(),
        !mount_args.contains(network_none()),
        runner != network_none(),
        mount_flag != network_none(),
        env_flag != network_none(),
        "run"@ != network_none(),
        "--rm"@ != network_none(),
    ensures
        !spec.args_with(runner, mount_flag, mount_args, env_flag).contains(network_none()),
{
    let flag = network_none();
    let envs = spec.env.map_values(|p| env_arg(p));
    let head = seq![runner, "run"@, "--rm"@] + Seq::<Seq<char>>::empty();
    let mounts = flagged(mount_flag, mount_args);
    let vars = flagged(env_flag, envs);
    let args = spec.args_with(runner, mount_flag, mount_args, env_flag);
    assert(args == head + mounts + vars + seq![spec.image] + spec.command);
    if args.contains(flag) {
        let at = choose|at: int| 0 <= at < args.len() && args[at] == flag;
        if at < head.len() {
            assert(args[at] == head[at]);
        } else if at < head.len() + mounts.len() {
            assert(mounts[at - head.len()] == flag);
            flagged_holds_flag_and_values(mount_flag, mount_args, flag);
        } else if at < head.len() + mounts.len() + vars.len() {
            assert(vars[at - head.len() - mounts.len()] == flag);
            flagged_holds_flag_and_values(env_flag, envs, flag);
            let k = choose|k: int| 0 <= k < envs.len() && envs[k] == flag;
            assert(env_arg(spec.env[k]) == flag);
        } else if at == head.len() + mounts.len() + vars.len() {
        } else {
            assert(spec.command[at - head.len() - mounts.len() - vars.len() - 1] == flag);
        }
    }
}

/// Mounts pass the check exactly when every source is opened by an allowed
/// prefix; a refused source is the first that none opens.
pub proof fn mounts_pass_iff_all_allowed(prefixes: Seq<Seq<char>>, mounts: Seq<MountModel>)
    ensures
        first_refused_mount(prefixes, mounts) is None <==> forall|i: int|
            0 <= i < mounts.len() ==> source_allowed(prefixes, (#[trigger] mounts[i]).source),
        first_refused_mount(prefixes, mounts) matches Some(source) ==> exists|i: int|
            0 <= i < mounts.len() && (#[trigger] mounts[i]).source == source && !source_allowed(
                prefixes,
                source,
            ) && forall|j: int|
                0 <= j < i ==> source_allowed(prefixes, (#[trigger] mounts[j]).source),
    decreases mounts.len(),
{
    if mounts.len() > 0 {
        let rest = mounts.skip(1);
        mounts_pass_iff_all_allowed(prefixes, rest);
        if source_allowed(prefixes, mounts[0].source) {
            if first_refused_mount(prefixes, rest) is None {
                assert forall|i: int| 0 <= i < mounts.len() implies source_allowed(
                    prefixes,
                    (#[trigger] mounts[i]).source,
                ) by {
                    if i > 0 {
                        assert(mounts[i] == rest[i - 1]);
                    }
                }
            } else {
                let source = first_refused_mount(prefixes, rest)->0;
                let k = choose|k: int|
                    0 <= k < rest.len() && (#[trigger] rest[k]).source == source
                        && !source_allowed(prefixes, source) && forall|j: int|
                        0 <= j < k ==> source_allowed(prefixes, (#[trigger] rest[j]).source);
                assert(mounts[k + 1] == rest[k]);
                assert forall|j: int| 0 <= j < k + 1 implies source_allowed(
                    prefixes,
                    (#[trigger] mounts[j]).source,
                ) by {
                    if j > 0 {
                        assert(mounts[j] == rest[j - 1]);
                    }
                }
            }
        }
    }
}

/// Hosts pass the check exactly when the allowlist names every one of
/// them.
pub proof fn hosts_pass_iff_all_listed(allowlist: Seq<Seq<char>>, hosts: Seq<Seq<char>>)
    ensures
        first_refused_host(allowlist, hosts) is None <==> forall|i: int|
            0 <= i < hosts.len() ==> allowlist.contains(#[trigger] hosts[i]),
        first_refused_host(allowlist, hosts) matches Some(host) ==> hosts.contains(host)
            && !allowlist.contains(host),
    decreases hosts.len(),
{
    if hosts.len() > 0 {
        let rest = hosts.skip(1);
        hosts_pass_iff_all_listed(allowlist, rest);
        if allowlist.contains(hosts[0]) {
            if first_refused_host(allowlist, rest) is None {
                assert forall|i: int| 0 <= i < hosts.len() implies allowlist.contains(
                    #[trigger] hosts[i],
                ) by {
                    if i > 0 {
                        assert(hosts[i] == rest[i - 1]);
                    }
                }
            } else {
                let host = first_refused_host(allowlist, rest)->0;
                let k = choose|k: int| 0 <= k < rest.len() && rest[k] == host;
                assert(hosts[k + 1] == host);
            }
        }
    }
}

/// A secret is handed out exactly when the allowlist names its key and a
/// value is stored under the key.
pub proof fn secret_granted_iff_listed_and_stored(broker: SecretBrokerModel, key: Seq<char>)
    ensures
        broker.granted(key) is Some <==> broker.allowlist.contains(key) && exists|i: int|
            0 <= i < broker.secrets.len() && (#[trigger] broker.secrets[i]).0 == key,
        broker.after_request(key).audit.len() == broker.audit.len() + 1,
        broker.after_request(key).audit.last().target == key,
        broker.after_request(key).audit.last().allowed == (broker.granted(key) is Some),
{
    secret_stored_iff_some(broker.secrets, key);
}

/// A lookup finds a value exactly when one is stored under the key.
pub proof fn secret_stored_iff_some(secrets: Seq<(Seq<char>, Seq<char>)>, key: Seq<char>)
    ensures
        secret_for(secrets, key) is Some <==> exists|i: int|
            0 <= i < secrets.len() && (#[trigger] secrets[i]).0 == key,
    decreases secrets.len(),
{
    if secrets.len() > 0 {
        let front = secrets.drop_last();
        secret_stored_iff_some(front, key);
        if secrets.last().0 == key {
            assert(secrets[secrets.len() - 1].0 == key);
        } else if secret_for(front, key) is Some {
            let i = choose|i: int| 0 <= i < front.len() && (#[trigger] front[i]).0 == key;
            assert(secrets[i].0 == key);
        } else {
            assert forall|i: int| 0 <= i < secrets.len() implies (#[trigger] secrets[i]).0
                != key by {
                if i < front.len() {
                    assert(front[i] == secrets[i]);
                }
            }
        }
    }
}

} // verus!
