use vstd::prelude::*;

use crate::shook::config::{copy_map, Config, ConfigDevOp, ConfigRunner, Vendor};
use crate::shook::error::{Reply, ShookServerError};
use crate::shook::signature::{expected_signature, verify_signature};
use vstd::utf8::encode_utf8;
use crate::shook::maps::{EntryMap, PortMap, SecretMap, TextMap};

verus! {

/// The state of a workflow job that a webhook reports.
#[derive(Debug, Clone, Copy, PartialEq, Eq, Structural)]
pub enum Event {
    Completed,
    InProgress,
    Queued,
    Waiting,
}

/// The account that owns a repository.
#[derive(Debug, Clone)]
pub struct Owner {
    pub login: String,
}

/// The repository a job belongs to.
#[derive(Debug, Clone)]
pub struct Repository {
    pub name: String,
    pub owner: Owner,
}

/// The user whose action started the job.
#[derive(Debug, Clone)]
pub struct Sender {
    pub login: String,
}

/// The workflow job; its second label names the runner it asks for.
#[derive(Debug, Clone)]
pub struct WorkflowJob {
    pub workflow_name: String,
    pub name: String,
    pub id: usize,
    pub labels: Vec<String>,
}

/// A `workflow_job` webhook of GitHub.
#[derive(Debug, Clone)]
pub struct WebhookPayload {
    pub action: Event,
    pub repository: Repository,
    pub sender: Sender,
    pub workflow_job: WorkflowJob,
}

/// The sandbox to start for a job: its name, image and resources, and the
/// repository its runner registers with.
pub struct RunnerPayload {
    pub sandbox_name: String,
    pub image: String,
    pub cpus: u8,
    pub memory: u32,
    pub volumes: TextMap,
    pub ports: PortMap,
    pub envs: TextMap,
    pub secrets: SecretMap,
    pub owner: String,
    pub repo: String,
    pub token: String,
}

/// Only queued jobs start a runner.
pub fn validate_event(event: &Event) -> (r: Result<(), ShookServerError>)
    ensures
        r is Ok <==> *event == Event::Queued,
        r matches Err(e) ==> e is Validator && e.message_spec() == "action: Unsupported event"@,
{
    match event {
        Event::Queued => Ok(()),
        _ => Err(ShookServerError::Validator("action: Unsupported event".to_owned())),
    }
}

/// Whether `name` is one of `names`.
pub fn contains_name(names: &Vec<String>, name: &String) -> (r: bool)
    ensures
        r == exists|i: int| 0 <= i < names@.len() && #[trigger] names@[i]@ == name@,
{
    let mut i: usize = 0;
    while i < names.len()
        invariant
            i <= names@.len(),
            forall|j: int| 0 <= j < i ==> #[trigger] names@[j]@ != name@,
        decreases names.len() - i,
    {
        if names[i] == *name {
            return true;
        }
        i = i + 1;
    }
    false
}

/// Only users the configuration allows start a runner.
pub fn validate_sender(sender: &Sender, devop: &ConfigDevOp) -> (r: Result<(), ShookServerError>)
    ensures
        r is Ok <==> devop.allows_user(sender.login@),
        r matches Err(e) ==> e is Validator && e.message_spec() == "sender: Sender not allowed"@,
{
    if !contains_name(&devop.allowed_users, &sender.login) {
        return Err(ShookServerError::Validator("sender: Sender not allowed".to_owned()));
    }
    Ok(())
}

/// Only jobs of repositories the configuration allows are run.
pub fn validate_repository(repo: &String, devop: &ConfigDevOp) -> (r: Result<(), ShookServerError>)
    ensures
        r is Ok <==> devop.allows_repository(repo@),
        r matches Err(e) ==> e is Validator && e.message_spec() == "repo: Repository not allowed"@,
{
    if !contains_name(&devop.allowed_repositories, repo) {
        return Err(ShookServerError::Validator("repo: Repository not allowed".to_owned()));
    }
    Ok(())
}

/// The decimal text of `n`.
pub open spec fn decimal(n: nat) -> Seq<char>
    decreases n,
{
    if n < 10 {
        seq![(('0' as int) + n) as char]
    } else {
        decimal(n / 10) + seq![(('0' as int) + n % 10) as char]
    }
}

/// The text of the decimal digit `d`.
fn digit_text(d: usize) -> (r: &'static str)
    requires
        d < 10,
    ensures
        r@ == seq![(('0' as int) + d) as char],
{
    proof {
        reveal_strlit("0123456789");
    }
    let digits = "0123456789";
    digits.substring_char(d, d + 1)
}

/// Writes `n` in decimal: the shortest numeral, most significant digit
/// first.
pub(crate) fn decimal_text(n: usize) -> (r: String)
    ensures
        r@ == decimal(n as nat),
    decreases n,
{
    if n < 10 {
        digit_text(n).to_owned()
    } else {
        let mut out = decimal_text(n / 10);
        out.append(digit_text(n % 10));
        out
    }
}

/// The `Debug` text of a list of strings: each quoted and escaped, between
/// brackets, separated by `, `.
pub uninterp spec fn debug_strings(items: Seq<Seq<char>>) -> Seq<char>;

/// Formats a list of strings with `format!("{:?}", ..)`. Claims: the text
/// is what [`debug_strings`] names for the strings' texts.
#[verifier::external_body]
fn debug_text(items: &Vec<String>) -> (r: String)
    ensures
        r@ == debug_strings(items@.map_values(|s: String| s@)),
{
    format!("{:?}", items)
}

/// The name of the sandbox a job runs in: owner, repository, job name and
/// job id, joined by hyphens.
pub open spec fn sandbox_name(p: WebhookPayload) -> Seq<char> {
    p.repository.owner.login@ + seq!['-'] + p.repository.name@ + seq!['-'] + p.workflow_job.name@
        + seq!['-'] + decimal(p.workflow_job.id as nat)
}

/// Finds the first runner called `name`.
pub fn find_runner<'a>(runners: &'a Vec<ConfigRunner>, name: &String) -> (r: Option<&'a ConfigRunner>)
    ensures
        r is None <==> !exists|i: int| 0 <= i < runners@.len() && (#[trigger] runners@[i]).name@ == name@,
        r matches Some(c) ==> exists|i: int|
            0 <= i < runners@.len() && #[trigger] runners@[i] == *c && c.name@ == name@ && forall|
                j: int,
            | 0 <= j < i ==> (#[trigger] runners@[j]).name@ != name@,
{
    let mut i: usize = 0;
    while i < runners.len()
        invariant
            i <= runners@.len(),
            forall|j: int| 0 <= j < i ==> (#[trigger] runners@[j]).name@ != name@,
        decreases runners.len() - i,
    {
        if runners[i].name == *name {
            return Some(&runners[i]);
        }
        i = i + 1;
    }
    None
}

/// The runner a job asks for (by the name in its second label) resolves
/// to `p` under `config`: `p` runs the first configured runner of that name
/// in a sandbox named after owner, repository, job and job id, and
/// registers with the job's repository.
pub open spec fn payload_for(w: WebhookPayload, config: Config, p: RunnerPayload) -> bool {
    &&& exists|i: int|
        0 <= i < config.runners@.len() && (#[trigger] config.runners@[i]).name@
            == w.workflow_job.labels@[1]@ && (forall|j: int|
            0 <= j < i ==> (#[trigger] config.runners@[j]).name@ != w.workflow_job.labels@[1]@)
            && p.image@ == config.runners@[i].image@ && p.cpus == config.runners@[i].cpus
            && p.memory == config.runners@[i].memory && p.volumes@ == config.runners@[i].volumes@
            && p.ports@ == config.runners@[i].ports@ && p.envs@ == config.runners@[i].envs@
            && p.secrets@ == config.runners@[i].secrets@
    &&& p.sandbox_name@ == sandbox_name(w)
    &&& p.owner@ == w.repository.owner.login@
    &&& p.repo@ == w.repository.name@
    &&& p.token@ == config.devop.token@
}

/// The text a payload is refused with. When fields fail validation, each
/// failing field's line, in field order: the job is not queued, the sender
/// is not allowed. Otherwise the first rule it breaks: the job names no
/// runner (its labels are shown), or the runner it names is not configured.
pub open spec fn refusal_text(w: WebhookPayload, config: Config) -> Seq<char> {
    if w.action != Event::Queued && !config.devop.allows_user(w.sender.login@) {
        "action: Unsupported event"@ + seq!['\n'] + "sender: Sender not allowed"@
    } else if w.action != Event::Queued {
        "action: Unsupported event"@
    } else if !config.devop.allows_user(w.sender.login@) {
        "sender: Sender not allowed"@
    } else if w.workflow_job.labels@.len() < 2 {
        "Runner label not found: "@ + debug_strings(w.workflow_job.labels@.map_values(|s: String| s@))
    } else {
        "Runner not found: "@ + w.workflow_job.labels@[1]@
    }
}

/// `e` is the refusal of the payload: a rule violation when the payload
/// is not valid, a parse failure when it names no configured runner, with
/// the text of [`refusal_text`].
pub open spec fn refused_as(w: WebhookPayload, config: Config, e: ShookServerError) -> bool {
    &&& (e is Validator <==> !w.valid(config))
    &&& (e is Validator || e is Parse)
    &&& e.message_spec() == refusal_text(w, config)
}

impl WebhookPayload {
    /// The payload starts a runner: the job is queued and its sender is
    /// allowed.
    pub open spec fn valid(&self, config: Config) -> bool {
        &&& self.action == Event::Queued
        &&& config.devop.allows_user(self.sender.login@)
    }

    /// A sandbox is started for the payload: it is valid, names a runner in
    /// its second label, and that runner is configured.
    pub open spec fn accepted(&self, config: Config) -> bool {
        &&& self.valid(config)
        &&& self.workflow_job.labels@.len() >= 2
        &&& exists|i: int|
            0 <= i < config.runners@.len() && (#[trigger] config.runners@[i]).name@
                == self.workflow_job.labels@[1]@
    }

    /// Checks that the job is queued and that its sender is allowed; every
    /// field that fails is reported, one line each, in field order.
    pub fn validate(&self, config: &Config) -> (r: Result<(), ShookServerError>)
        ensures
            r is Ok <==> self.valid(*config),
            r matches Err(e) ==> e is Validator && e.message_spec() == refusal_text(*self, *config),
    {
        let event = validate_event(&self.action);
        let sender = validate_sender(&self.sender, &config.devop);
        match (event, sender) {
            (Ok(()), Ok(())) => Ok(()),
            (Err(e), Ok(())) => Err(e),
            (Ok(()), Err(e)) => Err(e),
            (Err(e1), Err(e2)) => {
                proof {
                    reveal_strlit("\n");
                }
                let mut msg = e1.message();
                msg.append("\n");
                msg.append(e2.message().as_str());
                Err(ShookServerError::Validator(msg))
            },
        }
    }

    /// The sandbox a valid webhook asks for: the runner named by the job's
    /// second label, in a sandbox named after owner, repository, job and
    /// job id, registering with the job's repository.
    pub fn runner_payload(&self, config: &Config) -> (r: Result<RunnerPayload, ShookServerError>)
        ensures
            r is Ok <==> self.accepted(*config),
            r matches Err(e) ==> refused_as(*self, *config, e),
            r matches Ok(p) ==> payload_for(*self, *config, p),
    {
        self.validate(config)?;
        if self.workflow_job.labels.len() < 2 {
            let mut msg = "Runner label not found: ".to_owned();
            msg.append(debug_text(&self.workflow_job.labels).as_str());
            return Err(ShookServerError::Parse(msg));
        }
        let runner_name = &self.workflow_job.labels[1];
        let runner = match find_runner(&config.runners, runner_name) {
            Some(r) => r,
            None => {
                let mut msg = "Runner not found: ".to_owned();
                msg.append(runner_name.as_str());
                return Err(ShookServerError::Parse(msg));
            },
        };
        proof {
            reveal_strlit("-");
        }
        let mut name = self.repository.owner.login.clone();
        name.append("-");
        name.append(self.repository.name.as_str());
        name.append("-");
        name.append(self.workflow_job.name.as_str());
        name.append("-");
        name.append(decimal_text(self.workflow_job.id).as_str());
        assert(name@ =~= sandbox_name(*self));
        Ok(
            RunnerPayload {
                sandbox_name: name,
                image: runner.image.clone(),
                cpus: runner.cpus,
                memory: runner.memory,
                volumes: copy_map(&runner.volumes),
                ports: copy_map(&runner.ports),
                envs: copy_map(&runner.envs),
                secrets: copy_map(&runner.secrets),
                owner: self.repository.owner.login.clone(),
                repo: self.repository.name.clone(),
                token: config.devop.token.clone(),
            },
        )
    }
}

/// The sandbox a GitHub webhook request asks for. The request must carry
/// the signature of its body (`signature_header`, empty when absent); then
/// the body, as the JSON decoder read it (`decoded`, or the decoder's
/// message), must be a payload that is accepted.
pub fn github_runner_payload(
    config: &Config,
    signature_header: &str,
    body: &str,
    decoded: Result<WebhookPayload, String>,
) -> (r: Result<RunnerPayload, ShookServerError>)
    ensures
        signature_header@ != expected_signature(
            encode_utf8(config.devop.webhook_secret@),
            encode_utf8(body@),
        ) ==> r == Err::<RunnerPayload, _>(ShookServerError::RequestSignaturesMismatch),
        signature_header@ == expected_signature(
            encode_utf8(config.devop.webhook_secret@),
            encode_utf8(body@),
        ) ==> match decoded {
            Err(m) => r == Err::<RunnerPayload, _>(ShookServerError::SerdeJson(m)),
            Ok(w) => {
                &&& (r is Ok <==> w.accepted(*config))
                &&& (r matches Ok(p) ==> payload_for(w, *config, p))
                &&& (r matches Err(e) ==> refused_as(w, *config, e))
            },
        },
{
    verify_signature(body, config.devop.webhook_secret.as_str(), signature_header)?;
    match decoded {
        Err(m) => Err(ShookServerError::SerdeJson(m)),
        Ok(w) => w.runner_payload(config),
    }
}

/// The answer to a webhook of a vendor whose webhooks are not understood:
/// a server error; none for GitHub.
pub fn vendor_refusal(vendor: Vendor) -> (r: Option<Reply>)
    ensures
        r is None <==> vendor == Vendor::Github,
        r matches Some(x) ==> x.status == 500 && x.body@ == "Unsupported vendor"@,
{
    match vendor {
        Vendor::Github => None,
        _ => Some(Reply { status: 500, body: "Unsupported vendor".to_owned() }),
    }
}

/// The standing sandboxes: for each runner, in order, one slot per
/// instance `0..count`, given as the runner's index and the instance.
pub open spec fn job_slots(runners: Seq<ConfigRunner>) -> Seq<(int, nat)>
    decreases runners.len(),
{
    if runners.len() == 0 {
        Seq::empty()
    } else {
        let last = runners.len() - 1;
        job_slots(runners.drop_last()) + Seq::new(
            runners.last().count as nat,
            |i: int| (last, i as nat),
        )
    }
}

/// `p` is the standing sandbox for `slot`: named after the runner and the
/// instance, with the runner's image, resources, volumes, variables and
/// secrets but no port forward, registering with the first allowed
/// repository of the first allowed user.
pub open spec fn standing_payload_for(config: Config, slot: (int, nat), p: RunnerPayload) -> bool {
    let r = config.runners@[slot.0];
    &&& p.sandbox_name@ == r.name@ + seq!['-'] + decimal(slot.1)
    &&& p.image@ == r.image@
    &&& p.cpus == r.cpus
    &&& p.memory == r.memory
    &&& p.volumes@ == r.volumes@
    &&& p.ports@ == Map::<u16, u16>::empty()
    &&& p.envs@ == r.envs@
    &&& p.secrets@ == r.secrets@
    &&& p.owner@ == config.devop.allowed_users@[0]@
    &&& p.repo@ == config.devop.allowed_repositories@[0]@
    &&& p.token@ == config.devop.token@
}

/// The standing sandbox of instance `i` of `runner`.
fn standing_payload(config: &Config, runner: &ConfigRunner, i: usize) -> (r: RunnerPayload)
    requires
        config.devop.allowed_users@.len() >= 1,
        config.devop.allowed_repositories@.len() >= 1,
    ensures
        r.sandbox_name@ == runner.name@ + seq!['-'] + decimal(i as nat),
        r.image@ == runner.image@,
        r.cpus == runner.cpus,
        r.memory == runner.memory,
        r.volumes@ == runner.volumes@,
        r.ports@ == Map::<u16, u16>::empty(),
        r.envs@ == runner.envs@,
        r.secrets@ == runner.secrets@,
        r.owner@ == config.devop.allowed_users@[0]@,
        r.repo@ == config.devop.allowed_repositories@[0]@,
        r.token@ == config.devop.token@,
{
    proof {
        reveal_strlit("-");
    }
    let mut name = runner.name.clone();
    name.append("-");
    name.append(decimal_text(i).as_str());
    assert(name@ =~= runner.name@ + seq!['-'] + decimal(i as nat));
    RunnerPayload {
        sandbox_name: name,
        image: runner.image.clone(),
        cpus: runner.cpus,
        memory: runner.memory,
        volumes: copy_map(&runner.volumes),
        ports: PortMap::empty(),
        envs: copy_map(&runner.envs),
        secrets: copy_map(&runner.secrets),
        owner: config.devop.allowed_users[0].clone(),
        repo: config.devop.allowed_repositories[0].clone(),
        token: config.devop.token.clone(),
    }
}

/// The sandboxes kept running without webhooks: `count` instances of every
/// runner (see [`job_slots`] and [`standing_payload_for`]).
pub fn standing_payloads(config: &Config) -> (r: Vec<RunnerPayload>)
    requires
        config.devop.allowed_users@.len() >= 1,
        config.devop.allowed_repositories@.len() >= 1,
    ensures
        r@.len() == job_slots(config.runners@).len(),
        forall|k: int|
            0 <= k < r@.len() ==> standing_payload_for(
                *config,
                job_slots(config.runners@)[k],
                #[trigger] r@[k],
            ),
{
    let mut out: Vec<RunnerPayload> = Vec::new();
    let mut j: usize = 0;
    let ghost all = config.runners@;
    while j < config.runners.len()
        invariant
            all == config.runners@,
            config.devop.allowed_users@.len() >= 1,
            config.devop.allowed_repositories@.len() >= 1,
            j <= all.len(),
            out@.len() == job_slots(all.subrange(0, j as int)).len(),
            forall|k: int|
                0 <= k < out@.len() ==> standing_payload_for(
                    *config,
                    job_slots(all.subrange(0, j as int))[k],
                    #[trigger] out@[k],
                ),
        decreases config.runners.len() - j,
    {
        let runner = &config.runners[j];
        let ghost prefix = job_slots(all.subrange(0, j as int));
        let ghost next = job_slots(all.subrange(0, j + 1));
        proof {
            assert(all.subrange(0, j + 1).drop_last() =~= all.subrange(0, j as int));
            assert(next =~= prefix + Seq::new(
                runner.count as nat,
                |i: int| (j as int, i as nat),
            ));
        }
        let mut i: usize = 0;
        while i < runner.count
            invariant
                all == config.runners@,
                config.devop.allowed_users@.len() >= 1,
                config.devop.allowed_repositories@.len() >= 1,
                j < all.len(),
                *runner == all[j as int],
                i <= runner.count,
                next == prefix + Seq::new(runner.count as nat, |i: int| (j as int, i as nat)),
                out@.len() == prefix.len() + i,
                forall|k: int|
                    0 <= k < out@.len() ==> standing_payload_for(
                        *config,
                        next[k],
                        #[trigger] out@[k],
                    ),
            decreases runner.count - i,
        {
            let p = standing_payload(config, runner, i);
            out.push(p);
            i = i + 1;
        }
        j = j + 1;
    }
    assert(all.subrange(0, all.len() as int) =~= all);
    out
}

/// Whether webhooks of the vendor are understood; only GitHub's are.
pub fn vendor_supported(vendor: Vendor) -> (r: bool)
    ensures
        r <==> vendor == Vendor::Github,
{
    match vendor {
        Vendor::Github => true,
        _ => false,
    }
}

/// A job request in the older, label-encoded form.
#[derive(Debug, Clone)]
pub struct RunnerSpec {
    pub owner: String,
    pub repo: String,
    pub job: String,
    pub id: usize,
    pub runner: String,
}

impl RunnerSpec {
    /// Checks that the job's repository is allowed.
    pub fn validate(&self, config: &Config) -> (r: Result<(), ShookServerError>)
        ensures
            r is Ok <==> config.devop.allows_repository(self.repo@),
            r matches Err(e) ==> e is Validator && e.message_spec() == "repo: Repository not allowed"@,
    {
        validate_repository(&self.repo, &config.devop)
    }
}

} // verus!
