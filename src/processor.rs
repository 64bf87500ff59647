use crate::config::Config;
use crate::errors::Errors;
use crate::version::{compare_spec, lemma_compare_total_preorder, NWJS};
use std::cmp::Ordering;
use vstd::prelude::*;

verus! {

/// The file whose presence marks a supported application's directory.
pub const MARKER_FILE: &'static str = "nw.dll";

/// The application's configuration file, in its directory.
pub const CONFIG_FILE: &'static str = "config.json";

/// The application's manifest, in its directory.
pub const MANIFEST_FILE: &'static str = "package.json";

/// An application directory and its configuration.
pub struct Data {
    pub working_directory: String,
    pub config: Config,
}

impl Data {
    pub fn new(working_directory: String, config: Config) -> (r: Self)
        ensures
            r.working_directory == working_directory,
            r.config == config,
    {
        Data { working_directory, config }
    }
}

/// A configuration that provisioning can work from: it declares a runtime
/// version, and each file association names a destination.
pub open spec fn config_ok(c: Config) -> bool {
    &&& c.checked_nwjs_versions@.len() > 0
    &&& forall|i: int|
        0 <= i < c.file_asociations@.len() ==> #[trigger] c.file_asociations@[i].destination_files@.len()
            > 0
}

/// Checks the configuration of `data`, which it leaves as it is: no declared
/// runtime version is `MissingNWJSVersions`; else an association without
/// destination is `MissingFileAssociations`.
pub fn check_and_correct_data(data: &mut Data) -> (r: Result<(), Errors>)
    ensures
        *final(data) == *old(data),
        r is Ok == config_ok(old(data).config),
        r is Err ==> (if old(data).config.checked_nwjs_versions@.len() == 0 {
            r->Err_0 is MissingNWJSVersions
        } else {
            r->Err_0 is MissingFileAssociations
        }),
{
    if data.config.checked_nwjs_versions.len() == 0 {
        return Err(Errors::MissingNWJSVersions);
    }
    let mut i: usize = 0;
    while i < data.config.file_asociations.len()
        invariant
            i <= data.config.file_asociations@.len(),
            *data == *old(data),
            data.config.checked_nwjs_versions@.len() > 0,
            forall|k: int|
                0 <= k < i ==> #[trigger] data.config.file_asociations@[k].destination_files@.len()
                    > 0,
        decreases data.config.file_asociations@.len() - i,
    {
        if data.config.file_asociations[i].destination_files.len() == 0 {
            return Err(Errors::MissingFileAssociations);
        }
        i = i + 1;
    }
    Ok(())
}

/// `k` is the declared version that provisioning uses: none is greater, and
/// each one declared after it is smaller (of equal ones, the last declared).
pub open spec fn is_latest(vs: Seq<NWJS>, k: int) -> bool {
    &&& 0 <= k < vs.len()
    &&& forall|j: int|
        0 <= j < vs.len() ==> compare_spec(#[trigger] vs[j].nwjs_version@, vs[k].nwjs_version@)
            != Ordering::Greater
    &&& forall|j: int|
        k < j < vs.len() ==> compare_spec(#[trigger] vs[j].nwjs_version@, vs[k].nwjs_version@)
            == Ordering::Less
}

/// All positions of a sequence of length `n` but `k`, in order.
pub open spec fn positions_without(others: Seq<usize>, n: int, k: int) -> bool {
    &&& others.len() == n - 1
    &&& forall|i: int|
        0 <= i < others.len() ==> #[trigger] others[i] == if i < k {
            i
        } else {
            i + 1
        }
}

/// The position of the latest declared version.
pub fn latest_index(versions: &Vec<NWJS>) -> (r: usize)
    requires
        versions@.len() > 0,
    ensures
        is_latest(versions@, r as int),
{
    let mut best: usize = 0;
    let mut i: usize = 1;
    proof {
        let v0 = versions@[0].nwjs_version@;
        lemma_compare_total_preorder(v0, v0, v0);
    }
    while i < versions.len()
        invariant
            1 <= i <= versions@.len(),
            best < i,
            forall|j: int|
                0 <= j < i ==> compare_spec(
                    #[trigger] versions@[j].nwjs_version@,
                    versions@[best as int].nwjs_version@,
                ) != Ordering::Greater,
            forall|j: int|
                best < j < i ==> compare_spec(
                    #[trigger] versions@[j].nwjs_version@,
                    versions@[best as int].nwjs_version@,
                ) == Ordering::Less,
        decreases versions@.len() - i,
    {
        let ord = versions[i].compare(&versions[best]);
        proof {
            lemma_compare_total_preorder(
                versions@[best as int].nwjs_version@,
                versions@[best as int].nwjs_version@,
                versions@[best as int].nwjs_version@,
            );
        }
        let not_less = match ord {
            Ordering::Less => false,
            _ => true,
        };
        if not_less {
            proof {
                let vb = versions@[best as int].nwjs_version@;
                let vi = versions@[i as int].nwjs_version@;
                lemma_compare_total_preorder(vi, vb, vi);
                assert forall|j: int| 0 <= j < i + 1 implies compare_spec(
                    #[trigger] versions@[j].nwjs_version@,
                    vi,
                ) != Ordering::Greater by {
                    lemma_compare_total_preorder(versions@[j].nwjs_version@, vb, vi);
                    lemma_compare_total_preorder(vi, vi, vi);
                }
            }
            best = i;
        } else {
            proof {
                lemma_compare_total_preorder(
                    versions@[i as int].nwjs_version@,
                    versions@[i as int].nwjs_version@,
                    versions@[i as int].nwjs_version@,
                );
            }
        }
        i = i + 1;
    }
    best
}

/// All positions below `n` but `k`, in order.
fn positions_except(n: usize, k: usize) -> (r: Vec<usize>)
    requires
        k < n,
    ensures
        positions_without(r@, n as int, k as int),
{
    let mut r: Vec<usize> = Vec::new();
    let mut i: usize = 0;
    while i < n
        invariant
            k < n,
            i <= n,
            r@.len() == if i <= k {
                i as int
            } else {
                i - 1
            },
            forall|m: int|
                0 <= m < r@.len() ==> #[trigger] r@[m] == if m < k {
                    m
                } else {
                    m + 1
                },
        decreases n - i,
    {
        if i != k {
            r.push(i);
        }
        i = i + 1;
    }
    r
}

/// Where a provisioning run stands: the action last issued.
#[derive(Debug, Clone, Copy, PartialEq, Eq, Structural)]
pub enum Stage {
    /// Nothing issued yet.
    Start,
    /// The check for the application's marker file.
    Validate,
    /// Loading the configuration.
    Configure,
    /// Nothing issued yet; directory and configuration are settled.
    Ready,
    /// The pre-operation command at this position.
    PreOp(usize),
    /// The link to this destination (second) of this association (first).
    Associate(usize, usize),
    /// Resolving, acquiring and overlaying the runtime.
    Runtime,
    /// The post-operation command at this position.
    PostOp(usize),
    /// Finished with success.
    Done,
    /// Finished with failure.
    Failed,
}

/// What came of the action last issued.
pub enum Outcome {
    /// It was done.
    Succeeded,
    /// The configuration was loaded.
    Loaded(Config),
    /// A command ran and exited unsuccessfully; what it wrote to standard error.
    Refused(String),
    /// It could not be done.
    Failed(Errors),
}

/// The next thing to do.
pub enum Action {
    /// Look for the marker file of a supported application in the directory.
    CheckMarker,
    /// Load the configuration of the application.
    LoadConfig,
    /// Run a shell command in the directory.
    RunCommand(String),
    /// Make `destination` a link to `origin`, both relative to the directory.
    CreateLink { origin: String, destination: String, symlink: bool },
    /// Resolve the declared version at `latest` against the catalog, acquire
    /// it and overlay it onto the directory; resolve the others at `others`
    /// for display only.
    ProvisionRuntime { latest: usize, others: Vec<usize> },
    /// Stop with this result.
    Finish(Result<(), Errors>),
}

/// The stage of the post-operation commands from position `i` on.
pub open spec fn enter_post(c: Config, i: nat) -> Stage {
    if i < c.post_operation_commands@.len() {
        Stage::PostOp(i as usize)
    } else {
        Stage::Done
    }
}

/// The stage of the runtime, or what follows it where no version is declared.
pub open spec fn enter_runtime(c: Config) -> Stage {
    if c.checked_nwjs_versions@.len() > 0 {
        Stage::Runtime
    } else {
        enter_post(c, 0)
    }
}

/// The stage of the links from destination `j` of association `i` on.
pub open spec fn enter_assoc(c: Config, i: nat, j: nat) -> Stage
    decreases c.file_asociations@.len() - i,
{
    if i >= c.file_asociations@.len() {
        enter_runtime(c)
    } else if j < c.file_asociations@[i as int].destination_files@.len() {
        Stage::Associate(i as usize, j as usize)
    } else {
        enter_assoc(c, i + 1, 0)
    }
}

/// The stage of the pre-operation commands from position `i` on.
pub open spec fn enter_pre(c: Config, i: nat) -> Stage {
    if i < c.pre_operation_commands@.len() {
        Stage::PreOp(i as usize)
    } else {
        enter_assoc(c, 0, 0)
    }
}

/// The stage after `stage`, given the outcome of its action; `c` is the
/// configuration in force.
pub open spec fn next_stage(stage: Stage, c: Config, o: Outcome) -> Stage {
    match stage {
        Stage::Start => Stage::Validate,
        Stage::Validate => if o is Succeeded {
            Stage::Configure
        } else {
            Stage::Failed
        },
        Stage::Configure => match o {
            Outcome::Loaded(lc) => if config_ok(lc) {
                enter_pre(lc, 0)
            } else {
                Stage::Failed
            },
            _ => Stage::Failed,
        },
        Stage::Ready => enter_pre(c, 0),
        Stage::PreOp(i) => if o is Succeeded {
            enter_pre(c, (i + 1) as nat)
        } else {
            Stage::Failed
        },
        Stage::Associate(i, j) => if o is Succeeded {
            enter_assoc(c, i as nat, (j + 1) as nat)
        } else {
            Stage::Failed
        },
        Stage::Runtime => if o is Succeeded {
            enter_post(c, 0)
        } else {
            Stage::Failed
        },
        Stage::PostOp(i) => if o is Succeeded {
            enter_post(c, (i + 1) as nat)
        } else {
            Stage::Failed
        },
        Stage::Done => Stage::Done,
        Stage::Failed => Stage::Failed,
    }
}

/// The configuration in force after a step.
pub open spec fn next_config(stage: Stage, c: Config, o: Outcome) -> Config {
    if stage is Configure && o is Loaded {
        o->Loaded_0
    } else {
        c
    }
}

/// A step of the pipeline on the stage and the configuration in force.
pub open spec fn advance(st: (Stage, Config), o: Outcome) -> (Stage, Config) {
    (next_stage(st.0, st.1, o), next_config(st.0, st.1, o))
}

/// The stage and configuration after the outcomes, one step each.
pub open spec fn run(st: (Stage, Config), outcomes: Seq<Outcome>) -> (Stage, Config)
    decreases outcomes.len(),
{
    if outcomes.len() == 0 {
        st
    } else {
        advance(run(st, outcomes.drop_last()), outcomes.last())
    }
}

/// The action that a stage issues, with the configuration in force.
pub open spec fn issues(a: Action, stage: Stage, c: Config) -> bool {
    match stage {
        Stage::Validate => a is CheckMarker,
        Stage::Configure => a is LoadConfig,
        Stage::PreOp(i) => a is RunCommand && a->RunCommand_0 == c.pre_operation_commands@[i as int],
        Stage::Associate(i, j) => {
            &&& a is CreateLink
            &&& a->origin == c.file_asociations@[i as int].origin_file
            &&& a->destination == c.file_asociations@[i as int].destination_files@[j as int]
            &&& a->symlink == c.file_asociations@[i as int].allows_symlink
        },
        Stage::Runtime => {
            &&& a is ProvisionRuntime
            &&& is_latest(c.checked_nwjs_versions@, a->latest as int)
            &&& positions_without(
                a->others@,
                c.checked_nwjs_versions@.len() as int,
                a->latest as int,
            )
        },
        Stage::PostOp(i) => a is RunCommand && a->RunCommand_0
            == c.post_operation_commands@[i as int],
        Stage::Done => a is Finish && a->Finish_0 is Ok,
        Stage::Failed => a is Finish && a->Finish_0 is Err,
        Stage::Start | Stage::Ready => false,
    }
}

/// The error that a failing step reports.
pub open spec fn reports(e: Errors, stage: Stage, o: Outcome, wd: Seq<char>) -> bool {
    match stage {
        Stage::Validate => e is UnknownFolder && e->UnknownFolder_0@ == wd,
        Stage::Configure => match o {
            Outcome::Loaded(lc) => if lc.checked_nwjs_versions@.len() == 0 {
                e is MissingNWJSVersions
            } else {
                e is MissingFileAssociations
            },
            Outcome::Failed(f) => e == f,
            _ => e is Unknown,
        },
        Stage::PreOp(_) | Stage::Associate(_, _) | Stage::Runtime | Stage::PostOp(_) => match o {
            Outcome::Refused(msg) => e is ProcessError && e->ProcessError_0@ == phase_name(stage)
                && e->ProcessError_1 == msg,
            Outcome::Failed(f) => e == f,
            _ => e is Unknown,
        },
        _ => e is Unknown,
    }
}

/// The name of a stage's phase in a `ProcessError`.
pub open spec fn phase_name(stage: Stage) -> Seq<char> {
    match stage {
        Stage::PreOp(_) => "pre_op"@,
        Stage::Associate(_, _) => "file_association"@,
        Stage::Runtime => "nwjs"@,
        _ => "post_op"@,
    }
}

/// The stages whose action runs a command, makes a link or goes to the
/// network.
pub open spec fn does_outside_work(stage: Stage) -> bool {
    stage is PreOp || stage is Associate || stage is Runtime || stage is PostOp
}

fn enter_post_of(c: &Config, i: usize) -> (r: Stage)
    ensures
        r == enter_post(*c, i as nat),
{
    if i < c.post_operation_commands.len() {
        Stage::PostOp(i)
    } else {
        Stage::Done
    }
}

fn enter_assoc_of(c: &Config, i: usize, j: usize) -> (r: Stage)
    ensures
        r == enter_assoc(*c, i as nat, j as nat),
{
    let n = c.file_asociations.len();
    if i >= n {
        return if c.checked_nwjs_versions.len() > 0 {
            Stage::Runtime
        } else {
            enter_post_of(c, 0)
        };
    }
    if j < c.file_asociations[i].destination_files.len() {
        return Stage::Associate(i, j);
    }
    let mut k: usize = i + 1;
    while k < n
        invariant
            n == c.file_asociations@.len(),
            i < k <= n,
            enter_assoc(*c, i as nat, j as nat) == enter_assoc(*c, k as nat, 0),
        decreases n - k,
    {
        if c.file_asociations[k].destination_files.len() > 0 {
            return Stage::Associate(k, 0);
        }
        k = k + 1;
    }
    if c.checked_nwjs_versions.len() > 0 {
        Stage::Runtime
    } else {
        enter_post_of(c, 0)
    }
}

fn enter_pre_of(c: &Config, i: usize) -> (r: Stage)
    ensures
        r == enter_pre(*c, i as nat),
{
    if i < c.pre_operation_commands.len() {
        Stage::PreOp(i)
    } else {
        enter_assoc_of(c, 0, 0)
    }
}

/// The work of provisioning one application, one action at a time: the
/// caller performs each action and hands back what came of it.
pub struct Pipeline {
    pub stage: Stage,
    pub data: Data,
}

impl Pipeline {
    /// A run over the whole sequence, from checking the directory on.
    pub fn new(working_directory: String) -> (r: Self)
        ensures
            r.stage == Stage::Start,
            r.data.working_directory == working_directory,
            r.data.config.checked_nwjs_versions@.len() == 0,
    {
        Pipeline { stage: Stage::Start, data: Data::new(working_directory, Config::empty()) }
    }

    /// The action of a stage that does not finish the run.
    fn issue(&self) -> (r: Action)
        requires
            !(self.stage is Start || self.stage is Ready || self.stage is Failed),
            self.stage is PreOp ==> self.stage->PreOp_0
                < self.data.config.pre_operation_commands@.len(),
            self.stage is PostOp ==> self.stage->PostOp_0
                < self.data.config.post_operation_commands@.len(),
            self.stage is Associate ==> self.stage->Associate_0
                < self.data.config.file_asociations@.len() && self.stage->Associate_1
                < self.data.config.file_asociations@[self.stage->Associate_0 as int].destination_files@.len(),
            self.stage is Runtime ==> self.data.config.checked_nwjs_versions@.len() > 0,
        ensures
            issues(r, self.stage, self.data.config),
    {
        let c = &self.data.config;
        match self.stage {
            Stage::Validate => Action::CheckMarker,
            Stage::Configure => Action::LoadConfig,
            Stage::PreOp(i) => Action::RunCommand(c.pre_operation_commands[i].clone()),
            Stage::Associate(i, j) => {
                let a = &c.file_asociations[i];
                Action::CreateLink {
                    origin: a.origin_file.clone(),
                    destination: a.destination_files[j].clone(),
                    symlink: a.allows_symlink,
                }
            },
            Stage::Runtime => {
                let latest = latest_index(&c.checked_nwjs_versions);
                let others = positions_except(c.checked_nwjs_versions.len(), latest);
                Action::ProvisionRuntime { latest, others }
            },
            Stage::PostOp(i) => Action::RunCommand(c.post_operation_commands[i].clone()),
            _ => Action::Finish(Ok(())),
        }
    }

    /// Takes the outcome of the action last issued and returns the next one.
    pub fn step(&mut self, outcome: Outcome) -> (r: Action)
        ensures
            (final(self).stage, final(self).data.config) == advance(
                (old(self).stage, old(self).data.config),
                outcome,
            ),
            final(self).data.working_directory == old(self).data.working_directory,
            issues(r, final(self).stage, final(self).data.config),
            final(self).stage is Failed ==> reports(
                r->Finish_0->Err_0,
                old(self).stage,
                outcome,
                old(self).data.working_directory@,
            ),
    {
        proof {
            lemma_enter_pre_valid(self.data.config, 0);
        }
        match self.stage {
            Stage::Start => {
                self.stage = Stage::Validate;
                Action::CheckMarker
            },
            Stage::Validate => {
                match outcome {
                    Outcome::Succeeded => {
                        self.stage = Stage::Configure;
                        Action::LoadConfig
                    },
                    _ => {
                        self.stage = Stage::Failed;
                        let wd = self.data.working_directory.clone();
                        Action::Finish(
                            Err(
                                Errors::UnknownFolder(
                                    wd,
                                    String::from_str("Maybe this is not an RPG Maker Game"),
                                ),
                            ),
                        )
                    },
                }
            },
            Stage::Configure => {
                match outcome {
                    Outcome::Loaded(lc) => {
                        self.data.config = lc;
                        let mut checked = Data::new(String::new(), Config::empty());
                        std::mem::swap(&mut checked.config, &mut self.data.config);
                        let res = check_and_correct_data(&mut checked);
                        std::mem::swap(&mut checked.config, &mut self.data.config);
                        match res {
                            Ok(()) => {
                                proof {
                                    lemma_enter_pre_valid(self.data.config, 0);
                                }
                                self.stage = enter_pre_of(&self.data.config, 0);
                                self.issue()
                            },
                            Err(e) => {
                                self.stage = Stage::Failed;
                                Action::Finish(Err(e))
                            },
                        }
                    },
                    Outcome::Failed(e) => {
                        self.stage = Stage::Failed;
                        Action::Finish(Err(e))
                    },
                    _ => {
                        self.stage = Stage::Failed;
                        Action::Finish(Err(Errors::Unknown))
                    },
                }
            },
            Stage::Ready => {
                self.stage = enter_pre_of(&self.data.config, 0);
                self.issue()
            },
            Stage::Done => Action::Finish(Ok(())),
            Stage::Failed => Action::Finish(Err(Errors::Unknown)),
            _ => {
                let stage = self.stage;
                match outcome {
                    Outcome::Succeeded => {
                        proof {
                            lemma_next_valid(stage, self.data.config);
                        }
                        self.stage = self.after_success(stage);
                        self.issue()
                    },
                    Outcome::Refused(msg) => {
                        self.stage = Stage::Failed;
                        let phase = match stage {
                            Stage::PreOp(_) => String::from_str("pre_op"),
                            Stage::Associate(_, _) => String::from_str("file_association"),
                            Stage::Runtime => String::from_str("nwjs"),
                            _ => String::from_str("post_op"),
                        };
                        Action::Finish(Err(Errors::ProcessError(phase, msg)))
                    },
                    Outcome::Failed(e) => {
                        self.stage = Stage::Failed;
                        Action::Finish(Err(e))
                    },
                    Outcome::Loaded(_) => {
                        self.stage = Stage::Failed;
                        Action::Finish(Err(Errors::Unknown))
                    },
                }
            },
        }
    }

    /// The stage after a work stage whose action succeeded.
    fn after_success(&self, stage: Stage) -> (r: Stage)
        requires
            does_outside_work(stage),
        ensures
            r == next_stage(stage, self.data.config, Outcome::Succeeded),
    {
        let c = &self.data.config;
        match stage {
            Stage::PreOp(i) => {
                if i < c.pre_operation_commands.len() {
                    enter_pre_of(c, i + 1)
                } else {
                    enter_assoc_of(c, 0, 0)
                }
            },
            Stage::Associate(i, j) => {
                if j < usize::MAX {
                    enter_assoc_of(c, i, j + 1)
                } else if i < c.file_asociations.len() {
                    let _ = c.file_asociations[i].destination_files.len();
                    enter_assoc_of(c, i + 1, 0)
                } else {
                    enter_assoc_of(c, i, 0)
                }
            },
            Stage::Runtime => enter_post_of(c, 0),
            Stage::PostOp(i) => {
                if i < c.post_operation_commands.len() {
                    enter_post_of(c, i + 1)
                } else {
                    Stage::Done
                }
            },
            _ => Stage::Done,
        }
    }
}

/// A stage that `enter_*` gives is one whose action can be issued.
pub open spec fn valid_stage(stage: Stage, c: Config) -> bool {
    match stage {
        Stage::PreOp(i) => i < c.pre_operation_commands@.len(),
        Stage::PostOp(i) => i < c.post_operation_commands@.len(),
        Stage::Associate(i, j) => i < c.file_asociations@.len() && j
            < c.file_asociations@[i as int].destination_files@.len(),
        Stage::Runtime => c.checked_nwjs_versions@.len() > 0,
        Stage::Done => true,
        _ => false,
    }
}

proof fn lemma_enter_assoc_valid(c: Config, i: nat, j: nat)
    ensures
        valid_stage(enter_assoc(c, i, j), c),
    decreases c.file_asociations@.len() - i,
{
    assert(c.file_asociations.len() == c.file_asociations@.len());
    assert(c.post_operation_commands.len() == c.post_operation_commands@.len());
    if i < c.file_asociations@.len() {
        let d = c.file_asociations@[i as int].destination_files;
        assert(d.len() == d@.len());
        if j >= d@.len() {
            lemma_enter_assoc_valid(c, i + 1, 0);
        }
    }
}

proof fn lemma_enter_pre_valid(c: Config, i: nat)
    ensures
        valid_stage(enter_pre(c, i), c),
{
    assert(c.pre_operation_commands.len() == c.pre_operation_commands@.len());
    lemma_enter_assoc_valid(c, 0, 0);
}

proof fn lemma_next_valid(stage: Stage, c: Config)
    requires
        does_outside_work(stage),
    ensures
        valid_stage(next_stage(stage, c, Outcome::Succeeded), c),
{
    match stage {
        Stage::PreOp(i) => lemma_enter_pre_valid(c, (i + 1) as nat),
        Stage::Associate(i, j) => lemma_enter_assoc_valid(c, i as nat, (j + 1) as nat),
        _ => {
            assert(c.post_operation_commands.len() == c.post_operation_commands@.len());
        },
    }
}

/// Starts the provisioning work for an application whose directory has been
/// recognised and whose configuration has been loaded: the first step runs
/// the pre-operation commands.
pub fn process(data: Data) -> (r: Pipeline)
    ensures
        r.stage == Stage::Ready,
        r.data == data,
{
    Pipeline { stage: Stage::Ready, data }
}

proof fn lemma_failed_stays(c: Config, outcomes: Seq<Outcome>)
    ensures
        run((Stage::Failed, c), outcomes).0 == Stage::Failed,
    decreases outcomes.len(),
{
    if outcomes.len() > 0 {
        lemma_failed_stays(c, outcomes.drop_last());
    }
}

proof fn lemma_run_take(st: (Stage, Config), outcomes: Seq<Outcome>, k: int)
    requires
        0 <= k < outcomes.len(),
    ensures
        run(st, outcomes.take(k + 1)) == advance(run(st, outcomes.take(k)), outcomes[k]),
{
    assert(outcomes.take(k + 1).drop_last() =~= outcomes.take(k));
}

proof fn lemma_run_split(st: (Stage, Config), outcomes: Seq<Outcome>, k: int)
    requires
        0 <= k <= outcomes.len(),
    ensures
        run(st, outcomes) == run(run(st, outcomes.take(k)), outcomes.skip(k)),
    decreases outcomes.len(),
{
    if outcomes.len() == k {
        assert(outcomes.take(k) =~= outcomes);
        assert(outcomes.skip(k) =~= Seq::<Outcome>::empty());
    } else {
        lemma_run_split(st, outcomes.drop_last(), k);
        assert(outcomes.drop_last().take(k) =~= outcomes.take(k));
        assert(outcomes.skip(k).drop_last() =~= outcomes.drop_last().skip(k));
    }
}

/// A directory that is not recognised fails before any command, link or
/// download: the run checks the directory first, and where that check does
/// not succeed it has failed for good, with no work done before or after.
pub proof fn lemma_unrecognized_directory_fails_first(c: Config, outcomes: Seq<Outcome>)
    requires
        outcomes.len() >= 2,
        !(outcomes[1] is Succeeded),
    ensures
        run((Stage::Start, c), outcomes.take(1)).0 == Stage::Validate,
        forall|k: int|
            2 <= k <= outcomes.len() ==> #[trigger] run((Stage::Start, c), outcomes.take(k)).0
                == Stage::Failed,
        forall|k: int|
            0 <= k <= outcomes.len() ==> !does_outside_work(
                #[trigger] run((Stage::Start, c), outcomes.take(k)).0,
            ),
{
    let st = (Stage::Start, c);
    lemma_run_take(st, outcomes, 0);
    lemma_run_take(st, outcomes, 1);
    assert(outcomes.take(0) =~= Seq::<Outcome>::empty());
    let failed = run(st, outcomes.take(2));
    assert(failed.0 == Stage::Failed);
    assert forall|k: int| 2 <= k <= outcomes.len() implies #[trigger] run(
        st,
        outcomes.take(k),
    ).0 == Stage::Failed by {
        lemma_run_split(st, outcomes.take(k), 2);
        assert(outcomes.take(k).take(2) =~= outcomes.take(2));
        lemma_failed_stays(failed.1, outcomes.take(k).skip(2));
    }
    assert forall|k: int| 0 <= k <= outcomes.len() implies !does_outside_work(
        #[trigger] run(st, outcomes.take(k)).0,
    ) by {
        if k >= 2 {
            assert(run(st, outcomes.take(k)).0 == Stage::Failed);
        }
    }
}

/// A pre-operation command that fails stops the run for good: no link is
/// made, no runtime acquired, no later command run.
pub proof fn lemma_pre_op_failure_stops_run(
    i: usize,
    c: Config,
    outcomes: Seq<Outcome>,
)
    requires
        outcomes.len() >= 1,
        !(outcomes[0] is Succeeded),
    ensures
        forall|k: int|
            1 <= k <= outcomes.len() ==> #[trigger] run((Stage::PreOp(i), c), outcomes.take(k)).0
                == Stage::Failed,
{
    let st = (Stage::PreOp(i), c);
    lemma_run_take(st, outcomes, 0);
    assert(outcomes.take(0) =~= Seq::<Outcome>::empty());
    let failed = run(st, outcomes.take(1));
    assert forall|k: int| 1 <= k <= outcomes.len() implies #[trigger] run(
        st,
        outcomes.take(k),
    ).0 == Stage::Failed by {
        lemma_run_split(st, outcomes.take(k), 1);
        assert(outcomes.take(k).take(1) =~= outcomes.take(1));
        lemma_failed_stays(failed.1, outcomes.take(k).skip(1));
    }
}

} // verus!
