//! A job: where its inputs and outputs lie, and the steps between them.

use crate::bucket::Bucket;
use crate::config::{CloudServiceProvider, ConfigPath, PathKeyInConfig};
use crate::errors::JobRunnerError;
use crate::pretty_print::{status, status_label, Emphasis, Printer, StatusLine};
use crate::step_runner::StepRunner;
use crate::template::{render, substitute, PathTexts};
use vstd::prelude::*;
use vstd::string::*;

verus! {

/// One unit of work: download a remote tree, run the steps, upload a local
/// tree.
#[derive(Debug, PartialEq, Eq)]
pub struct Job {
    pub cloud_service_provider: CloudServiceProvider,
    pub bucket_name: String,
    pub path_to_remote_inputs: ConfigPath,
    pub path_to_local_inputs: ConfigPath,
    pub path_to_local_outputs: ConfigPath,
    pub path_to_remote_outputs: ConfigPath,
    pub steps: Vec<String>,
}

impl Job {
    /// The first of the four paths, in the order of the keys, that has no
    /// text.
    pub open spec fn first_path_without_text(&self) -> Option<PathKeyInConfig> {
        if self.path_to_remote_inputs@ is None {
            Some(PathKeyInConfig::RemoteInputs)
        } else if self.path_to_local_inputs@ is None {
            Some(PathKeyInConfig::LocalInputs)
        } else if self.path_to_local_outputs@ is None {
            Some(PathKeyInConfig::LocalOutputs)
        } else if self.path_to_remote_outputs@ is None {
            Some(PathKeyInConfig::RemoteOutputs)
        } else {
            None
        }
    }

    /// The texts of the four paths, where each has one.
    pub open spec fn path_texts(&self) -> PathTexts
        recommends
            self.first_path_without_text() is None,
    {
        PathTexts {
            remote_inputs: self.path_to_remote_inputs@.unwrap(),
            local_inputs: self.path_to_local_inputs@.unwrap(),
            local_outputs: self.path_to_local_outputs@.unwrap(),
            remote_outputs: self.path_to_remote_outputs@.unwrap(),
        }
    }

    /// The steps with the paths filled in, in the order of the job.
    pub open spec fn resolved_steps(&self) -> Seq<Seq<char>>
        recommends
            self.first_path_without_text() is None,
    {
        Seq::new(self.steps@.len(), |i: int| substitute(self.steps@[i]@, self.path_texts()))
    }

    /// The steps of the job with every placeholder exchanged for the text of
    /// its path. Fails on the first path, in the order of the keys, that has
    /// no text.
    pub fn get_steps(&self) -> (r: Result<Vec<String>, JobRunnerError>)
        ensures
            match r {
                Ok(steps) => self.first_path_without_text() is None && steps.deep_view()
                    == self.resolved_steps(),
                Err(e) => self.first_path_without_text() matches Some(key) && e
                    == JobRunnerError::InvalidPathError(key),
            },
    {
        let remote_inputs = match self.path_to_remote_inputs.text(PathKeyInConfig::RemoteInputs) {
            Ok(text) => text,
            Err(e) => return Err(e),
        };
        let local_inputs = match self.path_to_local_inputs.text(PathKeyInConfig::LocalInputs) {
            Ok(text) => text,
            Err(e) => return Err(e),
        };
        let local_outputs = match self.path_to_local_outputs.text(PathKeyInConfig::LocalOutputs) {
            Ok(text) => text,
            Err(e) => return Err(e),
        };
        let remote_outputs = match self.path_to_remote_outputs.text(
            PathKeyInConfig::RemoteOutputs,
        ) {
            Ok(text) => text,
            Err(e) => return Err(e),
        };
        let mut steps: Vec<String> = Vec::new();
        let mut i: usize = 0;
        while i < self.steps.len()
            invariant
                i <= self.steps@.len(),
                steps@.len() == i,
                self.first_path_without_text() is None,
                self.path_texts().remote_inputs == remote_inputs@,
                self.path_texts().local_inputs == local_inputs@,
                self.path_texts().local_outputs == local_outputs@,
                self.path_texts().remote_outputs == remote_outputs@,
                forall|j: int|
                    0 <= j < i ==> (#[trigger] steps@[j])@ == substitute(
                        self.steps@[j]@,
                        self.path_texts(),
                    ),
            decreases self.steps@.len() - i,
        {
            let step = render(
                self.steps[i].as_str(),
                remote_inputs,
                local_inputs,
                local_outputs,
                remote_outputs,
            );
            steps.push(step);
            i += 1;
        }
        Ok(steps)
    }
}

/// What a job asks of the world outside, one thing at a time.
#[derive(Debug, PartialEq, Eq)]
pub enum Operation {
    /// Bring the objects under `remote` down into `local`.
    Download { remote: ConfigPath, local: ConfigPath },
    /// Run the command line `command`.
    RunStep { command: String },
    /// Send the files under `local` up under `remote`.
    Upload { local: ConfigPath, remote: ConfigPath },
}

/// An operation, with its paths and its command as text.
pub enum OperationView {
    Download { remote: Option<Seq<char>>, local: Option<Seq<char>> },
    RunStep { command: Seq<char> },
    Upload { local: Option<Seq<char>>, remote: Option<Seq<char>> },
}

impl View for Operation {
    type V = OperationView;

    open spec fn view(&self) -> OperationView {
        match self {
            Operation::Download { remote, local } => OperationView::Download {
                remote: remote@,
                local: local@,
            },
            Operation::RunStep { command } => OperationView::RunStep { command: command@ },
            Operation::Upload { local, remote } => OperationView::Upload {
                local: local@,
                remote: remote@,
            },
        }
    }
}

/// How a transfer from `from` to `to` is announced.
pub open spec fn transfer_announcement(from: Seq<char>, to: Seq<char>) -> Seq<char> {
    "\""@ + from + "\" to \""@ + to + "\""@
}

impl OperationView {
    /// The label and the message that announce the operation. An operation
    /// on a path without text is not announced.
    pub open spec fn announcement(self) -> Option<(Seq<char>, Seq<char>)> {
        match self {
            OperationView::Download { remote: Some(remote), local: Some(local) } => Some(
                ("Downloading"@, transfer_announcement(remote, local)),
            ),
            OperationView::RunStep { command } => Some(("Running"@, "`"@ + command + "`"@)),
            OperationView::Upload { local: Some(local), remote: Some(remote) } => Some(
                ("Uploading"@, transfer_announcement(local, remote)),
            ),
            _ => None,
        }
    }
}

fn announce_transfer(label: &str, from: &ConfigPath, to: &ConfigPath) -> (line: Option<StatusLine>)
    ensures
        match line {
            Some(line) => {
                &&& from@ matches Some(from)
                &&& to@ matches Some(to)
                &&& line.emphasis == Emphasis::Progress
                &&& line.label@ == status_label(label@, true)
                &&& line.text@ == " "@ + transfer_announcement(from, to)
            },
            None => from@ is None || to@ is None,
        },
{
    match (from.to_str(), to.to_str()) {
        (Some(from), Some(to)) => {
            let mut msg = String::from_str("\"");
            msg.append(from);
            msg.append("\" to \"");
            msg.append(to);
            msg.append("\"");
            Some(status(label, msg.as_str(), true))
        },
        _ => None,
    }
}

impl Operation {
    /// The line of status that announces the operation.
    pub fn status(&self) -> (line: Option<StatusLine>)
        ensures
            match line {
                Some(line) => {
                    &&& self@.announcement() matches Some((label, msg))
                    &&& line.emphasis == Emphasis::Progress
                    &&& line.label@ == status_label(label, true)
                    &&& line.text@ == " "@ + msg
                },
                None => self@.announcement() is None,
            },
    {
        match self {
            Operation::Download { remote, local } => announce_transfer("Downloading", remote, local),
            Operation::RunStep { command } => {
                let mut msg = String::from_str("`");
                msg.append(command.as_str());
                msg.append("`");
                Some(status("Running", msg.as_str(), true))
            },
            Operation::Upload { local, remote } => announce_transfer("Uploading", local, remote),
        }
    }
}

/// Where the run of a job stands. A run goes from `Created` through
/// `Downloading`, `Running` for each step in turn and `Uploading` to `Done`;
/// from any of these it goes to `Failed` when something fails.
#[derive(Debug, Clone, Copy, PartialEq, Eq, Structural)]
pub enum Stage {
    Created,
    Downloading,
    /// The step at this position is running.
    Running(usize),
    Uploading,
    Done,
    Failed,
}

impl Stage {
    /// Whether an operation is under way.
    pub open spec fn in_flight(self) -> bool {
        self is Downloading || self is Running || self is Uploading
    }
}

/// What the one who drives a run does next.
#[derive(Debug, PartialEq, Eq)]
pub enum Directive {
    /// Carry out the operation and report how it ended.
    Perform(Operation),
    /// The run is over, with this result.
    Finish(Result<(), JobRunnerError>),
}

impl Job {
    /// Whether a run of the job can stand at `stage`. The templates are
    /// resolved when the download has ended, so past that every path has a
    /// text.
    pub open spec fn stage_valid(&self, stage: Stage) -> bool {
        match stage {
            Stage::Running(position) => {
                &&& self.first_path_without_text() is None
                &&& position < self.steps@.len()
            },
            Stage::Uploading | Stage::Done => self.first_path_without_text() is None,
            _ => true,
        }
    }

    /// The operation that is under way at `stage`.
    pub open spec fn operation_at(&self, stage: Stage) -> Option<OperationView> {
        match stage {
            Stage::Downloading => Some(
                OperationView::Download {
                    remote: self.path_to_remote_inputs@,
                    local: self.path_to_local_inputs@,
                },
            ),
            Stage::Running(position) => Some(
                OperationView::RunStep { command: self.resolved_steps()[position as int] },
            ),
            Stage::Uploading => Some(
                OperationView::Upload {
                    local: self.path_to_local_outputs@,
                    remote: self.path_to_remote_outputs@,
                },
            ),
            _ => None,
        }
    }

    /// The stage that follows `stage` when its operation has ended, well or
    /// not. A run that is over stays where it is.
    pub open spec fn stage_after(&self, stage: Stage, succeeded: bool) -> Stage {
        match stage {
            Stage::Created => Stage::Downloading,
            Stage::Downloading => if !succeeded || self.first_path_without_text() is Some {
                Stage::Failed
            } else if self.steps@.len() == 0 {
                Stage::Uploading
            } else {
                Stage::Running(0)
            },
            Stage::Running(position) => if !succeeded {
                Stage::Failed
            } else if position + 1 < self.steps@.len() {
                Stage::Running((position + 1) as usize)
            } else {
                Stage::Uploading
            },
            Stage::Uploading => if succeeded {
                Stage::Done
            } else {
                Stage::Failed
            },
            Stage::Done => Stage::Done,
            Stage::Failed => Stage::Failed,
        }
    }

    /// How many operations a run at `stage` can still ask for.
    pub open spec fn operations_left(&self, stage: Stage) -> nat {
        match stage {
            Stage::Created => self.steps@.len() + 3,
            Stage::Downloading => self.steps@.len() + 2,
            Stage::Running(position) => if position < self.steps@.len() {
                (self.steps@.len() - position + 1) as nat
            } else {
                1
            },
            Stage::Uploading => 1,
            Stage::Done => 0,
            Stage::Failed => 0,
        }
    }
}

/// One run of a job: the decisions between its operations. Whoever drives
/// the run carries out each operation and reports how it ended.
pub struct JobRun<'a> {
    job: &'a Job,
    stage: Stage,
    /// The resolved steps, from the end of the download on.
    steps: Vec<String>,
}

impl<'a> JobRun<'a> {
    #[verifier::type_invariant]
    spec fn wf(&self) -> bool {
        &&& self.job.stage_valid(self.stage)
        &&& self.stage is Running ==> {
            &&& self.steps@.len() == self.job.steps@.len()
            &&& self.steps.deep_view() == self.job.resolved_steps()
        }
    }

    /// The job that is run.
    pub closed spec fn job(&self) -> &Job {
        self.job
    }

    /// Where the run stands.
    pub closed spec fn stage(&self) -> Stage {
        self.stage
    }

    /// A run of `job` that has not begun.
    pub fn new(job: &'a Job) -> (run: Self)
        ensures
            run.job() == job,
            run.stage() == Stage::Created,
    {
        JobRun { job, stage: Stage::Created, steps: Vec::new() }
    }

    /// Where the run stands.
    pub fn current_stage(&self) -> (stage: Stage)
        ensures
            stage == self.stage(),
            self.job().stage_valid(stage),
    {
        proof {
            use_type_invariant(self);
        }
        self.stage
    }

    /// Begins the run: the first thing to do is the download.
    pub fn start(&mut self) -> (first: Operation)
        requires
            old(self).stage() == Stage::Created,
        ensures
            final(self).job() == old(self).job(),
            final(self).stage() == Stage::Downloading,
            old(self).job().operation_at(Stage::Downloading) == Some(first@),
    {
        self.stage = Stage::Downloading;
        Operation::Download {
            remote: self.job.path_to_remote_inputs.clone(),
            local: self.job.path_to_local_inputs.clone(),
        }
    }

    /// Takes in how the operation under way has ended, and says what to do
    /// next. A failure ends the run with that failure. After the download
    /// the steps are resolved, which fails the run where a path has no
    /// text.
    pub fn advance(&mut self, outcome: Result<(), JobRunnerError>) -> (directive: Directive)
        requires
            old(self).stage().in_flight(),
        ensures
            final(self).job() == old(self).job(),
            final(self).stage() == old(self).job().stage_after(old(self).stage(), outcome is Ok),
            old(self).job().stage_valid(final(self).stage()),
            match directive {
                Directive::Perform(operation) => old(self).job().operation_at(final(self).stage())
                    == Some(operation@),
                Directive::Finish(Ok(())) => final(self).stage() == Stage::Done,
                Directive::Finish(Err(e)) => {
                    &&& final(self).stage() == Stage::Failed
                    &&& match outcome {
                        Err(failure) => e == failure,
                        Ok(()) => {
                            &&& old(self).job().first_path_without_text() matches Some(key)
                            &&& e == JobRunnerError::InvalidPathError(key)
                        },
                    }
                },
            },
    {
        proof {
            use_type_invariant(&*self);
        }
        if let Err(failure) = outcome {
            self.stage = Stage::Failed;
            return Directive::Finish(Err(failure));
        }
        match self.stage {
            Stage::Downloading => {
                match self.job.get_steps() {
                    Err(e) => {
                        self.stage = Stage::Failed;
                        Directive::Finish(Err(e))
                    },
                    Ok(steps) => {
                        assert(steps.deep_view().len() == steps@.len());
                        self.steps = steps;
                        self.perform_from(0)
                    },
                }
            },
            Stage::Running(position) => {
                assert(position < self.steps.len());
                self.perform_from(position + 1)
            },
            _ => {
                self.stage = Stage::Done;
                Directive::Finish(Ok(()))
            },
        }
    }

    /// Goes on to the step at `position`, or to the upload when the steps
    /// are through.
    fn perform_from(&mut self, position: usize) -> (directive: Directive)
        requires
            old(self).job.first_path_without_text() is None,
            old(self).steps@.len() == old(self).job.steps@.len(),
            old(self).steps.deep_view() == old(self).job.resolved_steps(),
            position <= old(self).steps@.len(),
        ensures
            final(self).job == old(self).job,
            final(self).stage == if position < old(self).job.steps@.len() {
                Stage::Running(position)
            } else {
                Stage::Uploading
            },
            directive matches Directive::Perform(operation) && old(self).job.operation_at(
                final(self).stage,
            ) == Some(operation@),
    {
        if position < self.steps.len() {
            self.stage = Stage::Running(position);
            Directive::Perform(Operation::RunStep { command: self.steps[position].clone() })
        } else {
            self.stage = Stage::Uploading;
            Directive::Perform(
                Operation::Upload {
                    local: self.job.path_to_local_outputs.clone(),
                    remote: self.job.path_to_remote_outputs.clone(),
                },
            )
        }
    }
}

impl Job {
    /// Runs the job from start to finish: the download, each step in its
    /// order, the upload. Each operation is announced on `printer` before it
    /// begins. The first failure ends the run and is returned as it came;
    /// nothing that was done is undone.
    pub fn run<B: Bucket, S: StepRunner, P: Printer>(
        &self,
        bucket: &B,
        step_runner: &S,
        printer: &P,
    ) -> (r: Result<(), JobRunnerError>)
        ensures
            r is Ok ==> self.first_path_without_text() is None,
    {
        let mut run = JobRun::new(self);
        let mut directive = Directive::Perform(run.start());
        loop
            invariant
                run.job() == self,
                self.stage_valid(run.stage()),
                match directive {
                    Directive::Perform(operation) => self.operation_at(run.stage()) == Some(
                        operation@,
                    ),
                    Directive::Finish(Ok(())) => run.stage() == Stage::Done,
                    Directive::Finish(Err(_)) => true,
                },
            decreases self.operations_left(run.stage()),
        {
            assert(self.steps.len() == self.steps@.len());
            match directive {
                Directive::Finish(result) => {
                    return result;
                },
                Directive::Perform(operation) => {
                    if let Some(line) = operation.status() {
                        if let Err(e) = printer.print(&line) {
                            return Err(e);
                        }
                    }
                    let outcome = match &operation {
                        Operation::Download { remote, local } => bucket.download_inputs(
                            remote,
                            local,
                        ),
                        Operation::RunStep { command } => step_runner.run_step(command.as_str()),
                        Operation::Upload { local, remote } => bucket.upload_outputs(local, remote),
                    };
                    directive = run.advance(outcome);
                },
            }
        }
    }
}

impl Job {
    /// Where a run stands after `moves` moves in which nothing failed.
    pub open spec fn stage_after_successes(&self, moves: nat) -> Stage
        decreases moves,
    {
        if moves == 0 {
            Stage::Created
        } else {
            self.stage_after(self.stage_after_successes((moves - 1) as nat), true)
        }
    }

    /// A run in which nothing fails goes through the download, each step in
    /// the order of the job and the upload, and is done then.
    pub proof fn lemma_clean_run(&self, moves: nat)
        requires
            self.first_path_without_text() is None,
        ensures
            self.stage_after_successes(moves) == if moves == 0 {
                Stage::Created
            } else if moves == 1 {
                Stage::Downloading
            } else if moves < self.steps@.len() + 2 {
                Stage::Running((moves - 2) as usize)
            } else if moves == self.steps@.len() + 2 {
                Stage::Uploading
            } else {
                Stage::Done
            },
        decreases moves,
    {
        assert(self.steps.len() == self.steps@.len());
        if moves > 0 {
            self.lemma_clean_run((moves - 1) as nat);
        }
    }

    /// In a run in which nothing fails, the steps are run in the order in
    /// which the job lists them, each with the paths filled in: the step at
    /// `position` is the operation of the move that follows the download and
    /// the steps in front of it.
    pub proof fn lemma_steps_run_in_order(&self, position: nat)
        requires
            self.first_path_without_text() is None,
            position < self.steps@.len(),
        ensures
            self.operation_at(self.stage_after_successes(position + 2)) == Some(
                OperationView::RunStep { command: self.resolved_steps()[position as int] },
            ),
    {
        self.lemma_clean_run(position + 2);
        assert(self.steps.len() == self.steps@.len());
    }

    /// A failure ends the run where it stands: no operation follows it, and
    /// the run stays failed.
    pub proof fn lemma_failure_ends_run(&self, stage: Stage, succeeded: bool)
        requires
            stage.in_flight(),
        ensures
            self.stage_after(stage, false) == Stage::Failed,
            self.operation_at(Stage::Failed) is None,
            self.stage_after(Stage::Failed, succeeded) == Stage::Failed,
    {
    }
}

} // verus!
