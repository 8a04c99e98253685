use cloud_storage_job_runner::job::{Directive, JobRun, Operation, Stage};
use cloud_storage_job_runner::pretty_print::{Emphasis, StatusLine};
use cloud_storage_job_runner::{
    Cause, CloudServiceProvider, ConfigPath, Job, JobRunnerError, PathKeyInConfig,
};

fn job(steps: Vec<&str>) -> Job {
    Job {
        cloud_service_provider: CloudServiceProvider::GCP,
        bucket_name: "bucket".to_string(),
        path_to_remote_inputs: ConfigPath::new("data"),
        path_to_local_inputs: ConfigPath::new("/tmp/in"),
        path_to_local_outputs: ConfigPath::new("/tmp/out"),
        path_to_remote_outputs: ConfigPath::new("results"),
        steps: steps.into_iter().map(|s| s.to_string()).collect(),
    }
}

fn download() -> Operation {
    Operation::Download { remote: ConfigPath::new("data"), local: ConfigPath::new("/tmp/in") }
}

fn upload() -> Operation {
    Operation::Upload { local: ConfigPath::new("/tmp/out"), remote: ConfigPath::new("results") }
}

fn run_step(command: &str) -> Operation {
    Operation::RunStep { command: command.to_string() }
}

fn failure() -> JobRunnerError {
    JobRunnerError::DownloadFromBucketError { source: Cause::new("unreachable") }
}

#[test]
fn a_run_goes_through_download_steps_and_upload() {
    let job = job(vec!["ls [path_to_local_inputs]", "touch [path_to_local_outputs]/done"]);
    let mut run = JobRun::new(&job);
    assert_eq!(run.current_stage(), Stage::Created);

    assert_eq!(run.start(), download());
    assert_eq!(run.current_stage(), Stage::Downloading);

    assert_eq!(run.advance(Ok(())), Directive::Perform(run_step("ls /tmp/in")));
    assert_eq!(run.current_stage(), Stage::Running(0));

    assert_eq!(run.advance(Ok(())), Directive::Perform(run_step("touch /tmp/out/done")));
    assert_eq!(run.current_stage(), Stage::Running(1));

    assert_eq!(run.advance(Ok(())), Directive::Perform(upload()));
    assert_eq!(run.current_stage(), Stage::Uploading);

    assert_eq!(run.advance(Ok(())), Directive::Finish(Ok(())));
    assert_eq!(run.current_stage(), Stage::Done);
}

#[test]
fn a_job_without_steps_goes_from_download_to_upload() {
    let job = job(vec![]);
    let mut run = JobRun::new(&job);
    assert_eq!(run.start(), download());
    assert_eq!(run.advance(Ok(())), Directive::Perform(upload()));
    assert_eq!(run.advance(Ok(())), Directive::Finish(Ok(())));
}

#[test]
fn a_failed_download_ends_the_run() {
    let job = job(vec!["ls"]);
    let mut run = JobRun::new(&job);
    run.start();
    assert_eq!(run.advance(Err(failure())), Directive::Finish(Err(failure())));
    assert_eq!(run.current_stage(), Stage::Failed);
}

#[test]
fn a_failed_step_ends_the_run_with_its_error() {
    let job = job(vec!["first", "second", "third"]);
    let mut run = JobRun::new(&job);
    run.start();
    assert_eq!(run.advance(Ok(())), Directive::Perform(run_step("first")));
    assert_eq!(run.advance(Ok(())), Directive::Perform(run_step("second")));
    let bad_exit =
        || JobRunnerError::StepNonZeroStatusCodeError { step: "second".to_string(), code: Some(2) };
    assert_eq!(run.advance(Err(bad_exit())), Directive::Finish(Err(bad_exit())));
    assert_eq!(run.current_stage(), Stage::Failed);
}

#[test]
fn a_failed_upload_ends_the_run() {
    let job = job(vec![]);
    let mut run = JobRun::new(&job);
    run.start();
    run.advance(Ok(()));
    let lost = || JobRunnerError::UploadToBucketError { source: Cause::new("lost") };
    assert_eq!(run.advance(Err(lost())), Directive::Finish(Err(lost())));
    assert_eq!(run.current_stage(), Stage::Failed);
}

#[test]
fn a_path_without_text_fails_the_run_after_the_download() {
    let mut job = job(vec!["ls"]);
    job.path_to_local_outputs = ConfigPath::without_text();
    let mut run = JobRun::new(&job);
    assert_eq!(run.start(), download());
    assert_eq!(
        run.advance(Ok(())),
        Directive::Finish(Err(JobRunnerError::InvalidPathError(PathKeyInConfig::LocalOutputs)))
    );
    assert_eq!(run.current_stage(), Stage::Failed);
}

#[test]
fn each_operation_is_announced() {
    let line = |label: &str, text: &str| {
        Some(StatusLine {
            emphasis: Emphasis::Progress,
            label: label.to_string(),
            text: text.to_string(),
        })
    };
    assert_eq!(download().status(), line("    Downloading", " \"data\" to \"/tmp/in\""));
    assert_eq!(run_step("cp -r a b").status(), line("    Running", " `cp -r a b`"));
    assert_eq!(upload().status(), line("    Uploading", " \"/tmp/out\" to \"results\""));
}

#[test]
fn an_operation_on_a_path_without_text_is_not_announced() {
    let download =
        Operation::Download { remote: ConfigPath::without_text(), local: ConfigPath::new("in") };
    assert_eq!(download.status(), None);
    let upload =
        Operation::Upload { local: ConfigPath::new("out"), remote: ConfigPath::without_text() };
    assert_eq!(upload.status(), None);
}
