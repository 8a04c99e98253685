use cloud_storage_job_runner::template::render;
use cloud_storage_job_runner::{
    CloudServiceProvider, ConfigPath, Job, JobRunnerError, PathKeyInConfig,
};

fn job(steps: Vec<&str>) -> Job {
    Job {
        cloud_service_provider: CloudServiceProvider::GCP,
        bucket_name: "bucket".to_string(),
        path_to_remote_inputs: ConfigPath::new("data"),
        path_to_local_inputs: ConfigPath::new("/tmp/in"),
        path_to_local_outputs: ConfigPath::new("/tmp/out"),
        path_to_remote_outputs: ConfigPath::new("results"),
        steps: steps.into_iter().map(|s| s.to_string()).collect(),
    }
}

#[test]
fn each_placeholder_is_exchanged_for_its_path() {
    let job = job(vec![
        "fetch [path_to_remote_inputs]",
        "cp -r [path_to_local_inputs] [path_to_local_outputs]",
        "push [path_to_remote_outputs]",
    ]);
    assert_eq!(
        job.get_steps(),
        Ok(vec![
            "fetch data".to_string(),
            "cp -r /tmp/in /tmp/out".to_string(),
            "push results".to_string(),
        ])
    );
}

#[test]
fn a_placeholder_that_stands_twice_is_exchanged_twice() {
    let job = job(vec!["diff [path_to_local_inputs]/a [path_to_local_inputs]/b"]);
    assert_eq!(job.get_steps(), Ok(vec!["diff /tmp/in/a /tmp/in/b".to_string()]));
}

#[test]
fn a_step_without_placeholders_is_kept() {
    let job = job(vec!["echo hello", "", "ls [path_to_inputs] [local_inputs]"]);
    assert_eq!(
        job.get_steps(),
        Ok(vec![
            "echo hello".to_string(),
            "".to_string(),
            "ls [path_to_inputs] [local_inputs]".to_string(),
        ])
    );
}

#[test]
fn a_job_without_steps_has_none() {
    assert_eq!(job(vec![]).get_steps(), Ok(Vec::<String>::new()));
}

#[test]
fn placeholders_are_matched_to_the_letter() {
    assert_eq!(
        render("[[path_to_local_inputs]] [Path_to_local_inputs] [path_to_local_inputs", "R", "L", "O", "P"),
        "[L] [Path_to_local_inputs] [path_to_local_inputs"
    );
    assert_eq!(
        render("[path_to_local_inputs][path_to_local_outputs][path_to_remote_inputs][path_to_remote_outputs]", "R", "L", "O", "P"),
        "LORP"
    );
}

#[test]
fn what_a_path_holds_is_not_filled_in_again() {
    assert_eq!(
        render(
            "see [path_to_remote_inputs] and [path_to_local_inputs]",
            "[path_to_local_inputs]",
            "here",
            "O",
            "P"
        ),
        "see [path_to_local_inputs] and here"
    );
}

#[test]
fn wide_characters_pass_through_a_template() {
    assert_eq!(
        render("écho «[path_to_local_outputs]» ✓", "R", "L", "/tmp/été", "P"),
        "écho «/tmp/été» ✓"
    );
}

#[test]
fn the_first_path_without_text_fails_the_steps() {
    let mut broken = job(vec!["echo"]);
    broken.path_to_remote_outputs = ConfigPath::without_text();
    assert_eq!(
        broken.get_steps(),
        Err(JobRunnerError::InvalidPathError(PathKeyInConfig::RemoteOutputs))
    );
    broken.path_to_local_outputs = ConfigPath::without_text();
    assert_eq!(
        broken.get_steps(),
        Err(JobRunnerError::InvalidPathError(PathKeyInConfig::LocalOutputs))
    );
    broken.path_to_local_inputs = ConfigPath::without_text();
    assert_eq!(
        broken.get_steps(),
        Err(JobRunnerError::InvalidPathError(PathKeyInConfig::LocalInputs))
    );
    broken.path_to_remote_inputs = ConfigPath::without_text();
    assert_eq!(
        broken.get_steps(),
        Err(JobRunnerError::InvalidPathError(PathKeyInConfig::RemoteInputs))
    );
}

#[test]
fn a_path_without_text_fails_a_job_without_steps_too() {
    let mut broken = job(vec![]);
    broken.path_to_local_inputs = ConfigPath::without_text();
    assert_eq!(
        broken.get_steps(),
        Err(JobRunnerError::InvalidPathError(PathKeyInConfig::LocalInputs))
    );
}

#[test]
fn a_path_gives_its_text() {
    assert_eq!(ConfigPath::new("a/b").to_str(), Some("a/b"));
    assert_eq!(ConfigPath::without_text().to_str(), None);
    assert_eq!(ConfigPath::new("a/b").clone(), ConfigPath::new("a/b"));
}
