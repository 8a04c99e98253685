use cloud_storage_job_runner::bucket::gcp::is_valid_json;
use cloud_storage_job_runner::bucket::mapping::{download_destination, is_object_a_directory};
use cloud_storage_job_runner::template::render;
use cloud_storage_job_runner::text::{
    last_field, same_text, split_words, white_space, with_prefix_replaced,
};
use cloud_storage_job_runner::{ConfigPath, JobRunnerError};

/// Every text of at most `len` characters over `alphabet`.
fn texts(alphabet: &[char], len: usize) -> Vec<String> {
    let mut all = vec![String::new()];
    let mut last = vec![String::new()];
    for _ in 0..len {
        let mut next = Vec::new();
        for text in &last {
            for c in alphabet {
                let mut longer = text.clone();
                longer.push(*c);
                next.push(longer);
            }
        }
        all.extend(next.iter().cloned());
        last = next;
    }
    all
}

#[test]
fn white_space_is_what_the_standard_library_takes_for_it() {
    for code in 0..=0x10FFFFu32 {
        if let Some(c) = char::from_u32(code) {
            assert_eq!(white_space(c), c.is_whitespace(), "{:?}", c);
        }
    }
}

#[test]
fn words_agree_with_the_standard_library() {
    for text in texts(&['a', ' ', '\t', 'é', '\u{2003}'], 6) {
        let expected: Vec<String> = text.split_whitespace().map(|f| f.to_string()).collect();
        assert_eq!(split_words(&text), expected, "{:?}", text);
    }
}

#[test]
fn the_last_field_agrees_with_the_standard_library() {
    for text in texts(&['a', '/', 'é'], 6) {
        assert_eq!(last_field(&text, '/'), text.rsplit('/').next().unwrap(), "{:?}", text);
    }
}

#[test]
fn directory_markers_agree_with_the_standard_library() {
    for text in texts(&['a', '/', 'é'], 6) {
        assert_eq!(is_object_a_directory(&text), text.ends_with('/'), "{:?}", text);
    }
}

#[test]
fn the_test_for_json_agrees_with_the_standard_library() {
    for text in texts(&['{', '}', 'a', 'é'], 5) {
        let expected = text.starts_with('{') && text.ends_with('}') && text.is_ascii();
        assert_eq!(is_valid_json(&text), expected, "{:?}", text);
    }
}

#[test]
fn texts_are_the_same_when_they_are_equal() {
    let all = texts(&['a', 'é'], 3);
    for left in &all {
        for right in &all {
            assert_eq!(same_text(left, right), left == right, "{:?} {:?}", left, right);
        }
    }
}

#[test]
fn a_prefix_is_exchanged_where_the_text_begins_with_it() {
    let all = texts(&['a', '/'], 4);
    for text in &all {
        for from in &all {
            let expected = match text.strip_prefix(from.as_str()) {
                Some(rest) => format!("→{}", rest),
                None => text.clone(),
            };
            assert_eq!(with_prefix_replaced(text, from, "→"), expected, "{:?} {:?}", text, from);
        }
    }
}

#[test]
fn an_object_comes_down_where_its_key_says() {
    let all = texts(&['a', '/'], 4);
    for key in &all {
        for prefix in &all {
            let destination =
                download_destination(key, &ConfigPath::new(prefix), &ConfigPath::new("in"));
            let expected = if prefix.is_empty() {
                format!("in/{}", key.rsplit('/').next().unwrap())
            } else {
                match key.strip_prefix(prefix.as_str()) {
                    Some(rest) => format!("in{}", rest),
                    None => key.clone(),
                }
            };
            assert_eq!(destination, Ok::<String, JobRunnerError>(expected), "{:?} {:?}", key, prefix);
        }
    }
}

#[test]
fn filling_in_agrees_with_exchanging_each_placeholder() {
    let pieces = [
        "[path_to_remote_inputs]",
        "[path_to_local_inputs]",
        "[path_to_local_outputs]",
        "[path_to_remote_outputs]",
        "[path_to_",
        "inputs]",
        "[",
        "]",
        " é ",
    ];
    // Every template of at most four pieces.
    let mut templates = vec![String::new()];
    let mut last = vec![String::new()];
    for _ in 0..4 {
        let mut next = Vec::new();
        for template in &last {
            for piece in pieces {
                next.push(format!("{}{}", template, piece));
            }
        }
        templates.extend(next.iter().cloned());
        last = next;
    }
    // The texts hold no bracket, so exchanging one placeholder after the
    // other finds what one pass finds.
    for template in templates {
        let expected = template
            .replace("[path_to_remote_inputs]", "data")
            .replace("[path_to_local_inputs]", "/tmp/in")
            .replace("[path_to_local_outputs]", "/tmp/out")
            .replace("[path_to_remote_outputs]", "");
        assert_eq!(render(&template, "data", "/tmp/in", "/tmp/out", ""), expected, "{:?}", template);
    }
}

#[test]
fn codes_read_as_the_standard_library_writes_them() {
    let mut codes: Vec<i32> = (-1100..=1100).collect();
    codes.extend([i32::MIN, i32::MIN + 1, -1_000_000_007, 999_999_999, 1_000_000_000, i32::MAX]);
    for code in codes {
        let e = JobRunnerError::StepNonZeroStatusCodeError { step: "s".to_string(), code: Some(code) };
        assert_eq!(e.message(), format!("\"s\" exited with a non-zero status code: {}", code));
    }
}
