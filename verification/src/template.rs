//! Step templates: command lines in which placeholders stand for the four
//! paths of a job.

use crate::config::PathKeyInConfig;
use crate::text::{chars_of, matches_at, occurs_at};
use vstd::prelude::*;
use vstd::string::*;

verus! {

/// The texts of a job's four paths, by key.
pub struct PathTexts {
    pub remote_inputs: Seq<char>,
    pub local_inputs: Seq<char>,
    pub local_outputs: Seq<char>,
    pub remote_outputs: Seq<char>,
}

impl PathTexts {
    /// The text of the path under `key`.
    pub open spec fn of(self, key: PathKeyInConfig) -> Seq<char> {
        match key {
            PathKeyInConfig::RemoteInputs => self.remote_inputs,
            PathKeyInConfig::LocalInputs => self.local_inputs,
            PathKeyInConfig::LocalOutputs => self.local_outputs,
            PathKeyInConfig::RemoteOutputs => self.remote_outputs,
        }
    }
}

/// The placeholder that stands for the path under `key`.
pub open spec fn placeholder(key: PathKeyInConfig) -> Seq<char> {
    match key {
        PathKeyInConfig::RemoteInputs => "[path_to_remote_inputs]"@,
        PathKeyInConfig::LocalInputs => "[path_to_local_inputs]"@,
        PathKeyInConfig::LocalOutputs => "[path_to_local_outputs]"@,
        PathKeyInConfig::RemoteOutputs => "[path_to_remote_outputs]"@,
    }
}

/// The key whose placeholder stands in `template` at `at`, if one does.
pub open spec fn placeholder_at(template: Seq<char>, at: int) -> Option<PathKeyInConfig> {
    if occurs_at(template, at, placeholder(PathKeyInConfig::RemoteInputs)) {
        Some(PathKeyInConfig::RemoteInputs)
    } else if occurs_at(template, at, placeholder(PathKeyInConfig::LocalInputs)) {
        Some(PathKeyInConfig::LocalInputs)
    } else if occurs_at(template, at, placeholder(PathKeyInConfig::LocalOutputs)) {
        Some(PathKeyInConfig::LocalOutputs)
    } else if occurs_at(template, at, placeholder(PathKeyInConfig::RemoteOutputs)) {
        Some(PathKeyInConfig::RemoteOutputs)
    } else {
        None
    }
}

/// `template` with every placeholder exchanged for the text of its path, in
/// one pass from left to right. What a path's text holds is not looked at
/// again.
pub open spec fn substitute(template: Seq<char>, paths: PathTexts) -> Seq<char>
    decreases template.len(),
{
    if template.len() == 0 {
        Seq::<char>::empty()
    } else {
        match placeholder_at(template, 0) {
            Some(key) => {
                proof {
                    lemma_placeholder_lengths();
                }
                paths.of(key) + substitute(template.skip(placeholder(key).len() as int), paths)
            },
            None => seq![template[0]] + substitute(template.skip(1), paths),
        }
    }
}

/// How long each placeholder is.
pub proof fn lemma_placeholder_lengths()
    ensures
        placeholder(PathKeyInConfig::RemoteInputs).len() == 23,
        placeholder(PathKeyInConfig::LocalInputs).len() == 22,
        placeholder(PathKeyInConfig::LocalOutputs).len() == 23,
        placeholder(PathKeyInConfig::RemoteOutputs).len() == 24,
{
    reveal_strlit("[path_to_remote_inputs]");
    reveal_strlit("[path_to_local_inputs]");
    reveal_strlit("[path_to_local_outputs]");
    reveal_strlit("[path_to_remote_outputs]");
}

/// Looking for `pattern` at `at` behind the first `from` characters is looking
/// for it at `from + at`.
pub proof fn lemma_occurs_at_skip(text: Seq<char>, from: int, at: int, pattern: Seq<char>)
    requires
        0 <= from <= text.len(),
        0 <= at,
    ensures
        occurs_at(text.skip(from), at, pattern) == occurs_at(text, from + at, pattern),
{
    if at + pattern.len() <= text.len() - from {
        assert(text.skip(from).subrange(at, at + pattern.len()) =~= text.subrange(
            from + at,
            from + at + pattern.len(),
        ));
    }
}

/// The placeholder found at `at` behind the first `from` characters is the
/// one found at `from + at`.
pub proof fn lemma_placeholder_at_skip(template: Seq<char>, from: int, at: int)
    requires
        0 <= from <= template.len(),
        0 <= at,
    ensures
        placeholder_at(template.skip(from), at) == placeholder_at(template, from + at),
{
    lemma_occurs_at_skip(template, from, at, placeholder(PathKeyInConfig::RemoteInputs));
    lemma_occurs_at_skip(template, from, at, placeholder(PathKeyInConfig::LocalInputs));
    lemma_occurs_at_skip(template, from, at, placeholder(PathKeyInConfig::LocalOutputs));
    lemma_occurs_at_skip(template, from, at, placeholder(PathKeyInConfig::RemoteOutputs));
}

/// The four placeholders as characters, made once for a whole template.
struct Placeholders {
    remote_inputs: Vec<char>,
    local_inputs: Vec<char>,
    local_outputs: Vec<char>,
    remote_outputs: Vec<char>,
}

impl Placeholders {
    spec fn wf(&self) -> bool {
        &&& self.remote_inputs@ == placeholder(PathKeyInConfig::RemoteInputs)
        &&& self.local_inputs@ == placeholder(PathKeyInConfig::LocalInputs)
        &&& self.local_outputs@ == placeholder(PathKeyInConfig::LocalOutputs)
        &&& self.remote_outputs@ == placeholder(PathKeyInConfig::RemoteOutputs)
    }

    fn new() -> (placeholders: Placeholders)
        ensures
            placeholders.wf(),
    {
        Placeholders {
            remote_inputs: chars_of("[path_to_remote_inputs]"),
            local_inputs: chars_of("[path_to_local_inputs]"),
            local_outputs: chars_of("[path_to_local_outputs]"),
            remote_outputs: chars_of("[path_to_remote_outputs]"),
        }
    }

    fn key_at(&self, template: &Vec<char>, at: usize) -> (found: Option<PathKeyInConfig>)
        requires
            self.wf(),
            at <= template.len(),
        ensures
            found == placeholder_at(template@, at as int),
    {
        if matches_at(template, at, &self.remote_inputs) {
            Some(PathKeyInConfig::RemoteInputs)
        } else if matches_at(template, at, &self.local_inputs) {
            Some(PathKeyInConfig::LocalInputs)
        } else if matches_at(template, at, &self.local_outputs) {
            Some(PathKeyInConfig::LocalOutputs)
        } else if matches_at(template, at, &self.remote_outputs) {
            Some(PathKeyInConfig::RemoteOutputs)
        } else {
            None
        }
    }

    fn len_of(&self, key: PathKeyInConfig) -> (len: usize)
        requires
            self.wf(),
        ensures
            len == placeholder(key).len(),
    {
        match key {
            PathKeyInConfig::RemoteInputs => self.remote_inputs.len(),
            PathKeyInConfig::LocalInputs => self.local_inputs.len(),
            PathKeyInConfig::LocalOutputs => self.local_outputs.len(),
            PathKeyInConfig::RemoteOutputs => self.remote_outputs.len(),
        }
    }
}

/// Fills the four paths into `template`.
pub fn render(
    template: &str,
    remote_inputs: &str,
    local_inputs: &str,
    local_outputs: &str,
    remote_outputs: &str,
) -> (out: String)
    ensures
        out@ == substitute(
            template@,
            PathTexts {
                remote_inputs: remote_inputs@,
                local_inputs: local_inputs@,
                local_outputs: local_outputs@,
                remote_outputs: remote_outputs@,
            },
        ),
{
    let ghost paths = PathTexts {
        remote_inputs: remote_inputs@,
        local_inputs: local_inputs@,
        local_outputs: local_outputs@,
        remote_outputs: remote_outputs@,
    };
    let placeholders = Placeholders::new();
    let chars = chars_of(template);
    let n: usize = chars.len();
    let mut out = String::new();
    // template[start..at] is plain text that `out` does not hold yet.
    let mut start: usize = 0;
    let mut at: usize = 0;
    assert(template@.skip(0) =~= template@);
    while at < n
        invariant
            start <= at <= n,
            n == chars@.len(),
            chars@ == template@,
            placeholders.wf(),
            paths.remote_inputs == remote_inputs@,
            paths.local_inputs == local_inputs@,
            paths.local_outputs == local_outputs@,
            paths.remote_outputs == remote_outputs@,
            substitute(template@, paths) == out@ + template@.subrange(start as int, at as int)
                + substitute(template@.skip(at as int), paths),
        decreases n - at,
    {
        let ghost rest = template@.skip(at as int);
        proof {
            lemma_placeholder_at_skip(template@, at as int, 0);
            lemma_placeholder_lengths();
        }
        match placeholders.key_at(&chars, at) {
            Some(key) => {
                let len = placeholders.len_of(key);
                out.append(template.substring_char(start, at));
                out.append(
                    match key {
                        PathKeyInConfig::RemoteInputs => remote_inputs,
                        PathKeyInConfig::LocalInputs => local_inputs,
                        PathKeyInConfig::LocalOutputs => local_outputs,
                        PathKeyInConfig::RemoteOutputs => remote_outputs,
                    },
                );
                proof {
                    assert(rest.skip(len as int) =~= template@.skip(at + len));
                    assert(template@.subrange(at + len, at + len) =~= Seq::<char>::empty());
                }
                at = at + len;
                start = at;
            },
            None => {
                proof {
                    assert(rest.skip(1) =~= template@.skip(at + 1));
                    assert(template@.subrange(start as int, at + 1) =~= template@.subrange(
                        start as int,
                        at as int,
                    ) + seq![template@[at as int]]);
                }
                at = at + 1;
            },
        }
    }
    out.append(template.substring_char(start, n));
    assert(template@.skip(n as int) =~= Seq::<char>::empty());
    out
}

/// A pattern that stands at `at` gives each of its characters to the text.
proof fn lemma_occurs_at_char(text: Seq<char>, at: int, pattern: Seq<char>, k: int)
    requires
        occurs_at(text, at, pattern),
        0 <= k < pattern.len(),
    ensures
        text[at + k] == pattern[k],
{
}

/// A placeholder opens with a bracket and holds no other opening bracket.
proof fn lemma_placeholder_shape(key: PathKeyInConfig)
    ensures
        placeholder(key).len() >= 22,
        placeholder(key)[0] == '[',
        forall|k: int| 1 <= k < placeholder(key).len() ==> placeholder(key)[k] != '[',
{
    reveal_strlit("[path_to_remote_inputs]");
    reveal_strlit("[path_to_local_inputs]");
    reveal_strlit("[path_to_local_outputs]");
    reveal_strlit("[path_to_remote_outputs]");
    assert forall|k: int| 1 <= k < placeholder(key).len() implies placeholder(key)[k] != '[' by {
        assert(k == 1 || k == 2 || k == 3 || k == 4 || k == 5 || k == 6 || k == 7 || k == 8 || k
            == 9 || k == 10 || k == 11 || k == 12 || k == 13 || k == 14 || k == 15 || k == 16 || k
            == 17 || k == 18 || k == 19 || k == 20 || k == 21 || k == 22 || k == 23);
    }
}

/// No two placeholders stand at the same place.
pub proof fn lemma_placeholders_apart(text: Seq<char>, at: int, key: PathKeyInConfig)
    requires
        occurs_at(text, at, placeholder(key)),
    ensures
        placeholder_at(text, at) == Some(key),
{
    reveal_strlit("[path_to_remote_inputs]");
    reveal_strlit("[path_to_local_inputs]");
    reveal_strlit("[path_to_local_outputs]");
    reveal_strlit("[path_to_remote_outputs]");
    let remote_inputs = placeholder(PathKeyInConfig::RemoteInputs);
    let local_inputs = placeholder(PathKeyInConfig::LocalInputs);
    let local_outputs = placeholder(PathKeyInConfig::LocalOutputs);
    let remote_outputs = placeholder(PathKeyInConfig::RemoteOutputs);
    // "remote" and "local" part at the tenth character, "inputs" and
    // "outputs" behind them.
    if occurs_at(text, at, remote_inputs) {
        lemma_occurs_at_char(text, at, remote_inputs, 9);
        lemma_occurs_at_char(text, at, remote_inputs, 16);
    }
    if occurs_at(text, at, local_inputs) {
        lemma_occurs_at_char(text, at, local_inputs, 9);
        lemma_occurs_at_char(text, at, local_inputs, 15);
    }
    if occurs_at(text, at, local_outputs) {
        lemma_occurs_at_char(text, at, local_outputs, 9);
        lemma_occurs_at_char(text, at, local_outputs, 15);
    }
    if occurs_at(text, at, remote_outputs) {
        lemma_occurs_at_char(text, at, remote_outputs, 9);
        lemma_occurs_at_char(text, at, remote_outputs, 16);
    }
}

/// In front of a placeholder, a text holds the placeholders that it holds
/// alone: none reaches into what follows.
proof fn lemma_placeholder_at_front(
    before: Seq<char>,
    key: PathKeyInConfig,
    after: Seq<char>,
)
    requires
        before.len() > 0,
    ensures
        placeholder_at(before + placeholder(key) + after, 0) == placeholder_at(before, 0),
{
    let whole = before + placeholder(key) + after;
    lemma_placeholder_shape(key);
    assert forall|other: PathKeyInConfig|
        occurs_at(whole, 0, placeholder(other)) == occurs_at(
            before,
            0,
            placeholder(other),
        ) by {
        let pattern = placeholder(other);
        lemma_placeholder_shape(other);
        if pattern.len() <= before.len() {
            assert(whole.subrange(0, pattern.len() as int) =~= before.subrange(
                0,
                pattern.len() as int,
            ));
        } else if occurs_at(whole, 0, pattern) {
            lemma_occurs_at_char(whole, 0, pattern, before.len() as int);
        }
    }
}

/// A placeholder is exchanged wherever it stands: what is in front of it and
/// what is behind it are filled in each by itself.
pub proof fn lemma_substitute_around(
    before: Seq<char>,
    key: PathKeyInConfig,
    after: Seq<char>,
    paths: PathTexts,
)
    ensures
        substitute(before + placeholder(key) + after, paths) == substitute(before, paths)
            + paths.of(key) + substitute(after, paths),
    decreases before.len(),
{
    let whole = before + placeholder(key) + after;
    lemma_placeholder_lengths();
    if before.len() == 0 {
        assert(whole.subrange(0, placeholder(key).len() as int) =~= placeholder(key));
        lemma_placeholders_apart(whole, 0, key);
        assert(whole.skip(placeholder(key).len() as int) =~= after);
    } else {
        lemma_placeholder_at_front(before, key, after);
        match placeholder_at(before, 0) {
            Some(found) => {
                let len = placeholder(found).len() as int;
                lemma_substitute_around(before.skip(len), key, after, paths);
                assert(whole.skip(len) =~= before.skip(len) + placeholder(key) + after);
                assert(substitute(whole, paths) =~= substitute(before, paths) + paths.of(key)
                    + substitute(after, paths));
            },
            None => {
                lemma_substitute_around(before.skip(1), key, after, paths);
                assert(whole.skip(1) =~= before.skip(1) + placeholder(key) + after);
            },
        }
    }
}

/// Whether no placeholder stands anywhere in `template`.
pub open spec fn holds_no_placeholder(template: Seq<char>) -> bool {
    forall|at: int| 0 <= at < template.len() ==> placeholder_at(template, at) is None
}

/// A template without placeholders comes back as it is.
pub proof fn lemma_substitute_plain(template: Seq<char>, paths: PathTexts)
    requires
        holds_no_placeholder(template),
    ensures
        substitute(template, paths) == template,
    decreases template.len(),
{
    if template.len() > 0 {
        assert forall|at: int| 0 <= at < template.skip(1).len() implies placeholder_at(
            template.skip(1),
            at,
        ) is None by {
            lemma_placeholder_at_skip(template, 1, at);
        }
        lemma_substitute_plain(template.skip(1), paths);
    }
}

/// A placeholder that stands twice in a template is exchanged both times,
/// for the same text.
pub proof fn lemma_substitute_twice(
    first: Seq<char>,
    second: Seq<char>,
    third: Seq<char>,
    key: PathKeyInConfig,
    paths: PathTexts,
)
    requires
        holds_no_placeholder(first),
        holds_no_placeholder(second),
        holds_no_placeholder(third),
    ensures
        substitute(first + placeholder(key) + second + placeholder(key) + third, paths) == first
            + paths.of(key) + second + paths.of(key) + third,
{
    let tail = second + placeholder(key) + third;
    lemma_substitute_around(first, key, tail, paths);
    lemma_substitute_around(second, key, third, paths);
    lemma_substitute_plain(first, paths);
    lemma_substitute_plain(second, paths);
    lemma_substitute_plain(third, paths);
    assert(first + placeholder(key) + second + placeholder(key) + third =~= first + placeholder(
        key,
    ) + tail);
}

} // verus!
