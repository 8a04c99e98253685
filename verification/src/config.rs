//! What a configuration holds: jobs by name, and the paths and steps of each.

use crate::errors::JobRunnerError;
use crate::job::Job;
use crate::text::same_text;
use vstd::prelude::*;
use vstd::string::*;

verus! {

/// The keys of a job's configuration whose values are paths.
#[derive(Debug, Clone, Copy, PartialEq, Eq, Structural)]
pub enum PathKeyInConfig {
    RemoteInputs,
    LocalInputs,
    LocalOutputs,
    RemoteOutputs,
}

impl PathKeyInConfig {
    /// The key as it is written in a configuration.
    pub open spec fn name(self) -> Seq<char> {
        match self {
            PathKeyInConfig::RemoteInputs => "remote_inputs"@,
            PathKeyInConfig::LocalInputs => "local_inputs"@,
            PathKeyInConfig::LocalOutputs => "local_outputs"@,
            PathKeyInConfig::RemoteOutputs => "remote_outputs"@,
        }
    }

    /// The key as it is written in a configuration.
    pub fn as_str(&self) -> (s: &'static str)
        ensures
            s@ == self.name(),
    {
        match self {
            PathKeyInConfig::RemoteInputs => "remote_inputs",
            PathKeyInConfig::LocalInputs => "local_inputs",
            PathKeyInConfig::LocalOutputs => "local_outputs",
            PathKeyInConfig::RemoteOutputs => "remote_outputs",
        }
    }
}

/// The object stores a job can name.
#[derive(Debug, Clone, Copy, PartialEq, Eq, Structural)]
pub enum CloudServiceProvider {
    GCP,
}

/// A path of a configuration: its text, or no text where the path cannot be
/// rendered as text.
#[derive(Debug, PartialEq, Eq)]
pub struct ConfigPath {
    pub text: Option<String>,
}

impl View for ConfigPath {
    type V = Option<Seq<char>>;

    open spec fn view(&self) -> Option<Seq<char>> {
        match self.text {
            Some(text) => Some(text@),
            None => None,
        }
    }
}

impl Clone for ConfigPath {
    fn clone(&self) -> (copy: ConfigPath)
        ensures
            copy@ == self@,
    {
        match &self.text {
            Some(text) => ConfigPath { text: Some(text.clone()) },
            None => ConfigPath { text: None },
        }
    }
}

impl ConfigPath {
    /// The path that reads `text`.
    pub fn new(text: &str) -> (path: ConfigPath)
        ensures
            path@ == Some(text@),
    {
        ConfigPath { text: Some(String::from_str(text)) }
    }

    /// A path that cannot be rendered as text.
    pub fn without_text() -> (path: ConfigPath)
        ensures
            path@ is None,
    {
        ConfigPath { text: None }
    }

    /// The text of the path, if it has one.
    pub fn to_str(&self) -> (text: Option<&str>)
        ensures
            match text {
                Some(text) => self@ == Some(text@),
                None => self@ is None,
            },
    {
        match &self.text {
            Some(text) => Some(text.as_str()),
            None => None,
        }
    }

    /// The text of the path, which stands under `key` in the configuration.
    /// Fails where the path has none.
    pub fn text(&self, key: PathKeyInConfig) -> (r: Result<&str, JobRunnerError>)
        ensures
            match r {
                Ok(text) => self@ == Some(text@),
                Err(e) => self@ is None && e == JobRunnerError::InvalidPathError(key),
            },
    {
        match &self.text {
            Some(text) => Ok(text.as_str()),
            None => Err(JobRunnerError::InvalidPathError(key)),
        }
    }
}

/// The jobs of a configuration, each under its name. No two jobs have the
/// same name; the jobs are kept in the order in which their names came in.
#[derive(Debug)]
pub struct Config {
    names: Vec<String>,
    jobs: Vec<Job>,
}

impl View for Config {
    type V = Map<Seq<char>, Job>;

    /// The job under each name.
    closed spec fn view(&self) -> Map<Seq<char>, Job> {
        Map::new(
            |name: Seq<char>| self.names.deep_view().contains(name),
            |name: Seq<char>| self.jobs@[self.names.deep_view().index_of(name)],
        )
    }
}

impl Config {
    /// What holds of every configuration: each name has its job, and no
    /// name stands twice.
    #[verifier::type_invariant]
    pub closed spec fn wf(&self) -> bool {
        &&& self.names@.len() == self.jobs@.len()
        &&& self.names.deep_view().no_duplicates()
    }

    /// The names under which there are jobs are those that are enumerated,
    /// and each is enumerated once.
    pub proof fn lemma_names_are_keys(&self)
        requires
            self.wf(),
        ensures
            self.names().no_duplicates(),
            forall|name: Seq<char>| self@.contains_key(name) <==> self.names().contains(name),
    {
    }

    /// The names of the jobs, in the order in which the jobs are
    /// enumerated.
    pub closed spec fn names(&self) -> Seq<Seq<char>> {
        self.names.deep_view()
    }

    /// The jobs of a configuration can be counted.
    pub proof fn lemma_len_fits(&self)
        ensures
            self.names().len() <= usize::MAX,
    {
        assert(self.names.len() == self.names@.len());
        assert(self.names.deep_view().len() == self.names@.len());
    }

    /// A configuration without jobs.
    pub fn new() -> (config: Config)
        ensures
            config.names() == Seq::<Seq<char>>::empty(),
            config@ == Map::<Seq<char>, Job>::empty(),
    {
        Config { names: Vec::new(), jobs: Vec::new() }
    }

    /// How many jobs there are.
    pub fn len(&self) -> (n: usize)
        ensures
            n == self.names().len(),
    {
        self.names.len()
    }

    /// The name of the job at `position` of the enumeration.
    pub fn name_at(&self, position: usize) -> (name: &str)
        requires
            position < self.names().len(),
        ensures
            name@ == self.names()[position as int],
            self@.contains_key(name@),
    {
        assert(self.names.deep_view()[position as int] == self.names@[position as int]@);
        self.names[position].as_str()
    }

    /// The job at `position` of the enumeration.
    pub fn job_at(&self, position: usize) -> (job: &Job)
        requires
            position < self.names().len(),
        ensures
            self@.contains_key(self.names()[position as int]),
            *job == self@[self.names()[position as int]],
    {
        proof {
            use_type_invariant(self);
            lemma_index_of(self.names.deep_view(), position as int);
        }
        &self.jobs[position]
    }

    fn position_of(&self, name: &str) -> (position: Option<usize>)
        ensures
            match position {
                Some(position) => position < self.names@.len() && self.names@[position as int]@
                    == name@,
                None => !self.names.deep_view().contains(name@),
            },
    {
        let mut i: usize = 0;
        while i < self.names.len()
            invariant
                i <= self.names@.len(),
                forall|j: int| 0 <= j < i ==> self.names.deep_view()[j] != name@,
            decreases self.names@.len() - i,
        {
            if same_text(self.names[i].as_str(), name) {
                return Some(i);
            }
            i += 1;
        }
        None
    }

    /// The job under `name`, if there is one.
    pub fn get(&self, name: &str) -> (job: Option<&Job>)
        ensures
            match job {
                Some(job) => self@.contains_key(name@) && *job == self@[name@],
                None => !self@.contains_key(name@),
            },
    {
        proof {
            use_type_invariant(self);
        }
        match self.position_of(name) {
            Some(position) => {
                assert(self.names.deep_view()[position as int] == name@);
                Some(&self.jobs[position])
            },
            None => None,
        }
    }

    /// Puts `job` under `name`. A job that was under that name is replaced
    /// and keeps its place in the enumeration; a new name goes to its end.
    pub fn insert(&mut self, name: &str, job: Job)
        ensures
            final(self)@ == old(self)@.insert(name@, job),
            final(self).names() == if old(self)@.contains_key(name@) {
                old(self).names()
            } else {
                old(self).names().push(name@)
            },
    {
        proof {
            use_type_invariant(&*self);
        }
        let found = self.position_of(name);
        let mut taken = Config { names: Vec::new(), jobs: Vec::new() };
        std::mem::swap(self, &mut taken);
        let Config { mut names, mut jobs } = taken;
        let ghost before = names.deep_view();
        match found {
            Some(position) => {
                assert(before[position as int] == name@);
                jobs.set(position, job);
            },
            None => {
                names.push(String::from_str(name));
                jobs.push(job);
                assert(names.deep_view() =~= before.push(name@));
            },
        }
        *self = Config { names, jobs };
        proof {
            let after = self.names.deep_view();
            assert forall|key: Seq<char>| #[trigger] self@.contains_key(key) implies self@[key]
                == old(self)@.insert(name@, job)[key] by {
                lemma_index_of(after, after.index_of(key));
                if key != name@ {
                    lemma_index_of(before, before.index_of(key));
                    lemma_index_of(after, before.index_of(key));
                } else if found is None {
                    lemma_index_of(after, before.len() as int);
                }
            }
            assert forall|key: Seq<char>| #[trigger]
                old(self)@.insert(name@, job).contains_key(key) implies self@.contains_key(
                key,
            ) by {
                if key != name@ {
                    assert(after[before.index_of(key)] == key);
                } else if found is None {
                    assert(after[before.len() as int] == key);
                }
            }
        }
    }
}

/// In a sequence without duplicates, the index at which a member is found
/// is the index at which it stands.
proof fn lemma_index_of(names: Seq<Seq<char>>, i: int)
    requires
        names.no_duplicates(),
        0 <= i < names.len(),
    ensures
        names.index_of(names[i]) == i,
{
}

} // verus!
