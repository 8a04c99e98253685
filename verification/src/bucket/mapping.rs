//! How the keys of a bucket and the paths of a local tree map onto each
//! other. Keys and paths are mapped as text: a prefix is exchanged, and no
//! path component is interpreted.

use crate::config::{ConfigPath, PathKeyInConfig};
use crate::errors::JobRunnerError;
use crate::text::{
    last_field, lemma_last_field, replace_prefix, split_fields, with_prefix_replaced,
};
use vstd::prelude::*;
use vstd::string::*;

verus! {

/// Whether `name` marks a directory: whether it ends in the separator.
pub open spec fn is_directory_marker(name: Seq<char>) -> bool {
    name.len() > 0 && name.last() == '/'
}

/// What is kept of a listing: the names that mark no directory.
pub open spec fn holds_content() -> spec_fn(Seq<char>) -> bool {
    |name: Seq<char>| !is_directory_marker(name)
}

/// The last segment of `key`: what follows its last separator.
pub open spec fn base_name(key: Seq<char>) -> Seq<char> {
    split_fields(key, '/').last()
}

/// Where the object `key` is written when the objects under `remote_prefix`
/// come down into `local_dir`. Under an empty prefix the tree is flattened:
/// only the base name is kept.
pub open spec fn destination(key: Seq<char>, remote_prefix: Seq<char>, local_dir: Seq<char>) -> Seq<
    char,
> {
    if remote_prefix.len() == 0 {
        local_dir + seq!['/'] + base_name(key)
    } else {
        replace_prefix(key, remote_prefix, local_dir)
    }
}

/// The key under which the file at `file` is stored when the files under
/// `local_dir` go up under `remote_prefix`.
pub open spec fn remote_key(file: Seq<char>, local_dir: Seq<char>, remote_prefix: Seq<char>) -> Seq<
    char,
> {
    replace_prefix(file, local_dir, remote_prefix)
}

/// What to ask a bucket to list.
#[derive(Debug, PartialEq, Eq)]
pub struct ListRequest {
    /// The prefix of the keys asked for; without one, every key is.
    pub prefix: Option<String>,
}

impl View for ListRequest {
    type V = Option<Seq<char>>;

    open spec fn view(&self) -> Option<Seq<char>> {
        match self.prefix {
            Some(prefix) => Some(prefix@),
            None => None,
        }
    }
}

/// Whether the object `name` is a directory marker: an empty pseudo
/// directory, with nothing to download.
pub fn is_object_a_directory(name: &str) -> (b: bool)
    ensures
        b == is_directory_marker(name@),
{
    let n: usize = name.unicode_len();
    n > 0 && name.get_char(n - 1) == '/'
}

/// The listing to ask for: the keys under `path_to_remote_inputs`, or every
/// key where that path is empty.
pub fn list_request(path_to_remote_inputs: &ConfigPath) -> (r: Result<ListRequest, JobRunnerError>)
    ensures
        match r {
            Ok(request) => {
                &&& path_to_remote_inputs@ matches Some(prefix)
                &&& request@ == if prefix.len() == 0 {
                    None
                } else {
                    Some(prefix)
                }
            },
            Err(e) => {
                &&& path_to_remote_inputs@ is None
                &&& e == JobRunnerError::InvalidPathError(PathKeyInConfig::RemoteInputs)
            },
        },
{
    match path_to_remote_inputs.text(PathKeyInConfig::RemoteInputs) {
        Err(e) => Err(e),
        Ok(prefix) => {
            if prefix.unicode_len() == 0 {
                Ok(ListRequest { prefix: None })
            } else {
                Ok(ListRequest { prefix: Some(String::from_str(prefix)) })
            }
        },
    }
}

/// The names of a listing that are downloaded, in the order of the listing:
/// all but the directory markers.
pub fn objects_to_download(names: Vec<String>) -> (objects: Vec<String>)
    ensures
        objects.deep_view() == names.deep_view().filter(holds_content()),
{
    let ghost listed = names.deep_view();
    let mut objects: Vec<String> = Vec::new();
    let mut i: usize = 0;
    proof {
        reveal(Seq::filter);
    }
    while i < names.len()
        invariant
            i <= names@.len(),
            listed == names.deep_view(),
            objects.deep_view() == listed.take(i as int).filter(holds_content()),
        decreases names@.len() - i,
    {
        proof {
            reveal(Seq::filter);
            assert(listed.take(i + 1).drop_last() =~= listed.take(i as int));
        }
        if !is_object_a_directory(names[i].as_str()) {
            objects.push(names[i].clone());
        }
        i += 1;
    }
    assert(listed.take(names@.len() as int) =~= listed);
    objects
}

/// Where the object `object` is written. The local path is looked at first,
/// then the remote one; either fails the download where it has no text.
pub fn download_destination(
    object: &str,
    path_to_remote_inputs: &ConfigPath,
    path_to_local_inputs: &ConfigPath,
) -> (r: Result<String, JobRunnerError>)
    ensures
        match r {
            Ok(file) => {
                &&& path_to_remote_inputs@ matches Some(prefix)
                &&& path_to_local_inputs@ matches Some(dir)
                &&& file@ == destination(object@, prefix, dir)
            },
            Err(e) => if path_to_local_inputs@ is None {
                e == JobRunnerError::InvalidPathError(PathKeyInConfig::LocalInputs)
            } else {
                &&& path_to_remote_inputs@ is None
                &&& e == JobRunnerError::InvalidPathError(PathKeyInConfig::RemoteInputs)
            },
        },
{
    let dir = match path_to_local_inputs.text(PathKeyInConfig::LocalInputs) {
        Ok(dir) => dir,
        Err(e) => return Err(e),
    };
    let prefix = match path_to_remote_inputs.text(PathKeyInConfig::RemoteInputs) {
        Ok(prefix) => prefix,
        Err(e) => return Err(e),
    };
    if prefix.unicode_len() == 0 {
        proof {
            reveal_strlit("/");
        }
        let mut file = String::from_str(dir);
        file.append("/");
        file.append(last_field(object, '/'));
        Ok(file)
    } else {
        Ok(with_prefix_replaced(object, prefix, dir))
    }
}

/// The key under which the file at `file` is stored. The local path is
/// looked at first, then the remote one; either fails the upload where it
/// has no text.
pub fn upload_key(
    file: &str,
    path_to_local_outputs: &ConfigPath,
    path_to_remote_outputs: &ConfigPath,
) -> (r: Result<String, JobRunnerError>)
    ensures
        match r {
            Ok(key) => {
                &&& path_to_local_outputs@ matches Some(dir)
                &&& path_to_remote_outputs@ matches Some(prefix)
                &&& key@ == remote_key(file@, dir, prefix)
            },
            Err(e) => if path_to_local_outputs@ is None {
                e == JobRunnerError::InvalidPathError(PathKeyInConfig::LocalOutputs)
            } else {
                &&& path_to_remote_outputs@ is None
                &&& e == JobRunnerError::InvalidPathError(PathKeyInConfig::RemoteOutputs)
            },
        },
{
    let dir = match path_to_local_outputs.text(PathKeyInConfig::LocalOutputs) {
        Ok(dir) => dir,
        Err(e) => return Err(e),
    };
    let prefix = match path_to_remote_outputs.text(PathKeyInConfig::RemoteOutputs) {
        Ok(prefix) => prefix,
        Err(e) => return Err(e),
    };
    Ok(with_prefix_replaced(file, dir, prefix))
}

/// An entry of the local file system, as it was found: a file, or a
/// directory with what it holds.
#[derive(Debug, PartialEq, Eq)]
pub enum LocalEntry {
    File { path: String },
    Directory { path: String, entries: Vec<LocalEntry> },
}

/// The files among `entries` and below them, depth first: a directory
/// stands for the files in it and is no entry of its own.
pub open spec fn files_in(entries: Seq<LocalEntry>) -> Seq<Seq<char>>
    decreases entries,
{
    if entries.len() == 0 {
        Seq::<Seq<char>>::empty()
    } else {
        files_in(entries.drop_last()) + (match entries.last() {
            LocalEntry::File { path } => seq![path@],
            LocalEntry::Directory { entries: inner, .. } => files_in(inner@),
        })
    }
}

/// The files below `root`. There are none where `root` is no directory.
pub open spec fn files_under(root: LocalEntry) -> Seq<Seq<char>> {
    match root {
        LocalEntry::File { .. } => Seq::<Seq<char>>::empty(),
        LocalEntry::Directory { entries, .. } => files_in(entries@),
    }
}

fn collect_files(entries: &Vec<LocalEntry>, files: &mut Vec<String>)
    ensures
        final(files).deep_view() == old(files).deep_view() + files_in(entries@),
    decreases entries,
{
    let mut i: usize = 0;
    while i < entries.len()
        invariant
            i <= entries@.len(),
            files.deep_view() == old(files).deep_view() + files_in(entries@.take(i as int)),
        decreases entries@.len() - i,
    {
        assert(entries@.take(i + 1).drop_last() =~= entries@.take(i as int));
        match &entries[i] {
            LocalEntry::File { path } => {
                let ghost before = files.deep_view();
                files.push(path.clone());
                assert(files.deep_view() =~= before.push(path@));
            },
            LocalEntry::Directory { entries: inner, .. } => {
                collect_files(inner, files);
            },
        }
        i += 1;
    }
    assert(entries@.take(entries@.len() as int) =~= entries@);
}

/// The paths of all files below `root`, depth first.
pub fn find_all_files(root: &LocalEntry) -> (files: Vec<String>)
    ensures
        files.deep_view() == files_under(*root),
{
    let mut files: Vec<String> = Vec::new();
    match root {
        LocalEntry::File { .. } => {},
        LocalEntry::Directory { entries, .. } => {
            collect_files(entries, &mut files);
        },
    }
    files
}

/// The first media type that `mime_guess` has for the extension of `path`,
/// if it has one. What the extension of a path is goes by the path syntax
/// of the platform that the library is built for.
pub uninterp spec fn first_guess(path: Seq<char>) -> Option<Seq<char>>;

/// The type of content whose media type is not known: any bytes.
pub open spec fn binary_content() -> Seq<char> {
    "application/octet-stream"@
}

/// The content type that goes with a guess: the media type guessed, or that
/// of any bytes where there is no guess.
pub open spec fn content_type_of(guess: Option<Seq<char>>) -> Seq<char> {
    match guess {
        Some(media_type) => media_type,
        None => binary_content(),
    }
}

/// Calls `mime_guess::from_path` and takes `first` of the guess, as text.
/// The guess goes by the extension of `path` alone, without regard to case,
/// and reads no file: it is a function of the path's text.
#[verifier::external_body]
fn guess_media_type(path: &str) -> (guess: Option<String>)
    ensures
        match guess {
            Some(media_type) => first_guess(path@) == Some(media_type@),
            None => first_guess(path@) is None,
        },
{
    match mime_guess::from_path(path).first() {
        Some(media_type) => Some(media_type.to_string()),
        None => None,
    }
}

/// The content type that goes with `guess`.
pub fn content_type_for(guess: Option<String>) -> (content_type: String)
    ensures
        content_type@ == content_type_of(
            match guess {
                Some(media_type) => Some(media_type@),
                None => None,
            },
        ),
{
    match guess {
        Some(media_type) => media_type,
        None => String::from_str("application/octet-stream"),
    }
}

/// The content type of the file at `path`, by its name.
pub fn content_type(path: &str) -> (content_type: String)
    ensures
        content_type@ == content_type_of(first_guess(path@)),
{
    content_type_for(guess_media_type(path))
}

/// One object to store: the file that holds its content, its key, and the
/// type of its content.
#[derive(Debug, PartialEq, Eq)]
pub struct UploadRequest {
    pub file: String,
    pub key: String,
    pub content_type: String,
}

impl UploadRequest {
    /// Whether the request is the one for the file at `file`, when the
    /// files under `local_dir` go up under `remote_prefix`.
    pub open spec fn is_for(&self, file: Seq<char>, local_dir: Seq<char>, remote_prefix: Seq<char>) -> bool {
        &&& self.file@ == file
        &&& self.key@ == remote_key(file, local_dir, remote_prefix)
        &&& self.content_type@ == content_type_of(first_guess(file))
    }

    /// The request that stores the content of `file`, of type
    /// `content_type`, under `key`.
    pub fn new(file: String, key: String, content_type: String) -> (request: UploadRequest)
        ensures
            request.file == file,
            request.key == key,
            request.content_type == content_type,
    {
        UploadRequest { file, key, content_type }
    }
}

/// What to store for the file at `file`: the key that its path maps to, and
/// the content type that goes with its name.
pub fn upload_request(
    file: &str,
    path_to_local_outputs: &ConfigPath,
    path_to_remote_outputs: &ConfigPath,
) -> (r: Result<UploadRequest, JobRunnerError>)
    ensures
        match r {
            Ok(request) => {
                &&& path_to_local_outputs@ matches Some(dir)
                &&& path_to_remote_outputs@ matches Some(prefix)
                &&& request.is_for(file@, dir, prefix)
            },
            Err(e) => if path_to_local_outputs@ is None {
                e == JobRunnerError::InvalidPathError(PathKeyInConfig::LocalOutputs)
            } else {
                &&& path_to_remote_outputs@ is None
                &&& e == JobRunnerError::InvalidPathError(PathKeyInConfig::RemoteOutputs)
            },
        },
{
    match upload_key(file, path_to_local_outputs, path_to_remote_outputs) {
        Ok(key) => Ok(UploadRequest::new(String::from_str(file), key, content_type(file))),
        Err(e) => Err(e),
    }
}

/// What to store when the tree at `root` goes up: one object for each file
/// below `root`, in the order in which the files are found, and none for a
/// directory. Where there is a file to send, both paths need their text.
pub fn uploads(
    root: &LocalEntry,
    path_to_local_outputs: &ConfigPath,
    path_to_remote_outputs: &ConfigPath,
) -> (r: Result<Vec<UploadRequest>, JobRunnerError>)
    ensures
        match r {
            Ok(requests) => {
                &&& requests@.len() == files_under(*root).len()
                &&& requests@.len() > 0 ==> path_to_local_outputs@ is Some
                    && path_to_remote_outputs@ is Some
                &&& forall|i: int|
                    0 <= i < requests@.len() ==> (#[trigger] requests@[i]).is_for(
                        files_under(*root)[i],
                        path_to_local_outputs@.unwrap(),
                        path_to_remote_outputs@.unwrap(),
                    )
            },
            Err(e) => {
                &&& files_under(*root).len() > 0
                &&& if path_to_local_outputs@ is None {
                    e == JobRunnerError::InvalidPathError(PathKeyInConfig::LocalOutputs)
                } else {
                    &&& path_to_remote_outputs@ is None
                    &&& e == JobRunnerError::InvalidPathError(PathKeyInConfig::RemoteOutputs)
                }
            },
        },
{
    let files = find_all_files(root);
    let mut requests: Vec<UploadRequest> = Vec::new();
    let mut i: usize = 0;
    while i < files.len()
        invariant
            i <= files@.len(),
            files.deep_view() == files_under(*root),
            requests@.len() == i,
            i > 0 ==> path_to_local_outputs@ is Some && path_to_remote_outputs@ is Some,
            forall|j: int|
                0 <= j < i ==> (#[trigger] requests@[j]).is_for(
                    files_under(*root)[j],
                    path_to_local_outputs@.unwrap(),
                    path_to_remote_outputs@.unwrap(),
                ),
        decreases files@.len() - i,
    {
        match upload_request(files[i].as_str(), path_to_local_outputs, path_to_remote_outputs) {
            Ok(request) => {
                requests.push(request);
            },
            Err(e) => {
                return Err(e);
            },
        }
        i += 1;
    }
    Ok(requests)
}

/// Under a prefix that is not empty, an object keeps its place: what
/// follows the prefix in its key follows the local directory in its path.
pub proof fn lemma_download_keeps_place(
    remote_prefix: Seq<char>,
    rest: Seq<char>,
    local_dir: Seq<char>,
)
    requires
        remote_prefix.len() > 0,
    ensures
        destination(remote_prefix + rest, remote_prefix, local_dir) == local_dir + rest,
{
    lemma_replace_prefix(remote_prefix, rest, local_dir);
}

/// The base name of a key is what follows its directories.
pub proof fn lemma_base_name(directories: Seq<char>, name: Seq<char>)
    requires
        directories.len() == 0 || directories.last() == '/',
        !name.contains('/'),
    ensures
        base_name(directories + name) == name,
{
    let key = directories + name;
    assert(forall|j: int| directories.len() <= j < key.len() ==> key[j] != '/');
    lemma_last_field(key, '/', directories.len() as int);
}

/// Under the empty prefix the tree is flattened: an object comes down
/// right into the local directory, under its base name.
pub proof fn lemma_download_flattens(directories: Seq<char>, name: Seq<char>, local_dir: Seq<char>)
    requires
        directories.len() == 0 || directories.last() == '/',
        !name.contains('/'),
    ensures
        destination(directories + name, Seq::<char>::empty(), local_dir) == local_dir + seq!['/']
            + name,
{
    lemma_base_name(directories, name);
}

/// The object `a/b/c.txt` of a bucket that is downloaded whole is written
/// to `c.txt` in the local directory.
pub proof fn lemma_download_flattens_nested_key(local_dir: Seq<char>)
    ensures
        destination("a/b/c.txt"@, ""@, local_dir) == local_dir + "/c.txt"@,
{
    reveal_strlit("a/b/c.txt");
    reveal_strlit("a/b/");
    reveal_strlit("c.txt");
    reveal_strlit("/c.txt");
    reveal_strlit("");
    assert("a/b/c.txt"@ =~= "a/b/"@ + "c.txt"@);
    lemma_download_flattens("a/b/"@, "c.txt"@, local_dir);
}

/// A file keeps its place when it goes up: what follows the local
/// directory in its path follows the remote prefix in its key.
pub proof fn lemma_upload_keeps_place(
    local_dir: Seq<char>,
    rest: Seq<char>,
    remote_prefix: Seq<char>,
)
    ensures
        remote_key(local_dir + rest, local_dir, remote_prefix) == remote_prefix + rest,
{
    lemma_replace_prefix(local_dir, rest, remote_prefix);
}

/// Exchanging the prefix of a text that begins with it keeps the rest.
pub proof fn lemma_replace_prefix(from: Seq<char>, rest: Seq<char>, to: Seq<char>)
    ensures
        replace_prefix(from + rest, from, to) == to + rest,
{
    let text = from + rest;
    assert(text.subrange(0, from.len() as int) =~= from);
}

/// The files of two runs of entries are those of the first run, then those
/// of the second.
pub proof fn lemma_files_in_order(first: Seq<LocalEntry>, second: Seq<LocalEntry>)
    ensures
        files_in(first + second) == files_in(first) + files_in(second),
    decreases second.len(),
{
    if second.len() > 0 {
        lemma_files_in_order(first, second.drop_last());
        assert((first + second).drop_last() =~= first + second.drop_last());
    }
}

/// A file is listed under its path.
pub proof fn lemma_file_is_listed(file: LocalEntry)
    requires
        file is File,
    ensures
        files_in(seq![file]) == seq![file->File_path@],
{
    assert(seq![file].drop_last() =~= Seq::<LocalEntry>::empty());
    assert(files_in(Seq::<LocalEntry>::empty()) =~= Seq::<Seq<char>>::empty());
}

/// A directory is no entry of the listing: it stands for the files in it,
/// and an empty one for nothing.
pub proof fn lemma_directory_is_not_listed(directory: LocalEntry)
    requires
        directory is Directory,
    ensures
        files_in(seq![directory]) == files_in(directory->entries@),
{
    assert(seq![directory].drop_last() =~= Seq::<LocalEntry>::empty());
    assert(files_in(Seq::<LocalEntry>::empty()) =~= Seq::<Seq<char>>::empty());
}

} // verus!
