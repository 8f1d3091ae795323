//! Where the tool stands, and the digest of a file's contents.
//!
//! A directory is given by the parts of its path, from the top of the file
//! system downwards: the parent of a directory is its path without the last
//! part, and the top itself has no parent.

use crate::cfg::cfg_file_name;
use crate::text::clone_texts;
use sha2::Digest;
use vstd::prelude::*;

verus! {

/// Why the tool's root directory cannot be told.
#[derive(Clone, Copy, Debug, PartialEq, Eq)]
pub enum PathResolutionError {
    /// The working directory has no parent.
    NoProjectsDir,
    /// The working directory's parent has no parent.
    NoRootDir,
    /// Neither the working directory nor the one two levels above holds the
    /// configuration.
    UnknownLocation,
}

impl PathResolutionError {
    /// The error in words.
    pub fn message(&self) -> (text: String)
        ensures
            text@ == match self {
                PathResolutionError::NoProjectsDir => "Failed to get projects dir"@,
                PathResolutionError::NoRootDir => "Failed to get root dir"@,
                PathResolutionError::UnknownLocation =>
                    "Using the program from an unknown location"@,
            },
    {
        match self {
            PathResolutionError::NoProjectsDir => String::from_str("Failed to get projects dir"),
            PathResolutionError::NoRootDir => String::from_str("Failed to get root dir"),
            PathResolutionError::UnknownLocation => String::from_str(
                "Using the program from an unknown location",
            ),
        }
    }
}

/// The root directory as seen from the working directory: the working
/// directory itself where it holds the configuration, else the directory two
/// levels above, which must hold it.
pub open spec fn root_of(working_dir: Seq<Seq<char>>, cfg_here: bool, cfg_two_up: bool) -> Result<
    Seq<Seq<char>>,
    PathResolutionError,
> {
    if cfg_here {
        Ok(working_dir)
    } else if working_dir.len() == 0 {
        Err(PathResolutionError::NoProjectsDir)
    } else if working_dir.len() == 1 {
        Err(PathResolutionError::NoRootDir)
    } else if cfg_two_up {
        Ok(working_dir.take(working_dir.len() - 2))
    } else {
        Err(PathResolutionError::UnknownLocation)
    }
}

/// The root directory of a command that runs in a project or in the root:
/// in a project it is the directory two levels above.
pub open spec fn project_root_of(current_dir: Seq<Seq<char>>, is_in_project_dir: bool) -> Result<
    Seq<Seq<char>>,
    PathResolutionError,
> {
    if !is_in_project_dir {
        Ok(current_dir)
    } else if current_dir.len() == 0 {
        Err(PathResolutionError::NoProjectsDir)
    } else if current_dir.len() == 1 {
        Err(PathResolutionError::NoRootDir)
    } else {
        Ok(current_dir.take(current_dir.len() - 2))
    }
}

fn take_parts(parts: &Vec<String>, n: usize) -> (taken: Vec<String>)
    requires
        n <= parts.len(),
    ensures
        taken.deep_view() == parts.deep_view().take(n as int),
{
    let mut taken: Vec<String> = Vec::new();
    let mut i: usize = 0;
    while i < n
        invariant
            i <= n <= parts.len(),
            taken.deep_view() == parts.deep_view().take(i as int),
        decreases n - i,
    {
        let ghost before = taken.deep_view();
        taken.push(parts[i].clone());
        assert(taken.deep_view() =~= before.push(parts[i as int]@));
        assert(parts.deep_view().take(i + 1) =~= before.push(parts[i as int]@));
        i = i + 1;
    }
    taken
}

/// Tells the root directory from the working directory. `cfg_here` says
/// whether the working directory holds the configuration file, `cfg_two_up`
/// whether the directory two levels above does.
pub fn try_root_dir(working_dir: &Vec<String>, cfg_here: bool, cfg_two_up: bool) -> (root: Result<
    Vec<String>,
    PathResolutionError,
>)
    ensures
        match root_of(working_dir.deep_view(), cfg_here, cfg_two_up) {
            Ok(expected) => root is Ok && root->Ok_0.deep_view() == expected,
            Err(error) => root == Err::<Vec<String>, PathResolutionError>(error),
        },
{
    if cfg_here {
        Ok(clone_texts(working_dir))
    } else if working_dir.len() == 0 {
        Err(PathResolutionError::NoProjectsDir)
    } else if working_dir.len() == 1 {
        Err(PathResolutionError::NoRootDir)
    } else if cfg_two_up {
        Ok(take_parts(working_dir, working_dir.len() - 2))
    } else {
        Err(PathResolutionError::UnknownLocation)
    }
}

/// Tells the root directory of a command that runs either in a project,
/// which lies two levels below the root, or in the root itself.
pub fn project_root(current_dir: &Vec<String>, is_in_project_dir: bool) -> (root: Result<
    Vec<String>,
    PathResolutionError,
>)
    ensures
        match project_root_of(current_dir.deep_view(), is_in_project_dir) {
            Ok(expected) => root is Ok && root->Ok_0.deep_view() == expected,
            Err(error) => root == Err::<Vec<String>, PathResolutionError>(error),
        },
{
    if !is_in_project_dir {
        Ok(clone_texts(current_dir))
    } else if current_dir.len() == 0 {
        Err(PathResolutionError::NoProjectsDir)
    } else if current_dir.len() == 1 {
        Err(PathResolutionError::NoRootDir)
    } else {
        Ok(take_parts(current_dir, current_dir.len() - 2))
    }
}

/// The path of the configuration file: it lies in the directory `exe_dir`,
/// which holds the tool.
pub fn cfg_dir(exe_dir: &Vec<String>) -> (path: Vec<String>)
    ensures
        path.deep_view() == exe_dir.deep_view().push(crate::NAME@ + ".toml"@),
{
    let mut path = clone_texts(exe_dir);
    let name = cfg_file_name();
    let ghost before = path.deep_view();
    path.push(name);
    assert(path.deep_view() =~= before.push(name@));
    path
}

/// The SHA-256 digest of a sequence of bytes.
pub uninterp spec fn sha256(data: Seq<u8>) -> Seq<u8>;

/// `sha2::Sha256::digest`, the one-shot form of `sha2::Digest`: the SHA-256
/// digest of `data`, a function of the bytes alone.
#[verifier::external_body]
fn sha256_digest(data: &[u8]) -> (digest: Vec<u8>)
    ensures
        digest@ == sha256(data@),
{
    sha2::Sha256::digest(data).to_vec()
}

/// The SHA-256 digest of a file's contents.
pub fn sha_256_file(contents: &Vec<u8>) -> (digest: Vec<u8>)
    ensures
        digest@ == sha256(contents@),
{
    sha256_digest(contents.as_slice())
}

/// Whether two sequences of bytes are the same.
pub fn same_bytes(a: &[u8], b: &[u8]) -> (same: bool)
    ensures
        same == (a@ == b@),
{
    if a.len() != b.len() {
        return false;
    }
    let mut i: usize = 0;
    while i < a.len()
        invariant
            i <= a.len(),
            a.len() == b.len(),
            forall|k: int| 0 <= k < i ==> a@[k] == b@[k],
        decreases a.len() - i,
    {
        if a[i] != b[i] {
            return false;
        }
        i = i + 1;
    }
    assert(a@ =~= b@);
    true
}

/// The digest of a file's contents, where there is a file.
pub open spec fn digest_of(contents: Option<Seq<u8>>) -> Option<Seq<u8>> {
    match contents {
        Some(bytes) => Some(sha256(bytes)),
        None => None,
    }
}

/// The SHA-256 digest of a file's contents, where there is a file.
pub fn digest_if_file(contents: &Option<Vec<u8>>) -> (digest: Option<Vec<u8>>)
    ensures
        digest.deep_view() == digest_of(contents.deep_view()),
{
    match contents {
        Some(bytes) => {
            let digest = sha_256_file(bytes);
            assert(bytes.deep_view() =~= bytes@);
            assert(digest.deep_view() =~= digest@);
            Some(digest)
        },
        None => None,
    }
}

/// A hard link to make, whatever is in its place: `link` is made to name the
/// file `source`, and a file that is at `link` already is removed first.
/// Both are given by the parts of their paths below the root directory.
#[derive(Clone, Debug, PartialEq, Eq)]
pub struct LinkOp {
    pub source: Vec<String>,
    pub link: Vec<String>,
}

pub ghost struct LinkOpView {
    pub source: Seq<Seq<char>>,
    pub link: Seq<Seq<char>>,
}

impl DeepView for LinkOp {
    type V = LinkOpView;

    open spec fn deep_view(&self) -> LinkOpView {
        LinkOpView { source: self.source.deep_view(), link: self.link.deep_view() }
    }
}

/// The files below the root directory: for each path that names a file,
/// what the file holds.
pub type Files = Map<Seq<Seq<char>>, int>;

/// The files after one link is made. Where `source` names no file, the
/// file at `link` is removed and no link takes its place.
pub open spec fn force_link_of(files: Files, op: LinkOpView) -> Files {
    if files.dom().contains(op.source) {
        files.insert(op.link, files[op.source])
    } else {
        files.remove(op.link)
    }
}

/// The files after the links are made in order.
pub open spec fn apply_links(ops: Seq<LinkOpView>, files: Files) -> Files
    decreases ops.len(),
{
    if ops.len() == 0 {
        files
    } else {
        force_link_of(apply_links(ops.drop_last(), files), ops.last())
    }
}

/// Whether no link of `ops` is made where a source of `ops` lies.
pub open spec fn separate(ops: Seq<LinkOpView>) -> bool {
    forall|i: int, j: int|
        0 <= i < ops.len() && 0 <= j < ops.len() ==> ops[i].link != ops[j].source
}

/// Index of the last link that is made at `path`, or -1 where none is.
pub open spec fn last_link(ops: Seq<LinkOpView>, path: Seq<Seq<char>>) -> int
    decreases ops.len(),
{
    if ops.len() == 0 {
        -1
    } else if ops.last().link == path {
        ops.len() - 1
    } else {
        last_link(ops.drop_last(), path)
    }
}

/// Whether `path` names in `after` the file that `from` names in `before`,
/// or no file where `from` names none.
pub open spec fn same_file(
    after: Files,
    path: Seq<Seq<char>>,
    before: Files,
    from: Seq<Seq<char>>,
) -> bool {
    after.dom().contains(path) == before.dom().contains(from) && (before.dom().contains(from)
        ==> after[path] == before[from])
}

proof fn lemma_last_link(ops: Seq<LinkOpView>, path: Seq<Seq<char>>)
    ensures
        -1 <= last_link(ops, path) < ops.len(),
        last_link(ops, path) >= 0 ==> ops[last_link(ops, path)].link == path,
        last_link(ops, path) < 0 ==> forall|i: int| 0 <= i < ops.len() ==> ops[i].link != path,
    decreases ops.len(),
{
    if ops.len() > 0 && ops.last().link != path {
        let init = ops.drop_last();
        lemma_last_link(init, path);
        if last_link(init, path) < 0 {
            assert forall|i: int| 0 <= i < ops.len() implies ops[i].link != path by {
                if i < init.len() {
                    assert(init[i].link != path);
                }
            }
        }
    }
}

/// After the links are made, a path at which a link was made names the file
/// that the source of the last such link named before, and every other
/// path names what it named before.
proof fn lemma_links_made(ops: Seq<LinkOpView>, files: Files, path: Seq<Seq<char>>)
    requires
        separate(ops),
    ensures
        last_link(ops, path) >= 0 ==> same_file(
            apply_links(ops, files),
            path,
            files,
            ops[last_link(ops, path)].source,
        ),
        last_link(ops, path) < 0 ==> same_file(apply_links(ops, files), path, files, path),
    decreases ops.len(),
{
    if ops.len() > 0 {
        let init = ops.drop_last();
        let last = ops.last();
        assert forall|i: int, j: int|
            0 <= i < init.len() && 0 <= j < init.len() implies init[i].link != init[j].source by {
            assert(ops[i].link != ops[j].source);
        }
        lemma_links_made(init, files, path);
        lemma_links_made(init, files, last.source);
        lemma_last_link(init, last.source);
        if last_link(init, last.source) >= 0 {
            let k = last_link(init, last.source);
            assert(ops[k].link == ops[ops.len() - 1].source);
        }
        if last.link != path {
            let k = last_link(init, path);
            lemma_last_link(init, path);
            if k >= 0 {
                assert(ops[k] == init[k]);
            }
        }
    }
}

/// Making the links a second time changes nothing, as long as what the
/// sources name stays as it is: the second run leaves every path naming
/// what it named after the first.
pub proof fn lemma_links_idempotent(ops: Seq<LinkOpView>, files: Files)
    requires
        separate(ops),
    ensures
        apply_links(ops, apply_links(ops, files)) == apply_links(ops, files),
{
    let once = apply_links(ops, files);
    let twice = apply_links(ops, once);
    assert forall|path: Seq<Seq<char>>| same_file(twice, path, once, path) by {
        lemma_links_made(ops, files, path);
        lemma_links_made(ops, once, path);
        lemma_last_link(ops, path);
        let k = last_link(ops, path);
        if k >= 0 {
            let from = ops[k].source;
            lemma_links_made(ops, files, from);
            lemma_last_link(ops, from);
            if last_link(ops, from) >= 0 {
                assert(ops[last_link(ops, from)].link == ops[k].source);
            }
        }
    }
    assert forall|path: Seq<Seq<char>>| #[trigger]
        twice.dom().contains(path) == once.dom().contains(path) && (once.dom().contains(path)
            ==> twice[path] == once[path]) by {
        assert(same_file(twice, path, once, path));
    }
    assert(twice =~= once);
}

} // verus!
