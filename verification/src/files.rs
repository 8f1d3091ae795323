//! The files that the tool writes and links: which of them, with what in
//! them, and where.

use crate::helper::{
    digest_if_file, digest_of, same_bytes, sha256, sha_256_file, LinkOp, LinkOpView,
};
use crate::text::{clone_texts, holds_text, replace_all, replaced};
use vstd::prelude::*;
use vstd::string::StringSliceAdditionalSpecFns;

verus! {

/// A file to write into a directory that the caller knows.
#[derive(Clone, Debug, PartialEq, Eq)]
pub struct FileWrite {
    pub file_name: String,
    pub contents: String,
}

pub ghost struct FileWriteView {
    pub file_name: Seq<char>,
    pub contents: Seq<char>,
}

impl DeepView for FileWrite {
    type V = FileWriteView;

    open spec fn deep_view(&self) -> FileWriteView {
        FileWriteView { file_name: self.file_name@, contents: self.contents@ }
    }
}

/// Why a file was not linked.
#[derive(Clone, Debug, PartialEq, Eq)]
pub enum LinkError {
    /// The file that the link should name is not there.
    MissingSource { file_name: String },
}

/// Why a script was not written.
#[derive(Clone, Copy, Debug, PartialEq, Eq)]
pub enum ScriptError {
    /// The place to write into is no directory.
    NotADirectory,
    /// The path of the first installation ends in no name.
    NoHalfLifeDirName,
    /// The path of the second installation ends in no name.
    NoSecondDirName,
}

/// The names of the script files that are linked into every game.
pub open spec fn cfg_files() -> Seq<Seq<char>> {
    seq!["hltas.cfg"@, "ingame.cfg"@, "record.cfg"@, "editor.cfg"@, "cam.cfg"@]
}

/// The names of the script files that are linked into every game.
pub fn cfg_file_names() -> (names: Vec<String>)
    ensures
        names.deep_view() == cfg_files(),
{
    let mut names: Vec<String> = Vec::new();
    names.push(String::from_str("hltas.cfg"));
    names.push(String::from_str("ingame.cfg"));
    names.push(String::from_str("record.cfg"));
    names.push(String::from_str("editor.cfg"));
    names.push(String::from_str("cam.cfg"));
    assert(names.deep_view() =~= cfg_files());
    names
}

/// Index of the first of `names` that is not among `existing`, or the
/// length where all are.
pub open spec fn first_missing(names: Seq<Seq<char>>, existing: Seq<Seq<char>>, from: int) -> int
    decreases names.len() - from,
{
    if from < 0 || from >= names.len() {
        names.len() as int
    } else if !existing.contains(names[from]) {
        from
    } else {
        first_missing(names, existing, from + 1)
    }
}

/// The links of the script files from `cfgs_dir` into `dest_dir`.
pub open spec fn cfg_links_of(cfgs_dir: Seq<char>, dest_dir: Seq<Seq<char>>) -> Seq<LinkOpView> {
    Seq::new(
        cfg_files().len(),
        |i: int|
            LinkOpView {
                source: seq![cfgs_dir, cfg_files()[i]],
                link: dest_dir.push(cfg_files()[i]),
            },
    )
}

/// Plans the links of the script files into one directory. `existing`
/// names the files that the directory `cfgs_dir` holds.
///
/// Where one of the script files is not there, nothing is linked, and the
/// first that is missing is named. Else every script file is linked under
/// its name into `dest_dir`, whatever lies there already.
pub fn hard_link_cfgs(cfgs_dir: &str, dest_dir: &Vec<String>, existing: &Vec<String>) -> (ops:
    Result<Vec<LinkOp>, LinkError>)
    ensures
        ({
            let at = first_missing(cfg_files(), existing.deep_view(), 0);
            if at < cfg_files().len() {
                ops is Err && ops->Err_0->file_name@ == cfg_files()[at]
            } else {
                ops is Ok && ops->Ok_0.deep_view() == cfg_links_of(cfgs_dir@, dest_dir.deep_view())
            }
        }),
{
    let names = cfg_file_names();
    let ghost expected = cfg_links_of(cfgs_dir@, dest_dir.deep_view());
    let mut ops: Vec<LinkOp> = Vec::new();
    let mut i: usize = 0;
    assert(ops.deep_view() =~= expected.take(0));
    while i < names.len()
        invariant
            i <= names.len(),
            names.deep_view() == cfg_files(),
            expected == cfg_links_of(cfgs_dir@, dest_dir.deep_view()),
            first_missing(cfg_files(), existing.deep_view(), 0) == first_missing(
                cfg_files(),
                existing.deep_view(),
                i as int,
            ),
            ops.deep_view() == expected.take(i as int),
        decreases names.len() - i,
    {
        assert(names.deep_view()[i as int] == names[i as int]@);
        if !holds_text(existing, names[i].as_str()) {
            return Err(LinkError::MissingSource { file_name: names[i].clone() });
        }
        let ghost before = ops.deep_view();
        let mut source: Vec<String> = Vec::new();
        source.push(String::from_str(cfgs_dir));
        source.push(names[i].clone());
        let mut link = clone_texts(dest_dir);
        link.push(names[i].clone());
        let op = LinkOp { source, link };
        proof {
            assert(op.source.deep_view() =~= seq![cfgs_dir@, names[i as int]@]);
            assert(op.link.deep_view() =~= dest_dir.deep_view().push(names[i as int]@));
            assert(op.deep_view() == expected[i as int]);
        }
        ops.push(op);
        assert(ops.deep_view() =~= before.push(expected[i as int]));
        assert(expected.take(i + 1) =~= before.push(expected[i as int]));
        i = i + 1;
    }
    assert(expected.take(names.len() as int) =~= expected);
    Ok(ops)
}

/// Whether the script file `name` is written: one that is not there is,
/// and one that is there only if it is to be reset. With `reset` given,
/// an empty list resets all files, any other list those it names.
pub open spec fn writes_cfg(
    name: Seq<char>,
    existing: Seq<Seq<char>>,
    reset: Option<Seq<Seq<char>>>,
) -> bool {
    !existing.contains(name) || match reset {
        Some(list) => list.len() == 0 || list.contains(name),
        None => false,
    }
}

/// The script files that are written, in their order.
pub open spec fn cfgs_to_write(
    names: Seq<Seq<char>>,
    existing: Seq<Seq<char>>,
    reset: Option<Seq<Seq<char>>>,
) -> Seq<Seq<char>>
    decreases names.len(),
{
    if names.len() == 0 {
        seq![]
    } else if writes_cfg(names.last(), existing, reset) {
        cfgs_to_write(names.drop_last(), existing, reset).push(names.last())
    } else {
        cfgs_to_write(names.drop_last(), existing, reset)
    }
}

/// Names the script files that are to be written into the directory of the
/// script files, of which `existing` names those that are there.
pub fn write_cfgs(existing: &Vec<String>, reset_cfgs: &Option<Vec<String>>) -> (names: Vec<String>)
    ensures
        names.deep_view() == cfgs_to_write(
            cfg_files(),
            existing.deep_view(),
            reset_cfgs.deep_view(),
        ),
{
    let all = cfg_file_names();
    let mut names: Vec<String> = Vec::new();
    let mut i: usize = 0;
    proof {
        assert(all.deep_view().take(0) =~= Seq::<Seq<char>>::empty());
        assert(names.deep_view() =~= Seq::<Seq<char>>::empty());
    }
    while i < all.len()
        invariant
            i <= all.len(),
            names.deep_view() == cfgs_to_write(
                all.deep_view().take(i as int),
                existing.deep_view(),
                reset_cfgs.deep_view(),
            ),
        decreases all.len() - i,
    {
        let ghost before = names.deep_view();
        proof {
            let full = all.deep_view();
            assert(full.take(i + 1).drop_last() =~= full.take(i as int));
            assert(full.take(i + 1).last() == all[i as int]@);
        }
        let name = all[i].as_str();
        let reset = match reset_cfgs {
            Some(list) => list.len() == 0 || holds_text(list, name),
            None => false,
        };
        if !holds_text(existing, name) || reset {
            names.push(all[i].clone());
            assert(names.deep_view() =~= before.push(all[i as int]@));
        }
        i = i + 1;
    }
    assert(all.deep_view().take(all.len() as int) =~= all.deep_view());
    names
}

/// What is done about the hook that links the scripts after a checkout.
#[derive(Clone, Debug, PartialEq, Eq)]
pub enum HookWrite {
    /// The hook is there as the tool writes it; nothing is written.
    AlreadyInstalled,
    /// There is a hook of another kind; the text is put behind it.
    Append(String),
    /// There is no hook; the text is written as a new file.
    Create(String),
}

/// The hook's text: the template with the names of the installations put
/// in, and with the word that says whether there is a second one.
pub open spec fn hook_text(
    template: Seq<char>,
    half_life_name: Seq<char>,
    second_name: Option<Seq<char>>,
) -> Seq<char> {
    let hook = replaced(template, "HALF_LIFE_DIR"@, half_life_name);
    match second_name {
        Some(name) => replaced(
            replaced(hook, "NO_CLIENT_DLL_PRESENT"@, "true"@),
            "NO_CLIENT_DLL_DIR"@,
            name,
        ),
        None => replaced(hook, "NO_CLIENT_DLL_PRESENT"@, "false"@),
    }
}

pub ghost enum HookWriteView {
    AlreadyInstalled,
    Append(Seq<char>),
    Create(Seq<char>),
}

impl DeepView for HookWrite {
    type V = HookWriteView;

    open spec fn deep_view(&self) -> HookWriteView {
        match self {
            HookWrite::AlreadyInstalled => HookWriteView::AlreadyInstalled,
            HookWrite::Append(text) => HookWriteView::Append(text@),
            HookWrite::Create(text) => HookWriteView::Create(text@),
        }
    }
}

/// What is done about the hook, given the digest of the template and that
/// of the hook that is there, if one is: nothing where the two digests are
/// the same; else the hook's text, for which the installations' names are
/// needed, is put behind the hook that is there, or written as a new file.
pub open spec fn hook_write_of(
    template: Seq<char>,
    template_digest: Seq<u8>,
    existing_digest: Option<Seq<u8>>,
    half_life_name: Option<Seq<char>>,
    second: bool,
    second_name: Option<Seq<char>>,
) -> Result<HookWriteView, ScriptError> {
    if existing_digest == Some(template_digest) {
        Ok(HookWriteView::AlreadyInstalled)
    } else {
        match (half_life_name, second, second_name) {
            (None, _, _) => Err(ScriptError::NoHalfLifeDirName),
            (Some(_), true, None) => Err(ScriptError::NoSecondDirName),
            (Some(first), _, name) => {
                let text = hook_text(
                    template,
                    first,
                    if second {
                        name
                    } else {
                        None
                    },
                );
                if existing_digest is Some {
                    Ok(HookWriteView::Append(text))
                } else {
                    Ok(HookWriteView::Create(text))
                }
            },
        }
    }
}

/// Decides how the hook is written, from the digest of the template and
/// that of the hook file that is there, if one is. `half_life_name` is the
/// last part of the first installation's path and `second_name` that of the
/// second's, each `None` where the path ends in no name. `second` says
/// whether the configuration names a second installation.
pub fn hook_write(
    template: &str,
    template_digest: &[u8],
    existing_digest: &Option<Vec<u8>>,
    half_life_name: &Option<String>,
    second: bool,
    second_name: &Option<String>,
) -> (write: Result<HookWrite, ScriptError>)
    ensures
        match hook_write_of(
            template@,
            template_digest@,
            existing_digest.deep_view(),
            half_life_name.deep_view(),
            second,
            second_name.deep_view(),
        ) {
            Ok(expected) => write is Ok && write->Ok_0.deep_view() == expected,
            Err(error) => write == Err::<HookWrite, ScriptError>(error),
        },
{
    match existing_digest {
        Some(digest) => {
            assert(digest.deep_view() =~= digest@);
            if same_bytes(digest.as_slice(), template_digest) {
                return Ok(HookWrite::AlreadyInstalled);
            }
        },
        None => {},
    }
    let first = match half_life_name {
        Some(name) => name,
        None => {
            return Err(ScriptError::NoHalfLifeDirName);
        },
    };
    let hook = replace_all(template, "HALF_LIFE_DIR", first.as_str());
    let text = if second {
        match second_name {
            Some(name) => {
                let present = replace_all(hook.as_str(), "NO_CLIENT_DLL_PRESENT", "true");
                replace_all(present.as_str(), "NO_CLIENT_DLL_DIR", name.as_str())
            },
            None => {
                return Err(ScriptError::NoSecondDirName);
            },
        }
    } else {
        replace_all(hook.as_str(), "NO_CLIENT_DLL_PRESENT", "false")
    };
    if existing_digest.is_some() {
        Ok(HookWrite::Append(text))
    } else {
        Ok(HookWrite::Create(text))
    }
}

/// Decides how the hook is written. `existing` holds the hook file that is
/// there, if one is: it is taken for the tool's own where it has the
/// template's digest. The rest is as in `hook_write`.
pub fn write_hard_link_shell_hook(
    template: &str,
    existing: &Option<Vec<u8>>,
    half_life_name: &Option<String>,
    second: bool,
    second_name: &Option<String>,
) -> (write: Result<HookWrite, ScriptError>)
    ensures
        match hook_write_of(
            template@,
            sha256(template.spec_bytes()),
            digest_of(existing.deep_view()),
            half_life_name.deep_view(),
            second,
            second_name.deep_view(),
        ) {
            Ok(expected) => write is Ok && write->Ok_0.deep_view() == expected,
            Err(error) => write == Err::<HookWrite, ScriptError>(error),
        },
{
    let template_digest = sha_256_file(&template.as_bytes_vec());
    let existing_digest = digest_if_file(existing);
    hook_write(
        template,
        template_digest.as_slice(),
        &existing_digest,
        half_life_name,
        second,
        second_name,
    )
}

/// The two scripts that switch the plain game on and off: the templates
/// with the directory of the client library put in.
pub open spec fn toggle_vanilla_game_of(
    enable_template: Seq<char>,
    disable_template: Seq<char>,
    client_dll_dir: Seq<char>,
) -> Seq<FileWriteView> {
    seq![
        FileWriteView {
            file_name: "disable_vanilla_game.bat"@,
            contents: replaced(disable_template, "GAME_DIR"@, client_dll_dir),
        },
        FileWriteView {
            file_name: "enable_vanilla_game.bat"@,
            contents: replaced(enable_template, "GAME_DIR"@, client_dll_dir),
        },
    ]
}

/// Makes the two scripts that switch the plain game on and off, for the
/// directory `client_dll_dir` that holds the game's client library. They
/// are written into a project's directory, which must be one.
pub fn write_toggle_vanilla_game(
    path_is_dir: bool,
    enable_template: &str,
    disable_template: &str,
    client_dll_dir: &str,
) -> (files: Result<Vec<FileWrite>, ScriptError>)
    ensures
        !path_is_dir ==> files == Err::<Vec<FileWrite>, ScriptError>(ScriptError::NotADirectory),
        path_is_dir ==> files is Ok && files->Ok_0.deep_view() == toggle_vanilla_game_of(
            enable_template@,
            disable_template@,
            client_dll_dir@,
        ),
{
    if !path_is_dir {
        return Err(ScriptError::NotADirectory);
    }
    let mut files: Vec<FileWrite> = Vec::new();
    files.push(
        FileWrite {
            file_name: String::from_str("disable_vanilla_game.bat"),
            contents: replace_all(disable_template, "GAME_DIR", client_dll_dir),
        },
    );
    files.push(
        FileWrite {
            file_name: String::from_str("enable_vanilla_game.bat"),
            contents: replace_all(enable_template, "GAME_DIR", client_dll_dir),
        },
    );
    assert(files.deep_view() =~= toggle_vanilla_game_of(
        enable_template@,
        disable_template@,
        client_dll_dir@,
    ));
    Ok(files)
}

/// The two scripts that switch the simulator client on and off: the
/// templates with the name of the installation put in.
pub open spec fn toggle_sim_client_of(
    enable_template: Seq<char>,
    disable_template: Seq<char>,
    half_life_name: Seq<char>,
) -> Seq<FileWriteView> {
    seq![
        FileWriteView {
            file_name: "disable_sim_client.bat"@,
            contents: replaced(disable_template, "HALF_LIFE_DIR"@, half_life_name),
        },
        FileWriteView {
            file_name: "enable_sim_client.bat"@,
            contents: replaced(enable_template, "HALF_LIFE_DIR"@, half_life_name),
        },
    ]
}

/// Makes the two scripts that switch the simulator client on and off.
/// `half_life_name` is the last part of the installation's path, `None`
/// where the path ends in no name. The scripts are written into `dir`,
/// which must be a directory.
pub fn write_toggle_sim_client(
    dir_is_dir: bool,
    enable_template: &str,
    disable_template: &str,
    half_life_name: &Option<String>,
) -> (files: Result<Vec<FileWrite>, ScriptError>)
    ensures
        !dir_is_dir ==> files == Err::<Vec<FileWrite>, ScriptError>(ScriptError::NotADirectory),
        dir_is_dir && half_life_name is None ==> files == Err::<Vec<FileWrite>, ScriptError>(
            ScriptError::NoHalfLifeDirName,
        ),
        dir_is_dir && half_life_name is Some ==> files is Ok && files->Ok_0.deep_view()
            == toggle_sim_client_of(
            enable_template@,
            disable_template@,
            half_life_name->Some_0@,
        ),
{
    if !dir_is_dir {
        return Err(ScriptError::NotADirectory);
    }
    let name = match half_life_name {
        Some(name) => name,
        None => {
            return Err(ScriptError::NoHalfLifeDirName);
        },
    };
    let mut files: Vec<FileWrite> = Vec::new();
    files.push(
        FileWrite {
            file_name: String::from_str("disable_sim_client.bat"),
            contents: replace_all(disable_template, "HALF_LIFE_DIR", name.as_str()),
        },
    );
    files.push(
        FileWrite {
            file_name: String::from_str("enable_sim_client.bat"),
            contents: replace_all(enable_template, "HALF_LIFE_DIR", name.as_str()),
        },
    );
    assert(files.deep_view() =~= toggle_sim_client_of(
        enable_template@,
        disable_template@,
        name@,
    ));
    Ok(files)
}

/// Makes the script that runs one sub-command of the tool: the template
/// with the sub-command put in, under the name `file_name`. It is written
/// into a directory, which must be one.
pub fn write_run_manager_sub_command_script(
    path_is_dir: bool,
    template: &str,
    file_name: &str,
    sub_command: &str,
) -> (file: Result<FileWrite, ScriptError>)
    ensures
        !path_is_dir ==> file == Err::<FileWrite, ScriptError>(ScriptError::NotADirectory),
        path_is_dir ==> file is Ok && file->Ok_0.deep_view() == (FileWriteView {
            file_name: file_name@,
            contents: replaced(template@, "SUB_COMMAND"@, sub_command@),
        }),
{
    if !path_is_dir {
        return Err(ScriptError::NotADirectory);
    }
    Ok(
        FileWrite {
            file_name: String::from_str(file_name),
            contents: replace_all(template, "SUB_COMMAND", sub_command),
        },
    )
}

} // verus!
