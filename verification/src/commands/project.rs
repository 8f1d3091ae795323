//! Making a project, or making one of a directory that is there.

use crate::cfg::{Cfg, CfgView};
use crate::commands::games::{
    classify, game_dir_types, has_name, DirType, DirTypeView, SubDir, SubDirView,
};
use crate::files::{
    hook_write_of, write_hard_link_shell_hook, HookWrite, HookWriteView, ScriptError,
};
use crate::helper::{digest_if_file, digest_of, same_bytes, sha256, sha_256_file};
use crate::text::{clone_texts, same_text};
use vstd::prelude::*;
use vstd::string::StringSliceAdditionalSpecFns;

verus! {

/// Why a project cannot be made.
#[derive(Clone, Copy, Debug, PartialEq, Eq)]
pub enum ProjectError {
    /// The directory of the new project is there already.
    ProjectExists,
    /// The directory to make a project of is not there.
    ProjectMissing,
    /// The configuration names a second installation, and it is not there.
    SecondClientMissing,
    /// A game that the configuration ignores is installed.
    GameIgnored,
    /// The installation holds no directory of the game.
    GameNotFound,
    /// The hook cannot be written.
    Hook(ScriptError),
}

/// What is found on disk before a project is made.
#[derive(Clone, Debug, PartialEq, Eq)]
pub struct ProjectFacts {
    /// Whether anything lies where the project's directory is to be.
    pub project_dir_exists: bool,
    /// Whether the project's directory is there.
    pub project_dir_is_dir: bool,
    /// Whether the second installation is there.
    pub second_client_is_dir: bool,
    /// The entries of the first installation.
    pub entries: Vec<SubDir>,
    /// Whether the first installation holds the game's directory.
    pub game_dir_is_dir: bool,
    /// Whether the project holds its settings already.
    pub project_toml_is_file: bool,
    /// Whether the project holds a git repository.
    pub git_dir_is_dir: bool,
    /// The hook that the repository holds, if it holds one.
    pub hook: Option<Vec<u8>>,
    /// The list of files that git ignores, if the project holds one.
    pub gitignore: Option<Vec<u8>>,
    /// The last part of the first installation's path, if it ends in a name.
    pub half_life_name: Option<String>,
    /// The last part of the second installation's path, if it ends in a name.
    pub second_name: Option<String>,
}

/// The texts that the tool carries with it for a project.
pub struct ProjectTemplates<'a> {
    /// The hook that links the scripts after a checkout.
    pub hook: &'a str,
    /// The list of files that git ignores.
    pub git_ignore: &'a str,
}

/// One step of making a project. Paths are given by their parts below the
/// root directory.
#[derive(Clone, Debug, PartialEq, Eq)]
pub enum ProjectStep {
    /// Make the directory.
    CreateDir { path: Vec<String> },
    /// Write the project's settings, with `game` as its game.
    WriteProjectToml { path: Vec<String>, game: String },
    /// Copy the directory `from` to `to`, leaving alone what is there.
    CopyGameDir { from: Vec<String>, to: Vec<String> },
    /// Remove the file, if it is there.
    RemoveFile { path: Vec<String> },
    /// Write the text as a new file.
    WriteFile { path: Vec<String>, contents: String },
    /// Put the text behind what the file holds.
    AppendFile { path: Vec<String>, contents: String },
    /// Write the text as a new file or, where the file is there, put it
    /// behind what the file holds, on a line of its own.
    WriteOrAppend { path: Vec<String>, contents: String },
    /// Make a git repository in the directory.
    GitInit { dir: Vec<String> },
}

pub ghost enum ProjectStepView {
    CreateDir { path: Seq<Seq<char>> },
    WriteProjectToml { path: Seq<Seq<char>>, game: Seq<char> },
    CopyGameDir { from: Seq<Seq<char>>, to: Seq<Seq<char>> },
    RemoveFile { path: Seq<Seq<char>> },
    WriteFile { path: Seq<Seq<char>>, contents: Seq<char> },
    AppendFile { path: Seq<Seq<char>>, contents: Seq<char> },
    WriteOrAppend { path: Seq<Seq<char>>, contents: Seq<char> },
    GitInit { dir: Seq<Seq<char>> },
}

impl DeepView for ProjectStep {
    type V = ProjectStepView;

    open spec fn deep_view(&self) -> ProjectStepView {
        match self {
            ProjectStep::CreateDir { path } => ProjectStepView::CreateDir {
                path: path.deep_view(),
            },
            ProjectStep::WriteProjectToml { path, game } => ProjectStepView::WriteProjectToml {
                path: path.deep_view(),
                game: game@,
            },
            ProjectStep::CopyGameDir { from, to } => ProjectStepView::CopyGameDir {
                from: from.deep_view(),
                to: to.deep_view(),
            },
            ProjectStep::RemoveFile { path } => ProjectStepView::RemoveFile {
                path: path.deep_view(),
            },
            ProjectStep::WriteFile { path, contents } => ProjectStepView::WriteFile {
                path: path.deep_view(),
                contents: contents@,
            },
            ProjectStep::AppendFile { path, contents } => ProjectStepView::AppendFile {
                path: path.deep_view(),
                contents: contents@,
            },
            ProjectStep::WriteOrAppend { path, contents } => ProjectStepView::WriteOrAppend {
                path: path.deep_view(),
                contents: contents@,
            },
            ProjectStep::GitInit { dir } => ProjectStepView::GitInit { dir: dir.deep_view() },
        }
    }
}

/// The game of a project: the one that is named, else the default game.
pub open spec fn game_of(game_name: Option<Seq<char>>) -> Seq<char> {
    match game_name {
        Some(game) => game,
        None => crate::DEFAULT_GAME@,
    }
}

/// The directory of the game in the second installation, where the
/// configuration names a second installation.
pub open spec fn second_game_dir_of(cfg: CfgView, game: Seq<char>) -> Option<Seq<Seq<char>>> {
    match cfg.no_client_dll_dir {
        Some(second) => Some(seq![second, game]),
        None => None,
    }
}

/// Whether one of the ignored games is in the catalogue.
pub open spec fn any_ignored(types: Seq<DirTypeView>, ignore: Seq<Seq<char>>) -> bool {
    exists|i: int| 0 <= i < ignore.len() && has_name(types, ignore[i])
}

/// Whether a repository is set up: as the caller asks, else as the
/// configuration says.
pub open spec fn wants_git(cfg: CfgView, init_git: bool, no_init_git: bool) -> bool {
    init_git || (!no_init_git && cfg.init_git_on_project)
}

/// Names the directory of the game in the second installation, which must
/// be there where the configuration names it.
pub fn validate_second_client(cfg: &Cfg, second_client_is_dir: bool, game_name_full: &str) -> (dir:
    Result<Option<Vec<String>>, ProjectError>)
    ensures
        cfg.no_client_dll_dir is Some && !second_client_is_dir ==> dir == Err::<
            Option<Vec<String>>,
            ProjectError,
        >(ProjectError::SecondClientMissing),
        cfg.no_client_dll_dir is None || second_client_is_dir ==> dir is Ok
            && dir->Ok_0.deep_view() == second_game_dir_of(cfg.deep_view(), game_name_full@),
{
    match &cfg.no_client_dll_dir {
        Some(second) => {
            if !second_client_is_dir {
                return Err(ProjectError::SecondClientMissing);
            }
            Ok(second_game_dir(cfg, game_name_full))
        },
        None => Ok(None),
    }
}

fn holds_game(types: &Vec<DirType>, name: &str) -> (r: bool)
    ensures
        r == has_name(types.deep_view(), name@),
{
    let mut i: usize = 0;
    while i < types.len()
        invariant
            i <= types.len(),
            forall|k: int| 0 <= k < i ==> types.deep_view()[k].name != name@,
        decreases types.len() - i,
    {
        assert(types.deep_view()[i as int] == types[i as int].deep_view());
        if same_text(types[i].name.as_str(), name) {
            return true;
        }
        i = i + 1;
    }
    false
}

/// Checks that a project can be made for a game: no game that the
/// configuration ignores may be installed, and the installation must hold
/// the game's directory.
pub fn game_dir_validate(cfg: &Cfg, entries: &Vec<SubDir>, game_dir_is_dir: bool) -> (verdict:
    Result<(), ProjectError>)
    ensures
        verdict == (if any_ignored(
            classify(entries.deep_view()),
            cfg.ignore_games.deep_view(),
        ) {
            Err::<(), ProjectError>(ProjectError::GameIgnored)
        } else if !game_dir_is_dir {
            Err(ProjectError::GameNotFound)
        } else {
            Ok(())
        }),
{
    let types = game_dir_types(entries);
    let mut i: usize = 0;
    while i < cfg.ignore_games.len()
        invariant
            i <= cfg.ignore_games.len(),
            types.deep_view() == classify(entries.deep_view()),
            forall|k: int|
                0 <= k < i ==> !has_name(types.deep_view(), cfg.ignore_games.deep_view()[k]),
        decreases cfg.ignore_games.len() - i,
    {
        assert(cfg.ignore_games.deep_view()[i as int] == cfg.ignore_games[i as int]@);
        if holds_game(&types, cfg.ignore_games[i].as_str()) {
            return Err(ProjectError::GameIgnored);
        }
        i = i + 1;
    }
    if !game_dir_is_dir {
        Err(ProjectError::GameNotFound)
    } else {
        Ok(())
    }
}

/// What `ProjectFacts` stands for.
pub ghost struct ProjectFactsView {
    pub project_dir_exists: bool,
    pub project_dir_is_dir: bool,
    pub second_client_is_dir: bool,
    pub entries: Seq<SubDirView>,
    pub game_dir_is_dir: bool,
    pub project_toml_is_file: bool,
    pub git_dir_is_dir: bool,
    pub hook: Option<Seq<u8>>,
    pub gitignore: Option<Seq<u8>>,
    pub half_life_name: Option<Seq<char>>,
    pub second_name: Option<Seq<char>>,
}

impl DeepView for ProjectFacts {
    type V = ProjectFactsView;

    open spec fn deep_view(&self) -> ProjectFactsView {
        ProjectFactsView {
            project_dir_exists: self.project_dir_exists,
            project_dir_is_dir: self.project_dir_is_dir,
            second_client_is_dir: self.second_client_is_dir,
            entries: self.entries.deep_view(),
            game_dir_is_dir: self.game_dir_is_dir,
            project_toml_is_file: self.project_toml_is_file,
            git_dir_is_dir: self.git_dir_is_dir,
            hook: self.hook.deep_view(),
            gitignore: self.gitignore.deep_view(),
            half_life_name: self.half_life_name.deep_view(),
            second_name: self.second_name.deep_view(),
        }
    }
}

/// The lines that make the game load the scripts.
pub const USERCONFIG: &'static str = "exec hltas.cfg\nloadtas2";

/// The steps that bring the game into the second installation: the game's
/// directory is copied, and the client library is taken out of the copy,
/// but for the default game.
pub open spec fn copy_game_dir_of(cfg: CfgView, game: Seq<char>) -> Seq<ProjectStepView> {
    match second_game_dir_of(cfg, game) {
        Some(to) => seq![
            ProjectStepView::CopyGameDir { from: seq![cfg.half_life_dir, game], to },
        ] + (if game == crate::DEFAULT_GAME@ {
            seq![]
        } else {
            seq![ProjectStepView::RemoveFile { path: to + seq!["cl_dlls"@, "client.dll"@] }]
        }),
        None => seq![],
    }
}

/// The steps that make the game load the scripts, in each installation.
pub open spec fn override_userconfig_of(cfg: CfgView, game: Seq<char>) -> Seq<ProjectStepView> {
    seq![
        ProjectStepView::WriteOrAppend {
            path: seq![cfg.half_life_dir, game, "userconfig.cfg"@],
            contents: USERCONFIG@,
        },
    ] + match second_game_dir_of(cfg, game) {
        Some(to) => seq![
            ProjectStepView::WriteOrAppend {
                path: to.push("userconfig.cfg"@),
                contents: USERCONFIG@,
            },
        ],
        None => seq![],
    }
}

/// The step that writes the hook, if one is needed.
pub open spec fn hook_steps_of(project_dir: Seq<Seq<char>>, write: HookWriteView) -> Seq<
    ProjectStepView,
> {
    let path = project_dir.push(".git/hooks/post-checkout"@);
    match write {
        HookWriteView::AlreadyInstalled => seq![],
        HookWriteView::Append(contents) => seq![ProjectStepView::AppendFile { path, contents }],
        HookWriteView::Create(contents) => seq![ProjectStepView::WriteFile { path, contents }],
    }
}

/// The step that writes the list of ignored files, given the digest of the
/// list and that of the list that the project has, if it has one: the list
/// is written as a new file, or, behind a list of another digest, twice
/// with a line feed between.
pub open spec fn gitignore_steps_of(
    project_dir: Seq<Seq<char>>,
    git_ignore: Seq<char>,
    git_ignore_digest: Seq<u8>,
    existing_digest: Option<Seq<u8>>,
) -> Seq<ProjectStepView> {
    let path = project_dir.push(".gitignore"@);
    match existing_digest {
        Some(digest) => if digest == git_ignore_digest {
            seq![]
        } else {
            seq![
                ProjectStepView::AppendFile { path, contents: git_ignore + "\n"@ + git_ignore },
            ]
        },
        None => seq![ProjectStepView::WriteFile { path, contents: git_ignore }],
    }
}

/// The steps that set up the repository of a project.
pub open spec fn git_steps_of(
    cfg: CfgView,
    project_dir: Seq<Seq<char>>,
    facts: ProjectFactsView,
    templates: &ProjectTemplates,
) -> Result<Seq<ProjectStepView>, ScriptError> {
    match hook_write_of(
        templates.hook@,
        sha256(templates.hook.spec_bytes()),
        digest_of(facts.hook),
        facts.half_life_name,
        cfg.no_client_dll_dir is Some,
        facts.second_name,
    ) {
        Err(error) => Err(error),
        Ok(write) => Ok(
            (if facts.git_dir_is_dir {
                seq![]
            } else {
                seq![ProjectStepView::GitInit { dir: project_dir }]
            }) + hook_steps_of(project_dir, write) + gitignore_steps_of(
                project_dir,
                templates.git_ignore@,
                sha256(templates.git_ignore.spec_bytes()),
                digest_of(facts.gitignore),
            ),
        ),
    }
}

/// The steps that make a project of a directory, or why none is made.
pub open spec fn init_project_of(
    cfg: CfgView,
    project_dir: Seq<Seq<char>>,
    game_name: Option<Seq<char>>,
    init_git: bool,
    no_init_git: bool,
    facts: ProjectFactsView,
    templates: &ProjectTemplates,
) -> Result<Seq<ProjectStepView>, ProjectError> {
    let game = game_of(game_name);
    if cfg.no_client_dll_dir is Some && !facts.second_client_is_dir {
        Err(ProjectError::SecondClientMissing)
    } else if any_ignored(classify(facts.entries), cfg.ignore_games) {
        Err(ProjectError::GameIgnored)
    } else if !facts.game_dir_is_dir {
        Err(ProjectError::GameNotFound)
    } else {
        let git = if wants_git(cfg, init_git, no_init_git) {
            git_steps_of(cfg, project_dir, facts, templates)
        } else {
            Ok(seq![])
        };
        match git {
            Err(error) => Err(ProjectError::Hook(error)),
            Ok(git_steps) => Ok(
                (if facts.project_toml_is_file {
                    seq![]
                } else {
                    seq![
                        ProjectStepView::WriteProjectToml {
                            path: project_dir.push(crate::project_toml::FILE_NAME@),
                            game,
                        },
                    ]
                }) + copy_game_dir_of(cfg, game) + override_userconfig_of(cfg, game) + git_steps,
            ),
        }
    }
}

fn push_step(steps: &mut Vec<ProjectStep>, step: ProjectStep)
    ensures
        final(steps).deep_view() == old(steps).deep_view().push(step.deep_view()),
{
    steps.push(step);
    assert(steps.deep_view() =~= old(steps).deep_view().push(step.deep_view()));
}

fn append_steps(steps: &mut Vec<ProjectStep>, more: Vec<ProjectStep>)
    ensures
        final(steps).deep_view() == old(steps).deep_view() + more.deep_view(),
{
    let mut more = more;
    let ghost added = more.deep_view();
    steps.append(&mut more);
    assert(steps.deep_view() =~= old(steps).deep_view() + added);
}

fn child(dir: &Vec<String>, name: &str) -> (path: Vec<String>)
    ensures
        path.deep_view() == dir.deep_view().push(name@),
{
    let mut path = clone_texts(dir);
    let ghost before = path.deep_view();
    path.push(String::from_str(name));
    assert(path.deep_view() =~= before.push(name@));
    path
}

fn second_game_dir(cfg: &Cfg, game: &str) -> (dir: Option<Vec<String>>)
    ensures
        dir.deep_view() == second_game_dir_of(cfg.deep_view(), game@),
{
    match &cfg.no_client_dll_dir {
        Some(second) => {
            let mut path: Vec<String> = Vec::new();
            path.push(second.clone());
            path.push(String::from_str(game));
            assert(path.deep_view() =~= seq![second@, game@]);
            Some(path)
        },
        None => None,
    }
}

/// Plans the copy of the game into the second installation.
pub fn copy_game_dir(cfg: &Cfg, game: &str) -> (steps: Vec<ProjectStep>)
    ensures
        steps.deep_view() == copy_game_dir_of(cfg.deep_view(), game@),
{
    let mut steps: Vec<ProjectStep> = Vec::new();
    assert(steps.deep_view() =~= Seq::<ProjectStepView>::empty());
    match &second_game_dir(cfg, game) {
        Some(to) => {
            let mut from: Vec<String> = Vec::new();
            from.push(cfg.half_life_dir.clone());
            from.push(String::from_str(game));
            assert(from.deep_view() =~= seq![cfg.half_life_dir@, game@]);
            push_step(&mut steps, ProjectStep::CopyGameDir { from, to: clone_texts(to) });
            if !same_text(game, crate::DEFAULT_GAME) {
                let library = child(&child(to, "cl_dlls"), "client.dll");
                assert(library.deep_view() =~= to.deep_view() + seq!["cl_dlls"@, "client.dll"@]);
                push_step(&mut steps, ProjectStep::RemoveFile { path: library });
            }
        },
        None => {},
    }
    assert(steps.deep_view() =~= copy_game_dir_of(cfg.deep_view(), game@));
    steps
}

/// Plans the lines that make the game load the scripts.
pub fn override_userconfig(cfg: &Cfg, game: &str) -> (steps: Vec<ProjectStep>)
    ensures
        steps.deep_view() == override_userconfig_of(cfg.deep_view(), game@),
{
    let mut steps: Vec<ProjectStep> = Vec::new();
    assert(steps.deep_view() =~= Seq::<ProjectStepView>::empty());
    let mut path: Vec<String> = Vec::new();
    path.push(cfg.half_life_dir.clone());
    path.push(String::from_str(game));
    path.push(String::from_str("userconfig.cfg"));
    assert(path.deep_view() =~= seq![cfg.half_life_dir@, game@, "userconfig.cfg"@]);
    push_step(
        &mut steps,
        ProjectStep::WriteOrAppend { path, contents: String::from_str(USERCONFIG) },
    );
    match &second_game_dir(cfg, game) {
        Some(to) => {
            push_step(
                &mut steps,
                ProjectStep::WriteOrAppend {
                    path: child(to, "userconfig.cfg"),
                    contents: String::from_str(USERCONFIG),
                },
            );
        },
        None => {},
    }
    assert(steps.deep_view() =~= override_userconfig_of(cfg.deep_view(), game@));
    steps
}

/// Plans the list of files that git ignores, from the digest of the list
/// and that of the list that the project has, if it has one.
pub fn gitignore_steps(
    project_dir: &Vec<String>,
    git_ignore: &str,
    git_ignore_digest: &[u8],
    existing_digest: &Option<Vec<u8>>,
) -> (steps: Vec<ProjectStep>)
    ensures
        steps.deep_view() == gitignore_steps_of(
            project_dir.deep_view(),
            git_ignore@,
            git_ignore_digest@,
            existing_digest.deep_view(),
        ),
{
    let mut steps: Vec<ProjectStep> = Vec::new();
    assert(steps.deep_view() =~= Seq::<ProjectStepView>::empty());
    let path = child(project_dir, ".gitignore");
    match existing_digest {
        Some(digest) => {
            assert(digest.deep_view() =~= digest@);
            if !same_bytes(digest.as_slice(), git_ignore_digest) {
                let contents = String::from_str(git_ignore).concat("\n").concat(git_ignore);
                push_step(&mut steps, ProjectStep::AppendFile { path, contents });
            }
        },
        None => {
            push_step(
                &mut steps,
                ProjectStep::WriteFile { path, contents: String::from_str(git_ignore) },
            );
        },
    }
    assert(steps.deep_view() =~= gitignore_steps_of(
        project_dir.deep_view(),
        git_ignore@,
        git_ignore_digest@,
        existing_digest.deep_view(),
    ));
    steps
}

/// Plans the repository of a project: the repository itself where there
/// is none, the hook that links the scripts after a checkout, and the list
/// of files that git ignores.
pub fn set_up_git(
    cfg: &Cfg,
    project_dir: &Vec<String>,
    facts: &ProjectFacts,
    templates: &ProjectTemplates,
) -> (steps: Result<Vec<ProjectStep>, ScriptError>)
    ensures
        match git_steps_of(cfg.deep_view(), project_dir.deep_view(), facts.deep_view(), templates) {
            Ok(expected) => steps is Ok && steps->Ok_0.deep_view() == expected,
            Err(error) => steps == Err::<Vec<ProjectStep>, ScriptError>(error),
        },
{
    let write = match write_hard_link_shell_hook(
        templates.hook,
        &facts.hook,
        &facts.half_life_name,
        cfg.no_client_dll_dir.is_some(),
        &facts.second_name,
    ) {
        Ok(write) => write,
        Err(error) => {
            return Err(error);
        },
    };
    let mut steps: Vec<ProjectStep> = Vec::new();
    assert(steps.deep_view() =~= Seq::<ProjectStepView>::empty());
    if !facts.git_dir_is_dir {
        push_step(&mut steps, ProjectStep::GitInit { dir: clone_texts(project_dir) });
    }
    let path = child(project_dir, ".git/hooks/post-checkout");
    let ghost expected = hook_steps_of(project_dir.deep_view(), write.deep_view());
    let ghost before = steps.deep_view();
    match write {
        HookWrite::AlreadyInstalled => {},
        HookWrite::Append(contents) => {
            push_step(&mut steps, ProjectStep::AppendFile { path, contents });
        },
        HookWrite::Create(contents) => {
            push_step(&mut steps, ProjectStep::WriteFile { path, contents });
        },
    }
    assert(steps.deep_view() =~= before + expected);
    let git_ignore_digest = sha_256_file(&templates.git_ignore.as_bytes_vec());
    append_steps(
        &mut steps,
        gitignore_steps(
            project_dir,
            templates.git_ignore,
            git_ignore_digest.as_slice(),
            &digest_if_file(&facts.gitignore),
        ),
    );
    Ok(steps)
}

/// Plans the making of a project of the directory `project_dir`.
///
/// The project's game is the one named, else the default game. The second
/// installation must be there where the configuration names it; no game
/// that the configuration ignores may be installed; and the installation
/// must hold the game. Then the project gets its settings unless it has
/// them, the game is brought into the second installation, the game is
/// made to load the scripts, and a repository is set up if the caller asks
/// for one, or does not refuse one that the configuration asks for.
pub fn init_project(
    cfg: &Cfg,
    project_dir: &Vec<String>,
    game_name: &Option<String>,
    init_git: bool,
    no_init_git: bool,
    facts: &ProjectFacts,
    templates: &ProjectTemplates,
) -> (steps: Result<Vec<ProjectStep>, ProjectError>)
    ensures
        match init_project_of(
            cfg.deep_view(),
            project_dir.deep_view(),
            game_name.deep_view(),
            init_git,
            no_init_git,
            facts.deep_view(),
            templates,
        ) {
            Ok(expected) => steps is Ok && steps->Ok_0.deep_view() == expected,
            Err(error) => steps == Err::<Vec<ProjectStep>, ProjectError>(error),
        },
{
    let game: &str = match game_name {
        Some(game) => game.as_str(),
        None => crate::DEFAULT_GAME,
    };
    match validate_second_client(cfg, facts.second_client_is_dir, game) {
        Ok(_) => {},
        Err(error) => {
            return Err(error);
        },
    }
    match game_dir_validate(cfg, &facts.entries, facts.game_dir_is_dir) {
        Ok(()) => {},
        Err(error) => {
            return Err(error);
        },
    }
    let git = if init_git || (!no_init_git && cfg.init_git_on_project) {
        match set_up_git(cfg, project_dir, facts, templates) {
            Ok(steps) => steps,
            Err(error) => {
                return Err(ProjectError::Hook(error));
            },
        }
    } else {
        let none: Vec<ProjectStep> = Vec::new();
        assert(none.deep_view() =~= Seq::<ProjectStepView>::empty());
        none
    };
    let mut steps: Vec<ProjectStep> = Vec::new();
    assert(steps.deep_view() =~= Seq::<ProjectStepView>::empty());
    if !facts.project_toml_is_file {
        push_step(
            &mut steps,
            ProjectStep::WriteProjectToml {
                path: child(project_dir, crate::project_toml::FILE_NAME),
                game: String::from_str(game),
            },
        );
    }
    append_steps(&mut steps, copy_game_dir(cfg, game));
    append_steps(&mut steps, override_userconfig(cfg, game));
    append_steps(&mut steps, git);
    Ok(steps)
}

/// The directory of the project `project_name`.
pub open spec fn project_dir_of(cfg: CfgView, project_name: Seq<char>) -> Seq<Seq<char>> {
    seq![cfg.project_dir, project_name]
}

fn project_dir(cfg: &Cfg, project_name: &str) -> (path: Vec<String>)
    ensures
        path.deep_view() == project_dir_of(cfg.deep_view(), project_name@),
{
    let mut path: Vec<String> = Vec::new();
    path.push(cfg.project_dir.clone());
    path.push(String::from_str(project_name));
    assert(path.deep_view() =~= seq![cfg.project_dir@, project_name@]);
    path
}

/// Plans a new project: its directory, which must not be there yet, is
/// made, and a project is made of it.
pub fn new(
    cfg: &Cfg,
    project_name: &str,
    game_name: &Option<String>,
    init_git: bool,
    no_init_git: bool,
    facts: &ProjectFacts,
    templates: &ProjectTemplates,
) -> (steps: Result<Vec<ProjectStep>, ProjectError>)
    ensures
        facts.project_dir_exists ==> steps == Err::<Vec<ProjectStep>, ProjectError>(
            ProjectError::ProjectExists,
        ),
        !facts.project_dir_exists ==> match init_project_of(
            cfg.deep_view(),
            project_dir_of(cfg.deep_view(), project_name@),
            game_name.deep_view(),
            init_git,
            no_init_git,
            facts.deep_view(),
            templates,
        ) {
            Ok(expected) => steps is Ok && steps->Ok_0.deep_view() == seq![
                ProjectStepView::CreateDir {
                    path: project_dir_of(cfg.deep_view(), project_name@),
                },
            ] + expected,
            Err(error) => steps == Err::<Vec<ProjectStep>, ProjectError>(error),
        },
{
    if facts.project_dir_exists {
        return Err(ProjectError::ProjectExists);
    }
    let dir = project_dir(cfg, project_name);
    match init_project(cfg, &dir, game_name, init_git, no_init_git, facts, templates) {
        Ok(rest) => {
            let mut steps: Vec<ProjectStep> = Vec::new();
            assert(steps.deep_view() =~= Seq::<ProjectStepView>::empty());
            push_step(&mut steps, ProjectStep::CreateDir { path: dir });
            append_steps(&mut steps, rest);
            Ok(steps)
        },
        Err(error) => Err(error),
    }
}

/// Plans a project of the directory `project_name`, which must be there.
pub fn init(
    cfg: &Cfg,
    project_name: &str,
    game_name: &Option<String>,
    init_git: bool,
    no_init_git: bool,
    facts: &ProjectFacts,
    templates: &ProjectTemplates,
) -> (steps: Result<Vec<ProjectStep>, ProjectError>)
    ensures
        !facts.project_dir_is_dir ==> steps == Err::<Vec<ProjectStep>, ProjectError>(
            ProjectError::ProjectMissing,
        ),
        facts.project_dir_is_dir ==> match init_project_of(
            cfg.deep_view(),
            project_dir_of(cfg.deep_view(), project_name@),
            game_name.deep_view(),
            init_git,
            no_init_git,
            facts.deep_view(),
            templates,
        ) {
            Ok(expected) => steps is Ok && steps->Ok_0.deep_view() == expected,
            Err(error) => steps == Err::<Vec<ProjectStep>, ProjectError>(error),
        },
{
    if !facts.project_dir_is_dir {
        return Err(ProjectError::ProjectMissing);
    }
    let dir = project_dir(cfg, project_name);
    init_project(cfg, &dir, game_name, init_git, no_init_git, facts, templates)
}

} // verus!
