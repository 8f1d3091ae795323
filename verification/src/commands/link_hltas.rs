//! Linking the projects' scripts into the game.
//!
//! Every script of a project is linked into the directory of each
//! installation, where the game looks for it under its bare name.

use crate::cfg::{Cfg, CfgView};
use crate::commands::sync::{SyncLoop, SyncPhase, SyncStep};
use crate::helper::{separate, LinkOp, LinkOpView};
use crate::text::{ends_with, has_suffix};
use vstd::prelude::*;

verus! {

/// Ending of the name of a script.
pub const SCRIPT_ENDING: &'static str = ".hltas";

/// The directory of a project: it lies in `parent`, which lies in the root
/// directory.
#[derive(Clone, Debug, PartialEq, Eq)]
pub struct ProjectDir {
    pub parent: String,
    pub name: String,
}

/// A script in the directory of a project.
#[derive(Clone, Debug, PartialEq, Eq)]
pub struct ScriptFile {
    pub dir: ProjectDir,
    pub file_name: String,
}

pub ghost struct ProjectDirView {
    pub parent: Seq<char>,
    pub name: Seq<char>,
}

pub ghost struct ScriptFileView {
    pub dir: ProjectDirView,
    pub file_name: Seq<char>,
}

impl DeepView for ProjectDir {
    type V = ProjectDirView;

    open spec fn deep_view(&self) -> ProjectDirView {
        ProjectDirView { parent: self.parent@, name: self.name@ }
    }
}

impl DeepView for ScriptFile {
    type V = ScriptFileView;

    open spec fn deep_view(&self) -> ScriptFileView {
        ScriptFileView { dir: self.dir.deep_view(), file_name: self.file_name@ }
    }
}

/// Whether a file of this name is a script: the name ends with `.hltas` and
/// has something before that.
pub open spec fn is_script_name(name: Seq<char>) -> bool {
    name.len() > 6 && ends_with(name, seq!['.', 'h', 'l', 't', 'a', 's'])
}

/// The directories whose scripts are linked: the project that the command
/// runs in, or else every entry of the directory of the projects.
pub open spec fn project_dirs_of(
    cfg: CfgView,
    here: Option<ProjectDirView>,
    projects: Seq<Seq<char>>,
) -> Seq<ProjectDirView> {
    match here {
        Some(dir) => seq![dir],
        None => Seq::new(
            projects.len(),
            |i: int| ProjectDirView { parent: cfg.project_dir, name: projects[i] },
        ),
    }
}

/// The scripts among the entries of a project's directory, in the
/// listing's order.
pub open spec fn hltases_of(dir: ProjectDirView, entries: Seq<Seq<char>>) -> Seq<ScriptFileView>
    decreases entries.len(),
{
    if entries.len() == 0 {
        seq![]
    } else if is_script_name(entries.last()) {
        hltases_of(dir, entries.drop_last()).push(
            ScriptFileView { dir, file_name: entries.last() },
        )
    } else {
        hltases_of(dir, entries.drop_last())
    }
}

/// The links that one script gets: one in the first installation, and one
/// in the second where there is a second.
pub open spec fn links_of(cfg: CfgView, script: ScriptFileView) -> Seq<LinkOpView> {
    let source = seq![script.dir.parent, script.dir.name, script.file_name];
    let first = LinkOpView { source, link: seq![cfg.half_life_dir, script.file_name] };
    match cfg.no_client_dll_dir {
        Some(second) => seq![first, LinkOpView { source, link: seq![second, script.file_name] }],
        None => seq![first],
    }
}

/// The links of all scripts, script by script.
pub open spec fn script_links_of(cfg: CfgView, scripts: Seq<ScriptFileView>) -> Seq<LinkOpView>
    decreases scripts.len(),
{
    if scripts.len() == 0 {
        seq![]
    } else {
        script_links_of(cfg, scripts.drop_last()) + links_of(cfg, scripts.last())
    }
}

/// Every source of the links has three parts and every link two: no
/// link is made where a source lies.
pub proof fn lemma_script_links_shape(cfg: CfgView, scripts: Seq<ScriptFileView>)
    ensures
        forall|i: int|
            0 <= i < script_links_of(cfg, scripts).len() ==> (#[trigger] script_links_of(
                cfg,
                scripts,
            )[i]).source.len() == 3 && script_links_of(cfg, scripts)[i].link.len() == 2,
        separate(script_links_of(cfg, scripts)),
    decreases scripts.len(),
{
    if scripts.len() > 0 {
        lemma_script_links_shape(cfg, scripts.drop_last());
    }
    let ops = script_links_of(cfg, scripts);
    assert forall|i: int, j: int| 0 <= i < ops.len() && 0 <= j < ops.len() implies ops[i].link
        != ops[j].source by {
        assert(ops[i].link.len() == 2);
        assert(ops[j].source.len() == 3);
    }
}

/// Whether `name` names a script.
pub fn is_script_file(name: &str) -> (r: bool)
    ensures
        r == is_script_name(name@),
{
    proof {
        reveal_strlit(".hltas");
        assert(SCRIPT_ENDING@ =~= seq!['.', 'h', 'l', 't', 'a', 's']);
    }
    name.unicode_len() > 6 && has_suffix(name, SCRIPT_ENDING)
}

/// Names the directories whose scripts are to be linked. `here` is the
/// project in whose directory the command runs, if it runs in one;
/// `projects` holds the entries of the directory of the projects.
pub fn project_dirs(cfg: &Cfg, here: &Option<ProjectDir>, projects: &Vec<String>) -> (dirs: Vec<
    ProjectDir,
>)
    ensures
        dirs.deep_view() == project_dirs_of(
            cfg.deep_view(),
            here.deep_view(),
            projects.deep_view(),
        ),
{
    let mut dirs: Vec<ProjectDir> = Vec::new();
    match here {
        Some(dir) => {
            dirs.push(ProjectDir { parent: dir.parent.clone(), name: dir.name.clone() });
            assert(dirs.deep_view() =~= seq![dir.deep_view()]);
        },
        None => {
            let ghost expected = project_dirs_of(cfg.deep_view(), None, projects.deep_view());
            let mut i: usize = 0;
            assert(dirs.deep_view() =~= expected.take(0));
            while i < projects.len()
                invariant
                    i <= projects.len(),
                    expected == project_dirs_of(cfg.deep_view(), None, projects.deep_view()),
                    dirs.deep_view() == expected.take(i as int),
                decreases projects.len() - i,
            {
                let ghost before = dirs.deep_view();
                let dir = ProjectDir { parent: cfg.project_dir.clone(), name: projects[i].clone() };
                assert(projects.deep_view()[i as int] == projects[i as int]@);
                assert(dir.deep_view() == expected[i as int]);
                dirs.push(dir);
                assert(dirs.deep_view() =~= before.push(expected[i as int]));
                assert(expected.take(i + 1) =~= before.push(expected[i as int]));
                i = i + 1;
            }
            assert(expected.take(projects.len() as int) =~= expected);
        },
    }
    dirs
}

/// The scripts among the entries of the directory of a project.
pub fn hltases_from_dir(dir: &ProjectDir, entries: &Vec<String>) -> (scripts: Vec<ScriptFile>)
    ensures
        scripts.deep_view() == hltases_of(dir.deep_view(), entries.deep_view()),
{
    let mut scripts: Vec<ScriptFile> = Vec::new();
    let mut i: usize = 0;
    proof {
        assert(entries.deep_view().take(0) =~= Seq::<Seq<char>>::empty());
        assert(scripts.deep_view() =~= Seq::<ScriptFileView>::empty());
    }
    while i < entries.len()
        invariant
            i <= entries.len(),
            scripts.deep_view() == hltases_of(dir.deep_view(), entries.deep_view().take(i as int)),
        decreases entries.len() - i,
    {
        let ghost before = scripts.deep_view();
        proof {
            let all = entries.deep_view();
            assert(all.take(i + 1).drop_last() =~= all.take(i as int));
            assert(all.take(i + 1).last() == entries[i as int]@);
        }
        if is_script_file(entries[i].as_str()) {
            let script = ScriptFile {
                dir: ProjectDir { parent: dir.parent.clone(), name: dir.name.clone() },
                file_name: entries[i].clone(),
            };
            scripts.push(script);
            assert(scripts.deep_view() =~= before.push(script.deep_view()));
        }
        i = i + 1;
    }
    assert(entries.deep_view().take(entries.len() as int) =~= entries.deep_view());
    scripts
}

/// Plans the links of one pass over the scripts: each script is linked
/// under its own name into the first installation and, where the
/// configuration names one, into the second. No link lies where a source
/// does, so that a second pass over the same scripts leaves the links as
/// the first made them.
pub fn link_hltas_once(cfg: &Cfg, scripts: &Vec<ScriptFile>) -> (ops: Vec<LinkOp>)
    ensures
        ops.deep_view() == script_links_of(cfg.deep_view(), scripts.deep_view()),
        separate(ops.deep_view()),
{
    let mut ops: Vec<LinkOp> = Vec::new();
    let mut i: usize = 0;
    proof {
        assert(scripts.deep_view().take(0) =~= Seq::<ScriptFileView>::empty());
        assert(ops.deep_view() =~= Seq::<LinkOpView>::empty());
    }
    while i < scripts.len()
        invariant
            i <= scripts.len(),
            ops.deep_view() == script_links_of(cfg.deep_view(), scripts.deep_view().take(i as int)),
        decreases scripts.len() - i,
    {
        let script = &scripts[i];
        let ghost before = ops.deep_view();
        let ghost source = seq![script.dir.parent@, script.dir.name@, script.file_name@];
        proof {
            let all = scripts.deep_view();
            assert(all.take(i + 1).drop_last() =~= all.take(i as int));
            assert(all.take(i + 1).last() == script.deep_view());
        }
        let mut link: Vec<String> = Vec::new();
        link.push(cfg.half_life_dir.clone());
        link.push(script.file_name.clone());
        assert(link.deep_view() =~= seq![cfg.half_life_dir@, script.file_name@]);
        let first = LinkOp { source: script_path(script), link };
        ops.push(first);
        assert(ops.deep_view() =~= before.push(first.deep_view()));
        match &cfg.no_client_dll_dir {
            Some(second) => {
                let mut link: Vec<String> = Vec::new();
                link.push(second.clone());
                link.push(script.file_name.clone());
                assert(link.deep_view() =~= seq![second@, script.file_name@]);
                let other = LinkOp { source: script_path(script), link };
                ops.push(other);
                assert(ops.deep_view() =~= before + seq![first.deep_view(), other.deep_view()]);
            },
            None => {
                assert(ops.deep_view() =~= before + seq![first.deep_view()]);
            },
        }
        i = i + 1;
    }
    proof {
        assert(scripts.deep_view().take(scripts.len() as int) =~= scripts.deep_view());
        lemma_script_links_shape(cfg.deep_view(), scripts.deep_view());
    }
    ops
}

fn script_path(script: &ScriptFile) -> (path: Vec<String>)
    ensures
        path.deep_view() == seq![script.dir.parent@, script.dir.name@, script.file_name@],
{
    let mut path: Vec<String> = Vec::new();
    path.push(script.dir.parent.clone());
    path.push(script.dir.name.clone());
    path.push(script.file_name.clone());
    assert(path.deep_view() =~= seq![script.dir.parent@, script.dir.name@, script.file_name@]);
    path
}

/// The loop that links the scripts: one pass, or with `keep_alive` a pass
/// every second, whose single links are then not told.
pub fn link_hltas(keep_alive: bool) -> (begun: (SyncLoop, SyncStep))
    ensures
        begun.0 == (SyncLoop {
            forever: keep_alive,
            links: true,
            saves: false,
            phase: SyncPhase::Linking,
        }),
        begun.1 == (SyncStep::LinkScripts { silent: keep_alive }),
{
    SyncLoop::begin(keep_alive, true, false)
}

} // verus!
