//! Setting the tool up: the checks before anything is touched, and the
//! steps that follow.

use crate::cfg::{default_cfg, Cfg, CfgView};
use crate::commands::games::{
    classify, dir_names_of, game_dir_types, DirType, DirTypeView, SubDir, SubDirView,
};
use crate::files::{cfg_files, cfg_links_of, first_missing, hard_link_cfgs, LinkError};
use crate::helper::{
    digest_if_file, digest_of, same_bytes, separate, sha256, sha_256_file, LinkOp, LinkOpView,
};
use crate::text::{holds_text, same_text};
use vstd::prelude::*;

verus! {

/// What the caller sets in place of the configuration's values.
pub struct Override<'a> {
    pub projects_dir: &'a Option<String>,
    pub half_life_dir: &'a Option<String>,
    /// Whether the script files are written in their short form.
    pub minimum_cfgs: bool,
    /// The script files that are written anew though they are there.
    pub reset_cfgs: &'a Option<Vec<String>>,
}

/// The SHA-256 digest of the library `steam_api.dll` as the game ships it.
pub open spec fn steam_api_dll_hash() -> Seq<u8> {
    seq![
        0x8cu8, 0x07u8, 0x3eu8, 0x0du8, 0x2cu8, 0xa3u8, 0x9du8, 0x1eu8, 0x98u8, 0x6bu8, 0xecu8,
        0x34u8, 0x8fu8, 0x98u8, 0x83u8, 0x03u8, 0x35u8, 0x7bu8, 0xe5u8, 0xc4u8, 0x95u8, 0xccu8,
        0xf6u8, 0xe0u8, 0x41u8, 0x58u8, 0x02u8, 0xb8u8, 0x6eu8, 0xaeu8, 0x35u8, 0x34u8,
    ]
}

/// The SHA-256 digest of the library `steam_api.dll` as the game ships it.
pub const STEAM_API_DLL_HASH: [u8; 32] = [
    0x8c, 0x07, 0x3e, 0x0d, 0x2c, 0xa3, 0x9d, 0x1e, 0x98, 0x6b, 0xec, 0x34, 0x8f, 0x98, 0x83, 0x03,
    0x35, 0x7b, 0xe5, 0xc4, 0x95, 0xcc, 0xf6, 0xe0, 0x41, 0x58, 0x02, 0xb8, 0x6e, 0xae, 0x35, 0x34,
];

/// The configuration to work with, and what is to be written of it.
#[derive(Clone, Debug, PartialEq, Eq)]
pub struct CfgSetUp {
    pub cfg: Cfg,
    /// Whether the default configuration is written first, because none
    /// could be read.
    pub save_default: bool,
    /// Whether the configuration is written with the caller's values in it.
    pub save: bool,
}

/// The configuration with the caller's values in place of its own.
pub open spec fn overridden(
    cfg: CfgView,
    projects_dir: Option<Seq<char>>,
    half_life_dir: Option<Seq<char>>,
) -> CfgView {
    CfgView {
        project_dir: match projects_dir {
            Some(dir) => dir,
            None => cfg.project_dir,
        },
        half_life_dir: match half_life_dir {
            Some(dir) => dir,
            None => cfg.half_life_dir,
        },
        ..cfg
    }
}

/// Settles the configuration of an installation. `loaded` is the
/// configuration that was read, `None` where there is no file or none that
/// can be read: the default then takes its place and is written. The
/// caller's directories go in, and the configuration is written again if
/// there are any.
pub fn cfg_file_set_up(loaded: Option<Cfg>, override_: &Override) -> (set_up: CfgSetUp)
    ensures
        set_up.cfg.deep_view() == overridden(
            match loaded {
                Some(cfg) => cfg.deep_view(),
                None => default_cfg(),
            },
            override_.projects_dir.deep_view(),
            override_.half_life_dir.deep_view(),
        ),
        set_up.save_default == (loaded is None),
        set_up.save == (override_.projects_dir is Some || override_.half_life_dir is Some),
{
    let save_default = loaded.is_none();
    let mut cfg = match loaded {
        Some(cfg) => cfg,
        None => Cfg::default(),
    };
    let mut save = false;
    match override_.projects_dir {
        Some(dir) => {
            cfg.project_dir = dir.clone();
            save = true;
        },
        None => {},
    }
    match override_.half_life_dir {
        Some(dir) => {
            cfg.half_life_dir = dir.clone();
            save = true;
        },
        None => {},
    }
    CfgSetUp { cfg, save_default, save }
}

/// Why the tool cannot be set up.
#[derive(Clone, Copy, Debug, PartialEq, Eq)]
pub enum InstallError {
    /// The game's installation is not there.
    HalfLifeDirMissing,
    /// The simulator's library does not lie beside the tool.
    SimDllMissing,
    /// The installation holds no `steam_api.dll`.
    SteamApiDllMissing,
    /// Neither `steam_api.dll` nor the copy kept of it is the library as
    /// the game ships it.
    ResetDllMismatch,
}

impl InstallError {
    /// The error in words.
    pub fn message(&self) -> (text: String)
        ensures
            text@ == match self {
                InstallError::HalfLifeDirMissing =>
                    "Half-life directory does not exist, possible that you don't have the manager in a GoldSrc Package folder"@,
                InstallError::SimDllMissing => "_sim.dll does not exist in the root directory"@,
                InstallError::SteamApiDllMissing =>
                    "steam_api.dll does not exist in the Half-Life directory"@,
                InstallError::ResetDllMismatch =>
                    "_reset.dll hash is not matching default steam_api.dll hash"@,
            },
    {
        match self {
            InstallError::HalfLifeDirMissing => String::from_str(
                "Half-life directory does not exist, possible that you don't have the manager in a GoldSrc Package folder",
            ),
            InstallError::SimDllMissing => String::from_str(
                "_sim.dll does not exist in the root directory",
            ),
            InstallError::SteamApiDllMissing => String::from_str(
                "steam_api.dll does not exist in the Half-Life directory",
            ),
            InstallError::ResetDllMismatch => String::from_str(
                "_reset.dll hash is not matching default steam_api.dll hash",
            ),
        }
    }
}

/// What the check of `steam_api.dll` found.
#[derive(Clone, Copy, Debug, PartialEq, Eq)]
pub enum SteamApi {
    /// It is the library as the game ships it.
    Shipped,
    /// It is another library, and the copy kept of the shipped one is good.
    Replaced,
    /// It is another library, and no copy of the shipped one is kept: the
    /// simulator client cannot be switched back.
    Unknown,
}

/// What is found on disk before an installation.
#[derive(Clone, Debug, PartialEq, Eq)]
pub struct InstallFacts {
    pub half_life_dir_is_dir: bool,
    /// Whether `_sim.dll` lies beside the tool.
    pub sim_dll_is_file: bool,
    /// What `steam_api.dll` in the installation holds, if it is there.
    pub steam_api_dll: Option<Vec<u8>>,
    /// What `_reset.dll` in the installation holds, if it is there.
    pub reset_dll: Option<Vec<u8>>,
    /// Whether the directory of the projects is there.
    pub projects_dir_is_dir: bool,
    /// Whether the second installation is there.
    pub second_dir_is_dir: bool,
    /// The entries of the installation.
    pub entries: Vec<SubDir>,
    /// Whether the optimiser's script lies beside the tool.
    pub optim_script_is_file: bool,
}

/// What the digests of `steam_api.dll` and of the copy kept of it say: the
/// library is the shipped one, or the copy is, or there is no copy; a copy
/// that is not the shipped library is refused.
pub open spec fn steam_api_of(library_digest: Seq<u8>, copy_digest: Option<Seq<u8>>) -> Result<
    SteamApi,
    InstallError,
> {
    if library_digest == steam_api_dll_hash() {
        Ok(SteamApi::Shipped)
    } else {
        match copy_digest {
            None => Ok(SteamApi::Unknown),
            Some(digest) => if digest == steam_api_dll_hash() {
                Ok(SteamApi::Replaced)
            } else {
                Err(InstallError::ResetDllMismatch)
            },
        }
    }
}

/// The verdict on the files of an installation.
pub open spec fn verified(
    half_life_dir_is_dir: bool,
    sim_dll_is_file: bool,
    steam_api_dll: Option<Seq<u8>>,
    reset_dll: Option<Seq<u8>>,
) -> Result<SteamApi, InstallError> {
    if !half_life_dir_is_dir {
        Err(InstallError::HalfLifeDirMissing)
    } else if !sim_dll_is_file {
        Err(InstallError::SimDllMissing)
    } else {
        match steam_api_dll {
            None => Err(InstallError::SteamApiDllMissing),
            Some(library) => steam_api_of(sha256(library), digest_of(reset_dll)),
        }
    }
}

/// Judges `steam_api.dll` by its digest and by that of `_reset.dll`, the
/// copy kept of the shipped library, if there is one.
pub fn check_steam_api(library_digest: &[u8], copy_digest: &Option<Vec<u8>>) -> (verdict: Result<
    SteamApi,
    InstallError,
>)
    ensures
        verdict == steam_api_of(library_digest@, copy_digest.deep_view()),
{
    let expected = STEAM_API_DLL_HASH;
    assert(expected@ =~= steam_api_dll_hash());
    if same_bytes(library_digest, expected.as_slice()) {
        Ok(SteamApi::Shipped)
    } else {
        match copy_digest {
            None => Ok(SteamApi::Unknown),
            Some(digest) => {
                assert(digest.deep_view() =~= digest@);
                if same_bytes(digest.as_slice(), expected.as_slice()) {
                    Ok(SteamApi::Replaced)
                } else {
                    Err(InstallError::ResetDllMismatch)
                }
            },
        }
    }
}

/// Checks the files that an installation needs: the game's directory, the
/// simulator's library beside the tool, and `steam_api.dll`, which must be
/// the shipped library, or have a good copy of the shipped one kept beside
/// it, or have no copy at all.
pub fn verify_files(facts: &InstallFacts) -> (verdict: Result<SteamApi, InstallError>)
    ensures
        verdict == verified(
            facts.half_life_dir_is_dir,
            facts.sim_dll_is_file,
            facts.steam_api_dll.deep_view(),
            facts.reset_dll.deep_view(),
        ),
{
    if !facts.half_life_dir_is_dir {
        return Err(InstallError::HalfLifeDirMissing);
    }
    if !facts.sim_dll_is_file {
        return Err(InstallError::SimDllMissing);
    }
    match &facts.steam_api_dll {
        None => Err(InstallError::SteamApiDllMissing),
        Some(library) => {
            assert(library.deep_view() =~= library@);
            let library_digest = sha_256_file(library);
            check_steam_api(library_digest.as_slice(), &digest_if_file(&facts.reset_dll))
        },
    }
}

/// Whether the entry `name` of the installation is the directory of a
/// game of the catalogue or of one of its variants.
pub open spec fn belongs_to_game(types: Seq<DirTypeView>, name: Seq<char>) -> bool {
    exists|i: int| 0 <= i < types.len() && dir_names_of(types[i]).contains(name)
}

/// Whether the entry `name` is copied into the second installation: all
/// that is no game is, and of the games only the default one.
pub open spec fn is_copied(types: Seq<DirTypeView>, name: Seq<char>) -> bool {
    name == crate::DEFAULT_GAME@ || !belongs_to_game(types, name)
}

/// The entries that are copied into the second installation, in the
/// listing's order.
pub open spec fn copy_paths_of(names: Seq<Seq<char>>, types: Seq<DirTypeView>) -> Seq<Seq<char>>
    decreases names.len(),
{
    if names.len() == 0 {
        seq![]
    } else if is_copied(types, names.last()) {
        copy_paths_of(names.drop_last(), types).push(names.last())
    } else {
        copy_paths_of(names.drop_last(), types)
    }
}

fn is_game_dir(types: &Vec<DirType>, name: &str) -> (r: bool)
    ensures
        r == belongs_to_game(types.deep_view(), name@),
{
    let mut i: usize = 0;
    while i < types.len()
        invariant
            i <= types.len(),
            forall|k: int| 0 <= k < i ==> !dir_names_of(types.deep_view()[k]).contains(name@),
        decreases types.len() - i,
    {
        let names = types[i].dir_names();
        assert(types.deep_view()[i as int] == types[i as int].deep_view());
        if holds_text(&names, name) {
            return true;
        }
        i = i + 1;
    }
    false
}

/// Picks, from the names of the installation's entries, those that are
/// copied into the second installation. The other games get there when a
/// project is made for them.
pub fn copy_paths(names: &Vec<String>, types: &Vec<DirType>) -> (paths: Vec<String>)
    ensures
        paths.deep_view() == copy_paths_of(names.deep_view(), types.deep_view()),
{
    let mut paths: Vec<String> = Vec::new();
    let mut i: usize = 0;
    proof {
        assert(names.deep_view().take(0) =~= Seq::<Seq<char>>::empty());
        assert(paths.deep_view() =~= Seq::<Seq<char>>::empty());
    }
    while i < names.len()
        invariant
            i <= names.len(),
            paths.deep_view() == copy_paths_of(names.deep_view().take(i as int), types.deep_view()),
        decreases names.len() - i,
    {
        let ghost before = paths.deep_view();
        proof {
            let all = names.deep_view();
            assert(all.take(i + 1).drop_last() =~= all.take(i as int));
            assert(all.take(i + 1).last() == names[i as int]@);
        }
        let name = names[i].as_str();
        if same_text(name, crate::DEFAULT_GAME) || !is_game_dir(types, name) {
            paths.push(names[i].clone());
            assert(paths.deep_view() =~= before.push(names[i as int]@));
        }
        i = i + 1;
    }
    assert(names.deep_view().take(names.len() as int) =~= names.deep_view());
    paths
}

/// The directories of the games of one installation that get the script
/// files: those of the catalogue that the configuration does not ignore.
pub open spec fn game_dirs_of(
    installation: Seq<char>,
    types: Seq<DirTypeView>,
    ignore: Seq<Seq<char>>,
) -> Seq<Seq<Seq<char>>>
    decreases types.len(),
{
    if types.len() == 0 {
        seq![]
    } else if ignore.contains(types.last().name) {
        game_dirs_of(installation, types.drop_last(), ignore)
    } else {
        game_dirs_of(installation, types.drop_last(), ignore).push(
            seq![installation, types.last().name],
        )
    }
}

/// The directories that get the script files: the games of the first
/// installation, then those of the second where there is one.
pub open spec fn dest_dirs_of(cfg: CfgView, primary: Seq<SubDirView>, mirror: Seq<SubDirView>)
    -> Seq<Seq<Seq<char>>> {
    game_dirs_of(cfg.half_life_dir, classify(primary), cfg.ignore_games) + (
    match cfg.no_client_dll_dir {
        Some(second) => game_dirs_of(second, classify(mirror), cfg.ignore_games),
        None => seq![],
    })
}

/// The links of the script files into each of the directories.
pub open spec fn links_into(cfgs_dir: Seq<char>, dirs: Seq<Seq<Seq<char>>>) -> Seq<LinkOpView>
    decreases dirs.len(),
{
    if dirs.len() == 0 {
        seq![]
    } else {
        links_into(cfgs_dir, dirs.drop_last()) + cfg_links_of(cfgs_dir, dirs.last())
    }
}

/// The links of the script files into the games, or the name of the first
/// script file that is missing where there is a game to link into.
pub open spec fn cfgs_link_of(
    cfg: CfgView,
    existing: Seq<Seq<char>>,
    primary: Seq<SubDirView>,
    mirror: Seq<SubDirView>,
) -> Result<Seq<LinkOpView>, Seq<char>> {
    match cfg.cfgs_dir {
        None => Ok(seq![]),
        Some(cfgs_dir) => {
            let dirs = dest_dirs_of(cfg, primary, mirror);
            let at = first_missing(cfg_files(), existing, 0);
            if dirs.len() > 0 && at < cfg_files().len() {
                Err(cfg_files()[at])
            } else {
                Ok(links_into(cfgs_dir, dirs))
            }
        },
    }
}

/// Every source of the links has two parts and every link more: no link
/// is made where a source lies.
pub proof fn lemma_links_into_shape(cfgs_dir: Seq<char>, dirs: Seq<Seq<Seq<char>>>)
    requires
        forall|k: int| 0 <= k < dirs.len() ==> (#[trigger] dirs[k]).len() == 2,
    ensures
        forall|i: int|
            0 <= i < links_into(cfgs_dir, dirs).len() ==> (#[trigger] links_into(
                cfgs_dir,
                dirs,
            )[i]).source.len() == 2 && links_into(cfgs_dir, dirs)[i].link.len() == 3,
        separate(links_into(cfgs_dir, dirs)),
    decreases dirs.len(),
{
    if dirs.len() > 0 {
        let init = dirs.drop_last();
        assert forall|k: int| 0 <= k < init.len() implies (#[trigger] init[k]).len() == 2 by {
            assert(init[k] == dirs[k]);
        }
        lemma_links_into_shape(cfgs_dir, init);
        assert(dirs.last() == dirs[dirs.len() - 1]);
    }
    let ops = links_into(cfgs_dir, dirs);
    assert forall|i: int, j: int| 0 <= i < ops.len() && 0 <= j < ops.len() implies ops[i].link
        != ops[j].source by {
        assert(ops[i].link.len() == 3);
        assert(ops[j].source.len() == 2);
    }
}

proof fn lemma_game_dirs_shape(
    installation: Seq<char>,
    types: Seq<DirTypeView>,
    ignore: Seq<Seq<char>>,
)
    ensures
        forall|k: int|
            0 <= k < game_dirs_of(installation, types, ignore).len() ==> (#[trigger] game_dirs_of(
                installation,
                types,
                ignore,
            )[k]).len() == 2,
    decreases types.len(),
{
    if types.len() > 0 {
        lemma_game_dirs_shape(installation, types.drop_last(), ignore);
        let init = game_dirs_of(installation, types.drop_last(), ignore);
        let dirs = game_dirs_of(installation, types, ignore);
        assert forall|k: int| 0 <= k < dirs.len() implies (#[trigger] dirs[k]).len() == 2 by {
            if k < init.len() {
                assert(dirs[k] == init[k]);
            }
        }
    }
}

fn game_dirs(installation: &str, types: &Vec<DirType>, ignore: &Vec<String>) -> (dirs: Vec<
    Vec<String>,
>)
    ensures
        dirs.deep_view() == game_dirs_of(installation@, types.deep_view(), ignore.deep_view()),
{
    let mut dirs: Vec<Vec<String>> = Vec::new();
    let mut i: usize = 0;
    proof {
        assert(types.deep_view().take(0) =~= Seq::<DirTypeView>::empty());
        assert(dirs.deep_view() =~= Seq::<Seq<Seq<char>>>::empty());
    }
    while i < types.len()
        invariant
            i <= types.len(),
            dirs.deep_view() == game_dirs_of(
                installation@,
                types.deep_view().take(i as int),
                ignore.deep_view(),
            ),
        decreases types.len() - i,
    {
        let ghost before = dirs.deep_view();
        proof {
            let all = types.deep_view();
            assert(all.take(i + 1).drop_last() =~= all.take(i as int));
            assert(all.take(i + 1).last() == types[i as int].deep_view());
        }
        if !holds_text(ignore, types[i].name.as_str()) {
            let mut dir: Vec<String> = Vec::new();
            dir.push(String::from_str(installation));
            dir.push(types[i].name.clone());
            assert(dir.deep_view() =~= seq![installation@, types[i as int].name@]);
            dirs.push(dir);
            assert(dirs.deep_view() =~= before.push(seq![installation@, types[i as int].name@]));
        }
        i = i + 1;
    }
    assert(types.deep_view().take(types.len() as int) =~= types.deep_view());
    dirs
}

/// Plans the links of the script files into the games of both
/// installations. `existing` names the script files that are there,
/// `primary` and `mirror` hold the listings of the two installations; the
/// second is looked at only where the configuration names it.
///
/// Nothing is linked where the configuration names no directory of script
/// files. A game that the configuration ignores gets no links. Where a
/// script file is missing and there is a game to link into, nothing is
/// linked and the file is named. No link lies where a source does, so
/// that the links can be made again and again.
#[verifier::loop_isolation(false)]
pub fn cfgs_link(
    cfg: &Cfg,
    existing: &Vec<String>,
    primary: &Vec<SubDir>,
    mirror: &Vec<SubDir>,
) -> (ops: Result<Vec<LinkOp>, LinkError>)
    ensures
        match cfgs_link_of(
            cfg.deep_view(),
            existing.deep_view(),
            primary.deep_view(),
            mirror.deep_view(),
        ) {
            Ok(expected) => ops is Ok && ops->Ok_0.deep_view() == expected && separate(expected),
            Err(name) => ops is Err && ops->Err_0->file_name@ == name,
        },
{
    let cfgs_dir = match &cfg.cfgs_dir {
        Some(dir) => dir,
        None => {
            let none: Vec<LinkOp> = Vec::new();
            assert(none.deep_view() =~= Seq::<LinkOpView>::empty());
            assert(separate(Seq::<LinkOpView>::empty()));
            return Ok(none);
        },
    };
    let mut dirs = game_dirs(
        cfg.half_life_dir.as_str(),
        &game_dir_types(primary),
        &cfg.ignore_games,
    );
    let ghost first = dirs.deep_view();
    match &cfg.no_client_dll_dir {
        Some(second) => {
            let mut more = game_dirs(second.as_str(), &game_dir_types(mirror), &cfg.ignore_games);
            let ghost added = more.deep_view();
            dirs.append(&mut more);
            assert(dirs.deep_view() =~= first + added);
            proof {
                lemma_game_dirs_shape(
                    second@,
                    classify(mirror.deep_view()),
                    cfg.ignore_games.deep_view(),
                );
            }
        },
        None => {
            assert(dirs.deep_view() =~= first + Seq::<Seq<Seq<char>>>::empty());
        },
    }
    proof {
        lemma_game_dirs_shape(
            cfg.half_life_dir@,
            classify(primary.deep_view()),
            cfg.ignore_games.deep_view(),
        );
    }
    let ghost all = dirs.deep_view();
    assert(all == dest_dirs_of(cfg.deep_view(), primary.deep_view(), mirror.deep_view()));
    let mut ops: Vec<LinkOp> = Vec::new();
    let mut i: usize = 0;
    proof {
        assert(all.take(0) =~= Seq::<Seq<Seq<char>>>::empty());
        assert(ops.deep_view() =~= Seq::<LinkOpView>::empty());
    }
    while i < dirs.len()
        invariant
            i <= dirs.len(),
            all == dirs.deep_view(),
            i > 0 ==> first_missing(cfg_files(), existing.deep_view(), 0) >= cfg_files().len(),
            ops.deep_view() == links_into(cfgs_dir@, all.take(i as int)),
        decreases dirs.len() - i,
    {
        let ghost before = ops.deep_view();
        proof {
            assert(all.take(i + 1).drop_last() =~= all.take(i as int));
            assert(all.take(i + 1).last() == dirs[i as int].deep_view());
        }
        match hard_link_cfgs(cfgs_dir.as_str(), &dirs[i], existing) {
            Ok(mut links) => {
                let ghost added = links.deep_view();
                ops.append(&mut links);
                assert(ops.deep_view() =~= before + added);
            },
            Err(error) => {
                return Err(error);
            },
        }
        i = i + 1;
    }
    proof {
        assert(all.take(dirs.len() as int) =~= all);
        lemma_links_into_shape(cfgs_dir@, all);
    }
    Ok(ops)
}

/// Name of the script that stops a script that runs.
pub const STOP_SCRIPT: &'static str = "stop.hltas";

/// Name of the optimiser's script.
pub const OPTIM_SCRIPT: &'static str = "optim.rhai";

/// The places below the root that one file goes to: one in the first
/// installation, and one in the second where there is one.
pub open spec fn in_installations(cfg: CfgView, file_name: Seq<char>) -> Seq<Seq<Seq<char>>> {
    seq![seq![cfg.half_life_dir, file_name]] + match cfg.no_client_dll_dir {
        Some(second) => seq![seq![second, file_name]],
        None => seq![],
    }
}

fn installation_paths(cfg: &Cfg, file_name: &str) -> (paths: Vec<Vec<String>>)
    ensures
        paths.deep_view() == in_installations(cfg.deep_view(), file_name@),
{
    let mut paths: Vec<Vec<String>> = Vec::new();
    let mut first: Vec<String> = Vec::new();
    first.push(cfg.half_life_dir.clone());
    first.push(String::from_str(file_name));
    assert(first.deep_view() =~= seq![cfg.half_life_dir@, file_name@]);
    paths.push(first);
    match &cfg.no_client_dll_dir {
        Some(second) => {
            let mut other: Vec<String> = Vec::new();
            other.push(second.clone());
            other.push(String::from_str(file_name));
            assert(other.deep_view() =~= seq![second@, file_name@]);
            paths.push(other);
        },
        None => {},
    }
    assert(paths.deep_view() =~= in_installations(cfg.deep_view(), file_name@));
    paths
}

/// Names the places that the stop script is written to: one in each
/// installation.
pub fn stop_tas_script(cfg: &Cfg) -> (paths: Vec<Vec<String>>)
    ensures
        paths.deep_view() == in_installations(cfg.deep_view(), STOP_SCRIPT@),
{
    installation_paths(cfg, STOP_SCRIPT)
}

/// What is done about the optimiser's script.
#[derive(Clone, Debug, PartialEq, Eq)]
pub struct OptimScript {
    /// Whether the script is written beside the tool.
    pub write: bool,
    /// The links that are made to it.
    pub links: Vec<LinkOp>,
}

/// The links to the optimiser's script: one from each installation.
pub open spec fn optim_links_of(cfg: CfgView) -> Seq<LinkOpView> {
    in_installations(cfg, OPTIM_SCRIPT@).map_values(
        |link: Seq<Seq<char>>| LinkOpView { source: seq![OPTIM_SCRIPT@], link },
    )
}

/// Decides what is done about the optimiser's script: it is written
/// beside the tool unless it lies there already, and linked into each
/// installation in any case.
pub fn write_optim_rhai_script(cfg: &Cfg, script_is_file: bool) -> (script: OptimScript)
    ensures
        script.write == !script_is_file,
        script.links.deep_view() == optim_links_of(cfg.deep_view()),
{
    let paths = installation_paths(cfg, OPTIM_SCRIPT);
    let ghost expected = optim_links_of(cfg.deep_view());
    let mut links: Vec<LinkOp> = Vec::new();
    let mut i: usize = 0;
    assert(links.deep_view() =~= expected.take(0));
    while i < paths.len()
        invariant
            i <= paths.len(),
            paths.deep_view() == in_installations(cfg.deep_view(), OPTIM_SCRIPT@),
            expected == optim_links_of(cfg.deep_view()),
            links.deep_view() == expected.take(i as int),
        decreases paths.len() - i,
    {
        let ghost before = links.deep_view();
        let mut source: Vec<String> = Vec::new();
        source.push(String::from_str(OPTIM_SCRIPT));
        assert(source.deep_view() =~= seq![OPTIM_SCRIPT@]);
        let op = LinkOp { source, link: crate::text::clone_texts(&paths[i]) };
        assert(paths.deep_view()[i as int] == paths[i as int].deep_view());
        assert(op.deep_view() == expected[i as int]);
        links.push(op);
        assert(links.deep_view() =~= before.push(expected[i as int]));
        assert(expected.take(i + 1) =~= before.push(expected[i as int]));
        i = i + 1;
    }
    assert(expected.take(paths.len() as int) =~= expected);
    OptimScript { write: !script_is_file, links }
}

/// One step of an installation. Paths are given by their parts below the
/// root directory.
#[derive(Clone, Debug, PartialEq, Eq)]
pub enum InstallStep {
    /// Make the directory, with those above it.
    CreateDirAll { path: Vec<String> },
    /// Make the directory.
    CreateDir { path: Vec<String> },
    /// Copy the entries `names` of the directory `from` into the directory
    /// `to`, leaving alone what is there already.
    CopyItems { names: Vec<String>, from: Vec<String>, to: Vec<String> },
    /// Copy one file over another.
    CopyFile { from: Vec<String>, to: Vec<String> },
    /// Write the script files, in their short form if `minimum_cfgs`, and
    /// those among `reset_cfgs` though they are there, and link them into
    /// the games.
    LinkCfgs { minimum_cfgs: bool, reset_cfgs: Option<Vec<String>> },
    /// Write the stop script.
    WriteStopScript { path: Vec<String> },
    /// Write the optimiser's script.
    WriteOptimScript { path: Vec<String> },
    /// Make a hard link.
    Link { op: LinkOp },
}

pub ghost enum InstallStepView {
    CreateDirAll { path: Seq<Seq<char>> },
    CreateDir { path: Seq<Seq<char>> },
    CopyItems { names: Seq<Seq<char>>, from: Seq<Seq<char>>, to: Seq<Seq<char>> },
    CopyFile { from: Seq<Seq<char>>, to: Seq<Seq<char>> },
    LinkCfgs { minimum_cfgs: bool, reset_cfgs: Option<Seq<Seq<char>>> },
    WriteStopScript { path: Seq<Seq<char>> },
    WriteOptimScript { path: Seq<Seq<char>> },
    Link { op: LinkOpView },
}

impl DeepView for InstallStep {
    type V = InstallStepView;

    open spec fn deep_view(&self) -> InstallStepView {
        match self {
            InstallStep::CreateDirAll { path } => InstallStepView::CreateDirAll {
                path: path.deep_view(),
            },
            InstallStep::CreateDir { path } => InstallStepView::CreateDir {
                path: path.deep_view(),
            },
            InstallStep::CopyItems { names, from, to } => InstallStepView::CopyItems {
                names: names.deep_view(),
                from: from.deep_view(),
                to: to.deep_view(),
            },
            InstallStep::CopyFile { from, to } => InstallStepView::CopyFile {
                from: from.deep_view(),
                to: to.deep_view(),
            },
            InstallStep::LinkCfgs { minimum_cfgs, reset_cfgs } => InstallStepView::LinkCfgs {
                minimum_cfgs: *minimum_cfgs,
                reset_cfgs: reset_cfgs.deep_view(),
            },
            InstallStep::WriteStopScript { path } => InstallStepView::WriteStopScript {
                path: path.deep_view(),
            },
            InstallStep::WriteOptimScript { path } => InstallStepView::WriteOptimScript {
                path: path.deep_view(),
            },
            InstallStep::Link { op } => InstallStepView::Link { op: op.deep_view() },
        }
    }
}

/// The names of the entries of a listing.
pub open spec fn entry_names(entries: Seq<SubDirView>) -> Seq<Seq<char>> {
    Seq::new(entries.len(), |i: int| entries[i].name)
}

/// The steps that bring the second installation about: what is no game,
/// and the default game, is copied over, and the simulator's library takes
/// the place of `steam_api.dll`.
pub open spec fn second_steps_of(
    cfg: CfgView,
    second_dir_is_dir: bool,
    entries: Seq<SubDirView>,
) -> Seq<InstallStepView> {
    match cfg.no_client_dll_dir {
        Some(second) => (if second_dir_is_dir {
            seq![]
        } else {
            seq![InstallStepView::CreateDir { path: seq![second] }]
        }) + seq![
            InstallStepView::CopyItems {
                names: copy_paths_of(entry_names(entries), classify(entries)),
                from: seq![cfg.half_life_dir],
                to: seq![second],
            },
            InstallStepView::CopyFile {
                from: seq!["_sim.dll"@],
                to: seq![second, "steam_api.dll"@],
            },
        ],
        None => seq![],
    }
}

/// The step that makes the directory of the projects, where it is missing.
pub open spec fn projects_steps_of(cfg: CfgView, projects_dir_is_dir: bool) -> Seq<
    InstallStepView,
> {
    if projects_dir_is_dir {
        seq![]
    } else {
        seq![InstallStepView::CreateDirAll { path: seq![cfg.project_dir] }]
    }
}

/// The steps on the script files and the libraries of the first
/// installation: the script files are linked, the shipped `steam_api.dll`
/// is kept as `_reset.dll` unless such a copy is kept already, and the
/// simulator's library is laid beside it.
pub open spec fn library_steps_of(
    cfg: CfgView,
    minimum_cfgs: bool,
    reset_cfgs: Option<Seq<Seq<char>>>,
    reset_dll_is_file: bool,
) -> Seq<InstallStepView> {
    seq![InstallStepView::LinkCfgs { minimum_cfgs, reset_cfgs }] + (if reset_dll_is_file {
        seq![]
    } else {
        seq![
            InstallStepView::CopyFile {
                from: seq![cfg.half_life_dir, "steam_api.dll"@],
                to: seq![cfg.half_life_dir, "_reset.dll"@],
            },
        ]
    }) + seq![
        InstallStepView::CopyFile {
            from: seq!["_sim.dll"@],
            to: seq![cfg.half_life_dir, "_sim.dll"@],
        },
    ]
}

/// The steps on the stop script and the optimiser's script.
pub open spec fn script_steps_of(cfg: CfgView, optim_script_is_file: bool) -> Seq<
    InstallStepView,
> {
    in_installations(cfg, STOP_SCRIPT@).map_values(
        |path: Seq<Seq<char>>| InstallStepView::WriteStopScript { path },
    ) + (if optim_script_is_file {
        seq![]
    } else {
        seq![InstallStepView::WriteOptimScript { path: seq![OPTIM_SCRIPT@] }]
    }) + optim_links_of(cfg).map_values(|op: LinkOpView| InstallStepView::Link { op })
}

/// The steps of an installation, in order.
pub open spec fn install_steps_of(
    cfg: CfgView,
    minimum_cfgs: bool,
    reset_cfgs: Option<Seq<Seq<char>>>,
    projects_dir_is_dir: bool,
    second_dir_is_dir: bool,
    entries: Seq<SubDirView>,
    reset_dll_is_file: bool,
    optim_script_is_file: bool,
) -> Seq<InstallStepView> {
    projects_steps_of(cfg, projects_dir_is_dir) + second_steps_of(cfg, second_dir_is_dir, entries)
        + library_steps_of(cfg, minimum_cfgs, reset_cfgs, reset_dll_is_file) + script_steps_of(
        cfg,
        optim_script_is_file,
    )
}

/// An installation that can go ahead.
#[derive(Clone, Debug, PartialEq, Eq)]
pub struct InstallPlan {
    /// What the check of `steam_api.dll` found.
    pub steam_api: SteamApi,
    pub steps: Vec<InstallStep>,
}

fn push_step(steps: &mut Vec<InstallStep>, step: InstallStep)
    ensures
        final(steps).deep_view() == old(steps).deep_view().push(step.deep_view()),
{
    steps.push(step);
    assert(steps.deep_view() =~= old(steps).deep_view().push(step.deep_view()));
}

fn path_of(first: &str) -> (path: Vec<String>)
    ensures
        path.deep_view() == seq![first@],
{
    let mut path: Vec<String> = Vec::new();
    path.push(String::from_str(first));
    assert(path.deep_view() =~= seq![first@]);
    path
}

fn path_in(dir: &str, name: &str) -> (path: Vec<String>)
    ensures
        path.deep_view() == seq![dir@, name@],
{
    let mut path: Vec<String> = Vec::new();
    path.push(String::from_str(dir));
    path.push(String::from_str(name));
    assert(path.deep_view() =~= seq![dir@, name@]);
    path
}

fn names_of_entries(entries: &Vec<SubDir>) -> (names: Vec<String>)
    ensures
        names.deep_view() == entry_names(entries.deep_view()),
{
    let ghost expected = entry_names(entries.deep_view());
    let mut names: Vec<String> = Vec::new();
    let mut i: usize = 0;
    assert(names.deep_view() =~= expected.take(0));
    while i < entries.len()
        invariant
            i <= entries.len(),
            expected == entry_names(entries.deep_view()),
            names.deep_view() == expected.take(i as int),
        decreases entries.len() - i,
    {
        let ghost before = names.deep_view();
        names.push(entries[i].name.clone());
        assert(entries.deep_view()[i as int] == entries[i as int].deep_view());
        assert(names.deep_view() =~= before.push(expected[i as int]));
        assert(expected.take(i + 1) =~= before.push(expected[i as int]));
        i = i + 1;
    }
    assert(expected.take(entries.len() as int) =~= expected);
    names
}

fn append_steps(steps: &mut Vec<InstallStep>, more: Vec<InstallStep>)
    ensures
        final(steps).deep_view() == old(steps).deep_view() + more.deep_view(),
{
    let mut more = more;
    let ghost added = more.deep_view();
    steps.append(&mut more);
    assert(steps.deep_view() =~= old(steps).deep_view() + added);
}

fn second_steps(cfg: &Cfg, second_dir_is_dir: bool, entries: &Vec<SubDir>) -> (steps: Vec<
    InstallStep,
>)
    ensures
        steps.deep_view() == second_steps_of(
            cfg.deep_view(),
            second_dir_is_dir,
            entries.deep_view(),
        ),
{
    let mut steps: Vec<InstallStep> = Vec::new();
    assert(steps.deep_view() =~= Seq::<InstallStepView>::empty());
    match &cfg.no_client_dll_dir {
        Some(second) => {
            if !second_dir_is_dir {
                push_step(&mut steps, InstallStep::CreateDir { path: path_of(second.as_str()) });
            }
            let names = copy_paths(&names_of_entries(entries), &game_dir_types(entries));
            push_step(
                &mut steps,
                InstallStep::CopyItems {
                    names,
                    from: path_of(cfg.half_life_dir.as_str()),
                    to: path_of(second.as_str()),
                },
            );
            push_step(
                &mut steps,
                InstallStep::CopyFile {
                    from: path_of("_sim.dll"),
                    to: path_in(second.as_str(), "steam_api.dll"),
                },
            );
        },
        None => {},
    }
    assert(steps.deep_view() =~= second_steps_of(
        cfg.deep_view(),
        second_dir_is_dir,
        entries.deep_view(),
    ));
    steps
}

fn library_steps(cfg: &Cfg, override_: &Override, reset_dll_is_file: bool) -> (steps: Vec<
    InstallStep,
>)
    ensures
        steps.deep_view() == library_steps_of(
            cfg.deep_view(),
            override_.minimum_cfgs,
            override_.reset_cfgs.deep_view(),
            reset_dll_is_file,
        ),
{
    let mut steps: Vec<InstallStep> = Vec::new();
    assert(steps.deep_view() =~= Seq::<InstallStepView>::empty());
    let reset_cfgs = match override_.reset_cfgs {
        Some(list) => Some(crate::text::clone_texts(list)),
        None => None,
    };
    push_step(
        &mut steps,
        InstallStep::LinkCfgs { minimum_cfgs: override_.minimum_cfgs, reset_cfgs },
    );
    if !reset_dll_is_file {
        push_step(
            &mut steps,
            InstallStep::CopyFile {
                from: path_in(cfg.half_life_dir.as_str(), "steam_api.dll"),
                to: path_in(cfg.half_life_dir.as_str(), "_reset.dll"),
            },
        );
    }
    push_step(
        &mut steps,
        InstallStep::CopyFile {
            from: path_of("_sim.dll"),
            to: path_in(cfg.half_life_dir.as_str(), "_sim.dll"),
        },
    );
    assert(steps.deep_view() =~= library_steps_of(
        cfg.deep_view(),
        override_.minimum_cfgs,
        override_.reset_cfgs.deep_view(),
        reset_dll_is_file,
    ));
    steps
}

fn stop_steps(cfg: &Cfg) -> (steps: Vec<InstallStep>)
    ensures
        steps.deep_view() == in_installations(cfg.deep_view(), STOP_SCRIPT@).map_values(
            |path: Seq<Seq<char>>| InstallStepView::WriteStopScript { path },
        ),
{
    let stops = stop_tas_script(cfg);
    let ghost expected = in_installations(cfg.deep_view(), STOP_SCRIPT@).map_values(
        |path: Seq<Seq<char>>| InstallStepView::WriteStopScript { path },
    );
    let mut steps: Vec<InstallStep> = Vec::new();
    let mut i: usize = 0;
    assert(steps.deep_view() =~= expected.take(0));
    while i < stops.len()
        invariant
            i <= stops.len(),
            stops.deep_view() == in_installations(cfg.deep_view(), STOP_SCRIPT@),
            expected.len() == stops.len(),
            forall|k: int|
                0 <= k < expected.len() ==> expected[k] == (InstallStepView::WriteStopScript {
                    path: stops.deep_view()[k],
                }),
            steps.deep_view() == expected.take(i as int),
        decreases stops.len() - i,
    {
        let ghost before = steps.deep_view();
        assert(stops.deep_view()[i as int] == stops[i as int].deep_view());
        push_step(
            &mut steps,
            InstallStep::WriteStopScript { path: crate::text::clone_texts(&stops[i]) },
        );
        assert(expected.take(i + 1) =~= before.push(expected[i as int]));
        i = i + 1;
    }
    assert(expected.take(stops.len() as int) =~= expected);
    steps
}

fn link_steps(links: &Vec<LinkOp>) -> (steps: Vec<InstallStep>)
    ensures
        steps.deep_view() == links.deep_view().map_values(
            |op: LinkOpView| InstallStepView::Link { op },
        ),
{
    let ghost expected = links.deep_view().map_values(
        |op: LinkOpView| InstallStepView::Link { op },
    );
    let mut steps: Vec<InstallStep> = Vec::new();
    let mut k: usize = 0;
    assert(steps.deep_view() =~= expected.take(0));
    while k < links.len()
        invariant
            k <= links.len(),
            expected.len() == links.len(),
            forall|j: int|
                0 <= j < expected.len() ==> expected[j] == (InstallStepView::Link {
                    op: links.deep_view()[j],
                }),
            steps.deep_view() == expected.take(k as int),
        decreases links.len() - k,
    {
        let ghost before = steps.deep_view();
        assert(links.deep_view()[k as int] == links[k as int].deep_view());
        let op = LinkOp {
            source: crate::text::clone_texts(&links[k].source),
            link: crate::text::clone_texts(&links[k].link),
        };
        push_step(&mut steps, InstallStep::Link { op });
        assert(expected.take(k + 1) =~= before.push(expected[k as int]));
        k = k + 1;
    }
    assert(expected.take(links.len() as int) =~= expected);
    steps
}

fn script_steps(cfg: &Cfg, optim_script_is_file: bool) -> (steps: Vec<InstallStep>)
    ensures
        steps.deep_view() == script_steps_of(cfg.deep_view(), optim_script_is_file),
{
    let mut steps = stop_steps(cfg);
    let optim = write_optim_rhai_script(cfg, optim_script_is_file);
    if optim.write {
        push_step(&mut steps, InstallStep::WriteOptimScript { path: path_of(OPTIM_SCRIPT) });
    }
    let ghost before = steps.deep_view();
    let links = link_steps(&optim.links);
    append_steps(&mut steps, links);
    assert(steps.deep_view() =~= script_steps_of(cfg.deep_view(), optim_script_is_file));
    steps
}

/// Plans an installation from what the caller asks for, the configuration
/// and what is found on disk. Nothing is planned unless the files that are
/// needed are there.
pub fn install(override_: &Override, cfg: &Cfg, facts: &InstallFacts) -> (plan: Result<
    InstallPlan,
    InstallError,
>)
    ensures
        match verified(
            facts.half_life_dir_is_dir,
            facts.sim_dll_is_file,
            facts.steam_api_dll.deep_view(),
            facts.reset_dll.deep_view(),
        ) {
            Ok(steam_api) => plan is Ok && plan->Ok_0.steam_api == steam_api
                && plan->Ok_0.steps.deep_view() == install_steps_of(
                cfg.deep_view(),
                override_.minimum_cfgs,
                override_.reset_cfgs.deep_view(),
                facts.projects_dir_is_dir,
                facts.second_dir_is_dir,
                facts.entries.deep_view(),
                facts.reset_dll is Some,
                facts.optim_script_is_file,
            ),
            Err(error) => plan is Err && plan->Err_0 == error,
        },
{
    let steam_api = match verify_files(facts) {
        Ok(found) => found,
        Err(error) => {
            return Err(error);
        },
    };
    let mut steps: Vec<InstallStep> = Vec::new();
    assert(steps.deep_view() =~= Seq::<InstallStepView>::empty());
    if !facts.projects_dir_is_dir {
        push_step(
            &mut steps,
            InstallStep::CreateDirAll { path: path_of(cfg.project_dir.as_str()) },
        );
    }
    assert(steps.deep_view() =~= projects_steps_of(cfg.deep_view(), facts.projects_dir_is_dir));
    append_steps(&mut steps, second_steps(cfg, facts.second_dir_is_dir, &facts.entries));
    append_steps(&mut steps, library_steps(cfg, override_, facts.reset_dll.is_some()));
    append_steps(&mut steps, script_steps(cfg, facts.optim_script_is_file));
    Ok(InstallPlan { steam_api, steps })
}

} // verus!
