//! The tool's configuration.

use vstd::prelude::*;

verus! {

/// The settings of one installation. Directories are given relative to the
/// directory that holds the tool.
#[derive(Clone, Debug, PartialEq, Eq)]
pub struct Cfg {
    /// Whether a new project gets a git repository when nothing else is asked.
    pub init_git_on_project: bool,
    /// The directory that holds the projects.
    pub project_dir: String,
    /// Games that get no scripts linked.
    pub ignore_games: Vec<String>,
    /// The second installation, the one that runs without the client library.
    pub no_client_dll_dir: Option<String>,
    /// The directory that holds the script files to be linked into the games.
    pub cfgs_dir: Option<String>,
    /// The game's installation.
    pub half_life_dir: String,
}

/// What a `Cfg` stands for.
pub ghost struct CfgView {
    pub init_git_on_project: bool,
    pub project_dir: Seq<char>,
    pub ignore_games: Seq<Seq<char>>,
    pub no_client_dll_dir: Option<Seq<char>>,
    pub cfgs_dir: Option<Seq<char>>,
    pub half_life_dir: Seq<char>,
}

impl DeepView for Cfg {
    type V = CfgView;

    open spec fn deep_view(&self) -> CfgView {
        CfgView {
            init_git_on_project: self.init_git_on_project,
            project_dir: self.project_dir@,
            ignore_games: self.ignore_games.deep_view(),
            no_client_dll_dir: self.no_client_dll_dir.deep_view(),
            cfgs_dir: self.cfgs_dir.deep_view(),
            half_life_dir: self.half_life_dir@,
        }
    }
}

/// The settings of an installation that has none written down.
pub open spec fn default_cfg() -> CfgView {
    CfgView {
        init_git_on_project: true,
        project_dir: "tas"@,
        ignore_games: seq![],
        no_client_dll_dir: Some("NO_CLIENT_DLL"@),
        cfgs_dir: Some("cfgs"@),
        half_life_dir: "Half-Life"@,
    }
}

impl Default for Cfg {
    fn default() -> (cfg: Self)
        ensures
            cfg.deep_view() == default_cfg(),
    {
        let cfg = Cfg {
            init_git_on_project: true,
            project_dir: String::from_str("tas"),
            ignore_games: Vec::new(),
            no_client_dll_dir: Some(String::from_str("NO_CLIENT_DLL")),
            cfgs_dir: Some(String::from_str("cfgs")),
            half_life_dir: String::from_str("Half-Life"),
        };
        assert(cfg.ignore_games.deep_view() =~= Seq::<Seq<char>>::empty());
        cfg
    }
}

/// The name of the configuration file: the tool's name with `.toml` behind it.
pub fn cfg_file_name() -> (name: String)
    ensures
        name@ == crate::NAME@ + ".toml"@,
{
    String::from_str(crate::NAME).concat(".toml")
}

} // verus!
