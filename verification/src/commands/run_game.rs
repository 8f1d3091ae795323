//! Starting the game: the arguments it is given, the process that is
//! started, and the supervision of several instances.

use crate::cfg::{Cfg, CfgView};
use crate::project_toml::ProjectToml;
use crate::text::{
    clone_texts, decimal, decimal_string, lemma_split_all_concat, split_all, split_each,
};
use vstd::prelude::*;

verus! {

pub struct RunGameMiscFlags {
    /// Whether the raw-input helper is started after the game.
    pub r_input: bool,
}

pub struct RunGameFlags<'a> {
    /// Whether the game runs with the lowest quality settings.
    pub low: bool,
    /// Whether the game runs from the first installation, with its client library.
    pub vanilla_game: bool,
    pub width: u32,
    pub height: u32,
    /// Arguments that are handed on to the game as they are.
    pub params: &'a Option<Vec<String>>,
    /// The game to start, whatever the project says.
    pub game_override: &'a Option<String>,
    /// Whether instances that have gone are started again.
    pub keep_alive: bool,
}

pub struct RunGameBxtFlags<'a> {
    /// A script that the game loads as it starts.
    pub run_script: &'a Option<String>,
    /// How many instances are started for the optimiser.
    pub optim_games: &'a Option<usize>,
    /// Whether the game becomes the simulator client.
    pub sim: bool,
    /// Whether the game runs in a window without border, for recording.
    pub record: bool,
    /// Whether the game is started directly, without the injector.
    pub no_bxt: bool,
}

/// What decides the arguments of the game.
pub ghost struct ArgsInput {
    pub game: Seq<char>,
    pub sim: bool,
    pub low: bool,
    pub record: bool,
    pub width: nat,
    pub height: nat,
    pub script: Option<Seq<char>>,
    pub extra: Option<Seq<Seq<char>>>,
}

/// The input that the flags of a run make together with the game's name.
pub open spec fn args_input(
    game: Seq<char>,
    flags: &RunGameFlags,
    bxt: &RunGameBxtFlags,
) -> ArgsInput {
    ArgsInput {
        game,
        sim: bxt.sim,
        low: flags.low,
        record: bxt.record,
        width: flags.width as nat,
        height: flags.height as nat,
        script: bxt.run_script.deep_view(),
        extra: flags.params.deep_view(),
    }
}

/// The arguments that every run starts with.
pub open spec fn baseline_args() -> Seq<Seq<char>> {
    seq!["-noforcemparms"@, "-gl"@, "+gl_vsync 0"@]
}

/// Window mode and size.
pub open spec fn window_args(width: nat, height: nat) -> Seq<Seq<char>> {
    seq!["-windowed"@, "-w "@ + decimal(width), "-h "@ + decimal(height)]
}

/// The settings of the lowest quality. They come together or not at all.
pub open spec fn low_bundle() -> Seq<Seq<char>> {
    seq![
        "-nofbo"@,
        "-nomsaa"@,
        "+gl_spriteblend 0"@,
        "+r_detailtextures 0"@,
        "-gl_ansio 0"@,
        "+gl_texturemode GL_Nearest"@,
        "+gl_round_down 0"@,
        "+violence_ablood 0"@,
        "+violence_agibs 0"@,
        "+violence_hblood 0"@,
        "+violence_hgibs 0"@,
    ]
}

/// The arguments that stand before the quality settings.
pub open spec fn head_args(input: ArgsInput) -> Seq<Seq<char>> {
    baseline_args() + window_args(input.width, input.height) + seq!["-game "@ + input.game] + (
    if input.sim {
        seq!["+bxt_tas_become_simulator_client"@]
    } else {
        seq![]
    })
}

/// The arguments that stand behind the quality settings, but for the
/// caller's own.
pub open spec fn tail_args(input: ArgsInput) -> Seq<Seq<char>> {
    (if input.record {
        seq!["-noborder sdl_createwindow"@]
    } else {
        seq![]
    }) + (match input.script {
        Some(script) => seq!["+bxt_tas_loadscript "@ + script],
        None => seq![],
    })
}

/// The caller's own arguments.
pub open spec fn extra_args(input: ArgsInput) -> Seq<Seq<char>> {
    match input.extra {
        Some(extra) => extra,
        None => seq![],
    }
}

/// The arguments as they are put together, a flag and its value in one text.
pub open spec fn raw_args(input: ArgsInput) -> Seq<Seq<char>> {
    head_args(input) + (if input.low {
        low_bundle()
    } else {
        seq![]
    }) + tail_args(input) + extra_args(input)
}

/// The arguments of the game: those put together, each split at white space.
pub open spec fn launch_args_of(input: ArgsInput) -> Seq<Seq<char>> {
    split_all(raw_args(input))
}

/// The arguments are a function of the game's name and of the flags for
/// quality, recording, simulator, window size, script and the caller's own
/// arguments: two runs that agree in these get the same arguments, whatever
/// else their flags say.
pub proof fn lemma_same_input_same_args(
    game: Seq<char>,
    flags: &RunGameFlags,
    bxt: &RunGameBxtFlags,
    other_flags: &RunGameFlags,
    other_bxt: &RunGameBxtFlags,
)
    requires
        flags.low == other_flags.low,
        flags.width == other_flags.width,
        flags.height == other_flags.height,
        flags.params.deep_view() == other_flags.params.deep_view(),
        bxt.sim == other_bxt.sim,
        bxt.record == other_bxt.record,
        bxt.run_script.deep_view() == other_bxt.run_script.deep_view(),
    ensures
        launch_args_of(args_input(game, flags, bxt)) == launch_args_of(
            args_input(game, other_flags, other_bxt),
        ),
{
}

/// The quality settings are in the arguments as a whole or not at all:
/// with them asked for, the whole bundle stands between the same arguments
/// that stand side by side without them.
pub proof fn lemma_low_bundle_whole(input: ArgsInput)
    ensures
        launch_args_of(ArgsInput { low: true, ..input }) == split_all(head_args(input))
            + split_all(low_bundle()) + split_all(tail_args(input) + extra_args(input)),
        launch_args_of(ArgsInput { low: false, ..input }) == split_all(head_args(input))
            + split_all(tail_args(input) + extra_args(input)),
{
    let with = ArgsInput { low: true, ..input };
    let without = ArgsInput { low: false, ..input };
    let head = head_args(input);
    let rest = tail_args(input) + extra_args(input);
    assert(head_args(with) == head && head_args(without) == head);
    assert(tail_args(with) + extra_args(with) == rest);
    assert(tail_args(without) + extra_args(without) == rest);
    assert(raw_args(with) =~= (head + low_bundle()) + rest);
    assert(raw_args(without) =~= head + rest);
    lemma_split_all_concat(head + low_bundle(), rest);
    lemma_split_all_concat(head, low_bundle());
    lemma_split_all_concat(head, rest);
}

/// The caller's own arguments come last, in the caller's order.
pub proof fn lemma_extra_args_last(input: ArgsInput)
    ensures
        launch_args_of(input) == launch_args_of(ArgsInput { extra: None, ..input }) + split_all(
            extra_args(input),
        ),
{
    let bare = ArgsInput { extra: None, ..input };
    assert(head_args(bare) == head_args(input));
    assert(tail_args(bare) == tail_args(input));
    assert(raw_args(bare) =~= head_args(input) + (if input.low {
        low_bundle()
    } else {
        seq![]
    }) + tail_args(input));
    assert(raw_args(input) =~= raw_args(bare) + extra_args(input));
    lemma_split_all_concat(raw_args(bare), extra_args(input));
}

fn push_text(texts: &mut Vec<String>, text: String)
    ensures
        final(texts).deep_view() == old(texts).deep_view().push(text@),
{
    texts.push(text);
    assert(texts.deep_view() =~= old(texts).deep_view().push(text@));
}

fn push_literal(texts: &mut Vec<String>, text: &str)
    ensures
        final(texts).deep_view() == old(texts).deep_view().push(text@),
{
    push_text(texts, String::from_str(text));
}

/// Composes the arguments of the game for the game `game` and the flags of
/// a run. The same input gives the same arguments in the same order.
pub fn launch_args(game: &str, flags: &RunGameFlags, bxt: &RunGameBxtFlags) -> (args: Vec<String>)
    ensures
        args.deep_view() == launch_args_of(args_input(game@, flags, bxt)),
{
    let ghost input = args_input(game@, flags, bxt);
    let mut raw: Vec<String> = Vec::new();
    assert(raw.deep_view() =~= Seq::<Seq<char>>::empty());
    push_literal(&mut raw, "-noforcemparms");
    push_literal(&mut raw, "-gl");
    push_literal(&mut raw, "+gl_vsync 0");
    push_literal(&mut raw, "-windowed");
    push_text(
        &mut raw,
        String::from_str("-w ").concat(decimal_string(flags.width as u64).as_str()),
    );
    push_text(
        &mut raw,
        String::from_str("-h ").concat(decimal_string(flags.height as u64).as_str()),
    );
    push_text(&mut raw, String::from_str("-game ").concat(game));
    if bxt.sim {
        push_literal(&mut raw, "+bxt_tas_become_simulator_client");
    }
    assert(raw.deep_view() =~= head_args(input));
    if flags.low {
        push_literal(&mut raw, "-nofbo");
        push_literal(&mut raw, "-nomsaa");
        push_literal(&mut raw, "+gl_spriteblend 0");
        push_literal(&mut raw, "+r_detailtextures 0");
        push_literal(&mut raw, "-gl_ansio 0");
        push_literal(&mut raw, "+gl_texturemode GL_Nearest");
        push_literal(&mut raw, "+gl_round_down 0");
        push_literal(&mut raw, "+violence_ablood 0");
        push_literal(&mut raw, "+violence_agibs 0");
        push_literal(&mut raw, "+violence_hblood 0");
        push_literal(&mut raw, "+violence_hgibs 0");
    }
    let ghost quality = if input.low {
        low_bundle()
    } else {
        seq![]
    };
    assert(raw.deep_view() =~= head_args(input) + quality);
    if bxt.record {
        push_literal(&mut raw, "-noborder sdl_createwindow");
    }
    match bxt.run_script {
        Some(script) => {
            push_text(&mut raw, String::from_str("+bxt_tas_loadscript ").concat(script.as_str()));
        },
        None => {},
    }
    assert(raw.deep_view() =~= head_args(input) + quality + tail_args(input));
    match flags.params {
        Some(params) => {
            let ghost before = raw.deep_view();
            let mut i: usize = 0;
            while i < params.len()
                invariant
                    i <= params.len(),
                    raw.deep_view() == before + params.deep_view().take(i as int),
                decreases params.len() - i,
            {
                push_text(&mut raw, params[i].clone());
                assert(params.deep_view().take(i + 1) =~= params.deep_view().take(i as int).push(
                    params[i as int]@,
                ));
                i = i + 1;
            }
            assert(params.deep_view().take(params.len() as int) =~= params.deep_view());
        },
        None => {},
    }
    assert(raw.deep_view() =~= raw_args(input));
    split_each(&raw)
}

/// A variable of the environment that a process is started with.
#[derive(Clone, Debug, PartialEq, Eq)]
pub struct EnvVar {
    pub name: String,
    pub value: String,
}

/// All that is needed to start the game once. A path is given by its
/// parts, which are joined one after the other onto the directory that
/// holds the tool.
#[derive(Clone, Debug, PartialEq, Eq)]
pub struct LaunchSpec {
    /// Whether the injector starts the game.
    pub use_injector: bool,
    pub injector_path: Vec<String>,
    pub game_executable_path: Vec<String>,
    pub working_dir: Vec<String>,
    pub args: Vec<String>,
    /// Variables that are set for the process, beside those it inherits.
    pub env: Vec<EnvVar>,
}

/// How the game is to be started.
#[derive(Clone, Debug, PartialEq, Eq)]
pub enum LaunchPlan {
    /// One instance, whose end is waited for.
    Once(LaunchSpec),
    /// `target_count` instances, one after the other, which are kept at
    /// that number if `keep_alive` is set.
    Many { spec: LaunchSpec, target_count: usize, keep_alive: bool },
}

/// Why no game can be started.
#[derive(Clone, Copy, Debug, PartialEq, Eq)]
pub enum RunError {
    /// The run needs the second installation, and the configuration names none.
    NoClientDllDir,
    /// No game was named, and the working directory is no project.
    NoProject,
}

pub ghost struct EnvVarView {
    pub name: Seq<char>,
    pub value: Seq<char>,
}

pub ghost struct LaunchSpecView {
    pub use_injector: bool,
    pub injector_path: Seq<Seq<char>>,
    pub game_executable_path: Seq<Seq<char>>,
    pub working_dir: Seq<Seq<char>>,
    pub args: Seq<Seq<char>>,
    pub env: Seq<EnvVarView>,
}

pub ghost enum LaunchPlanView {
    Once(LaunchSpecView),
    Many { spec: LaunchSpecView, target_count: usize, keep_alive: bool },
}

impl DeepView for EnvVar {
    type V = EnvVarView;

    open spec fn deep_view(&self) -> EnvVarView {
        EnvVarView { name: self.name@, value: self.value@ }
    }
}

impl DeepView for LaunchSpec {
    type V = LaunchSpecView;

    open spec fn deep_view(&self) -> LaunchSpecView {
        LaunchSpecView {
            use_injector: self.use_injector,
            injector_path: self.injector_path.deep_view(),
            game_executable_path: self.game_executable_path.deep_view(),
            working_dir: self.working_dir.deep_view(),
            args: self.args.deep_view(),
            env: self.env.deep_view(),
        }
    }
}

impl DeepView for LaunchPlan {
    type V = LaunchPlanView;

    open spec fn deep_view(&self) -> LaunchPlanView {
        match self {
            LaunchPlan::Once(spec) => LaunchPlanView::Once(spec.deep_view()),
            LaunchPlan::Many { spec, target_count, keep_alive } => LaunchPlanView::Many {
                spec: spec.deep_view(),
                target_count: *target_count,
                keep_alive: *keep_alive,
            },
        }
    }
}

/// Whether the run uses the first installation: the one with the client
/// library.
pub open spec fn uses_first_installation(flags: &RunGameFlags, bxt: &RunGameBxtFlags) -> bool {
    flags.vanilla_game || bxt.sim || bxt.optim_games is Some
}

/// The installation that the game runs from, if the run has one.
pub open spec fn installation_of(
    cfg: CfgView,
    flags: &RunGameFlags,
    bxt: &RunGameBxtFlags,
) -> Option<Seq<char>> {
    if uses_first_installation(flags, bxt) {
        Some(cfg.half_life_dir)
    } else {
        cfg.no_client_dll_dir
    }
}

/// The game that is started: the one the flags name, else the project's.
pub open spec fn selected_game(
    project_game: Option<Seq<char>>,
    flags: &RunGameFlags,
) -> Option<Seq<char>> {
    match flags.game_override.deep_view() {
        Some(game) => Some(game),
        None => project_game,
    }
}

/// The variables that the run sets: the script's path for the injector,
/// where the injector starts a single game with a script.
pub open spec fn env_of(bxt: &RunGameBxtFlags) -> Seq<EnvVarView> {
    match bxt.run_script.deep_view() {
        Some(script) if !bxt.no_bxt && bxt.optim_games is None => seq![
            EnvVarView { name: "BXT_SCRIPT"@, value: script },
        ],
        _ => seq![],
    }
}

/// What starts one instance of `game` from `installation`.
pub open spec fn launch_spec_of(
    installation: Seq<char>,
    game: Seq<char>,
    flags: &RunGameFlags,
    bxt: &RunGameBxtFlags,
) -> LaunchSpecView {
    LaunchSpecView {
        use_injector: !bxt.no_bxt,
        injector_path: seq!["Bunnymod XT"@, "Injector.exe"@],
        game_executable_path: seq![installation, "hl.exe"@],
        working_dir: seq![installation],
        args: launch_args_of(args_input(game, flags, bxt)),
        env: env_of(bxt),
    }
}

/// How the game is started for a configuration, the game of the project in
/// the working directory, if it is one, and the flags of the run.
pub open spec fn launch_plan_of(
    cfg: CfgView,
    project_game: Option<Seq<char>>,
    flags: &RunGameFlags,
    bxt: &RunGameBxtFlags,
) -> Result<LaunchPlanView, RunError> {
    match (installation_of(cfg, flags, bxt), selected_game(project_game, flags)) {
        (None, _) => Err(RunError::NoClientDllDir),
        (Some(_), None) => Err(RunError::NoProject),
        (Some(installation), Some(game)) => {
            let spec = launch_spec_of(installation, game, flags, bxt);
            match *bxt.optim_games {
                Some(count) if !bxt.no_bxt => Ok(
                    LaunchPlanView::Many {
                        spec,
                        target_count: count,
                        keep_alive: flags.keep_alive,
                    },
                ),
                _ => Ok(LaunchPlanView::Once(spec)),
            }
        },
    }
}

/// The game of a project, where there is one.
pub open spec fn project_game(project_toml: &Option<ProjectToml>) -> Option<Seq<char>> {
    match project_toml {
        Some(project) => Some(project.game@),
        None => None,
    }
}

impl RunError {
    /// The error in words.
    pub fn message(&self) -> (text: String)
        ensures
            text@ == match self {
                RunError::NoClientDllDir => "No client DLL dir not set in the config"@,
                RunError::NoProject =>
                    "No project.toml found\nHelp: Use the game-override parameter"@,
            },
    {
        match self {
            RunError::NoClientDllDir => String::from_str("No client DLL dir not set in the config"),
            RunError::NoProject => String::from_str(
                "No project.toml found\nHelp: Use the game-override parameter",
            ),
        }
    }
}

/// Decides how the game is started.
///
/// The game runs from the first installation if the flags ask for the
/// plain game, the simulator client or several instances, else from the
/// second, which the configuration must then name. The game is the one the
/// flags name, else the project's; one of the two must be there. Without
/// the injector one instance is started directly; with it, as many as are
/// asked for, or one.
pub fn run_hl(
    cfg: &Cfg,
    project_toml: &Option<ProjectToml>,
    flags: &RunGameFlags,
    bxt: &RunGameBxtFlags,
) -> (plan: Result<LaunchPlan, RunError>)
    ensures
        match launch_plan_of(cfg.deep_view(), project_game(project_toml), flags, bxt) {
            Ok(expected) => plan is Ok && plan->Ok_0.deep_view() == expected,
            Err(error) => plan == Err::<LaunchPlan, RunError>(error),
        },
{
    let installation = if flags.vanilla_game || bxt.sim || bxt.optim_games.is_some() {
        cfg.half_life_dir.clone()
    } else {
        match &cfg.no_client_dll_dir {
            Some(dir) => dir.clone(),
            None => {
                return Err(RunError::NoClientDllDir);
            },
        }
    };
    let game: &String = match flags.game_override {
        Some(game) => game,
        None => match project_toml {
            Some(project) => &project.game,
            None => {
                return Err(RunError::NoProject);
            },
        },
    };
    let args = launch_args(game.as_str(), flags, bxt);
    let mut injector_path: Vec<String> = Vec::new();
    injector_path.push(String::from_str("Bunnymod XT"));
    injector_path.push(String::from_str("Injector.exe"));
    let mut game_executable_path: Vec<String> = Vec::new();
    game_executable_path.push(installation.clone());
    game_executable_path.push(String::from_str("hl.exe"));
    let mut working_dir: Vec<String> = Vec::new();
    working_dir.push(installation);
    let mut env: Vec<EnvVar> = Vec::new();
    if !bxt.no_bxt && bxt.optim_games.is_none() {
        match bxt.run_script {
            Some(script) => {
                env.push(EnvVar { name: String::from_str("BXT_SCRIPT"), value: script.clone() });
            },
            None => {},
        }
    }
    let spec = LaunchSpec {
        use_injector: !bxt.no_bxt,
        injector_path,
        game_executable_path,
        working_dir,
        args,
        env,
    };
    proof {
        let expected = launch_spec_of(installation@, game@, flags, bxt);
        assert(spec.injector_path.deep_view() =~= expected.injector_path);
        assert(spec.game_executable_path.deep_view() =~= expected.game_executable_path);
        assert(spec.working_dir.deep_view() =~= expected.working_dir);
        assert(spec.env.deep_view() =~= expected.env);
    }
    if bxt.no_bxt {
        Ok(LaunchPlan::Once(spec))
    } else {
        match bxt.optim_games {
            Some(count) => Ok(
                LaunchPlan::Many { spec, target_count: *count, keep_alive: flags.keep_alive },
            ),
            None => Ok(LaunchPlan::Once(spec)),
        }
    }
}

/// A process to start: the program, its arguments, and where it runs.
#[derive(Clone, Debug, PartialEq, Eq)]
pub struct Invocation {
    /// The program, as the parts of its path.
    pub program: Vec<String>,
    /// Paths that are handed to the program before its other arguments.
    pub path_args: Vec<Vec<String>>,
    pub args: Vec<String>,
    /// The directory that the process runs in; `None` for that of the tool.
    pub working_dir: Option<Vec<String>>,
    pub env: Vec<EnvVar>,
}

pub ghost struct InvocationView {
    pub program: Seq<Seq<char>>,
    pub path_args: Seq<Seq<Seq<char>>>,
    pub args: Seq<Seq<char>>,
    pub working_dir: Option<Seq<Seq<char>>>,
    pub env: Seq<EnvVarView>,
}

impl DeepView for Invocation {
    type V = InvocationView;

    open spec fn deep_view(&self) -> InvocationView {
        InvocationView {
            program: self.program.deep_view(),
            path_args: self.path_args.deep_view(),
            args: self.args.deep_view(),
            working_dir: self.working_dir.deep_view(),
            env: self.env.deep_view(),
        }
    }
}

/// What a started process left behind.
#[derive(Clone, Debug, PartialEq, Eq)]
pub struct ProcessOutput {
    /// The exit code, if the process ended with one.
    pub status: Option<i32>,
    pub stdout: Vec<u8>,
    pub stderr: Vec<u8>,
}

/// Why an instance was not started.
#[derive(Clone, Debug, PartialEq, Eq)]
pub enum LaunchError {
    /// The game's executable is not there.
    ExecutableMissing,
    /// The system did not start the process; its own words are kept.
    SpawnFailed(String),
}

/// The process that a launch starts: the injector with the game's
/// executable as its first argument, or the game itself.
pub open spec fn invocation_of(spec: LaunchSpecView) -> InvocationView {
    InvocationView {
        program: if spec.use_injector {
            spec.injector_path
        } else {
            spec.game_executable_path
        },
        path_args: if spec.use_injector {
            seq![spec.game_executable_path]
        } else {
            seq![]
        },
        args: spec.args,
        working_dir: Some(spec.working_dir),
        env: spec.env,
    }
}

fn clone_env(env: &Vec<EnvVar>) -> (copy: Vec<EnvVar>)
    ensures
        copy.deep_view() == env.deep_view(),
{
    let mut copy: Vec<EnvVar> = Vec::new();
    let mut i: usize = 0;
    while i < env.len()
        invariant
            i <= env.len(),
            copy.deep_view() == env.deep_view().take(i as int),
        decreases env.len() - i,
    {
        let ghost before = copy.deep_view();
        copy.push(EnvVar { name: env[i].name.clone(), value: env[i].value.clone() });
        assert(copy.deep_view() =~= before.push(env[i as int].deep_view()));
        assert(env.deep_view().take(i + 1) =~= before.push(env[i as int].deep_view()));
        i = i + 1;
    }
    assert(env.deep_view().take(env.len() as int) =~= env.deep_view());
    copy
}

/// Prepares the start of one instance. Where the game's executable is not
/// there, nothing is to be started and the launch fails; else the process
/// to start is handed out.
pub fn launch_once(spec: &LaunchSpec, game_executable_exists: bool) -> (step: Result<
    Invocation,
    LaunchError,
>)
    ensures
        !game_executable_exists ==> step == Err::<Invocation, LaunchError>(
            LaunchError::ExecutableMissing,
        ),
        game_executable_exists ==> step is Ok && step->Ok_0.deep_view() == invocation_of(
            spec.deep_view(),
        ),
{
    if !game_executable_exists {
        return Err(LaunchError::ExecutableMissing);
    }
    let mut path_args: Vec<Vec<String>> = Vec::new();
    let program = if spec.use_injector {
        path_args.push(clone_texts(&spec.game_executable_path));
        clone_texts(&spec.injector_path)
    } else {
        clone_texts(&spec.game_executable_path)
    };
    let invocation = Invocation {
        program,
        path_args,
        args: clone_texts(&spec.args),
        working_dir: Some(clone_texts(&spec.working_dir)),
        env: clone_env(&spec.env),
    };
    assert(invocation.path_args.deep_view() =~= invocation_of(spec.deep_view()).path_args);
    Ok(invocation)
}

/// What a launch comes to, once the system has answered: the output of the
/// process, or the system's refusal as a failed start.
pub fn launch_result(outcome: Result<ProcessOutput, String>) -> (result: Result<
    ProcessOutput,
    LaunchError,
>)
    ensures
        result == match outcome {
            Ok(output) => Ok::<ProcessOutput, LaunchError>(output),
            Err(reason) => Err(LaunchError::SpawnFailed(reason)),
        },
{
    match outcome {
        Ok(output) => Ok(output),
        Err(reason) => Err(LaunchError::SpawnFailed(reason)),
    }
}

/// The start of the raw-input helper for the game's process.
pub open spec fn r_input_invocation() -> InvocationView {
    InvocationView {
        program: seq!["RInput"@, "RInput.exe"@],
        path_args: seq![],
        args: seq!["hl.exe"@],
        working_dir: None,
        env: seq![],
    }
}

/// Prepares the start of the raw-input helper, which is started only where
/// its executable is there.
pub fn run_r_input(r_input_exists: bool) -> (step: Option<Invocation>)
    ensures
        r_input_exists <==> step is Some,
        step is Some ==> step->Some_0.deep_view() == r_input_invocation(),
{
    if r_input_exists {
        let mut program: Vec<String> = Vec::new();
        program.push(String::from_str("RInput"));
        program.push(String::from_str("RInput.exe"));
        let mut args: Vec<String> = Vec::new();
        args.push(String::from_str("hl.exe"));
        let invocation = Invocation {
            program,
            path_args: Vec::new(),
            args,
            working_dir: None,
            env: Vec::new(),
        };
        proof {
            let expected = r_input_invocation();
            assert(invocation.program.deep_view() =~= expected.program);
            assert(invocation.path_args.deep_view() =~= expected.path_args);
            assert(invocation.args.deep_view() =~= expected.args);
            assert(invocation.env.deep_view() =~= expected.env);
        }
        Some(invocation)
    } else {
        None
    }
}

/// A run of the game: how the game is started, and whether the raw-input
/// helper is started once that is done.
#[derive(Clone, Debug, PartialEq, Eq)]
pub struct GameRun {
    pub launch: LaunchPlan,
    pub r_input: bool,
}

/// Plans a run of the game from the configuration, the settings of the
/// project in the working directory, if it is one, and the flags.
pub fn run_game(
    cfg: &Cfg,
    project_toml: &Option<ProjectToml>,
    run_game_misc_flags: RunGameMiscFlags,
    run_game_flags: RunGameFlags,
    run_game_bxt_flags: RunGameBxtFlags,
) -> (run: Result<GameRun, RunError>)
    ensures
        match launch_plan_of(
            cfg.deep_view(),
            project_game(project_toml),
            &run_game_flags,
            &run_game_bxt_flags,
        ) {
            Ok(expected) => run is Ok && run->Ok_0.launch.deep_view() == expected
                && run->Ok_0.r_input == run_game_misc_flags.r_input,
            Err(error) => run == Err::<GameRun, RunError>(error),
        },
{
    match run_hl(cfg, project_toml, &run_game_flags, &run_game_bxt_flags) {
        Ok(launch) => Ok(GameRun { launch, r_input: run_game_misc_flags.r_input }),
        Err(error) => Err(error),
    }
}

} // verus!
