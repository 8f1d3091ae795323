use hltas_manager::cfg::Cfg;
use hltas_manager::commands::run_game::{
    launch_args, launch_once, launch_result, run_game, run_hl, run_r_input, EnvVar, GameRun,
    Invocation, LaunchError, LaunchPlan, LaunchSpec, ProcessOutput, RunError, RunGameBxtFlags,
    RunGameFlags, RunGameMiscFlags,
};
use hltas_manager::project_toml::ProjectToml;

fn words(items: &[&str]) -> Vec<String> {
    items.iter().map(|s| s.to_string()).collect()
}

fn args_for(
    game: &str,
    low: bool,
    record: bool,
    sim: bool,
    width: u32,
    height: u32,
    script: Option<&str>,
    params: Option<Vec<String>>,
) -> Vec<String> {
    let script = script.map(|s| s.to_string());
    let none: Option<String> = None;
    let count: Option<usize> = None;
    let flags = RunGameFlags {
        low,
        vanilla_game: false,
        width,
        height,
        params: &params,
        game_override: &none,
        keep_alive: false,
    };
    let bxt = RunGameBxtFlags { run_script: &script, optim_games: &count, sim, record, no_bxt: false };
    launch_args(game, &flags, &bxt)
}

const BASE: [&str; 10] =
    ["-noforcemparms", "-gl", "+gl_vsync", "0", "-windowed", "-w", "1280", "-h", "800", "-game"];

const LOW: [&str; 20] = [
    "-nofbo",
    "-nomsaa",
    "+gl_spriteblend",
    "0",
    "+r_detailtextures",
    "0",
    "-gl_ansio",
    "0",
    "+gl_texturemode",
    "GL_Nearest",
    "+gl_round_down",
    "0",
    "+violence_ablood",
    "0",
    "+violence_agibs",
    "0",
    "+violence_hblood",
    "0",
    "+violence_hgibs",
    "0",
];

#[test]
fn plain_run_has_baseline_window_and_game() {
    let mut expected = words(&BASE);
    expected.push("valve".to_string());
    assert_eq!(args_for("valve", false, false, false, 1280, 800, None, None), expected);
}

#[test]
fn window_size_is_written_in_decimal() {
    let args = args_for("valve", false, false, false, 1920, 1080, None, None);
    assert_eq!(&args[4..9], &words(&["-windowed", "-w", "1920", "-h", "1080"])[..]);
    let args = args_for("valve", false, false, false, 0, u32::MAX, None, None);
    assert_eq!(&args[4..9], &words(&["-windowed", "-w", "0", "-h", "4294967295"])[..]);
}

#[test]
fn simulator_flag_follows_the_game() {
    let args = args_for("bshift", false, false, true, 100, 100, None, None);
    assert_eq!(
        args,
        words(&[
            "-noforcemparms",
            "-gl",
            "+gl_vsync",
            "0",
            "-windowed",
            "-w",
            "100",
            "-h",
            "100",
            "-game",
            "bshift",
            "+bxt_tas_become_simulator_client",
        ])
    );
}

#[test]
fn low_quality_bundle_is_whole() {
    let mut expected = words(&BASE);
    expected.push("valve".to_string());
    expected.extend(words(&LOW));
    assert_eq!(args_for("valve", true, false, false, 1280, 800, None, None), expected);
}

#[test]
fn low_quality_bundle_is_all_or_nothing() {
    let extra = Some(words(&["+map c1a0", "-dev"]));
    let with = args_for("valve", true, true, true, 640, 480, Some("run.hltas"), extra.clone());
    let without = args_for("valve", false, true, true, 640, 480, Some("run.hltas"), extra);
    assert_eq!(with.len(), without.len() + LOW.len());
    let at = 12;
    assert_eq!(&with[..at], &without[..at]);
    assert_eq!(&with[at..at + LOW.len()], &words(&LOW)[..]);
    assert_eq!(&with[at + LOW.len()..], &without[at..]);
}

#[test]
fn record_script_and_extra_come_in_order() {
    let extra = Some(words(&["+map c1a0", "-dev", "  -condebug  "]));
    let args = args_for("valve", false, true, false, 1920, 1080, Some("tas/run.hltas"), extra);
    assert_eq!(
        &args[11..],
        &words(&[
            "-noborder",
            "sdl_createwindow",
            "+bxt_tas_loadscript",
            "tas/run.hltas",
            "+map",
            "c1a0",
            "-dev",
            "-condebug",
        ])[..]
    );
}

#[test]
fn arguments_with_white_space_are_split() {
    let args = args_for("my game", false, false, false, 1, 2, Some("a b.hltas"), None);
    assert_eq!(
        &args[9..],
        &words(&["-game", "my", "game", "+bxt_tas_loadscript", "a", "b.hltas"])[..]
    );
}

#[test]
fn empty_game_leaves_the_flag_alone() {
    let args = args_for("", false, false, false, 1, 2, None, Some(Vec::new()));
    assert_eq!(&args[9..], &words(&["-game"])[..]);
}

#[test]
fn same_input_gives_same_arguments() {
    let a = args_for("valve", true, true, false, 800, 600, Some("x.hltas"), Some(words(&["-a b"])));
    let b = args_for("valve", true, true, false, 800, 600, Some("x.hltas"), Some(words(&["-a b"])));
    assert_eq!(a, b);
}

fn cfg_with(second: Option<&str>) -> Cfg {
    Cfg {
        init_git_on_project: true,
        project_dir: "tas".to_string(),
        ignore_games: Vec::new(),
        no_client_dll_dir: second.map(|s| s.to_string()),
        cfgs_dir: Some("cfgs".to_string()),
        half_life_dir: "Half-Life".to_string(),
    }
}

struct Flags {
    vanilla_game: bool,
    keep_alive: bool,
    game_override: Option<String>,
    run_script: Option<String>,
    optim_games: Option<usize>,
    sim: bool,
    no_bxt: bool,
}

fn plain_flags() -> Flags {
    Flags {
        vanilla_game: false,
        keep_alive: false,
        game_override: None,
        run_script: None,
        optim_games: None,
        sim: false,
        no_bxt: false,
    }
}

fn plan(cfg: &Cfg, project: &Option<ProjectToml>, f: &Flags) -> Result<LaunchPlan, RunError> {
    let params: Option<Vec<String>> = None;
    let flags = RunGameFlags {
        low: false,
        vanilla_game: f.vanilla_game,
        width: 1280,
        height: 800,
        params: &params,
        game_override: &f.game_override,
        keep_alive: f.keep_alive,
    };
    let bxt = RunGameBxtFlags {
        run_script: &f.run_script,
        optim_games: &f.optim_games,
        sim: f.sim,
        record: false,
        no_bxt: f.no_bxt,
    };
    run_hl(cfg, project, &flags, &bxt)
}

fn plain_args(game: &str) -> Vec<String> {
    let mut args = words(&BASE);
    args.push(game.to_string());
    args
}

#[test]
fn project_game_runs_from_the_second_installation() {
    let project = Some(ProjectToml { game: "bshift".to_string() });
    let result = plan(&cfg_with(Some("NO_CLIENT_DLL")), &project, &plain_flags());
    assert_eq!(
        result,
        Ok(LaunchPlan::Once(LaunchSpec {
            use_injector: true,
            injector_path: words(&["Bunnymod XT", "Injector.exe"]),
            game_executable_path: words(&["NO_CLIENT_DLL", "hl.exe"]),
            working_dir: words(&["NO_CLIENT_DLL"]),
            args: plain_args("bshift"),
            env: Vec::new(),
        }))
    );
}

#[test]
fn vanilla_game_runs_from_the_first_installation() {
    let project = Some(ProjectToml { game: "valve".to_string() });
    let flags = Flags { vanilla_game: true, ..plain_flags() };
    match plan(&cfg_with(None), &project, &flags) {
        Ok(LaunchPlan::Once(spec)) => {
            assert_eq!(spec.game_executable_path, words(&["Half-Life", "hl.exe"]));
            assert_eq!(spec.working_dir, words(&["Half-Life"]));
        }
        other => panic!("unexpected plan {:?}", other),
    }
}

#[test]
fn missing_second_installation_is_an_error() {
    let project = Some(ProjectToml { game: "valve".to_string() });
    assert_eq!(plan(&cfg_with(None), &project, &plain_flags()), Err(RunError::NoClientDllDir));
    assert_eq!(plan(&cfg_with(None), &None, &plain_flags()), Err(RunError::NoClientDllDir));
}

#[test]
fn missing_project_is_an_error() {
    assert_eq!(plan(&cfg_with(Some("second")), &None, &plain_flags()), Err(RunError::NoProject));
}

#[test]
fn game_override_wins_over_the_project() {
    let project = Some(ProjectToml { game: "valve".to_string() });
    let flags = Flags { game_override: Some("gearbox".to_string()), ..plain_flags() };
    match plan(&cfg_with(Some("second")), &project, &flags) {
        Ok(LaunchPlan::Once(spec)) => assert_eq!(spec.args, plain_args("gearbox")),
        other => panic!("unexpected plan {:?}", other),
    }
    match plan(&cfg_with(Some("second")), &None, &flags) {
        Ok(LaunchPlan::Once(spec)) => assert_eq!(spec.args, plain_args("gearbox")),
        other => panic!("unexpected plan {:?}", other),
    }
}

#[test]
fn script_goes_to_the_injector_by_flag_and_variable() {
    let project = Some(ProjectToml { game: "valve".to_string() });
    let flags = Flags { run_script: Some("run.hltas".to_string()), ..plain_flags() };
    match plan(&cfg_with(Some("second")), &project, &flags) {
        Ok(LaunchPlan::Once(spec)) => {
            assert_eq!(
                spec.env,
                vec![EnvVar { name: "BXT_SCRIPT".to_string(), value: "run.hltas".to_string() }]
            );
            assert_eq!(&spec.args[11..], &words(&["+bxt_tas_loadscript", "run.hltas"])[..]);
        }
        other => panic!("unexpected plan {:?}", other),
    }
}

#[test]
fn optim_games_launch_many_from_the_first_installation() {
    let project = Some(ProjectToml { game: "valve".to_string() });
    let flags = Flags {
        optim_games: Some(3),
        keep_alive: true,
        run_script: Some("run.hltas".to_string()),
        ..plain_flags()
    };
    match plan(&cfg_with(None), &project, &flags) {
        Ok(LaunchPlan::Many { spec, target_count, keep_alive }) => {
            assert_eq!(target_count, 3);
            assert!(keep_alive);
            assert!(spec.use_injector);
            assert_eq!(spec.working_dir, words(&["Half-Life"]));
            assert_eq!(spec.env, Vec::<EnvVar>::new());
        }
        other => panic!("unexpected plan {:?}", other),
    }
}

#[test]
fn without_injector_the_game_starts_once_and_directly() {
    let project = Some(ProjectToml { game: "valve".to_string() });
    let flags = Flags {
        no_bxt: true,
        optim_games: Some(4),
        run_script: Some("run.hltas".to_string()),
        ..plain_flags()
    };
    match plan(&cfg_with(None), &project, &flags) {
        Ok(LaunchPlan::Once(spec)) => {
            assert!(!spec.use_injector);
            assert_eq!(spec.env, Vec::<EnvVar>::new());
        }
        other => panic!("unexpected plan {:?}", other),
    }
}

fn sample_spec(use_injector: bool) -> LaunchSpec {
    LaunchSpec {
        use_injector,
        injector_path: words(&["Bunnymod XT", "Injector.exe"]),
        game_executable_path: words(&["Half-Life", "hl.exe"]),
        working_dir: words(&["Half-Life"]),
        args: words(&["-gl", "-game", "valve"]),
        env: vec![EnvVar { name: "BXT_SCRIPT".to_string(), value: "a.hltas".to_string() }],
    }
}

#[test]
fn missing_executable_starts_nothing() {
    assert_eq!(launch_once(&sample_spec(true), false), Err(LaunchError::ExecutableMissing));
    assert_eq!(launch_once(&sample_spec(false), false), Err(LaunchError::ExecutableMissing));
}

#[test]
fn injector_gets_the_game_as_first_argument() {
    assert_eq!(
        launch_once(&sample_spec(true), true),
        Ok(Invocation {
            program: words(&["Bunnymod XT", "Injector.exe"]),
            path_args: vec![words(&["Half-Life", "hl.exe"])],
            args: words(&["-gl", "-game", "valve"]),
            working_dir: Some(words(&["Half-Life"])),
            env: vec![EnvVar { name: "BXT_SCRIPT".to_string(), value: "a.hltas".to_string() }],
        })
    );
}

#[test]
fn direct_launch_runs_the_game_itself() {
    assert_eq!(
        launch_once(&sample_spec(false), true),
        Ok(Invocation {
            program: words(&["Half-Life", "hl.exe"]),
            path_args: Vec::new(),
            args: words(&["-gl", "-game", "valve"]),
            working_dir: Some(words(&["Half-Life"])),
            env: vec![EnvVar { name: "BXT_SCRIPT".to_string(), value: "a.hltas".to_string() }],
        })
    );
}

#[test]
fn launch_result_wraps_the_refusal() {
    let output = ProcessOutput { status: Some(1), stdout: vec![1, 2], stderr: Vec::new() };
    assert_eq!(launch_result(Ok(output.clone())), Ok(output));
    assert_eq!(
        launch_result(Err("access denied".to_string())),
        Err(LaunchError::SpawnFailed("access denied".to_string()))
    );
}

#[test]
fn r_input_needs_its_executable() {
    assert_eq!(run_r_input(false), None);
    assert_eq!(
        run_r_input(true),
        Some(Invocation {
            program: words(&["RInput", "RInput.exe"]),
            path_args: Vec::new(),
            args: words(&["hl.exe"]),
            working_dir: None,
            env: Vec::new(),
        })
    );
}

#[test]
fn run_game_carries_the_r_input_flag() {
    let project = Some(ProjectToml { game: "valve".to_string() });
    let params: Option<Vec<String>> = None;
    let none: Option<String> = None;
    let count: Option<usize> = None;
    let make_flags = || RunGameFlags {
        low: false,
        vanilla_game: true,
        width: 1280,
        height: 800,
        params: &params,
        game_override: &none,
        keep_alive: false,
    };
    let make_bxt = || RunGameBxtFlags {
        run_script: &none,
        optim_games: &count,
        sim: false,
        record: false,
        no_bxt: false,
    };
    let expected = run_hl(&cfg_with(None), &project, &make_flags(), &make_bxt()).unwrap();
    let run = run_game(
        &cfg_with(None),
        &project,
        RunGameMiscFlags { r_input: true },
        make_flags(),
        make_bxt(),
    );
    assert_eq!(run, Ok(GameRun { launch: expected, r_input: true }));
    let failed = run_game(
        &cfg_with(None),
        &None,
        RunGameMiscFlags { r_input: true },
        make_flags(),
        make_bxt(),
    );
    assert_eq!(failed, Err(RunError::NoProject));
}

#[test]
fn run_errors_have_their_words() {
    assert_eq!(RunError::NoClientDllDir.message(), "No client DLL dir not set in the config");
    assert_eq!(
        RunError::NoProject.message(),
        "No project.toml found\nHelp: Use the game-override parameter"
    );
}
