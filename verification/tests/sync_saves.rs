use hltas_manager::cfg::Cfg;
use hltas_manager::commands::games::SubDir;
use hltas_manager::commands::sync::{SyncLoop, SyncPhase, SyncSetupError, SyncStep};
use hltas_manager::commands::sync_saves::{
    is_save_file, reconcile, saves_from_dir, sync_result, sync_saves, sync_saves_once,
    sync_targets, GameSaves, GameSync, SaveFileRecord, SyncAction, SyncError, SyncOutcome,
    SyncTarget, SAVE_DIR,
};
use std::collections::BTreeMap;

fn save(name: &str, modified: i128) -> SaveFileRecord {
    SaveFileRecord { file_name: name.to_string(), modified }
}

fn outcome(name: &str, action: SyncAction) -> SyncOutcome {
    SyncOutcome { file_name: name.to_string(), action }
}

fn dir_of(files: &[SaveFileRecord]) -> BTreeMap<String, i128> {
    files.iter().map(|f| (f.file_name.clone(), f.modified)).collect()
}

fn carry_out(
    outcomes: &[SyncOutcome],
    primary: &mut BTreeMap<String, i128>,
    mirror: &mut BTreeMap<String, i128>,
) {
    for o in outcomes {
        match o.action {
            SyncAction::CopyToMirror => {
                mirror.insert(o.file_name.clone(), primary[&o.file_name]);
            }
            SyncAction::CopyToPrimary => {
                primary.insert(o.file_name.clone(), mirror[&o.file_name]);
            }
            SyncAction::Unchanged => {}
        }
    }
}

#[test]
fn newer_mirror_wins_and_its_own_file_spreads() {
    let primary = vec![save("a.sav", 5)];
    let mirror = vec![save("a.sav", 10), save("b.sav", 1)];
    let outcomes = reconcile(&primary, &mirror);
    assert_eq!(
        outcomes,
        vec![outcome("a.sav", SyncAction::CopyToPrimary), outcome("b.sav", SyncAction::CopyToPrimary)]
    );
    let mut p = dir_of(&primary);
    let mut m = dir_of(&mirror);
    carry_out(&outcomes, &mut p, &mut m);
    let expected = dir_of(&[save("a.sav", 10), save("b.sav", 1)]);
    assert_eq!(p, expected);
    assert_eq!(m, expected);
}

#[test]
fn equal_times_copy_nothing() {
    let outcomes = reconcile(&vec![save("a.sav", 5)], &vec![save("a.sav", 5)]);
    assert_eq!(outcomes, vec![outcome("a.sav", SyncAction::Unchanged)]);
}

#[test]
fn disjoint_sides_get_each_others_files() {
    let primary = vec![save("a.sav", 3)];
    let mirror = vec![save("b.sav", 4)];
    let outcomes = reconcile(&primary, &mirror);
    assert_eq!(
        outcomes,
        vec![outcome("a.sav", SyncAction::CopyToMirror), outcome("b.sav", SyncAction::CopyToPrimary)]
    );
    let mut p = dir_of(&primary);
    let mut m = dir_of(&mirror);
    carry_out(&outcomes, &mut p, &mut m);
    assert_eq!(p, m);
    assert_eq!(p.keys().cloned().collect::<Vec<_>>(), vec!["a.sav".to_string(), "b.sav".to_string()]);
}

#[test]
fn newer_primary_is_copied_to_the_mirror() {
    let outcomes = reconcile(&vec![save("a.sav", 11)], &vec![save("a.sav", 10)]);
    assert_eq!(outcomes, vec![outcome("a.sav", SyncAction::CopyToMirror)]);
}

#[test]
fn times_before_1970_compare_as_numbers() {
    let outcomes = reconcile(&vec![save("a.sav", -5)], &vec![save("a.sav", -6)]);
    assert_eq!(outcomes, vec![outcome("a.sav", SyncAction::CopyToMirror)]);
    let outcomes = reconcile(&vec![save("a.sav", i128::MIN)], &vec![save("a.sav", i128::MAX)]);
    assert_eq!(outcomes, vec![outcome("a.sav", SyncAction::CopyToPrimary)]);
}

#[test]
fn empty_sides_need_nothing() {
    assert_eq!(reconcile(&Vec::new(), &Vec::new()), Vec::<SyncOutcome>::new());
}

#[test]
fn outcomes_follow_primary_then_leftover_mirror() {
    let primary = vec![save("c.sav", 1), save("a.sav", 2), save("b.sav", 9)];
    let mirror = vec![save("z.sav", 1), save("b.sav", 3), save("y.sav", 1), save("c.sav", 1)];
    assert_eq!(
        reconcile(&primary, &mirror),
        vec![
            outcome("c.sav", SyncAction::Unchanged),
            outcome("a.sav", SyncAction::CopyToMirror),
            outcome("b.sav", SyncAction::CopyToMirror),
            outcome("z.sav", SyncAction::CopyToPrimary),
            outcome("y.sav", SyncAction::CopyToPrimary),
        ]
    );
}

#[test]
fn a_mirror_file_is_partner_of_one_file_only() {
    let primary = vec![save("a.sav", 5), save("a.sav", 7)];
    let mirror = vec![save("a.sav", 6)];
    assert_eq!(
        reconcile(&primary, &mirror),
        vec![outcome("a.sav", SyncAction::CopyToPrimary), outcome("a.sav", SyncAction::CopyToMirror)]
    );
}

#[test]
fn second_pass_after_convergence_copies_nothing() {
    let primary = vec![save("a.sav", 5), save("c.sav", 2)];
    let mirror = vec![save("a.sav", 10), save("b.sav", 1)];
    let mut p = dir_of(&primary);
    let mut m = dir_of(&mirror);
    carry_out(&reconcile(&primary, &mirror), &mut p, &mut m);
    let again_p: Vec<SaveFileRecord> = p.iter().map(|(n, t)| save(n, *t)).collect();
    let again_m: Vec<SaveFileRecord> = m.iter().map(|(n, t)| save(n, *t)).collect();
    let outcomes = reconcile(&again_p, &again_m);
    assert_eq!(outcomes.len(), 3);
    assert!(outcomes.iter().all(|o| o.action == SyncAction::Unchanged));
}

#[test]
fn both_orders_converge_to_the_same_sides() {
    let first = vec![save("a.sav", 5), save("c.sav", 2), save("d.sav", 8)];
    let second = vec![save("d.sav", 3), save("a.sav", 10), save("b.sav", 1)];
    let mut p = dir_of(&first);
    let mut m = dir_of(&second);
    carry_out(&reconcile(&first, &second), &mut p, &mut m);
    let mut p2 = dir_of(&second);
    let mut m2 = dir_of(&first);
    carry_out(&reconcile(&second, &first), &mut p2, &mut m2);
    assert_eq!(p, m);
    assert_eq!(p2, m2);
    assert_eq!(p, p2);
    assert_eq!(p, dir_of(&[save("a.sav", 10), save("b.sav", 1), save("c.sav", 2), save("d.sav", 8)]));
}

#[test]
fn save_files_end_in_sav() {
    assert!(is_save_file("quick.sav"));
    assert!(is_save_file("a.sav"));
    assert!(is_save_file("my.save.sav"));
    assert!(is_save_file("..sav"));
    assert!(!is_save_file(".sav"));
    assert!(!is_save_file("sav"));
    assert!(!is_save_file("quick.SAV"));
    assert!(!is_save_file("quick.sav.bak"));
    assert!(!is_save_file("quicksav"));
    assert!(!is_save_file(""));
}

#[test]
fn save_names_agree_with_path_extension() {
    let names = ["quick.sav", ".sav", "..sav", "a.b.sav", "sav", "x.sav ", "x.Sav", "auto.sav", "x.", "x"];
    for name in names {
        let by_path = std::path::Path::new(name).extension().map(|e| e == "sav").unwrap_or(false);
        assert_eq!(is_save_file(name), by_path, "{:?}", name);
    }
}

#[test]
fn saves_from_dir_keeps_save_files_in_order() {
    let listing = vec![save("b.sav", 2), save("notes.txt", 3), save("a.sav", 1), save(".sav", 4)];
    assert_eq!(saves_from_dir(&listing), vec![save("b.sav", 2), save("a.sav", 1)]);
}

fn dir(name: &str, game: bool) -> SubDir {
    SubDir { name: name.to_string(), is_dir: true, has_dlls: game, has_cl_dlls: false }
}

#[test]
fn targets_are_the_games_of_the_mirror() {
    let mirror = vec![dir("valve", true), dir("gfx", false), dir("bshift", true), dir("bshift_hd", false)];
    assert_eq!(SAVE_DIR, "SAVE");
    assert_eq!(
        sync_targets(SAVE_DIR, &mirror),
        vec![
            SyncTarget {
                game: "valve".to_string(),
                saves_dir: vec!["valve".to_string(), "SAVE".to_string()],
            },
            SyncTarget {
                game: "bshift".to_string(),
                saves_dir: vec!["bshift".to_string(), "SAVE".to_string()],
            },
        ]
    );
    assert_eq!(sync_targets(SAVE_DIR, &Vec::new()), Vec::<SyncTarget>::new());
}

fn sample_pass() -> Vec<GameSaves> {
    vec![
        GameSaves {
            game: "valve".to_string(),
            primary: Some(vec![save("a.sav", 5), save("readme.txt", 1)]),
            mirror: Some(vec![save("a.sav", 10), save("b.sav", 1)]),
        },
        GameSaves { game: "bshift".to_string(), primary: None, mirror: Some(vec![save("x.sav", 1)]) },
        GameSaves {
            game: "gearbox".to_string(),
            primary: Some(vec![save("g.sav", 1)]),
            mirror: Some(Vec::new()),
        },
    ]
}

#[test]
fn a_game_without_directory_does_not_stop_the_others() {
    assert_eq!(
        sync_saves_once(&sample_pass()),
        vec![
            GameSync {
                game: "valve".to_string(),
                outcomes: Some(vec![
                    outcome("a.sav", SyncAction::CopyToPrimary),
                    outcome("b.sav", SyncAction::CopyToPrimary),
                ]),
            },
            GameSync { game: "bshift".to_string(), outcomes: None },
            GameSync {
                game: "gearbox".to_string(),
                outcomes: Some(vec![outcome("g.sav", SyncAction::CopyToMirror)]),
            },
        ]
    );
}

#[test]
fn missing_directory_fails_the_pass() {
    let pass = sync_saves_once(&sample_pass());
    let copied = vec![vec![true, true], Vec::new(), vec![true]];
    assert_eq!(
        sync_result(pass, &copied),
        Err(SyncError::DirCreateFailed { game: "bshift".to_string() })
    );
}

#[test]
fn first_failed_copy_fails_the_pass() {
    let pass = sync_saves_once(&sample_pass());
    let copied = vec![vec![true, false], Vec::new(), vec![false]];
    assert_eq!(
        sync_result(pass, &copied),
        Err(SyncError::CopyFailed { game: "valve".to_string(), file_name: "b.sav".to_string() })
    );
}

#[test]
fn a_pass_without_failure_hands_its_decisions_on() {
    let found = vec![GameSaves {
        game: "valve".to_string(),
        primary: Some(vec![save("a.sav", 5), save("same.sav", 1)]),
        mirror: Some(vec![save("same.sav", 1)]),
    }];
    let pass = sync_saves_once(&found);
    assert_eq!(sync_result(pass.clone(), &vec![vec![true, true]]), Ok(pass.clone()));
    assert_eq!(sync_result(pass.clone(), &Vec::new()), Ok(pass.clone()));
    assert_eq!(sync_result(pass.clone(), &vec![vec![true, false]]), Ok(pass.clone()));
    assert_eq!(
        sync_result(pass, &vec![vec![false, true]]),
        Err(SyncError::CopyFailed { game: "valve".to_string(), file_name: "a.sav".to_string() })
    );
}

fn cfg_with(second: Option<&str>) -> Cfg {
    Cfg {
        init_git_on_project: true,
        project_dir: "tas".to_string(),
        ignore_games: Vec::new(),
        no_client_dll_dir: second.map(|s| s.to_string()),
        cfgs_dir: None,
        half_life_dir: "Half-Life".to_string(),
    }
}

#[test]
fn saves_need_a_second_installation() {
    assert_eq!(sync_saves(&cfg_with(None), false), Err(SyncSetupError::NoSecondInstallation));
    assert_eq!(sync_saves(&cfg_with(None), true), Err(SyncSetupError::NoSecondInstallation));
    assert_eq!(
        sync_saves(&cfg_with(Some("second")), true),
        Ok((
            SyncLoop { forever: true, links: false, saves: true, phase: SyncPhase::Syncing },
            SyncStep::SyncSaves
        ))
    );
}
