use hltas_manager::cfg::Cfg;
use hltas_manager::commands::games::SubDir;
use hltas_manager::commands::project::{
    copy_game_dir, game_dir_validate, gitignore_steps, init, init_project, new,
    override_userconfig, set_up_git, validate_second_client, ProjectError, ProjectFacts,
    ProjectStep, ProjectTemplates, USERCONFIG,
};
use hltas_manager::files::ScriptError;

fn parts(items: &[&str]) -> Vec<String> {
    items.iter().map(|s| s.to_string()).collect()
}

fn cfg(second: Option<&str>, ignore: &[&str], git: bool) -> Cfg {
    Cfg {
        init_git_on_project: git,
        project_dir: "tas".to_string(),
        ignore_games: parts(ignore),
        no_client_dll_dir: second.map(|s| s.to_string()),
        cfgs_dir: Some("cfgs".to_string()),
        half_life_dir: "Half-Life".to_string(),
    }
}

fn game(name: &str) -> SubDir {
    SubDir { name: name.to_string(), is_dir: true, has_dlls: true, has_cl_dlls: true }
}

fn facts() -> ProjectFacts {
    ProjectFacts {
        project_dir_exists: false,
        project_dir_is_dir: false,
        second_client_is_dir: true,
        entries: vec![game("valve"), game("bshift")],
        game_dir_is_dir: true,
        project_toml_is_file: false,
        git_dir_is_dir: false,
        hook: None,
        gitignore: None,
        half_life_name: Some("Half-Life".to_string()),
        second_name: Some("second".to_string()),
    }
}

const TEMPLATES: ProjectTemplates<'static> =
    ProjectTemplates { hook: "link HALF_LIFE_DIR NO_CLIENT_DLL_PRESENT NO_CLIENT_DLL_DIR\n", git_ignore: "*.bat\n" };

fn userconfig(path: &[&str]) -> ProjectStep {
    ProjectStep::WriteOrAppend { path: parts(path), contents: "exec hltas.cfg\nloadtas2".to_string() }
}

#[test]
fn second_client_must_be_there() {
    assert_eq!(
        validate_second_client(&cfg(Some("second"), &[], true), false, "valve"),
        Err(ProjectError::SecondClientMissing)
    );
    assert_eq!(
        validate_second_client(&cfg(Some("second"), &[], true), true, "bshift"),
        Ok(Some(parts(&["second", "bshift"])))
    );
    assert_eq!(validate_second_client(&cfg(None, &[], true), false, "valve"), Ok(None));
    assert_eq!(validate_second_client(&cfg(None, &[], true), true, "valve"), Ok(None));
}

#[test]
fn installed_ignored_game_blocks_projects() {
    let entries = vec![game("valve"), game("cstrike")];
    assert_eq!(
        game_dir_validate(&cfg(None, &["cstrike"], true), &entries, true),
        Err(ProjectError::GameIgnored)
    );
    assert_eq!(
        game_dir_validate(&cfg(None, &["dod", "cstrike"], true), &entries, false),
        Err(ProjectError::GameIgnored)
    );
    assert_eq!(game_dir_validate(&cfg(None, &["dod"], true), &entries, true), Ok(()));
    assert_eq!(
        game_dir_validate(&cfg(None, &["dod"], true), &entries, false),
        Err(ProjectError::GameNotFound)
    );
    assert_eq!(game_dir_validate(&cfg(None, &[], true), &Vec::new(), true), Ok(()));
}

#[test]
fn default_game_keeps_its_client_library() {
    assert_eq!(
        copy_game_dir(&cfg(Some("second"), &[], true), "valve"),
        vec![ProjectStep::CopyGameDir {
            from: parts(&["Half-Life", "valve"]),
            to: parts(&["second", "valve"]),
        }]
    );
    assert_eq!(
        copy_game_dir(&cfg(Some("second"), &[], true), "bshift"),
        vec![
            ProjectStep::CopyGameDir {
                from: parts(&["Half-Life", "bshift"]),
                to: parts(&["second", "bshift"]),
            },
            ProjectStep::RemoveFile { path: parts(&["second", "bshift", "cl_dlls", "client.dll"]) },
        ]
    );
    assert_eq!(copy_game_dir(&cfg(None, &[], true), "bshift"), Vec::<ProjectStep>::new());
}

#[test]
fn userconfig_is_overridden_in_each_installation() {
    assert_eq!(USERCONFIG, "exec hltas.cfg\nloadtas2");
    assert_eq!(
        override_userconfig(&cfg(Some("second"), &[], true), "bshift"),
        vec![
            userconfig(&["Half-Life", "bshift", "userconfig.cfg"]),
            userconfig(&["second", "bshift", "userconfig.cfg"]),
        ]
    );
    assert_eq!(
        override_userconfig(&cfg(None, &[], true), "valve"),
        vec![userconfig(&["Half-Life", "valve", "userconfig.cfg"])]
    );
}

#[test]
fn ignore_list_is_judged_by_its_digest() {
    let dir = parts(&["tas", "run1"]);
    let path = parts(&["tas", "run1", ".gitignore"]);
    assert_eq!(gitignore_steps(&dir, "*.bat", &[7, 7], &Some(vec![7, 7])), Vec::<ProjectStep>::new());
    assert_eq!(
        gitignore_steps(&dir, "*.bat", &[7, 7], &Some(vec![7, 8])),
        vec![ProjectStep::AppendFile { path: path.clone(), contents: "*.bat\n*.bat".to_string() }]
    );
    assert_eq!(
        gitignore_steps(&dir, "*.bat", &[7, 7], &None),
        vec![ProjectStep::WriteFile { path, contents: "*.bat".to_string() }]
    );
}

#[test]
fn fresh_repository_gets_hook_and_ignore_list() {
    let dir = parts(&["tas", "run1"]);
    assert_eq!(
        set_up_git(&cfg(Some("second"), &[], true), &dir, &facts(), &TEMPLATES),
        Ok(vec![
            ProjectStep::GitInit { dir: dir.clone() },
            ProjectStep::WriteFile {
                path: parts(&["tas", "run1", ".git/hooks/post-checkout"]),
                contents: "link Half-Life true second\n".to_string(),
            },
            ProjectStep::WriteFile {
                path: parts(&["tas", "run1", ".gitignore"]),
                contents: "*.bat\n".to_string(),
            },
        ])
    );
}

#[test]
fn existing_repository_is_only_completed() {
    let dir = parts(&["tas", "run1"]);
    let mut f = facts();
    f.git_dir_is_dir = true;
    f.hook = Some(TEMPLATES.hook.as_bytes().to_vec());
    f.gitignore = Some(TEMPLATES.git_ignore.as_bytes().to_vec());
    assert_eq!(set_up_git(&cfg(None, &[], true), &dir, &f, &TEMPLATES), Ok(Vec::new()));

    f.hook = Some(b"echo mine\n".to_vec());
    f.gitignore = Some(b"target/\n".to_vec());
    assert_eq!(
        set_up_git(&cfg(None, &[], true), &dir, &f, &TEMPLATES),
        Ok(vec![
            ProjectStep::AppendFile {
                path: parts(&["tas", "run1", ".git/hooks/post-checkout"]),
                contents: "link Half-Life false NO_CLIENT_DLL_DIR\n".to_string(),
            },
            ProjectStep::AppendFile {
                path: parts(&["tas", "run1", ".gitignore"]),
                contents: "*.bat\n\n*.bat\n".to_string(),
            },
        ])
    );
}

#[test]
fn hook_errors_stop_the_repository() {
    let dir = parts(&["tas", "run1"]);
    let mut f = facts();
    f.half_life_name = None;
    assert_eq!(
        set_up_git(&cfg(None, &[], true), &dir, &f, &TEMPLATES),
        Err(ScriptError::NoHalfLifeDirName)
    );
    let mut f = facts();
    f.second_name = None;
    assert_eq!(
        set_up_git(&cfg(Some("second"), &[], true), &dir, &f, &TEMPLATES),
        Err(ScriptError::NoSecondDirName)
    );
    assert_eq!(
        init_project(&cfg(Some("second"), &[], true), &dir, &None, false, false, &f, &TEMPLATES),
        Err(ProjectError::Hook(ScriptError::NoSecondDirName))
    );
    assert!(init_project(&cfg(Some("second"), &[], true), &dir, &None, false, true, &f, &TEMPLATES).is_ok());
}

#[test]
fn project_without_repository_has_its_steps() {
    let dir = parts(&["tas", "run1"]);
    let steps = init_project(
        &cfg(Some("second"), &[], false),
        &dir,
        &Some("bshift".to_string()),
        false,
        false,
        &facts(),
        &TEMPLATES,
    );
    assert_eq!(
        steps,
        Ok(vec![
            ProjectStep::WriteProjectToml {
                path: parts(&["tas", "run1", "project.toml"]),
                game: "bshift".to_string(),
            },
            ProjectStep::CopyGameDir {
                from: parts(&["Half-Life", "bshift"]),
                to: parts(&["second", "bshift"]),
            },
            ProjectStep::RemoveFile { path: parts(&["second", "bshift", "cl_dlls", "client.dll"]) },
            userconfig(&["Half-Life", "bshift", "userconfig.cfg"]),
            userconfig(&["second", "bshift", "userconfig.cfg"]),
        ])
    );
}

#[test]
fn repository_follows_flags_then_configuration() {
    let dir = parts(&["tas", "run1"]);
    let count = |cfg_git: bool, init_git: bool, no_init_git: bool| {
        init_project(&cfg(None, &[], cfg_git), &dir, &None, init_git, no_init_git, &facts(), &TEMPLATES)
            .unwrap()
            .iter()
            .filter(|s| matches!(s, ProjectStep::GitInit { .. }))
            .count()
    };
    assert_eq!(count(false, false, false), 0);
    assert_eq!(count(true, false, false), 1);
    assert_eq!(count(true, false, true), 0);
    assert_eq!(count(false, true, false), 1);
    assert_eq!(count(false, true, true), 1);
}

#[test]
fn project_checks_come_in_order() {
    let dir = parts(&["tas", "run1"]);
    let mut f = facts();
    f.second_client_is_dir = false;
    f.game_dir_is_dir = false;
    f.entries = vec![game("cstrike")];
    let c = cfg(Some("second"), &["cstrike"], false);
    assert_eq!(
        init_project(&c, &dir, &None, false, true, &f, &TEMPLATES),
        Err(ProjectError::SecondClientMissing)
    );
    f.second_client_is_dir = true;
    assert_eq!(init_project(&c, &dir, &None, false, true, &f, &TEMPLATES), Err(ProjectError::GameIgnored));
    f.entries = vec![game("valve")];
    assert_eq!(init_project(&c, &dir, &None, false, true, &f, &TEMPLATES), Err(ProjectError::GameNotFound));
}

#[test]
fn existing_settings_are_kept() {
    let dir = parts(&["tas", "run1"]);
    let mut f = facts();
    f.project_toml_is_file = true;
    assert_eq!(
        init_project(&cfg(None, &[], false), &dir, &None, false, false, &f, &TEMPLATES),
        Ok(vec![userconfig(&["Half-Life", "valve", "userconfig.cfg"])])
    );
}

#[test]
fn new_project_makes_its_directory_first() {
    let steps = new(&cfg(None, &[], false), "run1", &None, false, true, &facts(), &TEMPLATES).unwrap();
    assert_eq!(
        steps,
        vec![
            ProjectStep::CreateDir { path: parts(&["tas", "run1"]) },
            ProjectStep::WriteProjectToml {
                path: parts(&["tas", "run1", "project.toml"]),
                game: "valve".to_string(),
            },
            userconfig(&["Half-Life", "valve", "userconfig.cfg"]),
        ]
    );
}

#[test]
fn new_project_must_not_exist() {
    let mut f = facts();
    f.project_dir_exists = true;
    f.second_client_is_dir = false;
    assert_eq!(
        new(&cfg(Some("second"), &[], false), "run1", &None, false, true, &f, &TEMPLATES),
        Err(ProjectError::ProjectExists)
    );
    f.project_dir_exists = false;
    assert_eq!(
        new(&cfg(Some("second"), &[], false), "run1", &None, false, true, &f, &TEMPLATES),
        Err(ProjectError::SecondClientMissing)
    );
}

#[test]
fn init_needs_the_directory() {
    let mut f = facts();
    assert_eq!(
        init(&cfg(None, &[], false), "run1", &None, false, true, &f, &TEMPLATES),
        Err(ProjectError::ProjectMissing)
    );
    f.project_dir_is_dir = true;
    assert_eq!(
        init(&cfg(None, &[], false), "run1", &Some("bshift".to_string()), false, true, &f, &TEMPLATES),
        Ok(vec![
            ProjectStep::WriteProjectToml {
                path: parts(&["tas", "run1", "project.toml"]),
                game: "bshift".to_string(),
            },
            userconfig(&["Half-Life", "bshift", "userconfig.cfg"]),
        ])
    );
}
