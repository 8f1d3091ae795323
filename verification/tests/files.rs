use hltas_manager::files::{
    hook_write, write_cfgs, write_hard_link_shell_hook, write_run_manager_sub_command_script,
    write_toggle_sim_client, write_toggle_vanilla_game, FileWrite, HookWrite, ScriptError,
};

fn parts(items: &[&str]) -> Vec<String> {
    items.iter().map(|s| s.to_string()).collect()
}

const CFGS: [&str; 5] = ["hltas.cfg", "ingame.cfg", "record.cfg", "editor.cfg", "cam.cfg"];

#[test]
fn missing_script_files_are_written() {
    assert_eq!(write_cfgs(&Vec::new(), &None), parts(&CFGS));
    assert_eq!(
        write_cfgs(&parts(&["ingame.cfg", "cam.cfg", "other.cfg"]), &None),
        parts(&["hltas.cfg", "record.cfg", "editor.cfg"])
    );
    assert_eq!(write_cfgs(&parts(&CFGS), &None), Vec::<String>::new());
}

#[test]
fn empty_reset_list_resets_all() {
    assert_eq!(write_cfgs(&parts(&CFGS), &Some(Vec::new())), parts(&CFGS));
}

#[test]
fn named_script_files_are_reset() {
    let reset = Some(parts(&["record.cfg", "hltas.cfg", "unknown.cfg"]));
    assert_eq!(write_cfgs(&parts(&CFGS), &reset), parts(&["hltas.cfg", "record.cfg"]));
    assert_eq!(
        write_cfgs(&parts(&["hltas.cfg", "ingame.cfg"]), &reset),
        parts(&["hltas.cfg", "record.cfg", "editor.cfg", "cam.cfg"])
    );
}

const HOOK: &str = "#!/bin/sh\nHL=HALF_LIFE_DIR\nif NO_CLIENT_DLL_PRESENT; then ln x NO_CLIENT_DLL_DIR; fi\n";

#[test]
fn hook_is_judged_by_its_digest() {
    let name = Some("hl".to_string());
    let text = "#!/bin/sh\nHL=hl\nif false; then ln x NO_CLIENT_DLL_DIR; fi\n".to_string();
    assert_eq!(
        hook_write(HOOK, &[1, 2, 3], &Some(vec![1, 2, 3]), &name, false, &None),
        Ok(HookWrite::AlreadyInstalled)
    );
    assert_eq!(
        hook_write(HOOK, &[1, 2, 3], &Some(vec![1, 2, 4]), &name, false, &None),
        Ok(HookWrite::Append(text.clone()))
    );
    assert_eq!(
        hook_write(HOOK, &[1, 2, 3], &Some(vec![1, 2]), &name, false, &None),
        Ok(HookWrite::Append(text.clone()))
    );
    assert_eq!(hook_write(HOOK, &[1, 2, 3], &None, &name, false, &None), Ok(HookWrite::Create(text)));
    assert_eq!(
        hook_write(HOOK, &[], &Some(Vec::new()), &None, true, &None),
        Ok(HookWrite::AlreadyInstalled)
    );
    assert_eq!(
        hook_write(HOOK, &[], &Some(vec![0]), &None, true, &None),
        Err(ScriptError::NoHalfLifeDirName)
    );
}

#[test]
fn installed_hook_is_left_alone() {
    let existing = Some(HOOK.as_bytes().to_vec());
    assert_eq!(
        write_hard_link_shell_hook(HOOK, &existing, &Some("Half-Life".to_string()), false, &None),
        Ok(HookWrite::AlreadyInstalled)
    );
    assert_eq!(
        write_hard_link_shell_hook(HOOK, &existing, &None, true, &None),
        Ok(HookWrite::AlreadyInstalled)
    );
}

#[test]
fn new_hook_names_both_installations() {
    assert_eq!(
        write_hard_link_shell_hook(
            HOOK,
            &None,
            &Some("Half-Life".to_string()),
            true,
            &Some("NO_CLIENT_DLL".to_string())
        ),
        Ok(HookWrite::Create(
            "#!/bin/sh\nHL=Half-Life\nif true; then ln x NO_CLIENT_DLL; fi\n".to_string()
        ))
    );
}

#[test]
fn hook_without_second_installation_says_so() {
    assert_eq!(
        write_hard_link_shell_hook(
            HOOK,
            &None,
            &Some("hl".to_string()),
            false,
            &Some("ignored".to_string())
        ),
        Ok(HookWrite::Create(
            "#!/bin/sh\nHL=hl\nif false; then ln x NO_CLIENT_DLL_DIR; fi\n".to_string()
        ))
    );
}

#[test]
fn foreign_hook_gets_the_text_appended() {
    let existing = Some(b"#!/bin/sh\necho other\n".to_vec());
    assert_eq!(
        write_hard_link_shell_hook(HOOK, &existing, &Some("hl".to_string()), false, &None),
        Ok(HookWrite::Append(
            "#!/bin/sh\nHL=hl\nif false; then ln x NO_CLIENT_DLL_DIR; fi\n".to_string()
        ))
    );
}

#[test]
fn hook_needs_the_names_of_the_installations() {
    assert_eq!(
        write_hard_link_shell_hook(HOOK, &None, &None, true, &Some("second".to_string())),
        Err(ScriptError::NoHalfLifeDirName)
    );
    assert_eq!(
        write_hard_link_shell_hook(HOOK, &None, &Some("hl".to_string()), true, &None),
        Err(ScriptError::NoSecondDirName)
    );
}

#[test]
fn hook_text_agrees_with_std_replace() {
    let template = "HALF_LIFE_DIR NO_CLIENT_DLL_PRESENT NO_CLIENT_DLL_DIR HALF_LIFE_DIRNO_CLIENT_DLL_DIR";
    let expected = template
        .replace("HALF_LIFE_DIR", "A B")
        .replace("NO_CLIENT_DLL_PRESENT", "true")
        .replace("NO_CLIENT_DLL_DIR", "C");
    assert_eq!(
        write_hard_link_shell_hook(template, &None, &Some("A B".to_string()), true, &Some("C".to_string())),
        Ok(HookWrite::Create(expected))
    );
}

#[test]
fn vanilla_game_scripts_name_the_client_library() {
    let files = write_toggle_vanilla_game(true, "ren GAME_DIR\\a b", "ren GAME_DIR\\b a", "C:\\hl\\valve\\cl_dlls");
    assert_eq!(
        files,
        Ok(vec![
            FileWrite {
                file_name: "disable_vanilla_game.bat".to_string(),
                contents: "ren C:\\hl\\valve\\cl_dlls\\b a".to_string(),
            },
            FileWrite {
                file_name: "enable_vanilla_game.bat".to_string(),
                contents: "ren C:\\hl\\valve\\cl_dlls\\a b".to_string(),
            },
        ])
    );
    assert_eq!(write_toggle_vanilla_game(false, "a", "b", "c"), Err(ScriptError::NotADirectory));
}

#[test]
fn simulator_scripts_name_the_installation() {
    let files = write_toggle_sim_client(true, "on HALF_LIFE_DIR", "off HALF_LIFE_DIR", &Some("Half-Life".to_string()));
    assert_eq!(
        files,
        Ok(vec![
            FileWrite { file_name: "disable_sim_client.bat".to_string(), contents: "off Half-Life".to_string() },
            FileWrite { file_name: "enable_sim_client.bat".to_string(), contents: "on Half-Life".to_string() },
        ])
    );
    assert_eq!(
        write_toggle_sim_client(false, "a", "b", &Some("x".to_string())),
        Err(ScriptError::NotADirectory)
    );
    assert_eq!(write_toggle_sim_client(false, "a", "b", &None), Err(ScriptError::NotADirectory));
    assert_eq!(write_toggle_sim_client(true, "a", "b", &None), Err(ScriptError::NoHalfLifeDirName));
}

#[test]
fn sub_command_script_names_the_sub_command() {
    assert_eq!(
        write_run_manager_sub_command_script(true, "manager.exe SUB_COMMAND %*", "link.bat", "link-hltas"),
        Ok(FileWrite { file_name: "link.bat".to_string(), contents: "manager.exe link-hltas %*".to_string() })
    );
    assert_eq!(
        write_run_manager_sub_command_script(false, "manager.exe SUB_COMMAND", "link.bat", "sync"),
        Err(ScriptError::NotADirectory)
    );
}
