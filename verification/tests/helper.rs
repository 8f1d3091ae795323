use hltas_manager::cfg::{cfg_file_name, Cfg};
use hltas_manager::helper::{
    cfg_dir, digest_if_file, project_root, same_bytes, sha_256_file, try_root_dir,
    PathResolutionError,
};
use hltas_manager::project_toml::{ProjectToml, FILE_NAME};
use hltas_manager::{DEFAULT_GAME, NAME};
use sha2::Digest;

fn parts(items: &[&str]) -> Vec<String> {
    items.iter().map(|s| s.to_string()).collect()
}

#[test]
fn root_is_the_working_directory_that_holds_the_configuration() {
    let here = parts(&["home", "me", "goldsrc"]);
    assert_eq!(try_root_dir(&here, true, false), Ok(here.clone()));
    assert_eq!(try_root_dir(&here, true, true), Ok(here.clone()));
    assert_eq!(try_root_dir(&Vec::new(), true, false), Ok(Vec::new()));
}

#[test]
fn root_is_two_levels_above_a_project() {
    let here = parts(&["home", "me", "goldsrc", "tas", "run1"]);
    assert_eq!(try_root_dir(&here, false, true), Ok(parts(&["home", "me", "goldsrc"])));
    assert_eq!(try_root_dir(&parts(&["tas", "run1"]), false, true), Ok(Vec::new()));
}

#[test]
fn unknown_location_is_an_error() {
    let here = parts(&["home", "me", "elsewhere"]);
    assert_eq!(try_root_dir(&here, false, false), Err(PathResolutionError::UnknownLocation));
}

#[test]
fn shallow_directories_have_no_root_above() {
    assert_eq!(try_root_dir(&Vec::new(), false, true), Err(PathResolutionError::NoProjectsDir));
    assert_eq!(try_root_dir(&parts(&["tas"]), false, true), Err(PathResolutionError::NoRootDir));
    assert_eq!(project_root(&Vec::new(), true), Err(PathResolutionError::NoProjectsDir));
    assert_eq!(project_root(&parts(&["tas"]), true), Err(PathResolutionError::NoRootDir));
}

#[test]
fn project_root_depends_on_the_marker() {
    let here = parts(&["c:", "goldsrc", "tas", "run1"]);
    assert_eq!(project_root(&here, true), Ok(parts(&["c:", "goldsrc"])));
    assert_eq!(project_root(&here, false), Ok(here.clone()));
    assert_eq!(project_root(&Vec::new(), false), Ok(Vec::new()));
}

#[test]
fn path_errors_have_their_words() {
    assert_eq!(PathResolutionError::NoProjectsDir.message(), "Failed to get projects dir");
    assert_eq!(PathResolutionError::NoRootDir.message(), "Failed to get root dir");
    assert_eq!(
        PathResolutionError::UnknownLocation.message(),
        "Using the program from an unknown location"
    );
}

#[test]
fn configuration_lies_beside_the_tool() {
    assert_eq!(cfg_file_name(), "hltas_manager.toml");
    assert_eq!(cfg_file_name(), format!("{}.toml", NAME));
    assert_eq!(cfg_dir(&parts(&["opt", "goldsrc"])), parts(&["opt", "goldsrc", "hltas_manager.toml"]));
    assert_eq!(cfg_dir(&Vec::new()), parts(&["hltas_manager.toml"]));
}

#[test]
fn default_configuration_has_its_values() {
    let cfg = Cfg::default();
    assert!(cfg.init_git_on_project);
    assert_eq!(cfg.project_dir, "tas");
    assert_eq!(cfg.ignore_games, Vec::<String>::new());
    assert_eq!(cfg.no_client_dll_dir, Some("NO_CLIENT_DLL".to_string()));
    assert_eq!(cfg.cfgs_dir, Some("cfgs".to_string()));
    assert_eq!(cfg.half_life_dir, "Half-Life");
}

#[test]
fn default_project_is_for_the_default_game() {
    assert_eq!(ProjectToml::default().game, "valve");
    assert_eq!(DEFAULT_GAME, "valve");
    assert_eq!(FILE_NAME, "project.toml");
}

#[test]
fn sha_256_of_known_texts() {
    let digest = sha_256_file(&b"hello world".to_vec());
    let expected: [u8; 32] = [
        0xb9, 0x4d, 0x27, 0xb9, 0x93, 0x4d, 0x3e, 0x08, 0xa5, 0x2e, 0x52, 0xd7, 0xda, 0x7d, 0xab, 0xfa,
        0xc4, 0x84, 0xef, 0xe3, 0x7a, 0x53, 0x80, 0xee, 0x90, 0x88, 0xf7, 0xac, 0xe2, 0xef, 0xcd, 0xe9,
    ];
    assert_eq!(digest, expected.to_vec());
    let empty = sha_256_file(&Vec::new());
    assert_eq!(empty.len(), 32);
    assert_eq!(&empty[..4], &[0xe3, 0xb0, 0xc4, 0x42]);
}

#[test]
fn sha_256_agrees_with_the_incremental_hasher() {
    let data: Vec<u8> = (0..1000u32).map(|i| (i * 7 % 251) as u8).collect();
    let mut hasher = sha2::Sha256::new();
    hasher.update(&data);
    assert_eq!(sha_256_file(&data), hasher.finalize().to_vec());
}

#[test]
fn digest_if_file_hashes_what_is_there() {
    let data = b"hello world".to_vec();
    assert_eq!(digest_if_file(&Some(data.clone())), Some(sha_256_file(&data)));
    assert_ne!(digest_if_file(&Some(data.clone())), Some(data));
    assert_eq!(digest_if_file(&None), None);
}

#[test]
fn same_bytes_compares_all_bytes() {
    assert!(same_bytes(&[], &[]));
    assert!(same_bytes(&[1, 2, 3], &[1, 2, 3]));
    assert!(!same_bytes(&[1, 2, 3], &[1, 2, 4]));
    assert!(!same_bytes(&[1, 2, 3], &[1, 2]));
}
