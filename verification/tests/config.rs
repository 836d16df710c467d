use fdllm::config::{
    config_dir_path, config_file_path, default_config, default_config_text, resolved_file_set,
    select_source, Config, NamedProfile, Profile, Project,
};
use fdllm::error::FatalError;

fn profile(files: Vec<&str>, dirs: Vec<&str>) -> Profile {
    Profile {
        files: Some(files.into_iter().map(|s| s.to_string()).collect()),
        directories: Some(dirs.into_iter().map(|s| s.to_string()).collect()),
        project: None,
    }
}

#[test]
fn unknown_profile_is_fatal_with_exit_code_one() {
    let config = Config {
        files: Some(vec!["legacy.txt".to_string()]),
        directories: None,
        project: None,
        profiles: Some(vec![NamedProfile { name: "real".to_string(), profile: profile(vec![], vec![]) }]),
    };
    let r = select_source(config, Some("missing".to_string()));
    let err = match r {
        Err(e) => e,
        Ok(_) => panic!("an unknown profile must be fatal"),
    };
    assert!(matches!(err, FatalError::ProfileNotFound(ref n) if n == "missing"));
    assert_eq!(err.exit_code(), 1);
    assert_eq!(err.message(), "Profile 'missing' not found in config");
}

#[test]
fn profile_name_without_profiles_is_fatal() {
    let config = Config { files: None, directories: None, project: None, profiles: None };
    let r = select_source(config, Some("any".to_string()));
    let err = match r {
        Err(e) => e,
        Ok(_) => panic!("a profile name with no profiles defined must be fatal"),
    };
    assert!(matches!(err, FatalError::NoProfiles));
    assert_eq!(err.exit_code(), 1);
    assert_eq!(err.message(), "No profiles defined in config");
}

#[test]
fn named_profile_is_selected() {
    let config = Config {
        files: Some(vec!["legacy.txt".to_string()]),
        directories: Some(vec!["legacy_dir".to_string()]),
        project: None,
        profiles: Some(vec![
            NamedProfile { name: "p1".to_string(), profile: profile(vec!["f1.rs"], vec!["d1"]) },
            NamedProfile {
                name: "p2".to_string(),
                profile: Profile {
                    files: None,
                    directories: None,
                    project: Some(Project { path: "pp".to_string(), tree_level: Some(2) }),
                },
            },
        ]),
    };
    let sel = select_source(config, Some("p1".to_string())).ok().unwrap();
    assert_eq!(sel.files, vec!["f1.rs".to_string()]);
    assert_eq!(sel.directories, vec!["d1".to_string()]);
    assert!(sel.project.is_none());
}

#[test]
fn profile_absent_fields_are_empty() {
    let config = Config {
        files: None,
        directories: None,
        project: None,
        profiles: Some(vec![NamedProfile {
            name: "bare".to_string(),
            profile: Profile {
                files: None,
                directories: None,
                project: Some(Project { path: "pp".to_string(), tree_level: None }),
            },
        }]),
    };
    let sel = select_source(config, Some("bare".to_string())).ok().unwrap();
    assert!(sel.files.is_empty());
    assert!(sel.directories.is_empty());
    let p = sel.project.unwrap();
    assert_eq!(p.path, "pp");
    assert_eq!(p.tree_level, None);
}

#[test]
fn legacy_mode_uses_flat_fields() {
    let config = Config {
        files: Some(vec!["a".to_string()]),
        directories: None,
        project: Some(Project { path: "root".to_string(), tree_level: Some(1) }),
        profiles: Some(vec![NamedProfile { name: "p".to_string(), profile: profile(vec!["x"], vec![]) }]),
    };
    let sel = select_source(config, None).ok().unwrap();
    assert_eq!(sel.files, vec!["a".to_string()]);
    assert!(sel.directories.is_empty());
    assert_eq!(sel.project.unwrap().path, "root");
}

#[test]
fn empty_resolved_set_is_fatal() {
    let r = resolved_file_set(Vec::new(), Vec::new());
    let err = match r {
        Err(e) => e,
        Ok(_) => panic!("an empty resolved set must be fatal"),
    };
    assert!(matches!(err, FatalError::NoFilesResolved));
    assert_eq!(err.exit_code(), 1);
    assert_eq!(err.message(), "No files provided via config or directories");
}

#[test]
fn resolved_set_keeps_explicit_files_first() {
    let r = resolved_file_set(
        vec!["a".to_string()],
        vec!["b".to_string(), "c".to_string()],
    );
    assert_eq!(r.ok().unwrap(), vec!["a".to_string(), "b".to_string(), "c".to_string()]);
}

#[test]
fn config_paths_are_fixed_under_home() {
    assert_eq!(config_dir_path("/home/u"), "/home/u/fdllm");
    assert_eq!(config_file_path("/home/u"), "/home/u/fdllm/config.toml");
}

#[test]
fn default_config_round_trip() {
    let text = default_config_text();
    let value: toml::Value = toml::from_str(&text).expect("the default config must parse");

    let files = value.get("files").unwrap().as_array().unwrap();
    assert_eq!(files.len(), 1);
    assert_eq!(files[0].as_str().unwrap(), "~/Desktop/my_test_file.txt");
    let dirs = value.get("directories").unwrap().as_array().unwrap();
    assert_eq!(dirs.len(), 1);
    assert_eq!(dirs[0].as_str().unwrap(), "~/example_dir");
    let project = value.get("project").unwrap();
    assert_eq!(project.get("path").unwrap().as_str().unwrap(), "");
    assert_eq!(project.get("tree_level").unwrap().as_integer().unwrap(), 3);

    let d = default_config();
    assert_eq!(d.files.unwrap(), vec!["~/Desktop/my_test_file.txt".to_string()]);
    assert_eq!(d.directories.unwrap(), vec!["~/example_dir".to_string()]);
    let p = d.project.unwrap();
    assert_eq!(p.path, "");
    assert_eq!(p.tree_level, Some(3));

    let profiles = value.get("profiles").unwrap().as_table().unwrap();
    assert!(profiles.contains_key("project1"));
    assert!(profiles.contains_key("project2"));
    let p1 = profiles.get("project1").unwrap();
    assert_eq!(
        p1.get("files").unwrap().as_array().unwrap()[0].as_str().unwrap(),
        "~/project1/main.rs"
    );
    assert_eq!(
        p1.get("project").unwrap().get("tree_level").unwrap().as_integer().unwrap(),
        2
    );
}
