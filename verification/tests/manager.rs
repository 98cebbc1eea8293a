use mooshie_core::manager::{
    configured_user_directory, manager_config_path, section_name, split_assignment,
    update_manager_ini, user_directory_arg,
};
use std::path::{Path, PathBuf};

fn chars(s: &str) -> Vec<char> {
    s.chars().collect()
}

#[test]
fn relaxed_policy_updates_only_managed_keys() {
    let input = "[default]\r\npreview_method = auto\r\nsecurity_level = strong\r\nnetwork_mode = offline\r\nallow_pip_install = false\r\n\r\n[other]\r\nsecurity_level = strong\r\n";
    let updated = update_manager_ini(input, true);

    assert!(updated.contains("preview_method = auto\r\n"));
    assert!(updated.contains("security_level = normal\r\n"));
    assert!(updated.contains("network_mode = offline\r\n"));
    assert!(updated.contains("allow_git_url_install = true\r\n"));
    assert!(updated.contains("allow_pip_install = true\r\n"));
    assert!(updated.contains("[other]\r\nsecurity_level = strong\r\n"));
}

#[test]
fn secure_policy_creates_default_section() {
    let updated = update_manager_ini("[other]\nvalue = 1\n", false);

    assert!(updated.contains("[default]\n"));
    assert!(updated.contains("security_level = normal\n"));
    assert!(!updated.contains("network_mode"));
    assert!(updated.contains("allow_git_url_install = false\n"));
    assert!(updated.contains("allow_pip_install = false\n"));
}

#[test]
fn invalid_network_mode_is_repaired_to_public() {
    let updated = update_manager_ini("[default]\nnetwork_mode = personal_cloud\n", true);

    assert!(updated.contains("network_mode = public\n"));
    assert!(!updated.contains("personal_cloud"));
}

#[test]
fn empty_config_gets_a_default_section_only() {
    assert_eq!(
        update_manager_ini("", true),
        "[default]\nsecurity_level = normal\nallow_git_url_install = true\nallow_pip_install = true\n"
    );
}

#[test]
fn missing_keys_are_written_when_the_default_section_closes() {
    let updated = update_manager_ini("[DEFAULT]\nSecurity_Level: weak\n[next]\nx=1", false);
    assert_eq!(
        updated,
        "[DEFAULT]\nsecurity_level = normal\nallow_git_url_install = false\nallow_pip_install = false\n[next]\nx=1\n"
    );
}

#[test]
fn a_blank_line_separates_an_appended_default_section() {
    assert_eq!(
        update_manager_ini("[other]\nvalue = 1", true),
        "[other]\nvalue = 1\n\n[default]\nsecurity_level = normal\nallow_git_url_install = true\nallow_pip_install = true\n"
    );
}

#[test]
fn lone_carriage_returns_become_line_breaks() {
    assert_eq!(
        update_manager_ini("[default]\rsecurity_level=low", false),
        "[default]\nsecurity_level = normal\nallow_git_url_install = false\nallow_pip_install = false\n"
    );
}

#[test]
fn header_and_assignment_lines_are_read_like_ini() {
    assert_eq!(section_name(&chars("  [ default ]  ")), Some(chars("default")));
    assert_eq!(section_name(&chars("[")), None);
    assert_eq!(section_name(&chars("x = [y]")), None);
    assert_eq!(
        split_assignment(&chars("  key : a=b ")),
        Some((chars("key"), chars("a=b")))
    );
    assert_eq!(split_assignment(&chars("# key = v")), None);
    assert_eq!(split_assignment(&chars("; key = v")), None);
    assert_eq!(split_assignment(&chars("no separator")), None);
}

#[test]
fn custom_user_directory_supports_split_and_equals_args() {
    let comfyui = Path::new("C:/ComfyUI");
    let split = vec!["--user-directory".to_string(), "profiles/user".to_string()];
    let equals = vec!["--user-directory=D:/ComfyUser".to_string()];

    assert_eq!(
        PathBuf::from(configured_user_directory("C:/ComfyUI", &split)),
        comfyui.join("profiles/user")
    );
    // `D:/ComfyUser` is absolute only where drive letters are (Windows);
    // elsewhere it joins like any relative directory.
    let expected = if Path::new("D:/ComfyUser").is_absolute() {
        PathBuf::from("D:/ComfyUser")
    } else {
        comfyui.join("D:/ComfyUser")
    };
    assert_eq!(PathBuf::from(configured_user_directory("C:/ComfyUI", &equals)), expected);
}

#[test]
fn the_manager_config_sits_in_the_user_directory() {
    let none: Vec<String> = Vec::new();
    assert_eq!(
        PathBuf::from(manager_config_path("/opt/ComfyUI", &none)),
        Path::new("/opt/ComfyUI").join("user").join("__manager").join("config.ini")
    );
    let blank_then_set = vec![
        "--user-directory".to_string(),
        "  ".to_string(),
        "--user-directory=/data/u".to_string(),
    ];
    assert_eq!(user_directory_arg(&blank_then_set), Some("/data/u".to_string()));
    assert_eq!(
        PathBuf::from(manager_config_path("/opt/ComfyUI", &blank_then_set)),
        Path::new("/data/u").join("__manager").join("config.ini")
    );
    assert_eq!(user_directory_arg(&["--user-directory".to_string()]), None);
}

#[test]
fn updating_an_updated_config_changes_nothing() {
    let inputs = [
        "[default]\r\nSECURITY_LEVEL=weak\r\nnetwork_mode: personal_cloud\r\n[default]\r\nx = 1\r\n",
        "; comment\nfoo = bar\n",
        "",
        "[other]\nallow_pip_install = true\n[default]\n\n",
    ];
    for input in inputs {
        for relaxed in [false, true] {
            let once = update_manager_ini(input, relaxed);
            let twice = update_manager_ini(&once, relaxed);
            assert_eq!(twice, once);
        }
    }
}
