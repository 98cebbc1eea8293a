use mooshie_core::python_env::{
    is_valid_python_module_name, resolve_uv_bin, resolve_uv_bin_pub, resolve_venv_python_bin,
};
use std::path::Path;

#[test]
fn module_names_are_dotted_identifiers() {
    assert!(is_valid_python_module_name("sageattention"));
    assert!(is_valid_python_module_name(" triton.language "));
    assert!(is_valid_python_module_name("a_b.c1"));
    assert!(!is_valid_python_module_name(""));
    assert!(!is_valid_python_module_name("   "));
    assert!(!is_valid_python_module_name(".hidden"));
    assert!(!is_valid_python_module_name("trailing."));
    assert!(!is_valid_python_module_name("a..b"));
    assert!(!is_valid_python_module_name("os; import sys"));
    assert!(!is_valid_python_module_name("a-b"));
}

#[test]
fn venv_tools_live_where_the_platform_puts_them() {
    assert_eq!(
        resolve_uv_bin("/opt/app/venv", false),
        Path::new("/opt/app").join("bin").join("uv").to_string_lossy()
    );
    assert_eq!(
        resolve_uv_bin_pub("/opt/app/venv", true),
        Path::new("/opt/app").join("bin").join("uv.exe").to_string_lossy()
    );
    assert_eq!(
        resolve_uv_bin("/", false),
        Path::new("/").join("bin").join("uv").to_string_lossy()
    );
    assert_eq!(
        resolve_venv_python_bin("/opt/app/venv", false),
        Path::new("/opt/app/venv").join("bin").join("python").to_string_lossy()
    );
    assert_eq!(
        resolve_venv_python_bin("/opt/app/venv", true),
        Path::new("/opt/app/venv").join("Scripts").join("python.exe").to_string_lossy()
    );
}
