use soziopolis_lingq_tool::app_paths::resolve_base_data_root;
use std::path::PathBuf;

#[test]
fn resolve_base_data_root_prefers_platform_dir() {
    let platform = PathBuf::from(r"C:\Users\Alice\AppData\Local");
    let env_dir = PathBuf::from(r"D:\Fallback");
    let cwd = PathBuf::from(r"E:\Workspace");

    let resolved = resolve_base_data_root(
        Some(platform.clone()),
        Some(env_dir),
        Some(cwd),
        PathBuf::from(r"F:\Temp"),
    );

    assert_eq!(resolved, platform);
}

#[test]
fn resolve_base_data_root_falls_back_without_hardcoded_user_path() {
    let env_dir = PathBuf::from(r"D:\LocalAppData");
    let cwd = PathBuf::from(r"E:\Workspace");

    let resolved = resolve_base_data_root(
        None,
        Some(env_dir.clone()),
        Some(cwd),
        PathBuf::from(r"F:\Temp"),
    );

    assert_eq!(resolved, env_dir);
    assert!(!resolved.to_string_lossy().contains(r"\Users\Admin\"));
}
