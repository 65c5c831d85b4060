use soziopolis_lingq_tool::services::{
    configured_upload_worker_cap_from_env, import_worker_count, upload_worker_count,
};

#[test]
fn import_worker_count_is_bounded() {
    assert_eq!(import_worker_count(0), 1);
    assert_eq!(import_worker_count(1), 1);
    assert_eq!(import_worker_count(3), 3);
    assert_eq!(import_worker_count(20), 4);
}

#[test]
fn upload_worker_count_is_bounded() {
    assert_eq!(upload_worker_count(0, None), 1);
    assert_eq!(upload_worker_count(1, None), 1);
    assert_eq!(upload_worker_count(2, None), 2);
    assert_eq!(upload_worker_count(12, None), 2);
}

#[test]
fn configured_upload_worker_cap_defaults_to_two() {
    assert_eq!(configured_upload_worker_cap_from_env(None), 2);
    assert_eq!(configured_upload_worker_cap_from_env(Some("3")), 3);
    assert_eq!(configured_upload_worker_cap_from_env(Some("5")), 3);
}
