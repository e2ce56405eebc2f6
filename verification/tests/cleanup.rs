use workhelper::artifacts::artifact_file_name;
use workhelper::artifacts::cleanup_plan;
use workhelper::artifacts::should_remove_artifact;

#[test]
fn artifact_name_follows_the_template() {
    assert_eq!(artifact_file_name("1.2.3"), "WorkHelper_1.2.3_x64-setup.exe");
    assert_eq!(artifact_file_name("2.0.0"), "WorkHelper_2.0.0_x64-setup.exe");
}

#[test]
fn cleanup_spares_current_version_and_deletes_other_installers() {
    let names: Vec<String> = vec![
        "WorkHelper_1.2.3_x64-setup.exe".to_string(),
        "readme_1.2.3.txt".to_string(),
        "WorkHelper_1.2.2_x64-setup.exe".to_string(),
        "WorkHelper_1.0.0_x64-setup.exe".to_string(),
        "old.exe".to_string(),
    ];
    let plan = cleanup_plan(&names, "1.2.3");
    assert_eq!(
        plan,
        vec![
            "WorkHelper_1.2.2_x64-setup.exe".to_string(),
            "WorkHelper_1.0.0_x64-setup.exe".to_string(),
            "old.exe".to_string(),
        ]
    );
}

#[test]
fn cleanup_of_only_current_files_is_empty() {
    let names: Vec<String> = vec![
        "WorkHelper_1.2.3_x64-setup.exe".to_string(),
        "WorkHelper_1.2.3_x64-setup.exe.bak".to_string(),
    ];
    let plan = cleanup_plan(&names, "1.2.3");
    assert!(plan.is_empty());
}

#[test]
fn non_installer_files_are_never_deleted() {
    assert!(!should_remove_artifact("notes_0.1.0.txt", "1.2.3"));
    assert!(!should_remove_artifact("WorkHelper_1.0.0_x64-setup.msi", "1.2.3"));
}

#[test]
fn stale_installers_are_deleted() {
    assert!(should_remove_artifact("WorkHelper_1.0.0_x64-setup.exe", "1.2.3"));
    assert!(should_remove_artifact("stray.exe", "1.2.3"));
}

#[test]
fn any_file_naming_the_current_version_is_kept() {
    assert!(!should_remove_artifact("WorkHelper_1.2.3_x64-setup.exe", "1.2.3"));
    assert!(!should_remove_artifact("backup_1.2.3.exe", "1.2.3"));
}
