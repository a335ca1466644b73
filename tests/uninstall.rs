use appimage_launcher::store::LookupError;
use appimage_launcher::uninstall::{plan_uninstall, uninstall_result, Removal, UninstallError};

fn files() -> Vec<String> {
    vec![
        "[Desktop Entry]\nName=Other\nExec=/home/u/Apps/Other.AppImage\n".to_string(),
        "[Desktop Entry]\nName=App\nExec=/home/u/Apps/App.AppImage --no-sandbox\nIcon=/missing/icon.png\n".to_string(),
    ]
}

#[test]
fn uninstall_plan_names_the_files() {
    let p = plan_uninstall(&files(), "App").unwrap();
    assert_eq!(p.descriptor_index, 1);
    assert_eq!(p.binary_path, "/home/u/Apps/App.AppImage");
    assert_eq!(p.icon_path, Some("/missing/icon.png".to_string()));
}

#[test]
fn uninstall_missing_icon_still_succeeds() {
    let p = plan_uninstall(&files(), "App").unwrap();
    assert_eq!(p.icon_path.as_deref(), Some("/missing/icon.png"));
    // the icon's removal found nothing; only the two others count
    assert!(matches!(uninstall_result(Removal::Removed, Removal::Removed), Ok(true)));
}

#[test]
fn uninstall_unknown_name() {
    assert!(matches!(plan_uninstall(&files(), "Nope"), Err(UninstallError::Lookup(LookupError::NotFound))));
}

#[test]
fn uninstall_binary_failure_is_fatal() {
    match uninstall_result(Removal::Failed("busy".to_string()), Removal::Removed) {
        Err(UninstallError::BinaryRemoval(m)) => assert_eq!(m, "busy"),
        other => panic!("unexpected {:?}", other),
    }
}

#[test]
fn uninstall_descriptor_failure_is_fatal() {
    assert!(matches!(
        uninstall_result(Removal::Removed, Removal::Failed("ro".to_string())),
        Err(UninstallError::DescriptorRemoval(_))
    ));
}

#[test]
fn uninstall_absent_binary_is_not_success() {
    assert!(matches!(uninstall_result(Removal::Absent, Removal::Removed), Err(UninstallError::NotRemoved)));
    assert!(matches!(uninstall_result(Removal::Removed, Removal::Absent), Err(UninstallError::NotRemoved)));
}
