use appimage_launcher::descriptor::{LauncherDescriptor, ParseError, RequiredField};
use appimage_launcher::install::{
    plan_install, InstallAction, InstallError, InstallEvent, InstallPlan, InstallRequest, InstallStage, Installer,
};

const EXTRACTED: &str = "[Desktop Entry]\nType=Application\nName=App\nExec=AppRun %U\nIcon=app\n";

fn plan(no_sandbox: Option<bool>) -> InstallPlan {
    let request = InstallRequest { file_path: "/tmp/App.AppImage".to_string(), no_sandbox };
    plan_install(&request, Some("/home/u/Apps/".to_string())).unwrap()
}

/// Runs an install up to its `PersistDescriptor` action and returns the file name and text.
fn run_to_persist(inst: &mut Installer, text: &str) -> (String, String) {
    assert!(matches!(inst.step(InstallEvent::Done), InstallAction::ExtractDescriptor));
    assert!(matches!(inst.step(InstallEvent::Done), InstallAction::ReadDescriptor));
    assert!(matches!(inst.step(InstallEvent::DescriptorText(text.to_string())), InstallAction::ExtractContent));
    assert!(matches!(inst.step(InstallEvent::Done), InstallAction::InstallIcon));
    match inst.step(InstallEvent::Done) {
        InstallAction::PersistDescriptor { file_name, text } => (file_name, text),
        other => panic!("unexpected action {:?}", other),
    }
}

#[test]
fn plan_splits_source_path() {
    let p = plan(None);
    assert_eq!(p.source_path, "/tmp/App.AppImage");
    assert_eq!(p.source_dir, "/tmp");
    assert_eq!(p.file_name, "App.AppImage");
    assert_eq!(p.scratch_root, "/tmp/squashfs-root");
    assert_eq!(p.install_dir, "/home/u/Apps/");
    assert!(!p.no_sandbox);
}

#[test]
fn plan_at_root_directory() {
    let request = InstallRequest { file_path: "/App.AppImage".to_string(), no_sandbox: Some(true) };
    let p = plan_install(&request, Some("/opt".to_string())).unwrap();
    assert_eq!(p.source_dir, "/");
    assert_eq!(p.scratch_root, "/squashfs-root");
    assert!(p.no_sandbox);
}

#[test]
fn plan_needs_install_path() {
    let request = InstallRequest { file_path: "/tmp/App.AppImage".to_string(), no_sandbox: None };
    assert!(matches!(plan_install(&request, None), Err(InstallError::MissingInstallPath)));
}

#[test]
fn plan_rejects_bad_source_path() {
    for path in ["App.AppImage", "/tmp/", ""] {
        let request = InstallRequest { file_path: path.to_string(), no_sandbox: None };
        assert!(matches!(plan_install(&request, Some("/opt".to_string())), Err(InstallError::InvalidSourcePath)));
    }
}

#[test]
fn install_default_sandbox() {
    let (mut inst, first) = Installer::start(plan(None));
    assert!(matches!(first, InstallAction::GrantPermission));
    let (file_name, text) = run_to_persist(&mut inst, EXTRACTED);
    assert_eq!(file_name, "App.desktop");
    let d = LauncherDescriptor::parse(&text, true).unwrap();
    assert_eq!(d.exec_path, "/home/u/Apps/App.AppImage");
    assert!(!d.no_sandbox);
    assert!(!text.contains("--no-sandbox"));
    assert!(text.contains("Exec=/home/u/Apps/App.AppImage\n"));
    assert!(matches!(inst.step(InstallEvent::Done), InstallAction::InstallBinary));
    assert_eq!(inst.plan.install_dir, "/home/u/Apps/");
    assert_eq!(inst.plan.file_name, "App.AppImage");
    assert!(matches!(inst.step(InstallEvent::Done), InstallAction::RemoveScratch));
    assert!(matches!(inst.step(InstallEvent::Failed("busy".to_string())), InstallAction::Report(Ok(()))));
    assert_eq!(inst.stage, InstallStage::Finished);
}

#[test]
fn install_no_sandbox_token_once() {
    let (mut inst, _) = Installer::start(plan(Some(true)));
    let (_, text) = run_to_persist(&mut inst, EXTRACTED);
    assert!(text.contains("Exec=/home/u/Apps/App.AppImage --no-sandbox\n"));
    assert_eq!(text.matches("--no-sandbox").count(), 1);
}

#[test]
fn install_no_sandbox_already_in_package() {
    let (mut inst, _) = Installer::start(plan(Some(true)));
    let extracted = "[Desktop Entry]\nName=App\nExec=AppRun --no-sandbox\n";
    let (_, text) = run_to_persist(&mut inst, extracted);
    assert_eq!(text.matches("--no-sandbox").count(), 1);
}

#[test]
fn install_name_collision() {
    let (mut inst, _) = Installer::start(plan(None));
    run_to_persist(&mut inst, EXTRACTED);
    assert!(matches!(inst.step(InstallEvent::NameTaken), InstallAction::RemoveScratch));
    assert!(matches!(inst.step(InstallEvent::Done), InstallAction::Report(Err(InstallError::AlreadyInstalled))));
}

#[test]
fn install_permission_failure_is_not_fatal() {
    let (mut inst, _) = Installer::start(plan(None));
    assert!(matches!(inst.step(InstallEvent::Failed("denied".to_string())), InstallAction::ExtractDescriptor));
}

#[test]
fn install_descriptor_extraction_failure() {
    let (mut inst, _) = Installer::start(plan(None));
    inst.step(InstallEvent::Done);
    match inst.step(InstallEvent::Failed("bad image".to_string())) {
        InstallAction::Report(Err(InstallError::Extraction(m))) => assert_eq!(m, "bad image"),
        other => panic!("unexpected action {:?}", other),
    }
    assert_eq!(inst.stage, InstallStage::Finished);
}

#[test]
fn install_unreadable_descriptor() {
    let (mut inst, _) = Installer::start(plan(None));
    inst.step(InstallEvent::Done);
    inst.step(InstallEvent::Done);
    assert!(matches!(inst.step(InstallEvent::DescriptorText("garbage".to_string())), InstallAction::RemoveScratch));
    assert!(matches!(
        inst.step(InstallEvent::Done),
        InstallAction::Report(Err(InstallError::Parse(ParseError::MissingSection)))
    ));
}

#[test]
fn install_descriptor_without_name() {
    let (mut inst, _) = Installer::start(plan(None));
    inst.step(InstallEvent::Done);
    inst.step(InstallEvent::Done);
    inst.step(InstallEvent::DescriptorText("[Desktop Entry]\nExec=AppRun\n".to_string()));
    assert!(matches!(
        inst.step(InstallEvent::Done),
        InstallAction::Report(Err(InstallError::Parse(ParseError::MissingRequiredField(RequiredField::Name))))
    ));
}

#[test]
fn install_content_extraction_failure() {
    let (mut inst, _) = Installer::start(plan(None));
    inst.step(InstallEvent::Done);
    inst.step(InstallEvent::Done);
    inst.step(InstallEvent::DescriptorText(EXTRACTED.to_string()));
    assert!(matches!(inst.step(InstallEvent::Failed("disk".to_string())), InstallAction::RemoveScratch));
    assert!(matches!(inst.step(InstallEvent::Done), InstallAction::Report(Err(InstallError::Extraction(_)))));
}

#[test]
fn install_icon_failure() {
    let (mut inst, _) = Installer::start(plan(None));
    inst.step(InstallEvent::Done);
    inst.step(InstallEvent::Done);
    inst.step(InstallEvent::DescriptorText(EXTRACTED.to_string()));
    inst.step(InstallEvent::Done);
    assert!(matches!(inst.step(InstallEvent::Failed("no icon".to_string())), InstallAction::RemoveScratch));
    assert!(matches!(inst.step(InstallEvent::Done), InstallAction::Report(Err(InstallError::Io(_)))));
}

#[test]
fn install_binary_failure() {
    let (mut inst, _) = Installer::start(plan(None));
    run_to_persist(&mut inst, EXTRACTED);
    inst.step(InstallEvent::Done);
    assert!(matches!(inst.step(InstallEvent::Failed("copy".to_string())), InstallAction::RemoveScratch));
    match inst.step(InstallEvent::Done) {
        InstallAction::Report(Err(InstallError::Io(m))) => assert_eq!(m, "copy"),
        other => panic!("unexpected action {:?}", other),
    }
}
