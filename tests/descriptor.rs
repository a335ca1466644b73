use appimage_launcher::descriptor::{Entry, LauncherDescriptor, ParseError, RequiredField};

fn sample() -> LauncherDescriptor {
    LauncherDescriptor {
        name: "App".to_string(),
        exec_path: "/home/u/Apps/App.AppImage".to_string(),
        icon: Some("app-icon".to_string()),
        extras: vec![
            Entry { key: "Type".to_string(), value: "Application".to_string() },
            Entry { key: "Categories".to_string(), value: "Utility;".to_string() },
            Entry { key: "Comment".to_string(), value: "a=b".to_string() },
        ],
        no_sandbox: false,
    }
}

fn same(a: &LauncherDescriptor, b: &LauncherDescriptor) -> bool {
    a.name == b.name
        && a.exec_path == b.exec_path
        && a.icon == b.icon
        && a.no_sandbox == b.no_sandbox
        && a.extras.len() == b.extras.len()
        && a.extras.iter().zip(b.extras.iter()).all(|(x, y)| x.key == y.key && x.value == y.value)
}

#[test]
fn serialize_exact_text() {
    let d = sample();
    assert_eq!(
        d.serialize(),
        "[Desktop Entry]\nName=App\nExec=/home/u/Apps/App.AppImage\nIcon=app-icon\nType=Application\nCategories=Utility;\nComment=a=b\n"
    );
}

#[test]
fn round_trip_strict() {
    let d = sample();
    let back = LauncherDescriptor::parse(&d.serialize(), true).unwrap();
    assert!(same(&d, &back));
}

#[test]
fn round_trip_with_no_sandbox_and_no_icon() {
    let mut d = sample();
    d.icon = None;
    d.set_no_sandbox(true);
    let text = d.serialize();
    assert!(text.contains("Exec=/home/u/Apps/App.AppImage --no-sandbox\n"));
    assert!(!text.contains("Icon="));
    let back = LauncherDescriptor::parse(&text, true).unwrap();
    assert!(same(&d, &back));
    assert!(back.no_sandbox);
    assert_eq!(back.exec_path, "/home/u/Apps/App.AppImage");
}

#[test]
fn no_sandbox_twice_same_exec() {
    let mut once = sample();
    once.set_no_sandbox(true);
    let mut twice = sample();
    twice.set_no_sandbox(true);
    twice.set_no_sandbox(true);
    assert_eq!(once.exec_value(), twice.exec_value());
    assert_eq!(once.serialize(), twice.serialize());
    assert_eq!(twice.exec_value(), "/home/u/Apps/App.AppImage --no-sandbox");
    assert_eq!(twice.exec_value().matches("--no-sandbox").count(), 1);
}

#[test]
fn no_sandbox_off_has_no_token() {
    let d = sample();
    assert_eq!(d.exec_value(), "/home/u/Apps/App.AppImage");
}

#[test]
fn setters_change_one_field() {
    let mut d = sample();
    d.set_exec("/opt/x".to_string());
    d.set_icon("/icons/x.png".to_string());
    assert_eq!(d.exec_path, "/opt/x");
    assert_eq!(d.icon, Some("/icons/x.png".to_string()));
    assert_eq!(d.name, "App");
}

#[test]
fn parse_missing_section() {
    let r = LauncherDescriptor::parse("Name=App\nExec=/x\n", false);
    assert!(matches!(r, Err(ParseError::MissingSection)));
    let r = LauncherDescriptor::parse("", true);
    assert!(matches!(r, Err(ParseError::MissingSection)));
}

#[test]
fn parse_strict_missing_name_and_exec() {
    let r = LauncherDescriptor::parse("[Desktop Entry]\nExec=/x\n", true);
    assert!(matches!(r, Err(ParseError::MissingRequiredField(RequiredField::Name))));
    let r = LauncherDescriptor::parse("[Desktop Entry]\nName=App\n", true);
    assert!(matches!(r, Err(ParseError::MissingRequiredField(RequiredField::Exec))));
}

#[test]
fn parse_lenient_fills_defaults() {
    let d = LauncherDescriptor::parse("[Desktop Entry]\nName=App\n", false).unwrap();
    assert_eq!(d.name, "App");
    assert_eq!(d.exec_path, "");
    assert_eq!(d.icon, None);
    assert!(!d.no_sandbox);
}

#[test]
fn parse_skips_other_sections_and_lines() {
    let text = "# comment\n[Desktop Entry]\nName=App\nnot a pair\nExec=AppRun %U\nX-Key=1\n[Desktop Action New]\nName=Other\nExec=other\n";
    let d = LauncherDescriptor::parse(text, true).unwrap();
    assert_eq!(d.name, "App");
    assert_eq!(d.exec_path, "AppRun %U");
    assert_eq!(d.extras.len(), 1);
    assert_eq!(d.extras[0].key, "X-Key");
    assert_eq!(d.extras[0].value, "1");
}

#[test]
fn parse_without_final_newline() {
    let d = LauncherDescriptor::parse("[Desktop Entry]\nName=App\nExec=/x --no-sandbox", true).unwrap();
    assert_eq!(d.exec_path, "/x");
    assert!(d.no_sandbox);
}
