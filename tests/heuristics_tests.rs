use dgossgen::extractor::heuristics::{
    components_from_matches, package_assertions_from_capture, user_assertion_from_capture,
};
use dgossgen::extractor::{
    analyze_run_command, detect_installed_components, generate_service_assertions, AssertionKind,
    ComponentKind, InstalledComponent, PackageManager,
};
use dgossgen::parser::CommandForm;

#[test]
fn test_detect_nginx_install() {
    let cmd = CommandForm::Shell("apt-get install -y nginx".to_string());
    let assertions = analyze_run_command(&cmd, 5);
    assert!(assertions.iter().any(|a| matches!(
        &a.kind,
        AssertionKind::PackageInstalled {
            package,
            manager: PackageManager::Apt,
            version_cmd: Some(_),
        } if package == "nginx"
    )));
}

#[test]
fn test_detect_unknown_apt_package() {
    let cmd = CommandForm::Shell("apt-get install -y myfancyapp".to_string());
    let assertions = analyze_run_command(&cmd, 10);
    assert!(assertions.iter().any(|a| matches!(
        &a.kind,
        AssertionKind::PackageInstalled {
            package,
            manager: PackageManager::Apt,
            version_cmd: None,
        } if package == "myfancyapp"
    )));
}

#[test]
fn test_detect_unknown_apk_package() {
    let cmd = CommandForm::Shell("apk add --no-cache somelib".to_string());
    let assertions = analyze_run_command(&cmd, 10);
    assert!(assertions.iter().any(|a| matches!(
        &a.kind,
        AssertionKind::PackageInstalled {
            package,
            manager: PackageManager::Apk,
            version_cmd: None,
        } if package == "somelib"
    )));
}

#[test]
fn test_detect_pip_package() {
    let cmd = CommandForm::Shell("pip install flask requests".to_string());
    let assertions = analyze_run_command(&cmd, 10);
    assert!(assertions.iter().any(|a| matches!(
        &a.kind,
        AssertionKind::PackageInstalled { package, manager: PackageManager::Pip, .. } if package == "flask"
    )));
    assert!(assertions.iter().any(|a| matches!(
        &a.kind,
        AssertionKind::PackageInstalled { package, manager: PackageManager::Pip, .. } if package == "requests"
    )));
}

#[test]
fn test_low_value_packages_skipped() {
    let cmd = CommandForm::Shell("apt-get install -y ca-certificates gnupg".to_string());
    let assertions = analyze_run_command(&cmd, 10);
    assert!(
        assertions
            .iter()
            .all(|a| !matches!(&a.kind, AssertionKind::PackageInstalled { .. })),
        "low-value packages should not generate assertions"
    );
}

#[test]
fn test_detect_composer_package() {
    let cmd = CommandForm::Shell("composer require monolog/monolog".to_string());
    let assertions = analyze_run_command(&cmd, 10);
    assert!(assertions.iter().any(|a| matches!(
        &a.kind,
        AssertionKind::PackageInstalled {
            package,
            manager: PackageManager::Composer,
            version_cmd: None,
        } if package == "monolog/monolog"
    )));
}

#[test]
fn test_detect_composer_package_with_version_constraint() {
    let cmd = CommandForm::Shell("composer require symfony/console:^6.0".to_string());
    let assertions = analyze_run_command(&cmd, 10);
    assert!(assertions.iter().any(|a| matches!(
        &a.kind,
        AssertionKind::PackageInstalled { package, manager: PackageManager::Composer, .. } if package == "symfony/console"
    )));
}

#[test]
fn test_composer_flags_skipped() {
    let cmd = CommandForm::Shell("composer require --no-dev --prefer-dist monolog/monolog".to_string());
    let assertions = analyze_run_command(&cmd, 10);
    assert!(assertions.iter().all(|a| {
        if let AssertionKind::PackageInstalled { package, .. } = &a.kind {
            package.contains('/')
        } else {
            true
        }
    }));
}

#[test]
fn test_detect_installed_components() {
    let cmd = CommandForm::Shell("apt-get install -y nginx curl".to_string());
    let components = detect_installed_components(&cmd);
    assert!(components.iter().any(|c| c.name == "nginx"));
    assert!(components.iter().any(|c| c.name == "curl"));
}

#[test]
fn test_component_detection_avoids_substring_false_positives() {
    let cmd = CommandForm::Shell("echo download javascript && apt-get install -y ca-certificates".to_string());
    let components = detect_installed_components(&cmd);
    assert!(!components.iter().any(|c| c.name == "node"));
    assert!(!components.iter().any(|c| c.name == "java"));
}

#[test]
fn test_service_assertions_nginx() {
    let components = vec![InstalledComponent {
        name: "nginx".to_string(),
        kind: ComponentKind::WebServer,
        source_line: 3,
    }];
    let assertions = generate_service_assertions(&components);
    assert!(assertions.iter().any(|a| matches!(
        &a.kind,
        AssertionKind::FileExists { path, .. } if path == "/etc/nginx/nginx.conf"
    )));
}

#[test]
fn pip_flags_and_requirement_files_are_dropped() {
    let cmd = CommandForm::Shell("pip install --no-cache-dir -r requirements.txt flask==2.0".to_string());
    let assertions = analyze_run_command(&cmd, 2);
    let pkgs: Vec<String> = assertions
        .iter()
        .filter_map(|a| match &a.kind {
            AssertionKind::PackageInstalled { package, .. } => Some(package.clone()),
            _ => None,
        })
        .collect();
    assert_eq!(pkgs, vec!["flask".to_string()]);
    assert_eq!(assertions[0].provenance, "RUN pip install flask");
    assert_eq!(assertions[0].source_line, 2);
}

#[test]
fn npm_versions_and_scopes() {
    let cmd = CommandForm::Shell("npm install @scope/pkg@1.2 left-pad@1 && echo done".to_string());
    let assertions = analyze_run_command(&cmd, 4);
    let pkgs: Vec<String> = assertions
        .iter()
        .filter_map(|a| match &a.kind {
            AssertionKind::PackageInstalled { package, .. } => Some(package.clone()),
            _ => None,
        })
        .collect();
    assert_eq!(pkgs, vec!["@scope/pkg".to_string(), "left-pad".to_string()]);
}

#[test]
fn user_creation_is_detected() {
    let cmd = CommandForm::Shell("useradd -m -s /bin/sh appuser".to_string());
    let assertions = analyze_run_command(&cmd, 7);
    assert!(assertions.iter().any(|a| matches!(
        &a.kind,
        AssertionKind::UserExists { username } if username == "appuser"
    ) && a.provenance == "RUN useradd/adduser appuser"));
}

#[test]
fn capture_helpers_on_given_values() {
    let r = package_assertions_from_capture(PackageManager::Apt, &Some("nginx gnupg".to_string()), 3);
    assert_eq!(r.len(), 1);
    assert_eq!(r[0].provenance, "RUN apt-get install nginx");
    assert!(package_assertions_from_capture(PackageManager::Npm, &None, 3).is_empty());
    assert!(user_assertion_from_capture(&Some("-x".to_string()), 1).is_none());
}

#[test]
fn components_from_given_matches() {
    let mut hits = vec![false; 14];
    hits[0] = true;
    hits[13] = true;
    let cs = components_from_matches(&hits);
    assert_eq!(cs.len(), 2);
    assert_eq!(cs[0].name, "nginx");
    assert_eq!(cs[1].name, "wget");
}

#[test]
fn low_value_packages_skipped_for_every_manager() {
    for cmd in ["pip install gnupg flask", "npm install dirmngr express", "apk add lsb-release curl"] {
        let assertions = analyze_run_command(&CommandForm::Shell(cmd.to_string()), 1);
        let pkgs: Vec<String> = assertions
            .iter()
            .filter_map(|a| match &a.kind {
                AssertionKind::PackageInstalled { package, .. } => Some(package.clone()),
                _ => None,
            })
            .collect();
        assert_eq!(pkgs.len(), 1, "{}", cmd);
        assert!(!["gnupg", "dirmngr", "lsb-release"].contains(&pkgs[0].as_str()));
    }
}
