use update_check::aur::{find_aur_package, AurPackage, AurResponse};
use update_check::chrome::{print_chrome_updates, ChromeUpdate};
use update_check::mapping::PackageMapping;
use update_check::report::{should_report, update_decision, ReconcileError};

#[test]
fn test_aur_package_get_package_version() {
    let package = AurPackage {
        name: "test".to_string(),
        version: "1.2.3-1".to_string(),
    };
    assert_eq!(package.get_package_version(), "1.2.3");

    let package_no_release = AurPackage {
        name: "test".to_string(),
        version: "1.2.3".to_string(),
    };
    assert_eq!(package_no_release.get_package_version(), "1.2.3");

    let package_with_epoch = AurPackage {
        name: "test".to_string(),
        version: "2:1.2.3-1".to_string(),
    };
    assert_eq!(package_with_epoch.get_package_version(), "2:1.2.3");
}

#[test]
fn test_aur_response_fields() {
    let response = AurResponse {
        version: 5,
        result_count: 1,
        results: vec![AurPackage {
            name: "test-package".to_string(),
            version: "1.2.3-1".to_string(),
        }],
    };
    assert_eq!(response.version, 5);
    assert_eq!(response.result_count, 1);
    assert_eq!(response.results[0].name, "test-package");
}

#[test]
fn test_find_aur_package_first_match() {
    let packages = vec![
        AurPackage { name: "a".to_string(), version: "1-1".to_string() },
        AurPackage { name: "b".to_string(), version: "2-1".to_string() },
        AurPackage { name: "a".to_string(), version: "3-1".to_string() },
    ];
    assert_eq!(find_aur_package(&packages, "a"), Some(0));
    assert_eq!(find_aur_package(&packages, "b"), Some(1));
    assert_eq!(find_aur_package(&packages, "c"), None);
}

#[test]
fn test_should_report() {
    let same = "1.0.0".to_string();
    let other = "2.0.0".to_string();
    assert!(should_report(&same, &other, false));
    assert!(!should_report(&same, &same.clone(), false));
    assert!(should_report(&same, &same.clone(), true));
}

#[test]
fn test_update_decision_fields() {
    let report = update_decision("pkg", "1.0.0".to_string(), "2.0.0", false);
    assert_eq!(report.name, "pkg");
    assert_eq!(report.installed_canonical, "1.0.0");
    assert_eq!(report.upstream_canonical, "2.0.0");
    assert!(report.should_report);
}

#[test]
fn test_error_messages() {
    assert_eq!(ReconcileError::MalformedVersion.message(), "malformed version");
    assert_eq!(ReconcileError::UnknownPackage.message(), "unknown package");
    assert_eq!(ReconcileError::UnknownUpstreamProduct.message(), "unknown upstream product");
    assert_eq!(ReconcileError::UnknownChannel.message(), "unknown channel");
}

#[test]
fn test_print_chrome_updates_matching_versions() {
    let packages = vec![AurPackage {
        name: "google-chrome".to_string(),
        version: "120.0.6099.129-1".to_string(),
    }];
    let updates = vec![ChromeUpdate {
        name: "google-chrome-stable".to_string(),
        version: "120.0.6099.129".to_string(),
    }];
    let products = vec![PackageMapping {
        local_name: "google-chrome".to_string(),
        upstream_name: "google-chrome-stable".to_string(),
    }];

    let outcomes = print_chrome_updates(products, packages, updates);
    assert_eq!(outcomes.len(), 1);
    let report = outcomes[0].as_ref().unwrap();
    assert_eq!(report.name, "google-chrome");
    assert_eq!(report.installed_canonical, "120.0.6099.129");
    assert_eq!(report.upstream_canonical, "120.0.6099.129");
    assert!(!report.should_report);
}

#[test]
fn test_print_chrome_updates_differing_versions() {
    let packages = vec![AurPackage {
        name: "google-chrome".to_string(),
        version: "120.0.6099.129-1".to_string(),
    }];
    let updates = vec![ChromeUpdate {
        name: "google-chrome-stable".to_string(),
        version: "121.0.6167.85".to_string(),
    }];
    let products = vec![PackageMapping {
        local_name: "google-chrome".to_string(),
        upstream_name: "google-chrome-stable".to_string(),
    }];

    let outcomes = print_chrome_updates(products, packages, updates);
    let report = outcomes[0].as_ref().unwrap();
    assert!(report.should_report);
}
