use update_check::aur::AurPackage;
use update_check::mapping::ProductMapping;
use update_check::jetbrains::{
    find_channel, is_eap_package, print_jetbrains_update, print_jetbrains_updates, rule_for,
    Build, Channel, JetBrainsRepository, Product, VersionRule,
};
use update_check::report::ReconcileError;

fn make_aur_package(name: &str, version: &str) -> AurPackage {
    AurPackage { name: name.to_string(), version: version.to_string() }
}

fn make_build(number: &str, version: &str, full_number: Option<&str>) -> Build {
    Build {
        number: number.to_string(),
        version: version.to_string(),
        full_number: full_number.map(|f| f.to_string()),
    }
}

fn make_channel(id: &str, builds: Vec<Build>) -> Channel {
    Channel { id: id.to_string(), builds }
}

fn make_product(name: &str, channels: Vec<Channel>) -> Product {
    Product { name: name.to_string(), channels }
}

#[test]
fn test_is_eap_package() {
    assert!(is_eap_package("goland-eap"));
    assert!(is_eap_package("rustrover-eap"));
    assert!(!is_eap_package("goland"));
    assert!(!is_eap_package("ea"));
}

#[test]
fn test_rule_for_table() {
    assert_eq!(rule_for("rustrover-eap", "2024.1pre+241.15989.69", true), VersionRule::PreTag);
    assert_eq!(rule_for("rustrover-eap", "2024.1", true), VersionRule::Unchanged);
    assert_eq!(rule_for("goland-eap", "2024.1.4.241.18034.62", true), VersionRule::LastComponents);
    assert_eq!(rule_for("goland", "2024.1b241.14494.240", false), VersionRule::StripBuild);
}

#[test]
fn test_find_channel_exact_id() {
    let product = make_product(
        "IntelliJ IDEA",
        vec![
            make_channel("IC-IU-EAP-licensing-EAP", vec![]),
            make_channel("IC-IU-RELEASE-licensing-RELEASE", vec![]),
        ],
    );
    assert_eq!(find_channel(&product, "IC-IU-RELEASE-licensing-RELEASE", false), Some(1));
    assert_eq!(find_channel(&product, "absent-channel", false), None);
}

#[test]
fn test_find_channel_eap_takes_first() {
    let product = make_product(
        "IntelliJ IDEA",
        vec![
            make_channel("IC-IU-EAP-licensing-EAP", vec![]),
            make_channel("IC-IU-RELEASE-licensing-RELEASE", vec![]),
        ],
    );
    assert_eq!(find_channel(&product, "anything", true), Some(0));
}

#[test]
fn test_print_jetbrains_update_stable() {
    let package = make_aur_package("intellij-idea-ce", "2024.1b241.14494.240-1");
    let build = make_build("241.14494.240", "2024.1", None);
    let channel = make_channel("IC-IU-RELEASE-licensing-RELEASE", vec![build]);
    let product = make_product("IntelliJ IDEA", vec![channel]);

    let report = print_jetbrains_update(
        "IC-IU-RELEASE-licensing-RELEASE",
        &package,
        &product,
        false,
        false,
    )
    .unwrap();
    assert_eq!(report.name, "intellij-idea-ce");
    assert_eq!(report.installed_canonical, "2024.1");
    assert_eq!(report.upstream_canonical, "2024.1");
    assert!(!report.should_report);
}

#[test]
fn test_print_jetbrains_update_eap() {
    let package = make_aur_package("intellij-idea-ce-eap", "2024.1.1.241.15989.69-1");
    let build = make_build("241.15989.69", "2024.1.1", Some("241.15989.69"));
    let channel = make_channel("IC-223-EAP-RELEASE", vec![build]);
    let product = make_product("IntelliJ IDEA", vec![channel]);

    let report = print_jetbrains_update("IC-223-EAP-RELEASE", &package, &product, true, false)
        .unwrap();
    assert_eq!(report.installed_canonical, "241.15989.69");
    assert_eq!(report.upstream_canonical, "241.15989.69");
    assert!(!report.should_report);
}

#[test]
fn test_print_jetbrains_update_rustrover_eap_with_pre() {
    let package = make_aur_package("rustrover-eap", "2024.1pre+241.15989.69-1");
    let build = make_build("241.15989.69", "2024.1", Some("241.15989.69"));
    let channel = make_channel("RR-233-EAP-RELEASE", vec![build]);
    let product = make_product("RustRover", vec![channel]);

    let report = print_jetbrains_update("RR-233-EAP-RELEASE", &package, &product, true, false)
        .unwrap();
    assert_eq!(report.installed_canonical, "241.15989.69");
    assert_eq!(report.upstream_canonical, "241.15989.69");
    assert!(!report.should_report);
}

#[test]
fn test_print_jetbrains_update_rustrover_eap_without_pre() {
    let package = make_aur_package("rustrover-eap", "2024.1-1");
    let build = make_build("241.15989.69", "2024.1", Some("241.15989.69"));
    let channel = make_channel("RR-233-EAP-RELEASE", vec![build]);
    let product = make_product("RustRover", vec![channel]);

    let report = print_jetbrains_update("RR-233-EAP-RELEASE", &package, &product, true, false)
        .unwrap();
    assert_eq!(report.installed_canonical, "2024.1");
    assert_eq!(report.upstream_canonical, "2024.1");
    assert!(!report.should_report);
}

#[test]
fn test_print_jetbrains_update_reports_newer_upstream() {
    // a locally packaged 2024.1 build against an upstream 2024.2 release
    let package = make_aur_package("intellij-idea-ce", "2024.1b241.14494.240-1");
    let build = make_build("242.10180.25", "2024.2", None);
    let channel = make_channel("IC-IU-RELEASE-licensing-RELEASE", vec![build]);
    let product = make_product("IntelliJ IDEA", vec![channel]);

    let report = print_jetbrains_update(
        "IC-IU-RELEASE-licensing-RELEASE",
        &package,
        &product,
        false,
        false,
    )
    .unwrap();
    assert_eq!(report.installed_canonical, "2024.1");
    assert_eq!(report.upstream_canonical, "2024.2");
    assert!(report.should_report);
}

#[test]
fn test_print_jetbrains_update_unknown_channel() {
    let package = make_aur_package("intellij-idea-ce", "2024.1b241.14494.240-1");
    let build = make_build("241.14494.240", "2024.1", None);
    let channel = make_channel("IC-IU-EAP-licensing-EAP", vec![build]);
    let product = make_product("IntelliJ IDEA", vec![channel]);

    let outcome = print_jetbrains_update(
        "IC-IU-RELEASE-licensing-RELEASE",
        &package,
        &product,
        false,
        false,
    );
    assert_eq!(outcome.unwrap_err(), ReconcileError::UnknownChannel);
}

#[test]
fn test_print_jetbrains_update_malformed_pre_marker() {
    // the version says `pre` but lacks the full `pre+` marker
    let package = make_aur_package("rustrover-eap", "2024.1pre241.15989.69-1");
    let build = make_build("241.15989.69", "2024.1", Some("241.15989.69"));
    let channel = make_channel("RR-233-EAP-RELEASE", vec![build]);
    let product = make_product("RustRover", vec![channel]);

    let outcome = print_jetbrains_update("RR-233-EAP-RELEASE", &package, &product, true, false);
    assert_eq!(outcome.unwrap_err(), ReconcileError::MalformedVersion);
}

#[test]
fn test_print_jetbrains_update_missing_build_marker() {
    // a stable-track version without the embedded-build `b` separator
    let package = make_aur_package("goland", "2024.1-1");
    let build = make_build("241.14494.240", "2024.1", None);
    let channel = make_channel("GO-RELEASE-licensing-RELEASE", vec![build]);
    let product = make_product("GoLand", vec![channel]);

    let outcome =
        print_jetbrains_update("GO-RELEASE-licensing-RELEASE", &package, &product, false, false);
    assert_eq!(outcome.unwrap_err(), ReconcileError::MalformedVersion);
}

#[test]
fn test_print_jetbrains_update_missing_full_number() {
    let package = make_aur_package("goland-eap", "2024.1.4.241.18034.62-1");
    let build = make_build("241.18034.62", "2024.1.4", None);
    let channel = make_channel("GO-EAP-licensing-EAP", vec![build]);
    let product = make_product("GoLand", vec![channel]);

    let outcome = print_jetbrains_update("GO-EAP-licensing-EAP", &package, &product, true, false);
    assert_eq!(outcome.unwrap_err(), ReconcileError::MalformedVersion);
}

#[test]
fn test_print_jetbrains_update_no_builds() {
    let package = make_aur_package("goland", "2024.1-1");
    let channel = make_channel("GO-RELEASE-licensing-RELEASE", vec![]);
    let product = make_product("GoLand", vec![channel]);

    let outcome =
        print_jetbrains_update("GO-RELEASE-licensing-RELEASE", &package, &product, false, false);
    assert_eq!(outcome.unwrap_err(), ReconcileError::MalformedVersion);
}

#[test]
fn test_print_jetbrains_updates() {
    let packages = vec![
        make_aur_package("intellij-idea-ce", "2024.1b241.14494.240-1"),
        make_aur_package("pycharm-community", "2024.1b241.14494.283-1"),
    ];

    let idea_build = make_build("241.14494.240", "2024.1", None);
    let idea_channel = make_channel("IC-IU-RELEASE-licensing-RELEASE", vec![idea_build]);
    let idea_product = make_product("IntelliJ IDEA", vec![idea_channel]);

    let pycharm_build = make_build("241.14494.283", "2024.1", None);
    let pycharm_channel = make_channel("PC-PY-RELEASE-licensing-RELEASE", vec![pycharm_build]);
    let pycharm_product = make_product("PyCharm", vec![pycharm_channel]);

    let repository = JetBrainsRepository { products: vec![idea_product, pycharm_product] };

    let products = vec![
        ProductMapping {
            local_name: "intellij-idea-ce".to_string(),
            product_name: "IntelliJ IDEA".to_string(),
            channel_id: "IC-IU-RELEASE-licensing-RELEASE".to_string(),
        },
        ProductMapping {
            local_name: "pycharm-community".to_string(),
            product_name: "PyCharm".to_string(),
            channel_id: "PC-PY-RELEASE-licensing-RELEASE".to_string(),
        },
    ];

    let outcomes = print_jetbrains_updates(products, packages, repository, false);
    assert_eq!(outcomes.len(), 2);
    for outcome in &outcomes {
        let report = outcome.as_ref().unwrap();
        assert_eq!(report.installed_canonical, "2024.1");
        assert_eq!(report.upstream_canonical, "2024.1");
        assert!(!report.should_report);
    }
}

#[test]
fn test_print_jetbrains_updates_collects_failures() {
    let packages = vec![make_aur_package("goland", "2024.1b241.14494.240-1")];
    let build = make_build("241.14494.240", "2024.1", None);
    let channel = make_channel("GO-RELEASE-licensing-RELEASE", vec![build]);
    let repository =
        JetBrainsRepository { products: vec![make_product("GoLand", vec![channel])] };

    let products = vec![
        ProductMapping {
            local_name: "missing-package".to_string(),
            product_name: "GoLand".to_string(),
            channel_id: "GO-RELEASE-licensing-RELEASE".to_string(),
        },
        ProductMapping {
            local_name: "goland".to_string(),
            product_name: "Missing Product".to_string(),
            channel_id: "GO-RELEASE-licensing-RELEASE".to_string(),
        },
        ProductMapping {
            local_name: "goland".to_string(),
            product_name: "GoLand".to_string(),
            channel_id: "GO-RELEASE-licensing-RELEASE".to_string(),
        },
    ];

    let outcomes = print_jetbrains_updates(products, packages, repository, false);
    assert_eq!(outcomes.len(), 3);
    let first = outcomes[0].as_ref().unwrap_err();
    assert_eq!(first.name, "missing-package");
    assert_eq!(first.error, ReconcileError::UnknownPackage);
    let second = outcomes[1].as_ref().unwrap_err();
    assert_eq!(second.name, "goland");
    assert_eq!(second.error, ReconcileError::UnknownUpstreamProduct);
    let third = outcomes[2].as_ref().unwrap();
    assert_eq!(third.installed_canonical, "2024.1");
    assert!(!third.should_report);
}
