use pahkat_core::defaults::{
    arch, config_path_resolve, log_path_resolve, cache_path_resolve, payloads, platform, str_eq,
    uninstall_path_from, Arch, Os, PayloadBackend,
};
use pahkat_core::models::{Download, NewDownload, NewUser, PackageCount, User};
use pahkat_core::repo::{Installer, PackageDescriptor, Repository, RepositoryAgent};
use pahkat_core::server::{
    days_to_seconds, download_response, packages_index_segments,
    packages_package_index_segments, parse_bearer_token, repo_index_segments, top_downloads,
    upload_decision, virtuals_index_segments, virtuals_package_index_segments,
    DownloadDecision, UploadOutcome,
};
use pahkat_core::service::{
    ServiceAction, ServiceCommandMachine, ServiceOpts, ServicePhase, INSTALL_RETRIES,
};

#[test]
fn platform_and_arch_names() {
    assert_eq!(platform(Os::Windows), "windows");
    assert_eq!(platform(Os::MacOs), "macos");
    assert_eq!(platform(Os::Ios), "ios");
    assert_eq!(platform(Os::Android), "android");
    assert_eq!(platform(Os::Linux), "linux");
    assert_eq!(arch(Arch::X86_64), "x86_64");
    assert_eq!(arch(Arch::Aarch64), "aarch64");
    assert_eq!(arch(Arch::PowerPc64), "powerpc64");
}

#[test]
fn payloads_per_backend() {
    assert_eq!(payloads(PayloadBackend::Windows), vec!["WindowsExecutable"]);
    assert_eq!(payloads(PayloadBackend::MacOs), vec!["MacOSPackage"]);
    assert_eq!(payloads(PayloadBackend::Prefix), vec!["TarballPackage"]);
}

#[test]
fn str_eq_compares_contents() {
    assert!(str_eq("abc", "abc"));
    assert!(!str_eq("abc", "abd"));
    assert!(!str_eq("abc", "abcd"));
    assert!(str_eq("", ""));
}

#[test]
fn config_paths_for_system_accounts() {
    let system = Some("SYSTEM".to_string());
    let root = Some("root".to_string());
    let user = Some("alice".to_string());
    assert_eq!(
        config_path_resolve(Os::Windows, &system, None).as_deref(),
        Some("C:\\ProgramData\\Pahkat\\config")
    );
    assert_eq!(
        config_path_resolve(Os::MacOs, &root, None).as_deref(),
        Some("/Library/Preferences/Pahkat")
    );
    assert_eq!(
        config_path_resolve(Os::Linux, &user, Some("/home/alice/.config".to_string())).as_deref(),
        Some("/home/alice/.config/Pahkat")
    );
    assert_eq!(config_path_resolve(Os::Linux, &user, None), None);
}

#[test]
fn log_and_cache_paths() {
    let system = Some("SYSTEM".to_string());
    let root = Some("root".to_string());
    let user = Some("alice".to_string());
    assert_eq!(
        log_path_resolve(Os::Windows, &system).as_deref(),
        Some("C:\\ProgramData\\Pahkat\\log")
    );
    assert_eq!(log_path_resolve(Os::MacOs, &root).as_deref(), Some("/Library/Logs/Pahkat"));
    assert_eq!(log_path_resolve(Os::Linux, &user), None);
    assert_eq!(
        cache_path_resolve(Os::Windows, &system, None).as_deref(),
        Some("C:\\ProgramData\\Pahkat\\cache")
    );
    assert_eq!(
        cache_path_resolve(Os::Linux, &user, Some("/home/alice/.cache".to_string())).as_deref(),
        Some("/home/alice/.cache")
    );
    assert_eq!(
        uninstall_path_from(Some("/Users/alice/Library".to_string())).as_deref(),
        Some("/Users/alice/Library/Pahkat/uninstall")
    );
    assert_eq!(uninstall_path_from(None), None);
}

#[test]
fn repository_agent_default_entry() {
    let agent = RepositoryAgent::default();
    assert_eq!(agent._type.as_deref(), Some("RepositoryAgent"));
    assert_eq!(agent.name, "pahkat");
    assert_eq!(agent.url.as_deref(), Some("https://github.com/divvun/pahkat"));
    let repo = Repository {
        _context: None,
        _type: Some("Repository".to_string()),
        agent: Some(agent),
        base: "https://pahkat.uit.no/main/".to_string(),
        name: vec![("en".to_string(), "Main".to_string())],
        description: vec![],
        primary_filter: "category".to_string(),
        channels: vec!["stable".to_string()],
        categories: vec![],
    };
    assert_eq!(repo.channels.len(), 1);
}

#[test]
fn models_carry_plain_values() {
    let d = NewDownload {
        package_id: "spell".to_string(),
        package_version: "2.0".to_string(),
        timestamp: 1_700_000_000,
    };
    assert_eq!(d.package_id, "spell");
    let u = User {
        id: vec![1, 2],
        username: "admin".to_string(),
        token: vec![3, 4],
    };
    let nu = NewUser { username: u.username.clone(), token: u.token.clone() };
    assert_eq!(nu.username, "admin");
    let c = PackageCount { package_id: "spell".to_string(), count: 7 };
    assert_eq!(c.count, 7);
    let stored = Download {
        id: vec![9],
        package_id: d.package_id.clone(),
        package_version: d.package_version.clone(),
        timestamp: d.timestamp,
    };
    assert_eq!(stored.timestamp, 1_700_000_000);
}

#[test]
fn bearer_tokens() {
    assert_eq!(parse_bearer_token("Bearer abc123").as_deref(), Some("abc123"));
    assert_eq!(parse_bearer_token("Bearer ").as_deref(), Some(""));
    assert_eq!(parse_bearer_token("Bearer a b"), None);
    assert_eq!(parse_bearer_token("Basic abc"), None);
    assert_eq!(parse_bearer_token("Bearerabc"), None);
    assert_eq!(parse_bearer_token(""), None);
}

#[test]
fn index_path_segments() {
    assert_eq!(repo_index_segments(), vec!["index.json"]);
    assert_eq!(packages_index_segments(), vec!["packages", "index.json"]);
    assert_eq!(
        packages_package_index_segments("spell".to_string()),
        vec!["packages", "spell", "index.json"]
    );
    assert_eq!(virtuals_index_segments(), vec!["virtuals", "index.json"]);
    assert_eq!(
        virtuals_package_index_segments("spell".to_string()),
        vec!["virtuals", "spell", "index.json"]
    );
}

#[test]
fn upload_decisions() {
    assert_eq!(upload_decision(None, true, true, false), UploadOutcome::Unauthorized);
    assert_eq!(
        upload_decision(Some("Basic abc"), true, true, false),
        UploadOutcome::Unauthorized
    );
    assert_eq!(
        upload_decision(Some("Bearer abc"), false, true, false),
        UploadOutcome::Unauthorized
    );
    assert_eq!(
        upload_decision(Some("Bearer abc"), true, false, false),
        UploadOutcome::BadRequest
    );
    assert_eq!(
        upload_decision(Some("Bearer abc"), true, true, true),
        UploadOutcome::BadRequest
    );
    assert_eq!(
        upload_decision(Some("Bearer abc"), true, true, false),
        UploadOutcome::Created
    );
}

#[test]
fn download_decisions() {
    assert!(matches!(download_response(None), DownloadDecision::PackageNotFound));
    let bare = PackageDescriptor {
        id: "spell".to_string(),
        version: "2.0".to_string(),
        installers: vec![],
    };
    assert!(matches!(download_response(Some(&bare)), DownloadDecision::NoInstaller));
    let with = PackageDescriptor {
        installers: vec![Installer {
            platform: "linux".to_string(),
            payload_kind: "TarballPackage".to_string(),
            url: "https://x/spell.txz".to_string(),
            size: 9,
        }],
        ..bare
    };
    match download_response(Some(&with)) {
        DownloadDecision::Redirect(u) => assert_eq!(u, "https://x/spell.txz"),
        _ => panic!("expected a redirect"),
    }
}

#[test]
fn stats_helpers() {
    let counts = vec![
        PackageCount { package_id: "a".to_string(), count: 10 },
        PackageCount { package_id: "b".to_string(), count: 5 },
        PackageCount { package_id: "c".to_string(), count: 2 },
    ];
    let top = top_downloads(&counts, 2);
    assert_eq!(top, vec![("a".to_string(), 10), ("b".to_string(), 5)]);
    let all = top_downloads(&counts, 5);
    assert_eq!(all.len(), 3);
    assert_eq!(days_to_seconds(1), 86_400);
    assert_eq!(days_to_seconds(30), 2_592_000);
}

fn drive(machine: &mut ServiceCommandMachine, results: &[bool]) -> Vec<ServiceAction> {
    results.iter().map(|ok| machine.on_result(*ok)).collect()
}

#[test]
fn service_install_happy_path() {
    let (mut m, first) = ServiceCommandMachine::start(ServiceOpts::Install);
    assert_eq!(first, ServiceAction::StopService);
    let actions = drive(&mut m, &[true, true, true, true, true]);
    assert_eq!(
        actions,
        vec![
            ServiceAction::UninstallService,
            ServiceAction::Sleep,
            ServiceAction::InstallService,
            ServiceAction::StartService,
            ServiceAction::Finish,
        ],
    );
    assert_eq!(m.phase, ServicePhase::Done);
}

#[test]
fn service_install_retries_then_gives_up() {
    let (mut m, _) = ServiceCommandMachine::start(ServiceOpts::Install);
    // stop and uninstall succeed, then every install attempt fails
    assert_eq!(m.on_result(true), ServiceAction::UninstallService);
    assert_eq!(m.on_result(true), ServiceAction::Sleep);
    let mut attempts: u32 = 0;
    loop {
        assert_eq!(m.on_result(true), ServiceAction::InstallService);
        attempts += 1;
        let next = m.on_result(false);
        if next == ServiceAction::Fail {
            break;
        }
        assert_eq!(next, ServiceAction::Sleep);
    }
    assert_eq!(attempts, INSTALL_RETRIES + 1);
    assert_eq!(m.phase, ServicePhase::Failed);
}

#[test]
fn service_uninstall_stop_run_update() {
    let (mut m, first) = ServiceCommandMachine::start(ServiceOpts::Uninstall);
    assert_eq!(first, ServiceAction::StopService);
    assert_eq!(m.on_result(true), ServiceAction::UninstallService);
    assert_eq!(m.on_result(true), ServiceAction::Finish);
    assert_eq!(m.phase, ServicePhase::Done);

    let (mut m, first) = ServiceCommandMachine::start(ServiceOpts::Stop);
    assert_eq!(first, ServiceAction::StopService);
    assert_eq!(m.on_result(false), ServiceAction::Fail);
    assert_eq!(m.phase, ServicePhase::Failed);

    let (mut m, first) = ServiceCommandMachine::start(ServiceOpts::Run);
    assert_eq!(first, ServiceAction::RunService);
    assert_eq!(m.on_result(true), ServiceAction::Finish);

    let (mut m, first) = ServiceCommandMachine::start(ServiceOpts::SelfUpdate {
        service_executable: "/opt/pahkatd/pahkatd".to_string(),
    });
    assert_eq!(first, ServiceAction::SelfUpdateService);
    assert_eq!(m.on_result(true), ServiceAction::Finish);
    assert_eq!(m.phase, ServicePhase::Done);
}
