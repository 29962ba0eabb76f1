use pahkat_core::config::{ConfigPath, StoreConfig};
use pahkat_core::key::PackageKey;
use pahkat_core::repo::{Installer, PackageDescriptor, RepoIndex, RepoRecord};
use pahkat_core::status::{status_to_i8, PackageStatus, PackageStatusError};
use pahkat_core::store::{
    DownloadError, ImportError, InstallTarget, PrefixPackageStore, Receipt, StoreError,
};
use pahkat_core::transaction::{
    ActionOutcome, PackageAction, PackageActionKind, PackageEventKind, PackageTransaction,
    PackageTransactionError,
};

const REPO: &str = "https://pahkat.uit.no/main";

fn installer(platform: &str, kind: &str, url: &str) -> Installer {
    Installer {
        platform: platform.to_string(),
        payload_kind: kind.to_string(),
        url: url.to_string(),
        size: 1024,
    }
}

fn descriptor(id: &str, version: &str) -> PackageDescriptor {
    PackageDescriptor {
        id: id.to_string(),
        version: version.to_string(),
        installers: vec![installer(
            "linux",
            "TarballPackage",
            &format!("{}/artifacts/{}.txz", REPO, id),
        )],
    }
}

fn record() -> RepoRecord {
    RepoRecord { url: REPO.to_string(), channel: None }
}

fn index(descs: Vec<PackageDescriptor>) -> RepoIndex {
    RepoIndex { packages: descs }
}

fn config() -> StoreConfig {
    StoreConfig {
        repos: vec![record()],
        cache_base: ConfigPath::File("file:///tmp/pahkat/cache/".to_string()),
        tmp_base: ConfigPath::File("file:///tmp/pahkat/tmp/".to_string()),
        skipped: vec![],
    }
}

fn store_with(descs: Vec<PackageDescriptor>) -> PrefixPackageStore {
    let mut store = PrefixPackageStore::create(
        "linux".to_string(),
        vec!["TarballPackage".to_string()],
        config(),
    )
    .unwrap();
    store.refresh_repos(vec![(record(), Some(index(descs)))]);
    store
}

fn key(id: &str) -> PackageKey {
    PackageKey {
        repository_url: REPO.to_string(),
        package_id: id.to_string(),
        channel: None,
    }
}

fn action(id: &str, kind: PackageActionKind) -> PackageAction {
    PackageAction { key: key(id), kind, target: InstallTarget::System }
}

#[test]
fn status_not_installed() {
    let store = store_with(vec![descriptor("spell", "2.0")]);
    let st = store.status(&key("spell"), InstallTarget::System);
    assert_eq!(st, Ok(PackageStatus::NotInstalled));
}

#[test]
fn status_missing_repository_is_hard_error() {
    let store = store_with(vec![descriptor("spell", "2.0")]);
    let k = PackageKey {
        repository_url: "https://elsewhere.example.com".to_string(),
        package_id: "spell".to_string(),
        channel: None,
    };
    assert_eq!(
        store.status(&k, InstallTarget::System),
        Err(PackageStatusError::RepositoryNotFound)
    );
}

#[test]
fn status_missing_package_is_hard_error() {
    let store = store_with(vec![descriptor("spell", "2.0")]);
    assert_eq!(
        store.status(&key("ghost"), InstallTarget::System),
        Err(PackageStatusError::PackageNotFound)
    );
}

#[test]
fn status_soft_errors() {
    let mut wrong_platform = descriptor("winonly", "1.0");
    wrong_platform.installers = vec![installer("windows", "WindowsExecutable", "u")];
    let mut bad_kind = descriptor("badkind", "1.0");
    bad_kind.installers = vec![installer("linux", "WindowsExecutable", "u")];
    let bad_version = descriptor("badver", "1.0rc1");
    let store = store_with(vec![wrong_platform, bad_kind, bad_version]);
    assert_eq!(
        store.status(&key("winonly"), InstallTarget::System),
        Ok(PackageStatus::ErrorNoInstaller)
    );
    assert_eq!(
        store.status(&key("badkind"), InstallTarget::System),
        Ok(PackageStatus::ErrorWrongPlatform)
    );
    assert_eq!(
        store.status(&key("badver"), InstallTarget::System),
        Ok(PackageStatus::ErrorParsingVersion)
    );
}

#[test]
fn status_version_skipped() {
    let mut store = store_with(vec![descriptor("spell", "2.0")]);
    store
        .config
        .add_skipped_version(key("spell").to_string(), "2.0".to_string());
    assert_eq!(
        store.status(&key("spell"), InstallTarget::System),
        Ok(PackageStatus::VersionSkipped)
    );
}

#[test]
fn status_installed_versions() {
    let mut store = store_with(vec![descriptor("spell", "2.0")]);
    store.upsert_receipt("spell".to_string(), InstallTarget::System, "2.0".to_string());
    assert_eq!(
        store.status(&key("spell"), InstallTarget::System),
        Ok(PackageStatus::UpToDate)
    );
    store.upsert_receipt("spell".to_string(), InstallTarget::System, "1.0".to_string());
    assert_eq!(
        store.status(&key("spell"), InstallTarget::System),
        Ok(PackageStatus::RequiresUpdate)
    );
    // idempotence: no state change between two queries
    let first = store.status(&key("spell"), InstallTarget::System);
    let second = store.status(&key("spell"), InstallTarget::System);
    assert_eq!(first, second);
}

#[test]
fn all_statuses_accumulates_per_package() {
    let mut store = store_with(vec![descriptor("a", "1.0"), descriptor("b", "oops")]);
    store.upsert_receipt("a".to_string(), InstallTarget::System, "1.0".to_string());
    let all = store.all_statuses(&record(), InstallTarget::System);
    assert_eq!(all.len(), 2);
    assert_eq!(all[0].0, "a");
    assert_eq!(all[0].1, Ok(PackageStatus::UpToDate));
    assert_eq!(all[1].0, "b");
    assert_eq!(all[1].1, Ok(PackageStatus::ErrorParsingVersion));
    let unknown = RepoRecord { url: "https://elsewhere.example.com".to_string(), channel: None };
    assert!(store.all_statuses(&unknown, InstallTarget::System).is_empty());
}

#[test]
fn store_accessors_and_key_copies() {
    let store = store_with(vec![descriptor("a", "1.0")]);
    assert_eq!(store.repos().len(), 1);
    assert_eq!(store.repos()[0].0.url, REPO);
    assert_eq!(store.config().repos.len(), 1);
    let k = key("a");
    let copy = k.duplicate();
    assert_eq!(copy.to_string(), k.to_string());
    let resolved = store.resolve_package(&k).unwrap();
    assert_eq!(resolved.id, "a");
    assert!(store.resolve_package(&key("ghost")).is_none());
}

#[test]
fn status_codes_are_stable() {
    assert_eq!(status_to_i8(Ok(PackageStatus::NotInstalled)), 0);
    assert_eq!(status_to_i8(Ok(PackageStatus::UpToDate)), 1);
    assert_eq!(status_to_i8(Ok(PackageStatus::RequiresUpdate)), 2);
    assert_eq!(status_to_i8(Ok(PackageStatus::VersionSkipped)), 3);
    assert_eq!(status_to_i8(Ok(PackageStatus::ErrorParsingVersion)), -1);
    assert_eq!(status_to_i8(Ok(PackageStatus::ErrorWrongPlatform)), -2);
    assert_eq!(status_to_i8(Ok(PackageStatus::ErrorNoInstaller)), -3);
    assert_eq!(status_to_i8(Err(PackageStatusError::RepositoryNotFound)), -4);
    assert_eq!(status_to_i8(Err(PackageStatusError::PackageNotFound)), -5);
}

#[test]
fn download_plan_resolves_url() {
    let store = store_with(vec![descriptor("spell", "2.0")]);
    let url = store.download_plan(&key("spell")).unwrap();
    assert_eq!(url, format!("{}/artifacts/spell.txz", REPO));
    assert_eq!(
        store.download_plan(&key("ghost")).unwrap_err(),
        DownloadError::PackageNotFound
    );
    let elsewhere = PackageKey {
        repository_url: "https://elsewhere.example.com".to_string(),
        package_id: "spell".to_string(),
        channel: None,
    };
    assert_eq!(
        store.download_plan(&elsewhere).unwrap_err(),
        DownloadError::RepositoryNotFound
    );
    let mut winonly = descriptor("winonly", "1.0");
    winonly.installers = vec![installer("windows", "WindowsExecutable", "u")];
    let store = store_with(vec![winonly]);
    assert_eq!(
        store.download_plan(&key("winonly")).unwrap_err(),
        DownloadError::NoInstaller
    );
}

#[test]
fn import_validates_payload_address() {
    let mut store = store_with(vec![descriptor("spell", "2.0")]);
    let err = store
        .import(&key("spell"), &"spell".to_string(), &"1.9".to_string())
        .unwrap_err();
    assert_eq!(err, ImportError::PayloadMismatch);
    assert!(!store.is_cached(&key("spell").to_string()));
    let slot = store
        .import(&key("spell"), &"spell".to_string(), &"2.0".to_string())
        .unwrap();
    assert_eq!(slot, key("spell").to_string());
    assert!(store.is_cached(&key("spell").to_string()));
    assert_eq!(
        store
            .import(&key("ghost"), &"ghost".to_string(), &"2.0".to_string())
            .unwrap_err(),
        ImportError::PackageNotFound
    );
    let elsewhere = PackageKey {
        repository_url: "https://elsewhere.example.com".to_string(),
        package_id: "spell".to_string(),
        channel: None,
    };
    assert_eq!(
        store
            .import(&elsewhere, &"spell".to_string(), &"2.0".to_string())
            .unwrap_err(),
        ImportError::RepositoryNotFound
    );
}

#[test]
fn open_rejects_ambiguous_receipts() {
    let dup = Receipt {
        package_id: "a".to_string(),
        target: InstallTarget::System,
        version: "1.0".to_string(),
    };
    let err = PrefixPackageStore::open(
        "linux".to_string(),
        vec!["TarballPackage".to_string()],
        config(),
        vec![dup.clone(), dup],
    )
    .unwrap_err();
    assert_eq!(err, StoreError::DuplicateReceipt);
}

#[test]
fn create_rejects_duplicate_skipped_entries() {
    let mut cfg = config();
    cfg.skipped = vec![
        ("repo#a".to_string(), "1.0".to_string()),
        ("repo#a".to_string(), "2.0".to_string()),
    ];
    let err = PrefixPackageStore::create(
        "linux".to_string(),
        vec!["TarballPackage".to_string()],
        cfg,
    )
    .unwrap_err();
    assert_eq!(err, StoreError::DuplicateSkippedEntry);
}

#[test]
fn reject_install_of_up_to_date_package() {
    let mut store = store_with(vec![descriptor("spell", "2.0")]);
    store.upsert_receipt("spell".to_string(), InstallTarget::System, "2.0".to_string());
    let cached_before = store.cached.clone();
    let receipts_before = store.receipts.len();
    let err = PackageTransaction::new(&store, vec![action("spell", PackageActionKind::Install)])
        .unwrap_err();
    assert!(matches!(err, PackageTransactionError::AlreadyInstalled(_)));
    // rejection at construction has no side effects
    assert_eq!(store.cached, cached_before);
    assert_eq!(store.receipts.len(), receipts_before);
}

#[test]
fn reject_uninstall_of_absent_package() {
    let store = store_with(vec![descriptor("spell", "2.0")]);
    let err = PackageTransaction::new(&store, vec![action("spell", PackageActionKind::Uninstall)])
        .unwrap_err();
    assert!(matches!(err, PackageTransactionError::NotInstalled(_)));
}

#[test]
fn reject_conflicting_actions() {
    let mut store = store_with(vec![descriptor("spell", "1.0")]);
    store.upsert_receipt("spell".to_string(), InstallTarget::System, "0.9".to_string());
    let err = PackageTransaction::new(
        &store,
        vec![
            action("spell", PackageActionKind::Install),
            action("spell", PackageActionKind::Uninstall),
        ],
    )
    .unwrap_err();
    assert!(matches!(err, PackageTransactionError::Conflict(_)));
}

#[test]
fn reject_on_hard_status_error() {
    let store = store_with(vec![descriptor("spell", "2.0")]);
    let err = PackageTransaction::new(&store, vec![action("ghost", PackageActionKind::Install)])
        .unwrap_err();
    assert!(matches!(
        err,
        PackageTransactionError::Status(_, PackageStatusError::PackageNotFound)
    ));
}

#[test]
fn transaction_keeps_action_order() {
    let store = store_with(vec![descriptor("a", "1.0"), descriptor("b", "1.0")]);
    let t = PackageTransaction::new(
        &store,
        vec![
            action("b", PackageActionKind::Install),
            action("a", PackageActionKind::Install),
        ],
    )
    .unwrap();
    let acts = t.actions();
    assert_eq!(acts.len(), 2);
    assert_eq!(acts[0].key.package_id, "b");
    assert_eq!(acts[1].key.package_id, "a");
}

fn event_kinds(events: &[pahkat_core::transaction::TransactionEvent]) -> Vec<(String, PackageEventKind)> {
    events.iter().map(|e| (e.key.package_id.clone(), e.kind)).collect()
}

#[test]
fn partial_commit_stops_at_first_failure() {
    let descs = vec![descriptor("a", "1.0"), descriptor("b", "1.0"), descriptor("c", "1.0")];
    let mut store = store_with(descs);
    store.upsert_receipt("c".to_string(), InstallTarget::System, "0.5".to_string());
    let t = PackageTransaction::new(
        &store,
        vec![
            action("a", PackageActionKind::Install),
            action("b", PackageActionKind::Install),
            action("c", PackageActionKind::Install),
        ],
    )
    .unwrap();
    let outcomes = vec![
        ActionOutcome::Success,
        ActionOutcome::InstallerFailed,
        ActionOutcome::Success,
    ];
    let events = t.process(&mut store, &outcomes);
    assert_eq!(
        event_kinds(&events),
        vec![
            ("a".to_string(), PackageEventKind::Downloading),
            ("a".to_string(), PackageEventKind::Installing),
            ("a".to_string(), PackageEventKind::Completed),
            ("b".to_string(), PackageEventKind::Downloading),
            ("b".to_string(), PackageEventKind::Installing),
            ("b".to_string(), PackageEventKind::Error),
        ],
    );
    // a committed, b not recorded, c untouched from before the run
    assert_eq!(
        store.status(&key("a"), InstallTarget::System),
        Ok(PackageStatus::UpToDate)
    );
    assert_eq!(
        store.status(&key("b"), InstallTarget::System),
        Ok(PackageStatus::NotInstalled)
    );
    assert_eq!(
        store.status(&key("c"), InstallTarget::System),
        Ok(PackageStatus::RequiresUpdate)
    );
}

#[test]
fn download_failure_stops_before_install() {
    let mut store = store_with(vec![descriptor("a", "1.0")]);
    let t = PackageTransaction::new(&store, vec![action("a", PackageActionKind::Install)])
        .unwrap();
    let events = t.process(&mut store, &vec![ActionOutcome::DownloadFailed]);
    assert_eq!(
        event_kinds(&events),
        vec![
            ("a".to_string(), PackageEventKind::Downloading),
            ("a".to_string(), PackageEventKind::Error),
        ],
    );
    assert_eq!(
        store.status(&key("a"), InstallTarget::System),
        Ok(PackageStatus::NotInstalled)
    );
}

#[test]
fn cached_artifact_skips_downloading_event() {
    let mut store = store_with(vec![descriptor("a", "1.0")]);
    store.mark_downloaded(&key("a"));
    let t = PackageTransaction::new(&store, vec![action("a", PackageActionKind::Install)])
        .unwrap();
    let events = t.process(&mut store, &vec![ActionOutcome::Success]);
    assert_eq!(
        event_kinds(&events),
        vec![
            ("a".to_string(), PackageEventKind::Installing),
            ("a".to_string(), PackageEventKind::Completed),
        ],
    );
}

#[test]
fn clear_cache_keeps_receipts() {
    let mut store = store_with(vec![descriptor("spell", "2.0")]);
    store.upsert_receipt("spell".to_string(), InstallTarget::System, "2.0".to_string());
    store.mark_downloaded(&key("spell"));
    store.clear_cache();
    assert!(store.cached.is_empty());
    assert!(store.repos.is_empty());
    assert_eq!(store.receipts.len(), 1);
    // after re-fetching the same index, status still reads the old receipt
    store.refresh_repos(vec![(record(), Some(index(vec![descriptor("spell", "2.0")])))]);
    assert_eq!(
        store.status(&key("spell"), InstallTarget::System),
        Ok(PackageStatus::UpToDate)
    );
}

#[test]
fn refresh_replaces_whole_entries() {
    let mut store = store_with(vec![descriptor("a", "1.0"), descriptor("b", "1.0")]);
    // a non-forced refresh leaves a fresh entry alone
    store.refresh_repos(vec![(record(), Some(index(vec![descriptor("a", "9.9")])))]);
    let idx = store.find_repo_index(&REPO.to_string()).unwrap();
    assert_eq!(idx.packages.len(), 2);
    assert_eq!(idx.packages[0].version, "1.0");
    // a forced refresh swaps in the whole new index, never a mixture
    store.force_refresh_repos(vec![(record(), Some(index(vec![descriptor("a", "9.9")])))]);
    let idx = store.find_repo_index(&REPO.to_string()).unwrap();
    assert_eq!(idx.packages.len(), 1);
    assert_eq!(idx.packages[0].version, "9.9");
    // a failed fetch changes nothing
    store.force_refresh_repos(vec![(record(), None)]);
    let idx = store.find_repo_index(&REPO.to_string()).unwrap();
    assert_eq!(idx.packages.len(), 1);
}

#[test]
fn end_to_end_install_update_uninstall() {
    let mut store = store_with(vec![descriptor("p", "2.0")]);
    let k = key("p");
    assert_eq!(store.status(&k, InstallTarget::System), Ok(PackageStatus::NotInstalled));

    let t = PackageTransaction::new(&store, vec![action("p", PackageActionKind::Install)])
        .unwrap();
    let events = t.process(&mut store, &vec![ActionOutcome::Success]);
    assert_eq!(events.last().unwrap().kind, PackageEventKind::Completed);
    assert_eq!(store.status(&k, InstallTarget::System), Ok(PackageStatus::UpToDate));
    assert_eq!(store.receipts[0].version, "2.0");

    store.force_refresh_repos(vec![(record(), Some(index(vec![descriptor("p", "3.0")])))]);
    assert_eq!(store.status(&k, InstallTarget::System), Ok(PackageStatus::RequiresUpdate));

    let t = PackageTransaction::new(&store, vec![action("p", PackageActionKind::Uninstall)])
        .unwrap();
    let events = t.process(&mut store, &vec![ActionOutcome::Success]);
    assert_eq!(
        event_kinds(&events),
        vec![
            ("p".to_string(), PackageEventKind::Uninstalling),
            ("p".to_string(), PackageEventKind::Completed),
        ],
    );
    assert_eq!(store.status(&k, InstallTarget::System), Ok(PackageStatus::NotInstalled));
}

#[test]
fn event_and_action_codes_are_stable() {
    assert_eq!(PackageEventKind::Downloading.to_u32(), 0);
    assert_eq!(PackageEventKind::Installing.to_u32(), 1);
    assert_eq!(PackageEventKind::Uninstalling.to_u32(), 2);
    assert_eq!(PackageEventKind::Completed.to_u32(), 3);
    assert_eq!(PackageEventKind::Error.to_u32(), 4);
    assert_eq!(PackageActionKind::Install.to_u8(), 0);
    assert_eq!(PackageActionKind::Uninstall.to_u8(), 1);
}
