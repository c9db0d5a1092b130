//! Behaviour against keyring-core's in-memory store, which never touches a real credential store.

use std::sync::Once;

use tauri_kit::credentials::{
    build_kind, ensure_store, first_use, found, gone, installed, BuildKind, Credentials, SetupStep,
    StoreSetup,
};
use tauri_kit::keyring::{answered, reported, CredentialError, ErrorKind};

/// Installs the in-memory store as the default, once; tells how the setup then turns out.
fn use_mock_store() -> StoreSetup {
    static ONCE: Once = Once::new();
    ONCE.call_once(|| keyring_core::set_default_store(keyring_core::mock::Store::new().unwrap()));
    match ensure_store(None) {
        SetupStep::Settled(setup) => setup,
        SetupStep::Install => panic!("the store is not there"),
    }
}

/// The kind of this build: test builds are built with debug assertions or without, and are test
/// builds either way.
fn kind_here() -> BuildKind {
    build_kind(true, true)
}

#[test]
fn each_kind_of_build_gets_its_own_service_name() {
    let service = |kind| {
        Credentials::new("com.example.app", kind)
            .service()
            .to_string()
    };
    assert_eq!(service(BuildKind::Release), "com.example.app");
    assert_eq!(service(BuildKind::Dev), "com.example.app.dev");
    assert_eq!(service(BuildKind::Test), "com.example.app.test");
}

#[test]
fn the_macro_describes_the_crate_it_is_written_in() {
    assert_eq!(build_kind(true, true), BuildKind::Test);
}

#[test]
fn an_integration_test_is_a_test_build_even_though_the_library_is_not() {
    assert_eq!(build_kind(true, false), BuildKind::Test);
}

#[test]
fn build_flags_decide_the_kind() {
    assert_eq!(build_kind(false, true), BuildKind::Dev);
    assert_eq!(build_kind(false, false), BuildKind::Release);
}

#[test]
fn suffixes() {
    assert_eq!(BuildKind::Test.suffix(), Some("test"));
    assert_eq!(BuildKind::Dev.suffix(), Some("dev"));
    assert_eq!(BuildKind::Release.suffix(), None);
}

#[test]
fn set_get_delete_round_trip() {
    let setup = use_mock_store();
    let credentials = Credentials::new("com.example.roundtrip", kind_here());
    assert_eq!(credentials.get(setup, "api-key").unwrap(), None);
    assert!(!credentials.contains(setup, "api-key").unwrap());

    credentials.set(setup, "api-key", "first").unwrap();
    credentials.set(setup, "api-key", "second").unwrap();
    assert_eq!(
        credentials.get(setup, "api-key").unwrap().as_deref(),
        Some("second")
    );
    assert!(credentials.contains(setup, "api-key").unwrap());

    credentials.delete(setup, "api-key").unwrap();
    assert_eq!(credentials.get(setup, "api-key").unwrap(), None);
}

#[test]
fn deleting_what_is_not_there_is_not_an_error() {
    let setup = use_mock_store();
    let credentials = Credentials::new("com.example.absent", kind_here());
    credentials.delete(setup, "never-set").unwrap();
    credentials.delete(setup, "never-set").unwrap();
}

#[test]
fn a_test_run_does_not_reach_the_installed_apps_secret() {
    let setup = use_mock_store();
    let installed = Credentials::new("com.example.isolation", BuildKind::Release);
    installed.set(setup, "token", "the user's real token").unwrap();

    let under_test = Credentials::new("com.example.isolation", kind_here());
    assert_eq!(under_test.get(setup, "token").unwrap(), None);
    under_test.set(setup, "token", "a test literal").unwrap();
    under_test.delete(setup, "token").unwrap();

    assert_eq!(
        installed.get(setup, "token").unwrap().as_deref(),
        Some("the user's real token")
    );
}

#[test]
fn accounts_under_one_service_are_separate() {
    let setup = use_mock_store();
    let credentials = Credentials::new("com.example.accounts", kind_here());
    credentials.set(setup, "a", "one").unwrap();
    credentials.set(setup, "b", "two").unwrap();
    credentials.delete(setup, "a").unwrap();
    assert_eq!(credentials.get(setup, "b").unwrap().as_deref(), Some("two"));
}

#[test]
fn a_failing_store_is_reported() {
    let setup = use_mock_store();
    let credentials = Credentials::new("com.example.failing", kind_here());
    credentials.set(setup, "key", "kept").unwrap();
    let entry = keyring_core::Entry::new("com.example.failing.test", "key").unwrap();
    let mock: &keyring_core::mock::Cred = entry.as_any().downcast_ref().unwrap();

    mock.set_error(keyring_core::Error::TooLong("user".to_string(), 3));
    let error = credentials.get(setup, "key").unwrap_err();
    assert_eq!(error.kind, ErrorKind::TooLong);
    assert!(matches!(error.source, keyring_core::Error::TooLong(_, 3)));

    mock.set_error(keyring_core::Error::Invalid("a".to_string(), "b".to_string()));
    assert_eq!(credentials.contains(setup, "key").unwrap_err().kind, ErrorKind::Invalid);

    mock.set_error(keyring_core::Error::BadStoreFormat("x".to_string()));
    let error = credentials.set(setup, "key", "new").unwrap_err();
    assert_eq!(error.kind, ErrorKind::BadStoreFormat);
    assert!(matches!(error.source, keyring_core::Error::BadStoreFormat(text) if text == "x"));

    mock.set_error(keyring_core::Error::NotSupportedByStore("x".to_string()));
    assert_eq!(credentials.delete(setup, "key").unwrap_err().kind, ErrorKind::NotSupportedByStore);

    // A removal that the store answers with "no entry" counts as done.
    mock.set_error(keyring_core::Error::NoEntry);
    credentials.delete(setup, "key").unwrap();
    assert_eq!(credentials.get(setup, "key").unwrap().as_deref(), Some("kept"));
}

#[test]
fn without_a_store_nothing_opens() {
    // Each kind of operation opens its entry first.
    if keyring_core::get_default_store().is_none() {
        let credentials = Credentials::new("com.example.storeless", kind_here());
        let error = credentials.get(StoreSetup::Ready, "key").unwrap_err();
        assert_eq!(error.kind, ErrorKind::NoDefaultStore);
    }
    assert_eq!(
        reported(keyring_core::Error::NoDefaultStore).kind,
        ErrorKind::NoDefaultStore
    );
}

#[test]
fn every_kind_of_error_is_told_apart() {
    let platform = || -> Box<dyn std::error::Error + Send + Sync> { "broken".into() };
    assert_eq!(
        reported(keyring_core::Error::PlatformFailure(platform())).kind,
        ErrorKind::PlatformFailure
    );
    assert_eq!(
        reported(keyring_core::Error::NoStorageAccess(platform())).kind,
        ErrorKind::NoStorageAccess
    );
    assert_eq!(reported(keyring_core::Error::NoEntry).kind, ErrorKind::NoEntry);
    assert_eq!(
        reported(keyring_core::Error::BadEncoding(vec![0xff])).kind,
        ErrorKind::BadEncoding
    );
    assert_eq!(
        reported(keyring_core::Error::BadDataFormat(vec![1], platform())).kind,
        ErrorKind::BadDataFormat
    );
    assert_eq!(
        reported(keyring_core::Error::Ambiguous(vec![])).kind,
        ErrorKind::Ambiguous
    );
    assert_eq!(answered::<u8>(Ok(7)).unwrap(), 7);
}

#[test]
fn replies_are_interpreted() {
    let error = |source| -> CredentialError { reported(source) };
    assert_eq!(found(Ok("s".to_string())).unwrap().as_deref(), Some("s"));
    assert_eq!(found(Err(error(keyring_core::Error::NoEntry))).unwrap(), None);
    assert_eq!(
        found(Err(error(keyring_core::Error::NoDefaultStore))).unwrap_err().kind,
        ErrorKind::NoDefaultStore
    );
    gone(Ok(())).unwrap();
    gone(Err(error(keyring_core::Error::NoEntry))).unwrap();
    assert_eq!(
        gone(Err(error(keyring_core::Error::BadEncoding(vec![])))).unwrap_err().kind,
        ErrorKind::BadEncoding
    );
}

#[test]
fn the_platform_store_is_installed_once() {
    assert_eq!(first_use(true), SetupStep::Settled(StoreSetup::Ready));
    assert_eq!(first_use(false), SetupStep::Install);
    assert_eq!(installed(true), StoreSetup::Ready);
    assert_eq!(installed(false), StoreSetup::Failed);
    assert_eq!(
        ensure_store(Some(StoreSetup::Failed)),
        SetupStep::Settled(StoreSetup::Failed)
    );
    use_mock_store();
    assert_eq!(ensure_store(None), SetupStep::Settled(StoreSetup::Ready));
}

#[test]
fn after_a_failed_setup_the_store_is_not_asked() {
    let setup = use_mock_store();
    let credentials = Credentials::new("com.example.refused", kind_here());
    credentials.set(setup, "key", "kept").unwrap();

    let failed = installed(false);
    let error = credentials.get(failed, "key").unwrap_err();
    assert_eq!(error.kind, ErrorKind::NoDefaultStore);
    assert!(matches!(error.source, keyring_core::Error::NoDefaultStore));
    let no_store = ErrorKind::NoDefaultStore;
    assert_eq!(credentials.set(failed, "key", "lost").unwrap_err().kind, no_store);
    assert_eq!(credentials.contains(failed, "key").unwrap_err().kind, no_store);
    assert_eq!(credentials.delete(failed, "key").unwrap_err().kind, no_store);

    assert_eq!(credentials.get(setup, "key").unwrap().as_deref(), Some("kept"));
}
