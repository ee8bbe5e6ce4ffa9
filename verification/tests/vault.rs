use ownterm::platform::{linux_directories, windows_directories, PlatformError, SystemVault};
use ownterm::repositories::RepositoryError;
use ownterm::vault::{
    count_removed, orphan_outcome_of, FakeSecretVault, SecretRef, SecretServiceError, SecretValue, SecretVault, VaultError,
};

#[test]
fn fake_vault_covers_success_missing_and_platform_failure() {
    let vault = FakeSecretVault::default();
    let reference = SecretRef::try_new("test").unwrap();
    let secret = SecretValue::new("secret");
    vault.store(&reference, &secret).unwrap();
    assert_eq!(vault.read(&reference).unwrap().expose(), "secret");
    vault.remove(&reference).unwrap();
    assert!(vault.read(&reference) == Err(VaultError::NotFound));
    let failing = FakeSecretVault::failing(VaultError::Platform("denied".into()));
    assert_eq!(failing.store(&reference, &secret), Err(VaultError::Platform("denied".into())));
    assert_eq!(secret.redacted_debug(), "SecretValue(<redacted>)");
}

#[test]
fn fake_vault_overwrites_a_stored_secret() {
    let vault = FakeSecretVault::default();
    let reference = SecretRef::try_new("ref").unwrap();
    vault.store(&reference, &SecretValue::new("one")).unwrap();
    vault.store(&reference, &SecretValue::new("two")).unwrap();
    assert_eq!(vault.read(&reference).unwrap().expose(), "two");
    assert_eq!(vault.remove(&SecretRef::try_new("other").unwrap()), Err(VaultError::NotFound));
}

#[test]
fn makes_linux_vault_support_explicit() {
    let vault = SystemVault;
    let reference = SecretRef::try_new("test").unwrap();
    assert_eq!(vault.store(&reference, &SecretValue::new("secret")), Err(VaultError::UnsupportedPlatform));
    assert!(vault.read(&reference) == Err(VaultError::UnsupportedPlatform));
    assert_eq!(vault.remove(&reference), Err(VaultError::UnsupportedPlatform));
}

#[test]
fn resolves_xdg_directories_without_creating_them() {
    let directories =
        linux_directories(Some("/tmp/data".into()), Some("/tmp/config".into()), None).unwrap();
    assert_eq!(directories.data_dir, "/tmp/data/OwnTerm");
    assert_eq!(directories.config_dir, "/tmp/config/OwnTerm");
}

#[test]
fn falls_back_to_home_for_xdg_directories() {
    let directories = linux_directories(None, None, Some("/home/test".into())).unwrap();
    assert_eq!(directories.data_dir, "/home/test/.local/share/OwnTerm");
    assert_eq!(directories.config_dir, "/home/test/.config/OwnTerm");
}

#[test]
fn directory_errors_and_windows_layout() {
    assert_eq!(
        linux_directories(None, Some("/c".into()), None),
        Err(PlatformError::Unavailable("XDG_DATA_HOME or HOME"))
    );
    assert_eq!(
        linux_directories(Some("/d/".into()), None, None),
        Err(PlatformError::Unavailable("XDG_CONFIG_HOME or HOME"))
    );
    assert_eq!(linux_directories(Some("/d/".into()), Some("/c".into()), None).unwrap().data_dir, "/d/OwnTerm");
    let windows = windows_directories(Some("C:\\Users\\me\\AppData\\Local".into())).unwrap();
    assert_eq!(windows.data_dir, "C:\\Users\\me\\AppData\\Local\\OwnTerm");
    assert_eq!(windows.config_dir, windows.data_dir);
    assert_eq!(windows_directories(Some("C:".into())).unwrap().data_dir, "C:OwnTerm");
    assert_eq!(windows_directories(None), Err(PlatformError::Unavailable("LOCALAPPDATA")));
    assert_eq!(PlatformError::Unavailable("HOME").message(), "required platform directory is unavailable: HOME");
}

#[test]
fn orphan_removal_outcomes() {
    assert_eq!(orphan_outcome_of(Ok(true), None, Some(Ok(()))), Ok(false));
    assert_eq!(orphan_outcome_of(Ok(false), Some(Ok(())), Some(Ok(()))), Ok(true));
    assert_eq!(orphan_outcome_of(Ok(false), Some(Err(VaultError::NotFound)), Some(Ok(()))), Ok(true));
    assert_eq!(
        orphan_outcome_of(Ok(false), Some(Err(VaultError::Platform("denied".into()))), None),
        Err(SecretServiceError::Vault(VaultError::Platform("denied".into())))
    );
    assert_eq!(
        orphan_outcome_of(Err(RepositoryError::InvalidData), None, None),
        Err(SecretServiceError::Repository(RepositoryError::InvalidData))
    );
    assert_eq!(
        orphan_outcome_of(Ok(true), None, Some(Err(RepositoryError::Conflict))),
        Err(SecretServiceError::Repository(RepositoryError::Conflict))
    );
}

#[test]
fn removal_counts_stop_at_the_first_failure() {
    assert_eq!(count_removed(vec![Ok(true), Ok(false), Ok(true)]), Ok(2));
    assert_eq!(count_removed(vec![]), Ok(0));
    assert_eq!(
        count_removed(vec![Ok(true), Err(SecretServiceError::Repository(RepositoryError::Conflict)), Ok(true)]),
        Err(SecretServiceError::Repository(RepositoryError::Conflict))
    );
}
