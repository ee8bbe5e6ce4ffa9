//! Operating-system facts the application depends on: where its data lives and whether
//! the system credential vault is available.
use vstd::prelude::*;
use crate::domain::CredentialRef;
use crate::vault::{SecretRef, SecretValue, SecretVault, VaultError};

verus! {

/// Name of the application's directory inside the platform data and config roots.
pub const APP_DIRECTORY: &'static str = "OwnTerm";

/// Service name under which secrets are kept in the system vault.
pub const VAULT_SERVICE: &'static str = "dev.zocacc.ownterm";

/// Where the application keeps its data and configuration.
#[derive(Clone, Debug, PartialEq, Eq)]
pub struct AppDirectories {
    pub data_dir: String,
    pub config_dir: String,
}

#[derive(Clone, Copy, Debug, PartialEq, Eq)]
pub enum PlatformError {
    UnsupportedPlatform,
    Unavailable(&'static str),
}

impl PlatformError {
    pub fn message(&self) -> (s: String)
        ensures
            s@ == match self {
                PlatformError::UnsupportedPlatform => "platform is not supported"@,
                PlatformError::Unavailable(name) => "required platform directory is unavailable: "@
                    + name@,
            },
    {
        match self {
            PlatformError::UnsupportedPlatform => String::from_str("platform is not supported"),
            PlatformError::Unavailable(name) => {
                let mut s = String::from_str("required platform directory is unavailable: ");
                s.append(name);
                s
            },
        }
    }
}

/// Supplies the application's directories.
pub trait AppDirectoriesProvider: Send + Sync {
    fn app_directories(&self) -> Result<AppDirectories, PlatformError>;
}

/// `Path::join` on Unix for the relative or absolute `part`.
pub open spec fn join_unix(base: Seq<char>, part: Seq<char>) -> Seq<char> {
    if part.len() > 0 && part[0] == '/' {
        part
    } else if base.len() == 0 || base.last() == '/' {
        base + part
    } else {
        base + "/"@ + part
    }
}

fn join_unix_path(base: &str, part: &str) -> (r: String)
    ensures
        r@ == join_unix(base@, part@),
{
    let b = crate::text::chars_of(base);
    let p = crate::text::chars_of(part);
    if p.len() > 0 && p[0] == '/' {
        return part.to_owned();
    }
    let mut s = base.to_owned();
    if !(b.len() == 0 || b[b.len() - 1] == '/') {
        s.append("/");
    }
    s.append(part);
    s
}

/// A drive prefix alone, such as `C:` or `\\?\C:`, after which Windows adds no separator.
pub open spec fn bare_drive(s: Seq<char>) -> bool {
    (s.len() == 2 && s[1] == ':') || (s.len() == 6 && s[0] == '\\' && s[1] == '\\' && s[2] == '?'
        && s[3] == '\\' && s[5] == ':')
}

/// `Path::join` on Windows for a relative `part` without a root or prefix.
pub open spec fn join_windows(base: Seq<char>, part: Seq<char>) -> Seq<char> {
    if base.len() == 0 || base.last() == '\\' || base.last() == '/' || bare_drive(base) {
        base + part
    } else {
        base + "\\"@ + part
    }
}

fn join_windows_path(base: &str, part: &str) -> (r: String)
    ensures
        r@ == join_windows(base@, part@),
{
    let b = crate::text::chars_of(base);
    let n = b.len();
    let drive = (n == 2 && b[1] == ':') || (n == 6 && b[0] == '\\' && b[1] == '\\' && b[2] == '?'
        && b[3] == '\\' && b[5] == ':');
    let mut s = base.to_owned();
    if !(n == 0 || b[n - 1] == '\\' || b[n - 1] == '/' || drive) {
        s.append("\\");
    }
    s.append(part);
    s
}

/// The directories on Linux: the XDG roots, falling back to the home directory.
pub open spec fn linux_dirs(data_home: Option<Seq<char>>, config_home: Option<Seq<char>>, home: Option<Seq<char>>) -> Result<
    (Seq<char>, Seq<char>),
    PlatformError,
> {
    let data_root = match data_home {
        Some(d) => Some(d),
        None => match home {
            Some(h) => Some(join_unix(h, ".local/share"@)),
            None => None,
        },
    };
    let config_root = match config_home {
        Some(c) => Some(c),
        None => match home {
            Some(h) => Some(join_unix(h, ".config"@)),
            None => None,
        },
    };
    match data_root {
        None => Err(PlatformError::Unavailable("XDG_DATA_HOME or HOME")),
        Some(d) => match config_root {
            None => Err(PlatformError::Unavailable("XDG_CONFIG_HOME or HOME")),
            Some(c) => Ok((join_unix(d, "OwnTerm"@), join_unix(c, "OwnTerm"@))),
        },
    }
}

pub open spec fn text_opt(o: Option<String>) -> Option<Seq<char>> {
    match o {
        Some(s) => Some(s@),
        None => None,
    }
}

pub open spec fn dirs_view(r: Result<AppDirectories, PlatformError>) -> Result<(Seq<char>, Seq<char>), PlatformError> {
    match r {
        Ok(d) => Ok((d.data_dir@, d.config_dir@)),
        Err(e) => Err(e),
    }
}

/// The application directories on Linux, from `XDG_DATA_HOME`, `XDG_CONFIG_HOME` and `HOME`.
pub fn linux_directories(data_home: Option<String>, config_home: Option<String>, home: Option<String>) -> (r: Result<
    AppDirectories,
    PlatformError,
>)
    ensures
        dirs_view(r) == linux_dirs(text_opt(data_home), text_opt(config_home), text_opt(home)),
{
    proof {
        reveal_strlit("OwnTerm");
    }
    let data_root = match data_home {
        Some(d) => d,
        None => match &home {
            Some(h) => join_unix_path(h.as_str(), ".local/share"),
            None => {
                return Err(PlatformError::Unavailable("XDG_DATA_HOME or HOME"));
            },
        },
    };
    let config_root = match config_home {
        Some(c) => c,
        None => match &home {
            Some(h) => join_unix_path(h.as_str(), ".config"),
            None => {
                return Err(PlatformError::Unavailable("XDG_CONFIG_HOME or HOME"));
            },
        },
    };
    Ok(
        AppDirectories {
            data_dir: join_unix_path(data_root.as_str(), APP_DIRECTORY),
            config_dir: join_unix_path(config_root.as_str(), APP_DIRECTORY),
        },
    )
}

/// The application directories on Windows: both inside `LOCALAPPDATA`.
pub fn windows_directories(local_app_data: Option<String>) -> (r: Result<AppDirectories, PlatformError>)
    ensures
        match local_app_data {
            Some(root) => r matches Ok(d) && d.data_dir@ == join_windows(root@, "OwnTerm"@)
                && d.config_dir@ == d.data_dir@,
            None => r == Err::<AppDirectories, PlatformError>(PlatformError::Unavailable("LOCALAPPDATA")),
        },
{
    match local_app_data {
        Some(root) => {
            let dir = join_windows_path(root.as_str(), APP_DIRECTORY);
            Ok(AppDirectories { data_dir: dir.clone(), config_dir: dir })
        },
        None => Err(PlatformError::Unavailable("LOCALAPPDATA")),
    }
}

/// The operating system family, which decides where the directories are.
#[derive(Clone, Copy, Debug, PartialEq, Eq, Structural)]
pub enum OsFamily {
    Windows,
    Linux,
    Other,
}

/// The directories this system defines, from the environment the adapter read.
#[derive(Clone, Debug)]
pub struct SystemDirectories {
    pub os: OsFamily,
    pub local_app_data: Option<String>,
    pub data_home: Option<String>,
    pub config_home: Option<String>,
    pub home: Option<String>,
}

impl AppDirectoriesProvider for SystemDirectories {
    fn app_directories(&self) -> (r: Result<AppDirectories, PlatformError>)
        ensures
            self.os == OsFamily::Windows ==> match self.local_app_data {
                Some(root) => r matches Ok(d) && d.data_dir@ == join_windows(root@, "OwnTerm"@)
                    && d.config_dir@ == d.data_dir@,
                None => r == Err::<AppDirectories, PlatformError>(
                    PlatformError::Unavailable("LOCALAPPDATA"),
                ),
            },
            self.os == OsFamily::Linux ==> dirs_view(r) == linux_dirs(
                text_opt(self.data_home),
                text_opt(self.config_home),
                text_opt(self.home),
            ),
            self.os == OsFamily::Other ==> r == Err::<AppDirectories, PlatformError>(
                PlatformError::UnsupportedPlatform,
            ),
    {
        match self.os {
            OsFamily::Windows => windows_directories(self.local_app_data.clone()),
            OsFamily::Linux => linux_directories(
                self.data_home.clone(),
                self.config_home.clone(),
                self.home.clone(),
            ),
            OsFamily::Other => Err(PlatformError::UnsupportedPlatform),
        }
    }
}

/// Calls `std::path::is_separator('\\')`: whether a backslash separates path components,
/// which holds on Windows alone. The contract states nothing, since the answer depends on
/// the platform.
#[verifier::external_body]
pub(crate) fn backslash_separates_paths() -> bool {
    std::path::is_separator('\\')
}

#[verifier::external_type_specification]
#[verifier::external_body]
pub struct ExKeyringEntry(keyring::Entry);

/// Calls `keyring::Entry::new`; a failure is reported as a platform error.
#[verifier::external_body]
fn keyring_entry(service: &str, user: &str) -> (r: Result<keyring::Entry, VaultError>)
    ensures
        r matches Err(e) ==> e is Platform,
{
    match keyring::Entry::new(service, user) {
        Ok(entry) => Ok(entry),
        Err(error) => Err(VaultError::Platform(error.to_string())),
    }
}

/// Calls `keyring::Entry::set_password`; a failure is reported as a platform error.
#[verifier::external_body]
fn keyring_set_password(entry: &keyring::Entry, secret: &str) -> (r: Result<(), VaultError>)
    ensures
        r matches Err(e) ==> e is Platform,
{
    match entry.set_password(secret) {
        Ok(()) => Ok(()),
        Err(error) => Err(VaultError::Platform(error.to_string())),
    }
}

/// Calls `keyring::Entry::get_password`; `NoEntry` is reported as not found, any other
/// failure as a platform error. The secret read depends on the system vault.
#[verifier::external_body]
fn keyring_get_password(entry: &keyring::Entry) -> (r: Result<String, VaultError>)
    ensures
        r matches Err(e) ==> e is NotFound || e is Platform,
{
    match entry.get_password() {
        Ok(secret) => Ok(secret),
        Err(keyring::Error::NoEntry) => Err(VaultError::NotFound),
        Err(error) => Err(VaultError::Platform(error.to_string())),
    }
}

/// Calls `keyring::Entry::delete_credential`; `NoEntry` is reported as not found, any
/// other failure as a platform error.
#[verifier::external_body]
fn keyring_delete_credential(entry: &keyring::Entry) -> (r: Result<(), VaultError>)
    ensures
        r matches Err(e) ==> e is NotFound || e is Platform,
{
    match entry.delete_credential() {
        Ok(()) => Ok(()),
        Err(keyring::Error::NoEntry) => Err(VaultError::NotFound),
        Err(error) => Err(VaultError::Platform(error.to_string())),
    }
}

/// Stores a secret in the native vault, which exists only where `native` holds.
pub fn native_store(native: bool, reference: &CredentialRef, secret: &SecretValue) -> (r: Result<(), VaultError>)
    ensures
        !native ==> r == Err::<(), VaultError>(VaultError::UnsupportedPlatform),
        native ==> (r matches Err(e) ==> e is Platform),
{
    if !native {
        return Err(VaultError::UnsupportedPlatform);
    }
    let entry = match keyring_entry(VAULT_SERVICE, reference.as_str()) {
        Ok(e) => e,
        Err(e) => {
            return Err(e);
        },
    };
    keyring_set_password(&entry, secret.expose())
}

/// Reads a secret from the native vault, which exists only where `native` holds.
pub fn native_read(native: bool, reference: &CredentialRef) -> (r: Result<SecretValue, VaultError>)
    ensures
        !native ==> r == Err::<SecretValue, VaultError>(VaultError::UnsupportedPlatform),
        native ==> (r matches Err(e) ==> e is NotFound || e is Platform),
{
    if !native {
        return Err(VaultError::UnsupportedPlatform);
    }
    let entry = match keyring_entry(VAULT_SERVICE, reference.as_str()) {
        Ok(e) => e,
        Err(e) => {
            return Err(e);
        },
    };
    match keyring_get_password(&entry) {
        Ok(secret) => Ok(SecretValue::new(secret.as_str())),
        Err(e) => Err(e),
    }
}

/// Removes a secret from the native vault, which exists only where `native` holds.
pub fn native_remove(native: bool, reference: &CredentialRef) -> (r: Result<(), VaultError>)
    ensures
        !native ==> r == Err::<(), VaultError>(VaultError::UnsupportedPlatform),
        native ==> (r matches Err(e) ==> e is NotFound || e is Platform),
{
    if !native {
        return Err(VaultError::UnsupportedPlatform);
    }
    let entry = match keyring_entry(VAULT_SERVICE, reference.as_str()) {
        Ok(e) => e,
        Err(e) => {
            return Err(e);
        },
    };
    keyring_delete_credential(&entry)
}

/// The operating system's credential vault (Windows Credential Manager); elsewhere every
/// call reports an unsupported platform.
#[derive(Clone, Copy, Debug, Default)]
pub struct SystemVault;

impl SecretVault for SystemVault {
    /// A failure to store is the platform's, or the platform has no vault.
    open spec fn stores(&self, reference: Seq<char>, secret: Seq<char>, r: Result<(), VaultError>) -> bool {
        r matches Err(e) ==> e is Platform || e is UnsupportedPlatform
    }

    /// A failure to read is a missing secret, the platform's, or the platform has no vault.
    open spec fn reads(&self, reference: Seq<char>, r: Result<SecretValue, VaultError>) -> bool {
        r matches Err(e) ==> e is NotFound || e is Platform || e is UnsupportedPlatform
    }

    /// A failure to remove is a missing secret, the platform's, or the platform has no vault.
    open spec fn removes(&self, reference: Seq<char>, r: Result<(), VaultError>) -> bool {
        r matches Err(e) ==> e is NotFound || e is Platform || e is UnsupportedPlatform
    }

    fn store(&self, reference: &SecretRef, secret: &SecretValue) -> (r: Result<(), VaultError>)
        ensures
            r matches Err(e) ==> e is Platform || e is UnsupportedPlatform,
    {
        native_store(backslash_separates_paths(), reference, secret)
    }

    fn read(&self, reference: &SecretRef) -> (r: Result<SecretValue, VaultError>)
        ensures
            r matches Err(e) ==> e is NotFound || e is Platform || e is UnsupportedPlatform,
    {
        native_read(backslash_separates_paths(), reference)
    }

    fn remove(&self, reference: &SecretRef) -> (r: Result<(), VaultError>)
        ensures
            r matches Err(e) ==> e is NotFound || e is Platform || e is UnsupportedPlatform,
    {
        native_remove(backslash_separates_paths(), reference)
    }
}

} // verus!
