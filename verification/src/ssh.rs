//! Resolving saved Hosts and quick-connect destinations into SSH connection targets.
use vstd::prelude::*;
use crate::domain::{AuthMethod, CredentialRef, Host};
use crate::ids::HostId;
use crate::repositories::{HostRepository, RepositoryError};
use crate::text::{
    debug_text, spec_debug_text,
    any_whitespace, chars_of, count_char, count_occurrences, find_char, find_pair, has_ws, idx_of,
    idx_pair, lemma_idx_of, lemma_idx_pair, parse_u16, parse_unsigned, slice_chars, string_of,
    trim, trim_chars,
};
use crate::text::{
    all_digits, dec_text, has_char, is_digit, is_ws, lemma_dec_text_reads_back, trim_end, trim_start,
};
use crate::vault::{SecretValue, SecretVault, VaultError};

verus! {

/// Credentials resolved for a connection; secrets may still be missing and be asked for.
#[derive(Clone, PartialEq, Eq)]
pub enum ResolvedSshAuth {
    Password { secret: Option<SecretValue> },
    PrivateKey { path: String, passphrase: Option<SecretValue>, needs_passphrase: bool },
}

/// How an optional secret shows in debug text.
pub open spec fn redacted_option(present: bool) -> Seq<char> {
    if present {
        "Some(\"<redacted>\")"@
    } else {
        "None"@
    }
}

/// The debug text of resolved credentials: the key path shows, secrets never do.
pub open spec fn redacted_auth_text(a: ResolvedSshAuth) -> Seq<char> {
    match a {
        ResolvedSshAuth::Password { secret } => "Password { secret: "@ + redacted_option(secret is Some)
            + " }"@,
        ResolvedSshAuth::PrivateKey { path, passphrase, needs_passphrase } => "PrivateKey { path: "@
            + spec_debug_text(path@) + ", passphrase: "@ + redacted_option(passphrase is Some)
            + ", needs_passphrase: "@ + (if needs_passphrase {
            "true"@
        } else {
            "false"@
        }) + " }"@,
    }
}

fn redacted_option_text(present: bool) -> (s: &'static str)
    ensures
        s@ == redacted_option(present),
{
    if present {
        "Some(\"<redacted>\")"
    } else {
        "None"
    }
}

impl ResolvedSshAuth {
    /// Debug text with every secret redacted.
    pub fn redacted_debug(&self) -> (s: String)
        ensures
            s@ == redacted_auth_text(*self),
    {
        match self {
            ResolvedSshAuth::Password { secret } => {
                let mut s = String::from_str("Password { secret: ");
                s.append(redacted_option_text(secret.is_some()));
                s.append(" }");
                s
            },
            ResolvedSshAuth::PrivateKey { path, passphrase, needs_passphrase } => {
                let mut s = String::from_str("PrivateKey { path: ");
                let quoted = debug_text(path.as_str());
                s.append(quoted.as_str());
                s.append(", passphrase: ");
                s.append(redacted_option_text(passphrase.is_some()));
                s.append(", needs_passphrase: ");
                s.append(if *needs_passphrase { "true" } else { "false" });
                s.append(" }");
                s
            },
        }
    }
}

/// Everything needed to open an SSH session.
#[derive(Clone, PartialEq, Eq)]
pub struct ResolvedSshHost {
    pub host_id: Option<HostId>,
    pub title: String,
    pub address: String,
    pub port: u16,
    pub username: String,
    pub auth: ResolvedSshAuth,
}

#[derive(Clone, Debug, PartialEq, Eq)]
pub enum SshResolveError {
    HostNotFound,
    UsernameRequired,
    UnsupportedAgent,
    InvalidDestination,
    Repository(RepositoryError),
    Vault(VaultError),
}

impl SshResolveError {
    /// The user-facing message, which never carries a secret.
    pub fn message(&self) -> (s: String)
        ensures
            s@ == match self {
                SshResolveError::HostNotFound => "SSH Host was not found"@,
                SshResolveError::UsernameRequired => "SSH username is required"@,
                SshResolveError::UnsupportedAgent => "SSH agent is not supported in the MVP"@,
                SshResolveError::InvalidDestination => "SSH destination is invalid"@,
                SshResolveError::Repository(_) => "SSH Host configuration is unavailable"@,
                SshResolveError::Vault(_) => "SSH credential is unavailable"@,
            },
    {
        String::from_str(
            match self {
                SshResolveError::HostNotFound => "SSH Host was not found",
                SshResolveError::UsernameRequired => "SSH username is required",
                SshResolveError::UnsupportedAgent => "SSH agent is not supported in the MVP",
                SshResolveError::InvalidDestination => "SSH destination is invalid",
                SshResolveError::Repository(_) => "SSH Host configuration is unavailable",
                SshResolveError::Vault(_) => "SSH credential is unavailable",
            },
        )
    }
}

/// The vault reference whose secret a saved Host's connection uses, if any.
pub open spec fn secret_ref_of(auth: AuthMethod) -> Option<CredentialRef> {
    match auth {
        AuthMethod::Password { credential_ref } => Some(credential_ref),
        AuthMethod::PrivateKey { passphrase_ref, .. } => passphrase_ref,
        _ => None,
    }
}

/// Whether a saved Host has a non-blank username.
pub open spec fn has_username(host: Host) -> bool {
    host.username matches Some(u) && trim(u@).len() > 0
}

/// The connection target of a saved Host, given the secret read for its reference.
pub open spec fn saved_host_result(host: Host, secret: Option<SecretValue>) -> Result<ResolvedSshHost, SshResolveError> {
    if !has_username(host) {
        Err(SshResolveError::UsernameRequired)
    } else if host.auth is Agent {
        Err(SshResolveError::UnsupportedAgent)
    } else {
        Ok(
            ResolvedSshHost {
                host_id: Some(host.id),
                title: host.name,
                address: host.address,
                port: host.port,
                username: host.username->Some_0,
                auth: match host.auth {
                    AuthMethod::PrivateKey { path, passphrase_ref } => ResolvedSshAuth::PrivateKey {
                        path,
                        passphrase: secret,
                        needs_passphrase: passphrase_ref is Some,
                    },
                    AuthMethod::Password { .. } => ResolvedSshAuth::Password { secret },
                    _ => ResolvedSshAuth::Password { secret: None },
                },
            },
        )
    }
}

/// A saved Host resolves exactly when it has a username that is not blank and does not
/// use the agent; its target is then the Host itself: the same identifier, name, address,
/// port and username.
pub proof fn lemma_saved_target_is_the_host(host: Host, secret: Option<SecretValue>)
    ensures
        saved_host_result(host, secret) is Ok <==> (host.username matches Some(u) && trim(u@).len() > 0)
            && !(host.auth is Agent),
        saved_host_result(host, secret) matches Ok(t) ==> t.host_id == Some(host.id) && t.title == host.name
            && t.address == host.address && t.port == host.port && host.username == Some(t.username)
            && match host.auth {
            AuthMethod::Password { .. } => t.auth == (ResolvedSshAuth::Password { secret }),
            AuthMethod::PrivateKey { path, passphrase_ref } => t.auth == (ResolvedSshAuth::PrivateKey {
                path,
                passphrase: secret,
                needs_passphrase: passphrase_ref is Some,
            }),
            _ => t.auth == (ResolvedSshAuth::Password { secret: None }),
        },
        !(host.username matches Some(u) && trim(u@).len() > 0) ==> saved_host_result(host, secret) == Err::<
            ResolvedSshHost,
            SshResolveError,
        >(
            SshResolveError::UsernameRequired,
        ),
        (host.username matches Some(u) && trim(u@).len() > 0) && host.auth is Agent ==> saved_host_result(host, secret) == Err::<
            ResolvedSshHost,
            SshResolveError,
        >(SshResolveError::UnsupportedAgent),
{
}

/// Builds the target of a saved Host from the secret read for it (`None` when absent).
pub fn resolve_host_record(host: Host, secret: Option<SecretValue>) -> (r: Result<ResolvedSshHost, SshResolveError>)
    ensures
        r == saved_host_result(host, secret),
{
    let username = match &host.username {
        Some(u) => {
            let c = chars_of(u.as_str());
            let t = trim_chars(&c);
            if t.len() == 0 {
                return Err(SshResolveError::UsernameRequired);
            }
            u.clone()
        },
        None => {
            return Err(SshResolveError::UsernameRequired);
        },
    };
    let auth = match host.auth {
        AuthMethod::Password { .. } => ResolvedSshAuth::Password { secret },
        AuthMethod::PrivateKey { path, passphrase_ref } => ResolvedSshAuth::PrivateKey {
            path,
            passphrase: secret,
            needs_passphrase: passphrase_ref.is_some(),
        },
        AuthMethod::NoAuth => ResolvedSshAuth::Password { secret: None },
        AuthMethod::Agent => {
            return Err(SshResolveError::UnsupportedAgent);
        },
    };
    Ok(
        ResolvedSshHost {
            host_id: Some(host.id),
            title: host.name,
            address: host.address,
            port: host.port,
            username,
            auth,
        },
    )
}

/// What a vault read means for a connection: a missing secret is asked for later.
pub open spec fn secret_from_read(read: Result<SecretValue, VaultError>) -> Result<Option<SecretValue>, SshResolveError> {
    match read {
        Ok(s) => Ok(Some(s)),
        Err(VaultError::NotFound) => Ok(None),
        Err(e) => Err(SshResolveError::Vault(e)),
    }
}

pub fn optional_secret_of(read: Result<SecretValue, VaultError>) -> (r: Result<Option<SecretValue>, SshResolveError>)
    ensures
        r == secret_from_read(read),
{
    match read {
        Ok(s) => Ok(Some(s)),
        Err(VaultError::NotFound) => Ok(None),
        Err(e) => Err(SshResolveError::Vault(e)),
    }
}

/// Reads a secret from the vault; a missing one is `None`, any other failure an error.
fn optional_secret<V: SecretVault>(vault: &V, reference: &CredentialRef) -> (r: Result<Option<SecretValue>, SshResolveError>)
    ensures
        r matches Err(e) ==> (e matches SshResolveError::Vault(v) && v != VaultError::NotFound),
        exists|read: Result<SecretValue, VaultError>| vault.reads(reference@, read) && #[trigger] secret_from_read(read) == r,
{
    let read = vault.read(reference);
    let ghost answer = read;
    let res = optional_secret_of(read);
    assert(secret_from_read(answer) == res);
    res
}

/// What looking a saved Host up gives: the Host, `HostNotFound` when it is gone, or the
/// storage failure.
pub open spec fn lookup_outcome(found: Result<Option<Host>, RepositoryError>) -> Result<Host, SshResolveError> {
    match found {
        Ok(Some(h)) => Ok(h),
        Ok(None) => Err(SshResolveError::HostNotFound),
        Err(e) => Err(SshResolveError::Repository(e)),
    }
}

/// The vault is read exactly for a found Host with a username whose authentication has a
/// secret reference.
pub open spec fn vault_read_asked(
    found: Result<Option<Host>, RepositoryError>,
    read: Option<Result<SecretValue, VaultError>>,
) -> bool {
    read is Some <==> (found matches Ok(Some(h)) && has_username(h) && secret_ref_of(h.auth) is Some)
}

/// The store's answer is to looking up `host_id`, and the vault's, if asked, to reading
/// the found Host's own secret reference.
pub open spec fn resolution_answers<R: HostRepository, V: SecretVault>(
    hosts: &R,
    vault: &V,
    host_id: HostId,
    found: Result<Option<Host>, RepositoryError>,
    read: Option<Result<SecretValue, VaultError>>,
) -> bool {
    &&& hosts.finds_host(host_id, found)
    &&& (read matches Some(v) ==> (found matches Ok(Some(h)) && secret_ref_of(h.auth) matches Some(c)
        && vault.reads(c@, v)))
}

/// The Host a lookup found, or why there is none.
pub fn saved_host_lookup(found: Result<Option<Host>, RepositoryError>) -> (r: Result<Host, SshResolveError>)
    ensures
        r == lookup_outcome(found),
{
    match found {
        Ok(Some(h)) => Ok(h),
        Ok(None) => Err(SshResolveError::HostNotFound),
        Err(e) => Err(SshResolveError::Repository(e)),
    }
}

/// The target of a saved Host from the store's answer for it and, for a Host with a
/// username, the vault's answer for its secret reference.
pub open spec fn saved_host_outcome(
    found: Result<Option<Host>, RepositoryError>,
    read: Option<Result<SecretValue, VaultError>>,
) -> Result<ResolvedSshHost, SshResolveError> {
    match lookup_outcome(found) {
        Err(e) => Err(e),
        Ok(h) => if !has_username(h) {
            Err(SshResolveError::UsernameRequired)
        } else {
            match read {
                Some(v) => match secret_from_read(v) {
                    Err(e) => Err(e),
                    Ok(s) => saved_host_result(h, s),
                },
                None => saved_host_result(h, None),
            }
        },
    }
}

/// Resolves a saved Host: loads it, checks the username, and reads its secret from the vault.
pub fn resolve_saved_host<R: HostRepository, V: SecretVault>(hosts: &R, vault: &V, host_id: HostId) -> (r:
    Result<ResolvedSshHost, SshResolveError>)
    ensures
        r matches Err(SshResolveError::Vault(e)) ==> e != VaultError::NotFound,
        exists|found: Result<Option<Host>, RepositoryError>, read: Option<Result<SecretValue, VaultError>>|
            #[trigger] saved_host_outcome(found, read) == r && vault_read_asked(found, read)
                && resolution_answers(hosts, vault, host_id, found, read),
{
    let found = hosts.get_host(host_id);
    let ghost answer = found;
    let host = match saved_host_lookup(found) {
        Ok(h) => h,
        Err(e) => {
            let res: Result<ResolvedSshHost, SshResolveError> = Err(e);
            assert(saved_host_outcome(answer, None) == res && vault_read_asked(answer, None) && resolution_answers(hosts, vault, host_id, answer, None));
            return res;
        },
    };
    let named = match &host.username {
        Some(u) => {
            let c = chars_of(u.as_str());
            trim_chars(&c).len() > 0
        },
        None => false,
    };
    if !named {
        let res: Result<ResolvedSshHost, SshResolveError> = Err(SshResolveError::UsernameRequired);
        assert(saved_host_outcome(answer, None) == res && vault_read_asked(answer, None) && resolution_answers(hosts, vault, host_id, answer, None));
        return res;
    }
    let reference: Option<&CredentialRef> = match &host.auth {
        AuthMethod::Password { credential_ref } => Some(credential_ref),
        AuthMethod::PrivateKey { passphrase_ref: Some(reference), .. } => Some(reference),
        _ => None,
    };
    let ghost mut chosen: Option<Result<SecretValue, VaultError>> = None;
    let secret = match reference {
        Some(reference) => {
            let got = optional_secret(vault, reference);
            let ghost outcome = got;
            proof {
                chosen = Some(
                    choose|read: Result<SecretValue, VaultError>|
                        vault.reads(reference@, read) && #[trigger] secret_from_read(read) == outcome,
                );
            }
            match got {
                Ok(s) => Some(s),
                Err(e) => {
                    let res: Result<ResolvedSshHost, SshResolveError> = Err(e);
                    assert(saved_host_outcome(answer, chosen) == res && vault_read_asked(answer, chosen)
                        && resolution_answers(hosts, vault, host_id, answer, chosen));
                    return res;
                },
            }
        },
        None => None,
    };
    let value = match secret {
        Some(s) => s,
        None => None,
    };
    let res = resolve_host_record(host, value);
    assert(saved_host_outcome(answer, chosen) == res && vault_read_asked(answer, chosen) && resolution_answers(
        hosts,
        vault,
        host_id,
        answer,
        chosen,
    ));
    res
}

/// `user@destination` split at the first `@` of the trimmed text; both parts non-empty.
pub open spec fn quick_connect_parts(value: Seq<char>) -> Option<(Seq<char>, Seq<char>)> {
    let t = trim(value);
    let k = idx_of(t, '@');
    if k < t.len() && k > 0 && k + 1 < t.len() {
        Some((t.take(k), t.skip(k + 1)))
    } else {
        None
    }
}

/// An address and a port text: the address non-empty without white space, the port in 1..=65535.
pub open spec fn spec_parse_port(address: Seq<char>, port: Seq<char>) -> Option<(Seq<char>, u16)> {
    if address.len() == 0 || has_ws(address) {
        None
    } else {
        match parse_unsigned(port, 0xFFFF) {
            Some(n) => if n != 0 {
                Some((address, n as u16))
            } else {
                None
            },
            None => None,
        }
    }
}

/// `[ipv6]:port`, `host:port` (one colon), or a bare host on port 22.
pub open spec fn spec_parse_address(v: Seq<char>) -> Option<(Seq<char>, u16)> {
    if v.len() > 0 && v[0] == '[' {
        let rest = v.drop_first();
        let k = idx_pair(rest, ']', ':');
        if k < rest.len() {
            spec_parse_port(rest.take(k), rest.skip(k + 2))
        } else {
            None
        }
    } else if count_char(v, ':') == 1 {
        let k = idx_of(v, ':');
        spec_parse_port(v.take(k), v.skip(k + 1))
    } else if v.len() == 0 || has_ws(v) {
        None
    } else {
        Some((v, 22u16))
    }
}

fn parse_port(address: &[char], port: &[char]) -> (r: Result<(String, u16), SshResolveError>)
    ensures
        match spec_parse_port(address@, port@) {
            Some((a, p)) => r matches Ok((s, q)) && s@ == a && q == p,
            None => r == Err::<(String, u16), SshResolveError>(SshResolveError::InvalidDestination),
        },
{
    if address.len() == 0 || any_whitespace(address) {
        return Err(SshResolveError::InvalidDestination);
    }
    match parse_u16(port) {
        Some(p) => if p != 0 {
            Ok((string_of(address), p))
        } else {
            Err(SshResolveError::InvalidDestination)
        },
        None => Err(SshResolveError::InvalidDestination),
    }
}

fn parse_address(v: &[char]) -> (r: Result<(String, u16), SshResolveError>)
    ensures
        match spec_parse_address(v@) {
            Some((a, p)) => r matches Ok((s, q)) && s@ == a && q == p,
            None => r == Err::<(String, u16), SshResolveError>(SshResolveError::InvalidDestination),
        },
{
    if v.len() > 0 && v[0] == '[' {
        let rest = slice_chars(v, 1, v.len());
        assert(rest@ =~= v@.drop_first());
        let k = find_pair(&rest, ']', ':');
        proof {
            lemma_idx_pair(rest@, ']', ':');
        }
        if k < rest.len() {
            let address = slice_chars(&rest, 0, k);
            let port = slice_chars(&rest, k + 2, rest.len());
            assert(address@ =~= rest@.take(k as int));
            assert(port@ =~= rest@.skip(k + 2));
            return parse_port(&address, &port);
        }
        return Err(SshResolveError::InvalidDestination);
    }
    if count_occurrences(v, ':') == 1 {
        let k = find_char(v, ':');
        proof {
            lemma_idx_of(v@, ':');
            if k == v@.len() {
                lemma_no_char_count(v@, ':');
            }
        }
        let address = slice_chars(v, 0, k);
        let port = slice_chars(v, k + 1, v.len());
        assert(address@ =~= v@.take(k as int));
        assert(port@ =~= v@.skip(k + 1));
        return parse_port(&address, &port);
    }
    if v.len() == 0 || any_whitespace(v) {
        return Err(SshResolveError::InvalidDestination);
    }
    Ok((string_of(v), 22))
}

proof fn lemma_no_char_count(s: Seq<char>, c: char)
    requires
        forall|j: int| 0 <= j < s.len() ==> s[j] != c,
    ensures
        count_char(s, c) == 0,
    decreases s.len(),
{
    if s.len() > 0 {
        lemma_no_char_count(s.drop_last(), c);
    }
}

/// The target a quick-connect text names: password authentication, secret asked for later.
pub open spec fn quick_connect_result(value: Seq<char>, r: ResolvedSshHost) -> bool {
    &&& quick_connect_parts(value) matches Some((user, dest))
    &&& spec_parse_address(dest) matches Some((address, port))
    &&& r.host_id is None
    &&& r.title@ == trim(value)
    &&& r.address@ == address
    &&& r.port == port
    &&& r.username@ == user
    &&& r.auth == ResolvedSshAuth::Password { secret: None }
}

/// A text that starts and ends with characters other than white space trims to itself.
proof fn lemma_trim_keeps(s: Seq<char>)
    requires
        s.len() > 0,
        !is_ws(s[0]),
        !is_ws(s.last()),
    ensures
        trim(s) == s,
{
}

/// The first `a b` pair is at or before any position where that pair stands.
proof fn lemma_idx_pair_at_most(s: Seq<char>, a: char, b: char, k: int)
    requires
        0 <= k,
        k + 1 < s.len(),
        s[k] == a,
        s[k + 1] == b,
    ensures
        idx_pair(s, a, b) <= k,
    decreases k,
{
    if k > 0 && !(s[0] == a && s[1] == b) {
        lemma_idx_pair_at_most(s.drop_first(), a, b, k - 1);
    }
}

/// The decimal text of a port is digits only, reads back as the port, and ends in a digit.
proof fn lemma_port_text(port: u16)
    requires
        port != 0,
    ensures
        parse_unsigned(dec_text(port as nat), 0xFFFF) == Some(port as int),
        dec_text(port as nat).len() > 0,
        !is_ws(dec_text(port as nat).last()),
        !has_char(dec_text(port as nat), ':'),
        !has_char(dec_text(port as nat), '@'),
{
    let d = dec_text(port as nat);
    lemma_dec_text_reads_back(port as nat);
    assert(is_digit(d[d.len() - 1]));
    assert forall|i: int| 0 <= i < d.len() implies d[i] != ':' && d[i] != '@' by {
        assert(is_digit(d[i]));
    }
}

/// The user part of `user@rest`: the text up to the first `@`, and what follows it.
proof fn lemma_user_split(user: Seq<char>, dest: Seq<char>)
    requires
        user.len() > 0,
        !has_ws(user),
        !has_char(user, '@'),
        dest.len() > 0,
        !is_ws(dest.last()),
    ensures
        quick_connect_parts(user + seq!['@'] + dest) == Some((user, dest)),
{
    let v = user + seq!['@'] + dest;
    assert(!is_ws(v[0])) by {
        assert(v[0] == user[0]);
    }
    assert(v.last() == dest.last());
    lemma_trim_keeps(v);
    lemma_idx_of(v, '@');
    let k = idx_of(v, '@');
    assert(v[user.len() as int] == '@');
    if k < user.len() {
        assert(v[k] == user[k]);
    }
    assert(k == user.len());
    assert(v.take(k) =~= user);
    assert(v.skip(k + 1) =~= dest);
}

/// The quick-connect text `user@[address]:port`, the port written in decimal.
pub open spec fn bracketed_text(user: Seq<char>, address: Seq<char>, port: u16) -> Seq<char> {
    user + seq!['@', '['] + address + seq![']', ':'] + dec_text(port as nat)
}

/// The quick-connect text `user@host:port`, the port written in decimal.
pub open spec fn host_port_text(user: Seq<char>, host: Seq<char>, port: u16) -> Seq<char> {
    user + seq!['@'] + host + seq![':'] + dec_text(port as nat)
}

/// `user@[address]:port` names `address` on the decimal `port`: for any user without white
/// space or `@`, any address without white space or `]`, and any port in 1..=65535, the
/// quick-connect target is that user, address and port.
pub proof fn lemma_quick_connect_bracketed(user: Seq<char>, address: Seq<char>, port: u16)
    requires
        user.len() > 0,
        !has_ws(user),
        !has_char(user, '@'),
        address.len() > 0,
        !has_ws(address),
        !has_char(address, ']'),
        port != 0,
    ensures
        quick_connect_parts(bracketed_text(user, address, port)) is Some,
        spec_parse_address(seq!['['] + address + seq![']', ':'] + dec_text(port as nat)) == Some((address, port)),
        forall|t: ResolvedSshHost|
            #[trigger] quick_connect_result(bracketed_text(user, address, port), t)
                ==> t.username@ == user && t.address@ == address && t.port == port,
{
    let digits = dec_text(port as nat);
    lemma_port_text(port);
    let dest = seq!['['] + address + seq![']', ':'] + digits;
    assert(dest.last() == digits.last());
    lemma_user_split(user, dest);
    assert(user + seq!['@', '['] + address + seq![']', ':'] + digits =~= user + seq!['@'] + dest);
    let rest = dest.drop_first();
    assert(rest =~= address + seq![']', ':'] + digits);
    let k = address.len() as int;
    assert(rest[k] == ']' && rest[k + 1] == ':');
    lemma_idx_pair_at_most(rest, ']', ':', k);
    lemma_idx_pair(rest, ']', ':');
    let j = idx_pair(rest, ']', ':');
    if j < k {
        assert(rest[j] == address[j]);
    }
    assert(j == k);
    assert(rest.take(k) =~= address);
    assert(rest.skip(k + 2) =~= digits);
}

/// The quick-connect text `user@host`.
pub open spec fn bare_text(user: Seq<char>, host: Seq<char>) -> Seq<char> {
    user + seq!['@'] + host
}

/// `user@host` names `host` on port 22: for any user without white space or `@` and any
/// host without white space or `:` that does not start with `[`.
pub proof fn lemma_quick_connect_default_port(user: Seq<char>, host: Seq<char>)
    requires
        user.len() > 0,
        !has_ws(user),
        !has_char(user, '@'),
        host.len() > 0,
        host[0] != '[',
        !has_ws(host),
        !has_char(host, ':'),
    ensures
        quick_connect_parts(bare_text(user, host)) is Some,
        spec_parse_address(host) == Some((host, 22u16)),
        forall|t: ResolvedSshHost|
            #[trigger] quick_connect_result(bare_text(user, host), t) ==> t.username@ == user && t.address@
                == host && t.port == 22,
{
    assert(!is_ws(host.last()));
    lemma_user_split(user, host);
    lemma_count_absent(host, ':');
}

/// `user@host:port` names `host` on the decimal `port`: for any user without white space or
/// `@`, any host without white space or `:` that does not start with `[`, and any port in
/// 1..=65535, the quick-connect target is that user, host and port.
pub proof fn lemma_quick_connect_with_port(user: Seq<char>, host: Seq<char>, port: u16)
    requires
        user.len() > 0,
        !has_ws(user),
        !has_char(user, '@'),
        host.len() > 0,
        host[0] != '[',
        !has_ws(host),
        !has_char(host, ':'),
        port != 0,
    ensures
        quick_connect_parts(host_port_text(user, host, port)) is Some,
        spec_parse_address(host + seq![':'] + dec_text(port as nat)) == Some((host, port)),
        forall|t: ResolvedSshHost|
            #[trigger] quick_connect_result(host_port_text(user, host, port), t)
                ==> t.username@ == user && t.address@ == host && t.port == port,
{
    let digits = dec_text(port as nat);
    lemma_port_text(port);
    let dest = host + seq![':'] + digits;
    assert(dest.last() == digits.last());
    lemma_user_split(user, dest);
    assert(user + seq!['@'] + host + seq![':'] + digits =~= user + seq!['@'] + dest);
    lemma_count_absent(host, ':');
    lemma_count_absent(digits, ':');
    lemma_count_concat(host + seq![':'], digits, ':');
    lemma_count_concat(host, seq![':'], ':');
    assert(count_char(seq![':'], ':') == 1) by {
        let one = seq![':'];
        assert(one.drop_last() =~= Seq::<char>::empty());
        assert(count_char(one.drop_last(), ':') == 0);
        assert(one.last() == ':');
    }
    lemma_idx_of(dest, ':');
    let k = host.len() as int;
    assert(dest[k] == ':');
    let j = idx_of(dest, ':');
    if j < k {
        assert(dest[j] == host[j]);
    }
    assert(j == k);
    assert(dest.take(k) =~= host);
    assert(dest.skip(k + 1) =~= digits);
    assert(dest[0] == host[0]);
}

proof fn lemma_count_absent(s: Seq<char>, c: char)
    requires
        !has_char(s, c),
    ensures
        count_char(s, c) == 0,
    decreases s.len(),
{
    if s.len() > 0 {
        assert(s.last() == s[s.len() - 1]);
        assert forall|i: int| 0 <= i < s.drop_last().len() implies s.drop_last()[i] != c by {
            assert(s.drop_last()[i] == s[i]);
        }
        lemma_count_absent(s.drop_last(), c);
    }
}

proof fn lemma_count_concat(a: Seq<char>, b: Seq<char>, c: char)
    ensures
        count_char(a + b, c) == count_char(a, c) + count_char(b, c),
    decreases b.len(),
{
    if b.len() == 0 {
        assert(a + b =~= a);
    } else {
        assert((a + b).drop_last() =~= a + b.drop_last());
        assert((a + b).last() == b.last());
        lemma_count_concat(a, b.drop_last(), c);
    }
}

/// Parses `user@host`, `user@host:port` or `user@[ipv6]:port`.
pub fn resolve_quick_connect(value: &str) -> (r: Result<ResolvedSshHost, SshResolveError>)
    ensures
        match quick_connect_parts(value@) {
            Some((_, dest)) => match spec_parse_address(dest) {
                Some(_) => r matches Ok(t) && quick_connect_result(value@, t),
                None => r == Err::<ResolvedSshHost, SshResolveError>(
                    SshResolveError::InvalidDestination,
                ),
            },
            None => r == Err::<ResolvedSshHost, SshResolveError>(SshResolveError::InvalidDestination),
        },
{
    let chars = chars_of(value);
    let t = trim_chars(&chars);
    let k = find_char(&t, '@');
    proof {
        lemma_idx_of(t@, '@');
    }
    if !(k < t.len() && k > 0 && k + 1 < t.len()) {
        return Err(SshResolveError::InvalidDestination);
    }
    let user = slice_chars(&t, 0, k);
    let dest = slice_chars(&t, k + 1, t.len());
    assert(user@ =~= t@.take(k as int));
    assert(dest@ =~= t@.skip(k + 1));
    let (address, port) = match parse_address(&dest) {
        Ok(p) => p,
        Err(e) => {
            return Err(e);
        },
    };
    Ok(
        ResolvedSshHost {
            host_id: None,
            title: string_of(&t),
            address,
            port,
            username: string_of(&user),
            auth: ResolvedSshAuth::Password { secret: None },
        },
    )
}

} // verus!
