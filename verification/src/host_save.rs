//! Saving a Host from the editor: which authentication it ends up with, which secret goes
//! to the vault under which fresh reference, and the order of vault and storage writes.
use vstd::prelude::*;
use crate::desktop::{host_dto_of, repository_error, repository_error_message, HostDto};
use crate::domain::{
    auth_is_valid, credential_ref_error, domain_error_text, host_draft_error, host_from_draft,
    opt_view, optional_view, tags_normalized, AuthMethod, CredentialRef, DomainError, Host, HostDraft,
    Timestamp,
};
use crate::ids::{lemma_uuid_text_chars, random_uuid_text, spec_uuid_parse, uuid_text, GroupId, HostId};
use crate::repositories::{CredentialCleanupRepository, HostRepository, RepositoryError};
use crate::storage::{auth_shape, ref_text, AuthShape};
use crate::text::{is_ctrl, is_ws, str_eq, trim, trim_end, trim_start, trim_string};
use crate::vault::{cleanup_asked, SecretService, SecretValue, SecretVault, VaultError};

verus! {

/// Which secret a new vault reference is made for.
#[derive(Clone, Copy, Debug, PartialEq, Eq, Structural)]
pub enum SecretKind {
    Password,
    Passphrase,
}

pub open spec fn kind_text(k: SecretKind) -> Seq<char> {
    match k {
        SecretKind::Password => "password"@,
        SecretKind::Passphrase => "passphrase"@,
    }
}

/// The name of a vault entry made for a newly entered secret of a Host.
pub open spec fn fresh_reference_text(v: u128, kind: SecretKind) -> Seq<char> {
    "ownterm/host/"@ + uuid_text(v) + "/"@ + kind_text(kind)
}

pub open spec fn is_fresh_reference(r: Seq<char>, kind: SecretKind) -> bool {
    exists|v: u128| r == fresh_reference_text(v, kind)
}

proof fn lemma_utf8_len(s: Seq<char>)
    ensures
        vstd::utf8::encode_utf8(s).len() <= 4 * s.len(),
    decreases s.len(),
{
    if s.len() > 0 {
        lemma_utf8_len(s.drop_first());
    }
}

proof fn lemma_fresh_reference_valid(v: u128, kind: SecretKind)
    ensures
        credential_ref_error(fresh_reference_text(v, kind)) is None,
{
    reveal_strlit("ownterm/host/");
    reveal_strlit("/");
    reveal_strlit("password");
    reveal_strlit("passphrase");
    let t = fresh_reference_text(v, kind);
    let u = uuid_text(v);
    lemma_uuid_text_chars(v);
    assert(t.len() <= 60);
    assert(t[0] == 'o');
    assert(!is_ws(t[0]));
    assert(trim_start(t) == t);
    assert(t.last() == 'd' || t.last() == 'e');
    assert(trim_end(t) == t);
    lemma_utf8_len(t);
    assert forall|i: int| 0 <= i < t.len() implies !is_ctrl(#[trigger] t[i]) by {
        if i < 13 {
            assert(t[i] == "ownterm/host/"@[i]);
        } else if i < 49 {
            assert(t[i] == u[i - 13]);
        } else if i == 49 {
            assert(t[i] == '/');
        } else {
            assert(t[i] == kind_text(kind)[i - 50]);
        }
    }
}

/// A new vault reference `ownterm/host/<random UUID>/<kind>`.
pub fn fresh_reference(kind: SecretKind) -> (r: CredentialRef)
    ensures
        is_fresh_reference(r@, kind),
{
    let uuid = random_uuid_text();
    let mut text = String::from_str("ownterm/host/");
    text.append(uuid.as_str());
    text.append("/");
    text.append(
        match kind {
            SecretKind::Password => "password",
            SecretKind::Passphrase => "passphrase",
        },
    );
    let ghost v = choose|v: u128| uuid@ == uuid_text(v);
    proof {
        lemma_fresh_reference_valid(v, kind);
        assert(text@ =~= fresh_reference_text(v, kind));
    }
    match CredentialRef::try_new(text.as_str()) {
        Ok(c) => c,
        Err(_) => vstd::pervasive::unreached(),
    }
}

/// What the Host editor sends when a Host is saved.
#[derive(Clone, Debug)]
pub struct SaveHostRequest {
    pub id: Option<String>,
    pub name: String,
    pub address: String,
    pub port: u16,
    pub username: Option<String>,
    pub group_id: Option<String>,
    pub tags: Vec<String>,
    pub favorite: bool,
    pub password: Option<String>,
    pub auth_kind: Option<String>,
    pub private_key_path: Option<String>,
    pub passphrase: Option<String>,
}

/// An entered secret counts only when it is not empty.
pub open spec fn entered(o: Option<String>) -> Option<Seq<char>> {
    match o {
        Some(s) => if s@.len() > 0 {
            Some(s@)
        } else {
            None
        },
        None => None,
    }
}

/// The authentication asked for: the explicit kind, else a password when one was entered.
pub open spec fn requested_kind(req: SaveHostRequest) -> Option<Seq<char>> {
    match req.auth_kind {
        Some(k) => Some(k@),
        None => if entered(req.password) is Some {
            Some("password"@)
        } else {
            None
        },
    }
}

/// The key path to use: a non-blank one from the request, else the saved Host's.
pub open spec fn chosen_key_path(req: SaveHostRequest, existing: Option<AuthMethod>) -> Option<Seq<char>> {
    if req.private_key_path is Some && trim(req.private_key_path->0@).len() > 0 {
        Some(req.private_key_path->0@)
    } else {
        match existing {
            Some(AuthMethod::PrivateKey { path, .. }) => Some(path@),
            _ => None,
        }
    }
}

pub open spec fn kept_passphrase(existing: Option<AuthMethod>) -> Option<Seq<char>> {
    match existing {
        Some(AuthMethod::PrivateKey { passphrase_ref, .. }) => ref_text(passphrase_ref),
        _ => None,
    }
}

/// The authentication a saved Host ends up with, and the secret to store for it.
/// A newly entered secret always gets a fresh reference; an unchanged one keeps the
/// saved reference; secrets are never kept anywhere but in the vault.
pub open spec fn auth_resolution(
    req: SaveHostRequest,
    existing: Option<AuthMethod>,
    r: Result<(AuthMethod, Option<(CredentialRef, SecretValue)>), String>,
) -> bool {
    match requested_kind(req) {
        None => r matches Ok((a, None)) && a == match existing {
            Some(e) => e,
            None => AuthMethod::NoAuth,
        },
        Some(k) => if k == "password"@ {
            match entered(req.password) {
                Some(v) => r matches Ok((a, Some((c, s)))) && auth_shape(a) == AuthShape::Password(c@)
                    && is_fresh_reference(c@, SecretKind::Password) && s@ == v,
                None => match existing {
                    Some(AuthMethod::Password { credential_ref }) => r matches Ok((a, None))
                        && auth_shape(a) == AuthShape::Password(credential_ref@),
                    _ => r matches Ok((a, None)) && a is Password && is_fresh_reference(
                        auth_shape(a)->Password_0,
                        SecretKind::Password,
                    ),
                },
            }
        } else if k == "private_key"@ {
            match chosen_key_path(req, existing) {
                None => r matches Err(m) && m@ == "private key path is required"@,
                Some(p) => match entered(req.passphrase) {
                    Some(v) => r matches Ok((a, Some((c, s)))) && auth_shape(a) == AuthShape::PrivateKey(
                        p,
                        Some(c@),
                    ) && is_fresh_reference(c@, SecretKind::Passphrase) && s@ == v,
                    None => r matches Ok((a, None)) && auth_shape(a) == AuthShape::PrivateKey(
                        p,
                        kept_passphrase(existing),
                    ),
                },
            }
        } else if k == "none"@ {
            r matches Ok((a, None)) && a == AuthMethod::NoAuth
        } else {
            r matches Err(m) && m@ == "unsupported SSH authentication method"@
        },
    }
}

/// What a resolved authentication shows of the request's kind and key path.
proof fn lemma_key_path_resolution(
    req: SaveHostRequest,
    existing: Option<AuthMethod>,
    r: Result<(AuthMethod, Option<(CredentialRef, SecretValue)>), String>,
)
    requires
        auth_resolution(req, existing, r),
    ensures
        r matches Err(m) ==> (m@ == "private key path is required"@ || m@
            == "unsupported SSH authentication method"@),
        r matches Ok((a, _)) ==> {
            &&& requested_kind(req) == Some("password"@) ==> auth_shape(a) is Password
            &&& requested_kind(req) == Some("none"@) ==> auth_shape(a) is NoAuth
            &&& requested_kind(req) == Some("private_key"@) ==> auth_shape(a) is PrivateKey
            &&& requested_kind(req) == Some("private_key"@) && req.private_key_path is Some && trim(
                req.private_key_path->0@,
            ).len() > 0 ==> (auth_shape(a) matches AuthShape::PrivateKey(p, _) && p
                == req.private_key_path->0@)
        },
{
    reveal_strlit("password");
    reveal_strlit("private_key");
    reveal_strlit("none");
    if requested_kind(req) == Some("none"@) {
        assert("none"@ != "password"@ && "none"@ != "private_key"@);
    }
}

fn entered_secret(o: &Option<String>) -> (r: Option<&String>)
    ensures
        match r {
            Some(s) => entered(*o) == Some(s@),
            None => entered(*o) is None,
        },
{
    match o {
        Some(s) => if s.as_str().is_empty() {
            None
        } else {
            Some(s)
        },
        None => None,
    }
}

/// Decides the authentication of a saved Host from the editor's request and the Host as
/// saved before, if any.
pub fn resolve_auth(req: &SaveHostRequest, existing: Option<&AuthMethod>) -> (r: Result<
    (AuthMethod, Option<(CredentialRef, SecretValue)>),
    String,
>)
    ensures
        auth_resolution(*req, match existing {
            Some(a) => Some(*a),
            None => None,
        }, r),
{
    proof {
        reveal_strlit("password");
        reveal_strlit("private_key");
        reveal_strlit("none");
    }
    let password = entered_secret(&req.password);
    let passphrase = entered_secret(&req.passphrase);
    let kind: Option<&str> = match &req.auth_kind {
        Some(k) => Some(k.as_str()),
        None => if password.is_some() {
            Some("password")
        } else {
            None
        },
    };
    match kind {
        None => Ok(
            (
                match existing {
                    Some(a) => a.duplicate(),
                    None => AuthMethod::NoAuth,
                },
                None,
            ),
        ),
        Some(k) => {
            if str_eq(k, "password") {
                match password {
                    Some(value) => {
                        let reference = fresh_reference(SecretKind::Password);
                        Ok(
                            (
                                AuthMethod::Password { credential_ref: reference.duplicate() },
                                Some((reference, SecretValue::new(value.as_str()))),
                            ),
                        )
                    },
                    None => match existing {
                        Some(AuthMethod::Password { credential_ref }) => Ok(
                            (AuthMethod::Password { credential_ref: credential_ref.duplicate() }, None),
                        ),
                        _ => Ok(
                            (AuthMethod::Password { credential_ref: fresh_reference(SecretKind::Password) }, None),
                        ),
                    },
                }
            } else if str_eq(k, "private_key") {
                let path = match &req.private_key_path {
                    Some(p) if !trim_string(p.as_str()).as_str().is_empty() => Some(p.clone()),
                    _ => match existing {
                        Some(AuthMethod::PrivateKey { path, .. }) => Some(path.clone()),
                        _ => None,
                    },
                };
                let path = match path {
                    Some(p) => p,
                    None => {
                        return Err(String::from_str("private key path is required"));
                    },
                };
                match passphrase {
                    Some(value) => {
                        let reference = fresh_reference(SecretKind::Passphrase);
                        Ok(
                            (
                                AuthMethod::PrivateKey { path, passphrase_ref: Some(reference.duplicate()) },
                                Some((reference, SecretValue::new(value.as_str()))),
                            ),
                        )
                    },
                    None => {
                        let passphrase_ref = match existing {
                            Some(AuthMethod::PrivateKey { passphrase_ref: Some(r), .. }) => Some(r.duplicate()),
                            _ => None,
                        };
                        Ok((AuthMethod::PrivateKey { path, passphrase_ref }, None))
                    },
                }
            } else if str_eq(k, "none") {
                Ok((AuthMethod::NoAuth, None))
            } else {
                Err(String::from_str("unsupported SSH authentication method"))
            }
        },
    }
}

/// The group an optional identifier text names.
pub fn parse_group_text(text: &Option<String>) -> (r: Result<Option<GroupId>, String>)
    ensures
        match text {
            None => r matches Ok(None),
            Some(t) => match spec_uuid_parse(t@) {
                Some(v) => r matches Ok(Some(g)) && g@ == v,
                None => r matches Err(m) && m@ == "invalid group id"@,
            },
        },
{
    match text {
        None => Ok(None),
        Some(t) => match GroupId::parse(t.as_str()) {
            Some(g) => Ok(Some(g)),
            None => Err(String::from_str("invalid group id")),
        },
    }
}

/// The Host an optional identifier text names.
pub fn parse_host_text(text: &Option<String>) -> (r: Result<Option<HostId>, String>)
    ensures
        match text {
            None => r matches Ok(None),
            Some(t) => match spec_uuid_parse(t@) {
                Some(v) => r matches Ok(Some(h)) && h@ == v,
                None => r matches Err(m) && m@ == "invalid host id"@,
            },
        },
{
    match text {
        None => Ok(None),
        Some(t) => match HostId::parse(t.as_str()) {
            Some(h) => Ok(Some(h)),
            None => Err(String::from_str("invalid host id")),
        },
    }
}

/// The draft fields a saved Host must have: a name, an address without spaces, a port
/// and no blank tag.
pub open spec fn request_fields_valid(req: SaveHostRequest) -> bool {
    &&& trim(req.name@).len() > 0
    &&& trim(req.address@).len() > 0
    &&& !crate::text::has_ws(trim(req.address@))
    &&& req.port != 0
    &&& forall|i: int| 0 <= i < req.tags@.len() ==> trim(#[trigger] req.tags@[i]@).len() > 0
}

/// What the editor's request makes of a Host that saved: its fields, normalized.
pub open spec fn saved_from_request(req: SaveHostRequest, d: HostDto) -> bool {
    &&& d.name@ == trim(req.name@)
    &&& d.address@ == trim(req.address@)
    &&& d.port == req.port
    &&& opt_view(d.username) == optional_view(opt_view(req.username))
    &&& match req.group_id {
        Some(t) => d.group_id matches Some(g) && spec_uuid_parse(g@) == spec_uuid_parse(t@),
        None => d.group_id is None,
    }
    &&& d.favorite == req.favorite
    &&& tags_normalized(req.tags@, d.tags@)
    &&& (requested_kind(req) == Some("password"@) ==> d.auth_kind@ == "password"@)
    &&& (requested_kind(req) == Some("private_key"@) ==> d.auth_kind@ == "private_key"@)
    &&& (requested_kind(req) == Some("none"@) ==> d.auth_kind@ == "none"@)
    &&& (requested_kind(req) == Some("private_key"@) && req.private_key_path is Some && trim(
        req.private_key_path->0@,
    ).len() > 0 ==> opt_view(d.private_key_path) == Some(req.private_key_path->0@))
}

/// The identifier error of a request, checked before anything else: the group's, then
/// the Host's.
pub open spec fn id_error(req: SaveHostRequest) -> Option<Seq<char>> {
    if req.group_id is Some && spec_uuid_parse(req.group_id->0@) is None {
        Some("invalid group id"@)
    } else if req.id is Some && spec_uuid_parse(req.id->0@) is None {
        Some("invalid host id"@)
    } else {
        None
    }
}

/// For an edited Host, `lookup` is the store's answer to looking it up; a new Host is
/// looked up nowhere.
pub open spec fn lookup_matches<S: HostRepository>(store: &S, req: SaveHostRequest, lookup: Option<Result<Option<Host>, RepositoryError>>) -> bool {
    match req.id {
        Some(t) => lookup matches Some(a) && exists|id: HostId|
            id@ == spec_uuid_parse(t@)->0 && #[trigger] store.finds_host(id, a),
        None => lookup is None,
    }
}

/// The saved Host a lookup gives, or the error it ends the save with.
pub open spec fn lookup_result(lookup: Option<Result<Option<Host>, RepositoryError>>) -> Result<Option<Host>, Seq<char>> {
    match lookup {
        None => Ok(None),
        Some(Err(e)) => Err(repository_error_message(e)),
        Some(Ok(None)) => Err("host not found"@),
        Some(Ok(Some(h))) => Ok(Some(h)),
    }
}

/// The authentication of a saved Host, if any.
pub open spec fn auth_of(existing: Option<Host>) -> Option<AuthMethod> {
    match existing {
        Some(h) => Some(h.auth),
        None => None,
    }
}

/// The error the requested authentication gives: an unknown kind, or a private key
/// without a usable path and no previous key.
pub open spec fn auth_rule_error(req: SaveHostRequest, existing: Option<AuthMethod>) -> Option<Seq<char>> {
    match requested_kind(req) {
        None => None,
        Some(k) => if k == "password"@ || k == "none"@ {
            None
        } else if k == "private_key"@ {
            if chosen_key_path(req, existing) is None {
                Some("private key path is required"@)
            } else {
                None
            }
        } else {
            Some("unsupported SSH authentication method"@)
        },
    }
}

/// The first field of the request a Host may not have, in the order the checks run.
pub open spec fn request_field_error(req: SaveHostRequest) -> Option<DomainError> {
    if trim(req.name@).len() == 0 {
        Some(DomainError::EmptyField("name"))
    } else if trim(req.address@).len() == 0 {
        Some(DomainError::EmptyField("address"))
    } else if crate::text::has_ws(trim(req.address@)) {
        Some(DomainError::InvalidValue("address"))
    } else if req.port == 0 {
        Some(DomainError::InvalidValue("port"))
    } else if exists|i: int| 0 <= i < req.tags@.len() && trim(#[trigger] req.tags@[i]@).len() == 0 {
        Some(DomainError::EmptyField("tag"))
    } else {
        None
    }
}

/// Whether the authentication a request resolves to is a valid one: a key login needs a
/// non-empty key path.
pub open spec fn resolved_auth_valid(req: SaveHostRequest, existing: Option<AuthMethod>) -> bool {
    match requested_kind(req) {
        None => match existing {
            Some(a) => auth_is_valid(a),
            None => true,
        },
        Some(k) => if k == "private_key"@ {
            chosen_key_path(req, existing) matches Some(p) && p.len() > 0
        } else {
            true
        },
    }
}

/// The first error the library's own rules give once the edited Host, if any, is known:
/// the authentication's, then the fields', then an empty key path.
pub open spec fn rule_error(req: SaveHostRequest, existing: Option<AuthMethod>) -> Option<Seq<char>> {
    match auth_rule_error(req, existing) {
        Some(m) => Some(m),
        None => match request_field_error(req) {
            Some(e) => Some(domain_error_text(e)),
            None => if resolved_auth_valid(req, existing) {
                None
            } else {
                Some(domain_error_text(DomainError::EmptyField("private_key_path")))
            },
        },
    }
}

/// `host` is the Host a request makes with authentication `host.auth`: its fields as the
/// draft normalizes them, the group it names, the identity and creation time of the
/// Host it replaces, if any, and `timestamp` as its update time.
pub open spec fn host_of_request(req: SaveHostRequest, existing: Option<Host>, timestamp: Timestamp, host: Host) -> bool {
    &&& host_from_draft(
        HostDraft {
            name: req.name,
            address: req.address,
            port: req.port,
            username: req.username,
            group_id: host.group_id,
            tags: req.tags,
            auth: host.auth,
            favorite: req.favorite,
        },
        host,
    )
    &&& match req.group_id {
        Some(t) => host.group_id matches Some(g) && Some(g@) == spec_uuid_parse(t@),
        None => host.group_id is None,
    }
    &&& match existing {
        Some(p) => host.id == p.id && host.created_at == p.created_at,
        None => host.created_at == timestamp,
    }
    &&& host.updated_at == timestamp
}

/// The steps of saving `host` with its new `secret`, if any, each answered for its own
/// request: the vault's answer to storing that secret under its reference; the store's
/// answer to writing that Host, asked only if the vault took the secret; the vault's
/// answer to removing the secret again, asked exactly when the write failed; and the
/// result they give.
pub open spec fn save_steps<V: SecretVault, S: HostRepository>(
    vault: &V,
    store: &S,
    req: SaveHostRequest,
    existing: Option<Host>,
    timestamp: Timestamp,
    host: Host,
    secret: Option<(CredentialRef, SecretValue)>,
    stored: Option<Result<(), VaultError>>,
    written: Option<Result<(), RepositoryError>>,
    removed: Option<Result<(), VaultError>>,
    r: Result<HostDto, String>,
) -> bool {
    &&& auth_resolution(req, auth_of(existing), Ok((host.auth, secret)))
    &&& host_of_request(req, existing, timestamp, host)
    &&& (stored is Some <==> secret is Some)
    &&& (secret matches Some(p) ==> vault.stores(p.0@, p.1@, stored->0))
    &&& (written is Some <==> host_write_follows(stored))
    &&& (written matches Some(w) ==> if req.id is Some {
        store.updates_host(host, w)
    } else {
        store.creates_host(host, w)
    })
    &&& (removed is Some <==> (written matches Some(Err(_)) && secret is Some))
    &&& (removed matches Some(v) ==> (secret matches Some(p) && vault.removes(p.0@, v)))
    &&& match stored {
        Some(Err(_)) => r matches Err(m) && m@ == "could not store credential in system vault"@,
        _ => match written {
            Some(Err(e)) => r matches Err(m) && m@ == repository_error_message(e),
            _ => r matches Ok(d) && host_dto_of(host, d),
        },
    }
}

/// What saving a Host gives: the identifier errors; then, on the store's answer to the
/// lookup of an edited Host, its error or the Host; then the library's own rules; then
/// the vault and store steps.
pub open spec fn save_host_matches<V: SecretVault, S: HostRepository>(
    vault: &V,
    store: &S,
    req: SaveHostRequest,
    timestamp: Timestamp,
    r: Result<HostDto, String>,
) -> bool {
    match id_error(req) {
        Some(m) => r matches Err(x) && x@ == m,
        None => exists|lookup: Option<Result<Option<Host>, RepositoryError>>|
            #[trigger] lookup_matches(store, req, lookup) && match lookup_result(lookup) {
                Err(m) => r matches Err(x) && x@ == m,
                Ok(existing) => match rule_error(req, auth_of(existing)) {
                    Some(m) => r matches Err(x) && x@ == m,
                    None => exists|
                        host: Host,
                        secret: Option<(CredentialRef, SecretValue)>,
                        stored: Option<Result<(), VaultError>>,
                        written: Option<Result<(), RepositoryError>>,
                        removed: Option<Result<(), VaultError>>,
                    |
                        #[trigger] save_steps(
                            vault,
                            store,
                            req,
                            existing,
                            timestamp,
                            host,
                            secret,
                            stored,
                            written,
                            removed,
                            r,
                        ),
                },
            },
    }
}

proof fn lemma_resolution_rules(
    req: SaveHostRequest,
    existing: Option<AuthMethod>,
    r: Result<(AuthMethod, Option<(CredentialRef, SecretValue)>), String>,
)
    requires
        auth_resolution(req, existing, r),
    ensures
        r matches Err(m) ==> auth_rule_error(req, existing) == Some(m@),
        r matches Ok((a, _)) ==> auth_rule_error(req, existing) is None && auth_is_valid(a)
            == resolved_auth_valid(req, existing),
{
    reveal_strlit("password");
    reveal_strlit("private_key");
    reveal_strlit("none");
    match requested_kind(req) {
        None => {},
        Some(k) => {
            assert("password"@.len() == 8 && "private_key"@.len() == 11 && "none"@.len() == 4);
            assert("password"@ != "private_key"@ && "password"@ != "none"@ && "private_key"@ != "none"@);
        },
    }
}

proof fn lemma_draft_rules(d: HostDraft, req: SaveHostRequest)
    requires
        d.name == req.name,
        d.address == req.address,
        d.port == req.port,
        d.tags == req.tags,
    ensures
        host_draft_error(d) == match request_field_error(req) {
            Some(e) => Some(e),
            None => if auth_is_valid(d.auth) {
                None
            } else {
                Some(DomainError::EmptyField("private_key_path"))
            },
        },
{
}

/// Saves a Host from the editor. A new secret goes to the vault first, under a fresh
/// reference; if storing the Host then fails, that secret is removed again. References
/// no Host uses any more are cleaned up afterwards. Secrets never reach local storage.
pub fn save_host<V: SecretVault, S: HostRepository + CredentialCleanupRepository>(
    vault: &V,
    store: &S,
    request: SaveHostRequest,
    timestamp: Timestamp,
) -> (r: Result<HostDto, String>)
    ensures
        request.group_id is Some && spec_uuid_parse(request.group_id->0@) is None ==> (r matches Err(
            m,
        ) && m@ == "invalid group id"@),
        !(request.group_id is Some && spec_uuid_parse(request.group_id->0@) is None)
            && request.id is Some && spec_uuid_parse(request.id->0@) is None ==> (r matches Err(m)
            && m@ == "invalid host id"@),
        !request_fields_valid(request) ==> r is Err,
        r matches Ok(d) ==> saved_from_request(request, d),
        r matches Err(m) && m@ == "host not found"@ ==> request.id is Some,
        save_host_matches(vault, store, request, timestamp, r),
        r is Ok ==> cleanup_asked(vault, store),
        id_error(request) is None && request.id is None && rule_error(request, None) is Some ==> (r matches Err(
            m,
        ) && Some(m@) == rule_error(request, None)),
{
    let group_id = match parse_group_text(&request.group_id) {
        Ok(g) => g,
        Err(e) => {
            proof {
                reveal_strlit("invalid group id");
                reveal_strlit("host not found");
                assert(e@ == "invalid group id"@);
                assert(e@.len() != "host not found"@.len());
            }
            return Err(e);
        },
    };
    let requested_id = match parse_host_text(&request.id) {
        Ok(h) => h,
        Err(e) => {
            return Err(e);
        },
    };
    let lookup = match requested_id {
        Some(id) => Some(store.get_host(id)),
        None => None,
    };
    let ghost looked = lookup;
    proof {
        if request.id is Some {
            let id = requested_id->0;
            assert(id@ == spec_uuid_parse(request.id->0@)->0);
            assert(store.finds_host(id, looked->0));
        }
        assert(lookup_matches(store, request, looked));
        assert(id_error(request) is None);
    }
    let existing = match lookup {
        Some(Ok(h)) => h,
        Some(Err(e)) => {
            let res: Result<HostDto, String> = Err(repository_error(e));
            proof {
                reveal_strlit("group still contains hosts; choose to move them first");
                reveal_strlit("could not update OwnTerm storage");
                reveal_strlit("host not found");
                assert(res->Err_0@.len() != "host not found"@.len());
                assert(lookup_result(looked) == Err::<Option<Host>, Seq<char>>(res->Err_0@));
                assert(save_host_matches(vault, store, request, timestamp, res));
            }
            return res;
        },
        None => None,
    };
    if request.id.is_some() && existing.is_none() {
        let res: Result<HostDto, String> = Err(String::from_str("host not found"));
        proof {
            assert(lookup_result(looked) == Err::<Option<Host>, Seq<char>>(res->Err_0@));
            assert(save_host_matches(vault, store, request, timestamp, res));
        }
        return res;
    }
    let ghost prior = existing;
    proof {
        assert(lookup_result(looked) == Ok::<Option<Host>, Seq<char>>(prior));
    }
    let resolved = resolve_auth(
        &request,
        match &existing {
            Some(h) => Some(&h.auth),
            None => None,
        },
    );
    proof {
        lemma_key_path_resolution(request, auth_of(prior), resolved);
        lemma_resolution_rules(request, auth_of(prior), resolved);
        assert(match &existing {
            Some(h) => Some(h.auth),
            None => None,
        } == auth_of(prior));
    }
    let (auth, secret) = match resolved {
        Ok(v) => v,
        Err(e) => {
            proof {
                reveal_strlit("private key path is required");
                reveal_strlit("unsupported SSH authentication method");
                reveal_strlit("host not found");
                assert(e@.len() != "host not found"@.len());
                assert(rule_error(request, auth_of(prior)) == Some(e@));
            }
            let res: Result<HostDto, String> = Err(e);
            assert(save_host_matches(vault, store, request, timestamp, res));
            return res;
        },
    };
    let is_update = request.id.is_some();
    let ghost req = request;
    let ghost resolved_auth = auth;
    let ghost new_secret = secret;
    let SaveHostRequest { name, address, port, username, tags, favorite, .. } = request;
    let draft = HostDraft { name, address, port, username, group_id, tags, auth, favorite };
    let ghost d = draft;
    proof {
        lemma_draft_rules(d, req);
    }
    let built = match existing {
        Some(previous) => Host::rehydrate(previous.id, draft, previous.created_at, timestamp),
        None => Host::new(draft, timestamp),
    };
    let host = match built {
        Ok(h) => h,
        Err(e) => {
            let m = e.message();
            proof {
                reveal_strlit("name");
                reveal_strlit("address");
                reveal_strlit("port");
                reveal_strlit("tag");
                reveal_strlit("private_key_path");
                reveal_strlit(" must not be empty");
                reveal_strlit(" is invalid");
                reveal_strlit("host not found");
                assert(m@.len() != "host not found"@.len());
                assert(rule_error(req, auth_of(prior)) == Some(m@));
            }
            let res: Result<HostDto, String> = Err(m);
            assert(save_host_matches(vault, store, req, timestamp, res));
            return res;
        },
    };
    proof {
        assert(rule_error(req, auth_of(prior)) is None);
        assert(host_of_request(req, prior, timestamp, host));
    }
    let stored = match &secret {
        Some((reference, value)) => Some(vault.store(reference, value)),
        None => None,
    };
    let written = if host_write_allowed(&stored) {
        Some(
            if is_update {
                store.update_host(&host)
            } else {
                store.create_host(&host)
            },
        )
    } else {
        None
    };
    let ghost saved = host;
    let outcome = host_save_outcome(host, stored, written);
    let removed = if outcome.remove_new_secret {
        match &secret {
            Some((reference, _)) => Some(vault.remove(reference)),
            None => None,
        }
    } else {
        None
    };
    let ghost answers = (stored, written, removed);
    match outcome.result {
        Ok(dto) => {
            let service = SecretService::new(vault, store);
            let _ = service.cleanup_pending();
            assert(cleanup_asked(vault, store));
            proof {
                reveal_strlit("password");
                reveal_strlit("private_key");
            }
            assert(requested_kind(req) == Some("private_key"@) ==> auth_shape(saved.auth) is PrivateKey);
            assert(saved_from_request(req, dto));
            let res: Result<HostDto, String> = Ok(dto);
            assert(save_steps(vault, store, req, prior, timestamp, saved, new_secret, answers.0, answers.1, answers.2, res));
            assert(save_host_matches(vault, store, req, timestamp, res));
            res
        },
        Err(m) => {
            proof {
                reveal_strlit("could not store credential in system vault");
                reveal_strlit("group still contains hosts; choose to move them first");
                reveal_strlit("could not update OwnTerm storage");
                reveal_strlit("host not found");
                assert(m@.len() != "host not found"@.len());
            }
            let res: Result<HostDto, String> = Err(m);
            assert(save_steps(vault, store, req, prior, timestamp, saved, new_secret, answers.0, answers.1, answers.2, res));
            assert(save_host_matches(vault, store, req, timestamp, res));
            res
        },
    }
}

/// The writing of a Host follows the storing of its new secret, if any, only when the
/// vault took that secret.
pub open spec fn host_write_follows(secret_stored: Option<Result<(), VaultError>>) -> bool {
    !(secret_stored matches Some(Err(_)))
}

/// Whether the Host is written, given the vault's answer for its new secret, if any.
pub fn host_write_allowed(secret_stored: &Option<Result<(), VaultError>>) -> (r: bool)
    ensures
        r == host_write_follows(*secret_stored),
{
    match secret_stored {
        Some(Err(_)) => false,
        _ => true,
    }
}

/// How saving a Host ends: its result, and whether the secret stored for it is removed
/// from the vault again.
pub struct HostSaveOutcome {
    pub result: Result<HostDto, String>,
    pub remove_new_secret: bool,
}

/// How saving `host` ends, from the vault's answer for its new secret (`None` when there
/// is none) and the store's answer to writing it (`None` when it was not written). A vault
/// failure ends it with its own message; a failed write is reported as a storage failure
/// and the secret stored for it is removed again; otherwise the Host is saved.
pub fn host_save_outcome(
    host: Host,
    secret_stored: Option<Result<(), VaultError>>,
    written: Option<Result<(), RepositoryError>>,
) -> (o: HostSaveOutcome)
    ensures
        !host_write_follows(secret_stored) ==> (o.result matches Err(m) && m@
            == "could not store credential in system vault"@ && !o.remove_new_secret),
        host_write_follows(secret_stored) ==> match written {
            Some(Err(e)) => o.result matches Err(m) && m@ == repository_error_message(e)
                && o.remove_new_secret == secret_stored is Some,
            _ => o.result matches Ok(d) && host_dto_of(host, d) && !o.remove_new_secret,
        },
{
    match secret_stored {
        Some(Err(_)) => {
            return HostSaveOutcome {
                result: Err(String::from_str("could not store credential in system vault")),
                remove_new_secret: false,
            };
        },
        _ => {},
    }
    match written {
        Some(Err(e)) => HostSaveOutcome {
            result: Err(repository_error(e)),
            remove_new_secret: secret_stored.is_some(),
        },
        _ => HostSaveOutcome { result: Ok(HostDto::from_host(host)), remove_new_secret: false },
    }
}

} // verus!
