//! How saved configuration is laid out in local storage: the row encoding of Hosts and
//! trusted keys, the rules that decode them back, and the search filter. Running the
//! queries is the storage adapter's part.
use vstd::prelude::*;
use crate::domain::{
    credential_ref_error, opt_view, optional_view, tags_normalized, views, AuthMethod,
    CredentialRef, Host, HostDraft, KnownHost, known_host_error, normal_destination, Timestamp,
};
use crate::ids::{spec_uuid_parse, GroupId, HostId, KnownHostId};
use crate::repositories::{HostQuery, RepositoryError};
use crate::text::{chars_of, has_ws, spec_to_lowercase, str_eq, to_lowercase, trim, trim_string};

verus! {

/// A `hosts` row as stored.
#[derive(Clone, Debug)]
pub struct StoredHost {
    pub id: String,
    pub name: String,
    pub address: String,
    pub port: i64,
    pub username: Option<String>,
    pub group_id: Option<String>,
    pub auth_kind: String,
    pub credential_ref: Option<String>,
    pub private_key_path: Option<String>,
    pub passphrase_ref: Option<String>,
    pub favorite: bool,
    pub created_at: i64,
    pub updated_at: i64,
}

/// An authentication method by the texts it holds.
pub enum AuthShape {
    Password(Seq<char>),
    PrivateKey(Seq<char>, Option<Seq<char>>),
    Agent,
    NoAuth,
}

pub open spec fn ref_text(r: Option<CredentialRef>) -> Option<Seq<char>> {
    match r {
        Some(c) => Some(c@),
        None => None,
    }
}

pub open spec fn auth_shape(a: AuthMethod) -> AuthShape {
    match a {
        AuthMethod::Password { credential_ref } => AuthShape::Password(credential_ref@),
        AuthMethod::PrivateKey { path, passphrase_ref } => AuthShape::PrivateKey(path@, ref_text(passphrase_ref)),
        AuthMethod::Agent => AuthShape::Agent,
        AuthMethod::NoAuth => AuthShape::NoAuth,
    }
}

pub open spec fn ref_valid(v: Seq<char>) -> bool {
    credential_ref_error(v) is None
}

/// The authentication method a row's columns describe, if they describe a valid one.
pub open spec fn stored_auth(
    kind: Seq<char>,
    credential: Option<Seq<char>>,
    path: Option<Seq<char>>,
    passphrase: Option<Seq<char>>,
) -> Option<AuthShape> {
    if kind == "password_ref"@ {
        match credential {
            Some(c) => if ref_valid(c) {
                Some(AuthShape::Password(c))
            } else {
                None
            },
            None => None,
        }
    } else if kind == "private_key_ref"@ {
        match path {
            None => None,
            Some(p) => match passphrase {
                None => Some(AuthShape::PrivateKey(p, None)),
                Some(x) => if ref_valid(x) {
                    Some(AuthShape::PrivateKey(p, Some(x)))
                } else {
                    None
                },
            },
        }
    } else if kind == "agent"@ {
        Some(AuthShape::Agent)
    } else if kind == "none"@ {
        Some(AuthShape::NoAuth)
    } else {
        None
    }
}

/// The columns an authentication method is stored in: kind, credential reference, key
/// path, passphrase reference. Secrets themselves are never stored.
pub open spec fn encoded_auth(a: AuthMethod) -> (Seq<char>, Option<Seq<char>>, Option<Seq<char>>, Option<Seq<char>>) {
    match a {
        AuthMethod::Password { credential_ref } => ("password_ref"@, Some(credential_ref@), None, None),
        AuthMethod::PrivateKey { path, passphrase_ref } => ("private_key_ref"@, None, Some(path@), ref_text(passphrase_ref)),
        AuthMethod::Agent => ("agent"@, None, None, None),
        AuthMethod::NoAuth => ("none"@, None, None, None),
    }
}

pub open spec fn texts4(t: (&'static str, Option<String>, Option<String>, Option<String>)) -> (
    Seq<char>,
    Option<Seq<char>>,
    Option<Seq<char>>,
    Option<Seq<char>>,
) {
    (t.0@, opt_view(t.1), opt_view(t.2), opt_view(t.3))
}

/// The stored columns of an authentication method.
pub fn encode_auth(auth: &AuthMethod) -> (r: Result<
    (&'static str, Option<String>, Option<String>, Option<String>),
    RepositoryError,
>)
    ensures
        r matches Ok(t) && texts4(t) == encoded_auth(*auth),
{
    match auth {
        AuthMethod::Password { credential_ref } => Ok(
            ("password_ref", Some(credential_ref.as_str().to_owned()), None, None),
        ),
        AuthMethod::PrivateKey { path, passphrase_ref } => Ok(
            (
                "private_key_ref",
                None,
                Some(path.clone()),
                match passphrase_ref {
                    Some(r) => Some(r.as_str().to_owned()),
                    None => None,
                },
            ),
        ),
        AuthMethod::Agent => Ok(("agent", None, None, None)),
        AuthMethod::NoAuth => Ok(("none", None, None, None)),
    }
}

/// A credential reference column that must hold a valid reference.
pub fn parse_credential(value: Option<String>) -> (r: Result<CredentialRef, RepositoryError>)
    ensures
        match value {
            Some(v) => if ref_valid(v@) {
                r matches Ok(c) && c@ == v@
            } else {
                r == Err::<CredentialRef, RepositoryError>(RepositoryError::InvalidData)
            },
            None => r == Err::<CredentialRef, RepositoryError>(RepositoryError::InvalidData),
        },
{
    match value {
        Some(v) => match CredentialRef::try_new(v.as_str()) {
            Ok(c) => Ok(c),
            Err(_) => Err(RepositoryError::InvalidData),
        },
        None => Err(RepositoryError::InvalidData),
    }
}

fn decode_auth(
    kind: &str,
    credential: Option<String>,
    path: Option<String>,
    passphrase: Option<String>,
) -> (r: Result<AuthMethod, RepositoryError>)
    ensures
        match stored_auth(kind@, opt_view(credential), opt_view(path), opt_view(passphrase)) {
            Some(s) => r matches Ok(a) && auth_shape(a) == s,
            None => r == Err::<AuthMethod, RepositoryError>(RepositoryError::InvalidData),
        },
{
    proof {
        reveal_strlit("password_ref");
        reveal_strlit("private_key_ref");
        reveal_strlit("agent");
        reveal_strlit("none");
    }
    if str_eq(kind, "password_ref") {
        match parse_credential(credential) {
            Ok(c) => Ok(AuthMethod::Password { credential_ref: c }),
            Err(e) => Err(e),
        }
    } else if str_eq(kind, "private_key_ref") {
        let path = match path {
            Some(p) => p,
            None => {
                return Err(RepositoryError::InvalidData);
            },
        };
        let passphrase_ref = match passphrase {
            None => None,
            Some(x) => match CredentialRef::try_new(x.as_str()) {
                Ok(c) => Some(c),
                Err(_) => {
                    return Err(RepositoryError::InvalidData);
                },
            },
        };
        Ok(AuthMethod::PrivateKey { path, passphrase_ref })
    } else if str_eq(kind, "agent") {
        Ok(AuthMethod::Agent)
    } else if str_eq(kind, "none") {
        Ok(AuthMethod::NoAuth)
    } else {
        Err(RepositoryError::InvalidData)
    }
}

/// The group column: absent, or the text of a group identifier.
pub open spec fn stored_group(g: Option<Seq<char>>) -> Option<Option<u128>> {
    match g {
        None => Some(None),
        Some(t) => match spec_uuid_parse(t) {
            Some(v) => Some(Some(v)),
            None => None,
        },
    }
}

pub open spec fn shape_valid(s: AuthShape) -> bool {
    !(s matches AuthShape::PrivateKey(p, _) && p.len() == 0)
}

/// The rules of a Host that decoded columns must meet.
pub open spec fn host_fields_valid(name: Seq<char>, address: Seq<char>, port: int, tags: Seq<Seq<char>>, s: AuthShape) -> bool {
    &&& trim(name).len() > 0
    &&& trim(address).len() > 0
    &&& !has_ws(trim(address))
    &&& port != 0
    &&& forall|i: int| 0 <= i < tags.len() ==> trim(#[trigger] tags[i]).len() > 0
    &&& shape_valid(s)
}

pub open spec fn group_view(g: Option<GroupId>) -> Option<u128> {
    match g {
        Some(id) => Some(id@),
        None => None,
    }
}

/// Whether a stored row and its tags decode; and, if so, what the Host holds.
pub open spec fn decodes(row: StoredHost, tags: Seq<String>) -> bool {
    &&& spec_uuid_parse(row.id@) is Some
    &&& stored_auth(row.auth_kind@, opt_view(row.credential_ref), opt_view(row.private_key_path), opt_view(row.passphrase_ref)) is Some
    &&& 0 <= row.port <= 65535
    &&& stored_group(opt_view(row.group_id)) is Some
    &&& host_fields_valid(
        row.name@,
        row.address@,
        row.port as int,
        views(tags),
        stored_auth(row.auth_kind@, opt_view(row.credential_ref), opt_view(row.private_key_path), opt_view(row.passphrase_ref))->0,
    )
}

pub open spec fn decoded_host(row: StoredHost, tags: Seq<String>, h: Host) -> bool {
    &&& h.id@ == spec_uuid_parse(row.id@)->0
    &&& h.name@ == trim(row.name@)
    &&& h.address@ == trim(row.address@)
    &&& h.port == row.port
    &&& opt_view(h.username) == optional_view(opt_view(row.username))
    &&& Some(group_view(h.group_id)) == stored_group(opt_view(row.group_id))
    &&& tags_normalized(tags, h.tags@)
    &&& Some(auth_shape(h.auth)) == stored_auth(row.auth_kind@, opt_view(row.credential_ref), opt_view(row.private_key_path), opt_view(row.passphrase_ref))
    &&& h.favorite == row.favorite
    &&& h.created_at.millis() == row.created_at
    &&& h.updated_at.millis() == row.updated_at
}

/// Rebuilds a Host from its row and tags; any column that breaks a rule makes the data
/// invalid.
pub fn decode_host(row: StoredHost, tags: Vec<String>) -> (r: Result<Host, RepositoryError>)
    ensures
        decodes(row, tags@) ==> (r matches Ok(h) && decoded_host(row, tags@, h)),
        !decodes(row, tags@) ==> r == Err::<Host, RepositoryError>(RepositoryError::InvalidData),
{
    let ghost stored = row;
    let ghost given_tags = tags@;
    let id = match HostId::parse(row.id.as_str()) {
        Some(id) => id,
        None => {
            return Err(RepositoryError::InvalidData);
        },
    };
    let StoredHost {
        id: _,
        name,
        address,
        port,
        username,
        group_id,
        auth_kind,
        credential_ref,
        private_key_path,
        passphrase_ref,
        favorite,
        created_at,
        updated_at,
    } = row;
    let auth = match decode_auth(auth_kind.as_str(), credential_ref, private_key_path, passphrase_ref) {
        Ok(a) => a,
        Err(e) => {
            return Err(e);
        },
    };
    if port < 0 || port > 65535 {
        return Err(RepositoryError::InvalidData);
    }
    let port = port as u16;
    let group_id = match group_id {
        None => None,
        Some(g) => match GroupId::parse(g.as_str()) {
            Some(v) => Some(v),
            None => {
                return Err(RepositoryError::InvalidData);
            },
        },
    };
    let draft = HostDraft { name, address, port, username, group_id, tags, auth, favorite };
    proof {
        assert(views(draft.tags@) == views(given_tags));
        if exists|i: int| 0 <= i < draft.tags@.len() && trim(#[trigger] draft.tags@[i]@).len() == 0 {
            let i = choose|i: int| 0 <= i < draft.tags@.len() && trim(#[trigger] draft.tags@[i]@).len() == 0;
            assert(trim(views(given_tags)[i]).len() == 0);
        }
        if forall|i: int| 0 <= i < draft.tags@.len() ==> trim(#[trigger] draft.tags@[i]@).len() > 0 {
            assert forall|i: int| 0 <= i < views(given_tags).len() implies trim(#[trigger] views(given_tags)[i]).len() > 0 by {
                assert(views(given_tags)[i] == draft.tags@[i]@);
            }
        }
    }
    match Host::rehydrate(
        id,
        draft,
        Timestamp::from_unix_millis(created_at),
        Timestamp::from_unix_millis(updated_at),
    ) {
        Ok(h) => Ok(h),
        Err(_) => Err(RepositoryError::InvalidData),
    }
}

/// A `known_hosts` row: id, destination, port, algorithm, fingerprint, created, updated.
pub type StoredKnownHost = (String, String, i64, String, String, i64, i64);

/// Rebuilds a trusted key record from its row; broken data is invalid.
pub fn decode_known_host(row: StoredKnownHost) -> (r: Result<KnownHost, RepositoryError>)
    ensures
        ({
            let ok = spec_uuid_parse(row.0@) is Some && 0 <= row.2 <= 65535 && known_host_error(
                row.1@,
                row.2 as u16,
                row.3@,
                row.4@,
            ) is None;
            &&& ok ==> (r matches Ok(k) && k.id@ == spec_uuid_parse(row.0@)->0 && k.destination@
                == normal_destination(row.1@) && k.port == row.2 && k.algorithm@ == trim(row.3@)
                && k.fingerprint@ == trim(row.4@) && k.created_at.millis() == row.5
                && k.updated_at.millis() == row.6)
            &&& !ok ==> r == Err::<KnownHost, RepositoryError>(RepositoryError::InvalidData)
        }),
{
    let (id, destination, port, algorithm, fingerprint, created_at, updated_at) = row;
    let id = match KnownHostId::parse(id.as_str()) {
        Some(id) => id,
        None => {
            return Err(RepositoryError::InvalidData);
        },
    };
    if port < 0 || port > 65535 {
        return Err(RepositoryError::InvalidData);
    }
    match KnownHost::rehydrate(
        id,
        destination.as_str(),
        port as u16,
        algorithm.as_str(),
        fingerprint.as_str(),
        Timestamp::from_unix_millis(created_at),
        Timestamp::from_unix_millis(updated_at),
    ) {
        Ok(k) => Ok(k),
        Err(_) => Err(RepositoryError::InvalidData),
    }
}

/// A Host identifier column.
pub fn parse_host_id(value: &str) -> (r: Result<HostId, RepositoryError>)
    ensures
        match spec_uuid_parse(value@) {
            Some(v) => r matches Ok(id) && id@ == v,
            None => r == Err::<HostId, RepositoryError>(RepositoryError::InvalidData),
        },
{
    match HostId::parse(value) {
        Some(id) => Ok(id),
        None => Err(RepositoryError::InvalidData),
    }
}

/// A group identifier column.
pub fn parse_group_id(value: &str) -> (r: Result<GroupId, RepositoryError>)
    ensures
        match spec_uuid_parse(value@) {
            Some(v) => r matches Ok(id) && id@ == v,
            None => r == Err::<GroupId, RepositoryError>(RepositoryError::InvalidData),
        },
{
    match GroupId::parse(value) {
        Some(id) => Ok(id),
        None => Err(RepositoryError::InvalidData),
    }
}

/// The references a Host used before an update that it no longer uses; each is
/// queued for vault cleanup unless another Host still refers to it.
pub fn dropped_references(previous: &Vec<CredentialRef>, current: &Vec<CredentialRef>) -> (r: Vec<
    CredentialRef,
>)
    ensures
        r@.map_values(|c: CredentialRef| c@) == previous@.map_values(|c: CredentialRef| c@).filter(
            |t: Seq<char>| !current@.map_values(|c: CredentialRef| c@).contains(t),
        ),
{
    let ghost prev = previous@.map_values(|c: CredentialRef| c@);
    let ghost cur = current@.map_values(|c: CredentialRef| c@);
    let ghost keep = |t: Seq<char>| !cur.contains(t);
    let mut r: Vec<CredentialRef> = Vec::new();
    let mut i: usize = 0;
    assert(prev.take(0).filter(keep) =~= seq![]);
    assert(r@.map_values(|c: CredentialRef| c@) =~= seq![]);
    while i < previous.len()
        invariant
            i <= previous@.len(),
            prev == previous@.map_values(|c: CredentialRef| c@),
            cur == current@.map_values(|c: CredentialRef| c@),
            keep == (|t: Seq<char>| !cur.contains(t)),
            r@.map_values(|c: CredentialRef| c@) == prev.take(i as int).filter(keep),
        decreases previous@.len() - i,
    {
        let mut used = false;
        let mut j: usize = 0;
        while j < current.len()
            invariant
                i < previous@.len(),
                j <= current@.len(),
                cur == current@.map_values(|c: CredentialRef| c@),
                used == exists|k: int| 0 <= k < j && cur[k] == previous@[i as int]@,
            decreases current@.len() - j,
        {
            assert(cur[j as int] == current@[j as int]@);
            if current[j].same_as(&previous[i]) {
                used = true;
            }
            j += 1;
        }
        assert(used == cur.contains(prev[i as int])) by {
            if cur.contains(prev[i as int]) {
                let k = choose|k: int| 0 <= k < cur.len() && cur[k] == prev[i as int];
                assert(cur[k] == previous@[i as int]@);
            }
        }
        let ghost before = r@.map_values(|c: CredentialRef| c@);
        assert(prev.take(i + 1).drop_last() =~= prev.take(i as int));
        assert(prev.take(i + 1).last() == prev[i as int]);
        proof {
            prev.take(i as int).lemma_filter_push(prev[i as int], keep);
        }
        assert(prev.take(i as int).push(prev[i as int]) =~= prev.take(i + 1));
        if !used {
            r.push(previous[i].duplicate());
            assert(r@.map_values(|c: CredentialRef| c@) =~= before.push(prev[i as int]));
        }
        i += 1;
    }
    assert(prev.take(previous@.len() as int) =~= prev);
    r
}

/// The references of a removed Host that no Host uses any more, in order, given for each
/// whether a Host still refers to it; these are queued for vault cleanup.
pub fn orphaned_references(checked: Vec<(CredentialRef, bool)>) -> (r: Vec<CredentialRef>)
    ensures
        r@.map_values(|c: CredentialRef| c@) == checked@.filter(|p: (CredentialRef, bool)| !p.1).map_values(
            |p: (CredentialRef, bool)| p.0@,
        ),
{
    let ghost all = checked@;
    let ghost keep = |p: (CredentialRef, bool)| !p.1;
    let ghost name = |p: (CredentialRef, bool)| p.0@;
    let mut r: Vec<CredentialRef> = Vec::new();
    let mut i: usize = 0;
    assert(all.take(0).filter(keep) =~= seq![]);
    assert(r@.map_values(|c: CredentialRef| c@) =~= seq![]);
    while i < checked.len()
        invariant
            i <= checked@.len(),
            all == checked@,
            keep == (|p: (CredentialRef, bool)| !p.1),
            name == (|p: (CredentialRef, bool)| p.0@),
            r@.map_values(|c: CredentialRef| c@) == all.take(i as int).filter(keep).map_values(name),
        decreases checked@.len() - i,
    {
        let ghost before = r@.map_values(|c: CredentialRef| c@);
        proof {
            all.take(i as int).lemma_filter_push(all[i as int], keep);
        }
        assert(all.take(i as int).push(all[i as int]) =~= all.take(i + 1));
        if !checked[i].1 {
            r.push(checked[i].0.duplicate());
            assert(all.take(i + 1).filter(keep) == all.take(i as int).filter(keep).push(all[i as int]));
            assert(r@.map_values(|c: CredentialRef| c@) =~= before.push(all[i as int].0@));
            assert(all.take(i + 1).filter(keep).map_values(name) =~= all.take(i as int).filter(keep).map_values(
                name,
            ).push(all[i as int].0@));
        } else {
            assert(all.take(i + 1).filter(keep) == all.take(i as int).filter(keep));
        }
        i += 1;
    }
    assert(all.take(checked@.len() as int) =~= all);
    r
}

/// `haystack` contains `needle` as a contiguous piece (`str::contains`).
pub open spec fn contains_text(haystack: Seq<char>, needle: Seq<char>) -> bool {
    exists|i: int| 0 <= i <= haystack.len() - needle.len() && #[trigger] haystack.subrange(i, i + needle.len()) == needle
}

/// `str::contains` for a text needle.
pub fn contains_str(haystack: &str, needle: &str) -> (r: bool)
    ensures
        r == contains_text(haystack@, needle@),
{
    let h = chars_of(haystack);
    let n = chars_of(needle);
    let hl = h.len();
    let nl = n.len();
    if nl == 0 {
        assert(h@.subrange(0, 0 + n@.len() as int) =~= n@);
        return true;
    }
    if nl > hl {
        return false;
    }
    let mut i: usize = 0;
    while i <= hl - nl
        invariant
            h@ == haystack@,
            n@ == needle@,
            hl == h@.len(),
            nl == n@.len(),
            1 <= nl <= hl,
            i <= hl - nl + 1,
            forall|k: int| 0 <= k < i ==> #[trigger] h@.subrange(k, k + n@.len()) != n@,
        decreases h@.len() - i,
    {
        let mut j: usize = 0;
        let mut same = true;
        while j < nl
            invariant
                hl == h@.len(),
                nl == n@.len(),
                i + nl <= hl,
                j <= n@.len(),
                same == (forall|m: int| 0 <= m < j ==> h@[i + m] == n@[m]),
            decreases n@.len() - j,
        {
            if h[i + j] != n[j] {
                same = false;
            }
            j += 1;
        }
        if same {
            assert(h@.subrange(i as int, i + n@.len()) =~= n@);
            return true;
        }
        assert(h@.subrange(i as int, i + n@.len()) != n@) by {
            let m = choose|m: int| 0 <= m < n@.len() && h@[i + m] != n@[m];
            assert(h@.subrange(i as int, i + n@.len())[m] == h@[i + m]);
        }
        i += 1;
    }
    false
}

/// A Host matches a (lower-cased) search in its name, address, username or tags, or
/// else in the name of its group.
pub open spec fn host_matches_search(h: Host, search: Seq<char>, group_name: Option<Seq<char>>) -> bool {
    ||| contains_text(spec_to_lowercase(h.name@), search)
    ||| contains_text(spec_to_lowercase(h.address@), search)
    ||| (h.username is Some && contains_text(spec_to_lowercase(h.username->0@), search))
    ||| (exists|i: int| 0 <= i < h.tags@.len() && contains_text(#[trigger] h.tags@[i]@, search))
    ||| (h.group_id is Some && group_name is Some && contains_text(spec_to_lowercase(group_name->0), search))
}

/// A search text matches a Host when it occurs in the Host's name, address or username
/// once lower-cased, in one of its tags, or in the lower-cased name of its group: whatever
/// stands before and after it there.
pub proof fn lemma_search_finds_text_in_fields(
    h: Host,
    search: Seq<char>,
    group_name: Option<Seq<char>>,
    before: Seq<char>,
    after: Seq<char>,
)
    ensures
        spec_to_lowercase(h.name@) == before + search + after ==> host_matches_search(h, search, group_name),
        spec_to_lowercase(h.address@) == before + search + after ==> host_matches_search(h, search, group_name),
        (h.username matches Some(u) && spec_to_lowercase(u@) == before + search + after) ==> host_matches_search(
            h,
            search,
            group_name,
        ),
        forall|i: int|
            0 <= i < h.tags@.len() && #[trigger] h.tags@[i]@ == before + search + after ==> host_matches_search(
                h,
                search,
                group_name,
            ),
        (h.group_id is Some && (group_name matches Some(g) && spec_to_lowercase(g) == before + search + after))
            ==> host_matches_search(h, search, group_name),
{
    let text = before + search + after;
    assert(text.subrange(before.len() as int, (before.len() + search.len()) as int) =~= search);
    assert(contains_text(text, search));
    assert forall|i: int|
        0 <= i < h.tags@.len() && #[trigger] h.tags@[i]@ == before + search + after implies host_matches_search(
            h,
            search,
            group_name,
        ) by {
        assert(contains_text(h.tags@[i]@, search));
    }
}

/// `search` occurs in `text`: some text stands before it and some after.
pub open spec fn occurs_in(search: Seq<char>, text: Seq<char>) -> bool {
    exists|before: Seq<char>, after: Seq<char>| #[trigger] (before + search + after) == text
}

proof fn lemma_contains_is_occurrence(text: Seq<char>, search: Seq<char>)
    ensures
        contains_text(text, search) <==> occurs_in(search, text),
{
    if contains_text(text, search) {
        let i = choose|i: int|
            0 <= i <= text.len() - search.len() && #[trigger] text.subrange(i, i + search.len()) == search;
        let before = text.take(i);
        let after = text.skip(i + search.len());
        assert(before + search + after =~= text);
    }
    if occurs_in(search, text) {
        let (before, after) = choose|before: Seq<char>, after: Seq<char>| #[trigger] (before + search + after) == text;
        assert(text.subrange(before.len() as int, (before.len() + search.len()) as int) =~= search);
    }
}

/// A Host matches a search text only where the text occurs: in its lower-cased name,
/// address or username, in one of its tags, or in the lower-cased name of its group.
pub proof fn lemma_search_match_has_occurrence(h: Host, search: Seq<char>, group_name: Option<Seq<char>>)
    ensures
        host_matches_search(h, search, group_name) <==> {
            ||| occurs_in(search, spec_to_lowercase(h.name@))
            ||| occurs_in(search, spec_to_lowercase(h.address@))
            ||| (h.username matches Some(u) && occurs_in(search, spec_to_lowercase(u@)))
            ||| (exists|i: int| 0 <= i < h.tags@.len() && occurs_in(search, #[trigger] h.tags@[i]@))
            ||| (h.group_id is Some && (group_name matches Some(g) && occurs_in(search, spec_to_lowercase(g))))
        },
{
    lemma_contains_is_occurrence(spec_to_lowercase(h.name@), search);
    lemma_contains_is_occurrence(spec_to_lowercase(h.address@), search);
    if h.username is Some {
        lemma_contains_is_occurrence(spec_to_lowercase(h.username->0@), search);
    }
    if group_name is Some {
        lemma_contains_is_occurrence(spec_to_lowercase(group_name->0), search);
    }
    assert forall|i: int| 0 <= i < h.tags@.len() implies (contains_text(#[trigger] h.tags@[i]@, search)
        <==> occurs_in(search, h.tags@[i]@)) by {
        lemma_contains_is_occurrence(h.tags@[i]@, search);
    }
}

/// Whether `host` matches `search`; `group_name` is the name of its group, if it has one.
pub fn host_matches(host: &Host, search: &str, group_name: Option<&str>) -> (r: bool)
    ensures
        r == host_matches_search(*host, search@, match group_name {
            Some(g) => Some(g@),
            None => None,
        }),
{
    if contains_str(to_lowercase(host.name.as_str()).as_str(), search) {
        return true;
    }
    if contains_str(to_lowercase(host.address.as_str()).as_str(), search) {
        return true;
    }
    match &host.username {
        Some(u) => {
            if contains_str(to_lowercase(u.as_str()).as_str(), search) {
                return true;
            }
        },
        None => {},
    }
    let mut i: usize = 0;
    while i < host.tags.len()
        invariant
            i <= host.tags@.len(),
            forall|k: int| 0 <= k < i ==> !contains_text(#[trigger] host.tags@[k]@, search@),
        decreases host.tags@.len() - i,
    {
        if contains_str(host.tags[i].as_str(), search) {
            return true;
        }
        i += 1;
    }
    if host.group_id.is_none() {
        return false;
    }
    match group_name {
        Some(g) => contains_str(to_lowercase(g).as_str(), search),
        None => false,
    }
}

/// The search of a query as it is matched: trimmed and lower-cased.
pub fn query_search(query: &HostQuery) -> (r: Option<String>)
    ensures
        match query.search {
            Some(s) => r matches Some(t) && t@ == spec_to_lowercase(trim(s@)),
            None => r is None,
        },
{
    match &query.search {
        Some(s) => {
            let t = trim_string(s.as_str());
            Some(to_lowercase(t.as_str()))
        },
        None => None,
    }
}

/// A Host is listed when it passes the favourites and group filters and, for a non-empty
/// search, matches it.
pub open spec fn host_selected(h: Host, query: HostQuery, search: Option<Seq<char>>, group_name: Option<Seq<char>>) -> bool {
    &&& !(query.favorites_only && !h.favorite)
    &&& !(query.group_id is Some && query.group_id != h.group_id)
    &&& (search is Some && search->0.len() > 0 ==> host_matches_search(h, search->0, group_name))
}

pub fn host_in_query(host: &Host, query: &HostQuery, search: &Option<String>, group_name: Option<&str>) -> (r: bool)
    ensures
        r == host_selected(*host, *query, opt_view(*search), match group_name {
            Some(g) => Some(g@),
            None => None,
        }),
{
    if query.favorites_only && !host.favorite {
        return false;
    }
    if query.group_id.is_some() && query.group_id != host.group_id {
        return false;
    }
    match search {
        Some(s) => {
            if !s.as_str().is_empty() && !host_matches(host, s.as_str(), group_name) {
                return false;
            }
        },
        None => {},
    }
    true
}

/// The tables whose columns may be listed.
pub open spec fn known_table(table: Seq<char>) -> bool {
    table == "hosts"@ || table == "host_groups"@ || table == "host_tags"@ || table == "settings"@
        || table == "recent_hosts"@ || table == "known_hosts"@ || table == "orphaned_credential_refs"@
        || table == "schema_migrations"@
}

pub fn is_known_table(table: &str) -> (r: bool)
    ensures
        r == known_table(table@),
{
    str_eq(table, "hosts") || str_eq(table, "host_groups") || str_eq(table, "host_tags") || str_eq(
        table,
        "settings",
    ) || str_eq(table, "recent_hosts") || str_eq(table, "known_hosts") || str_eq(
        table,
        "orphaned_credential_refs",
    ) || str_eq(table, "schema_migrations")
}

/// A setting key must not be blank.
pub fn setting_key_valid(key: &str) -> (r: bool)
    ensures
        r == (trim(key@).len() > 0),
{
    let t = trim_string(key);
    !t.as_str().is_empty()
}

/// The default query lists every Host.
pub proof fn lemma_default_query_selects_all(h: Host, group_name: Option<Seq<char>>)
    ensures
        host_selected(h, HostQuery { search: None, group_id: None, favorites_only: false }, None, group_name),
{
}

/// Every vault reference an authentication method holds is a valid reference.
pub open spec fn auth_refs_valid(a: AuthMethod) -> bool {
    match a {
        AuthMethod::Password { credential_ref } => ref_valid(credential_ref@),
        AuthMethod::PrivateKey { passphrase_ref: Some(r), .. } => ref_valid(r@),
        _ => true,
    }
}

/// An authentication method written to its columns reads back as the same method.
pub proof fn lemma_auth_columns_round_trip(a: AuthMethod)
    requires
        auth_refs_valid(a),
    ensures
        ({
            let e = encoded_auth(a);
            stored_auth(e.0, e.1, e.2, e.3) == Some(auth_shape(a))
        }),
{
    reveal_strlit("password_ref");
    reveal_strlit("private_key_ref");
    reveal_strlit("agent");
    reveal_strlit("none");
    assert("private_key_ref"@ != "password_ref"@) by {
        assert("private_key_ref"@[1] != "password_ref"@[1]);
    }
    assert("agent"@ != "password_ref"@ && "agent"@ != "private_key_ref"@) by {
        assert("agent"@.len() != "password_ref"@.len());
        assert("agent"@.len() != "private_key_ref"@.len());
    }
    assert("none"@ != "password_ref"@ && "none"@ != "private_key_ref"@ && "none"@ != "agent"@) by {
        assert("none"@.len() != "password_ref"@.len());
        assert("none"@.len() != "private_key_ref"@.len());
        assert("none"@.len() != "agent"@.len());
    }
    match a {
        AuthMethod::PrivateKey { path, passphrase_ref } => {
            match passphrase_ref {
                Some(r) => {},
                None => {},
            }
        },
        _ => {},
    }
}

/// The fields a saved Host has: trimmed, non-blank name and address, an address without
/// spaces, a port, a trimmed username if any, non-blank tags, a key path for key logins
/// and valid vault references.
pub open spec fn host_stored_valid(h: Host) -> bool {
    &&& h.name@ == trim(h.name@) && h.name@.len() > 0
    &&& h.address@ == trim(h.address@) && h.address@.len() > 0 && !has_ws(h.address@)
    &&& h.port != 0
    &&& opt_view(h.username) == optional_view(opt_view(h.username))
    &&& forall|i: int| 0 <= i < h.tags@.len() ==> trim(#[trigger] h.tags@[i]@).len() > 0
    &&& shape_valid(auth_shape(h.auth))
    &&& auth_refs_valid(h.auth)
}

/// The row the storage adapter writes for a Host.
pub open spec fn row_of(h: Host, row: StoredHost) -> bool {
    &&& spec_uuid_parse(row.id@) == Some(h.id@)
    &&& row.name@ == h.name@
    &&& row.address@ == h.address@
    &&& row.port == h.port as i64
    &&& opt_view(row.username) == opt_view(h.username)
    &&& match h.group_id {
        Some(g) => row.group_id is Some && spec_uuid_parse(row.group_id->0@) == Some(g@),
        None => row.group_id is None,
    }
    &&& (row.auth_kind@, opt_view(row.credential_ref), opt_view(row.private_key_path), opt_view(
        row.passphrase_ref,
    )) == encoded_auth(h.auth)
    &&& row.favorite == h.favorite
    &&& row.created_at == h.created_at.millis()
    &&& row.updated_at == h.updated_at.millis()
}

/// What is read back of a saved Host is what was written: its row and tags decode, and
/// the Host they give has the same identifier, fields, authentication and times; its
/// tags are the normal form of the stored ones.
pub proof fn lemma_host_row_round_trip(h: Host, row: StoredHost, back: Host)
    requires
        host_stored_valid(h),
        row_of(h, row),
    ensures
        decodes(row, h.tags@),
        decoded_host(row, h.tags@, back) ==> {
            &&& back.id@ == h.id@
            &&& back.name@ == h.name@
            &&& back.address@ == h.address@
            &&& back.port == h.port
            &&& opt_view(back.username) == opt_view(h.username)
            &&& group_view(back.group_id) == group_view(h.group_id)
            &&& auth_shape(back.auth) == auth_shape(h.auth)
            &&& back.favorite == h.favorite
            &&& back.created_at.millis() == h.created_at.millis()
            &&& back.updated_at.millis() == h.updated_at.millis()
            &&& tags_normalized(h.tags@, back.tags@)
        },
{
    lemma_auth_columns_round_trip(h.auth);
    assert(views(h.tags@).len() == h.tags@.len());
    assert forall|i: int| 0 <= i < views(h.tags@).len() implies trim(#[trigger] views(h.tags@)[i]).len() > 0 by {
        assert(views(h.tags@)[i] == h.tags@[i]@);
    }
    if decoded_host(row, h.tags@, back) {
        assert(back.name@ == trim(h.name@));
    }
}

} // verus!
