//! Domain language and rules, independent of infrastructure.
use vstd::prelude::*;
use crate::ids::{GroupId, HostId, KnownHostId, SessionId, ShellProfileId};
use crate::text::{
    any_control, any_whitespace, chars_eq, chars_of, has_ctrl, has_ws, lemma_lex_total,
    lemma_lex_transitive, lex_less, lex_lt, spec_to_lowercase, string_of, to_lowercase, trim,
    trim_chars, trim_end_char, trim_end_matching, trim_string,
};

verus! {

/// A rejected domain value, naming the field.
#[derive(Clone, Debug, PartialEq, Eq)]
pub enum DomainError {
    EmptyField(&'static str),
    InvalidValue(&'static str),
}

/// The user-facing message of a rejected value.
pub open spec fn domain_error_text(e: DomainError) -> Seq<char> {
    match e {
        DomainError::EmptyField(f) => f@ + " must not be empty"@,
        DomainError::InvalidValue(f) => f@ + " is invalid"@,
    }
}

impl DomainError {
    /// The user-facing message.
    pub fn message(&self) -> (s: String)
        ensures
            s@ == domain_error_text(*self),
    {
        match self {
            DomainError::EmptyField(field) => {
                let mut s = String::from_str(*field);
                s.append(" must not be empty");
                s
            },
            DomainError::InvalidValue(field) => {
                let mut s = String::from_str(*field);
                s.append(" is invalid");
                s
            },
        }
    }
}

/// Milliseconds since the Unix epoch.
#[derive(Clone, Copy, Debug, PartialEq, Eq, Structural, PartialOrd, Ord)]
pub struct Timestamp(i64);

impl Timestamp {
    pub fn from_unix_millis(value: i64) -> (t: Self)
        ensures
            t.millis() == value,
    {
        Timestamp(value)
    }

    pub fn as_unix_millis(self) -> (v: i64)
        ensures
            v == self.millis(),
    {
        self.0
    }

    pub closed spec fn millis(self) -> i64 {
        self.0
    }
}

/// Name of a secret in the system vault; never the secret itself.
#[derive(Clone, PartialEq, Eq, Hash)]
pub struct CredentialRef(String);

impl View for CredentialRef {
    type V = Seq<char>;

    closed spec fn view(&self) -> Seq<char> {
        self.0@
    }
}

/// The rule `CredentialRef::try_new` applies to a candidate reference.
/// The length limit counts UTF-8 bytes.
pub open spec fn credential_ref_error(value: Seq<char>) -> Option<DomainError> {
    if trim(value).len() == 0 {
        Some(DomainError::EmptyField("credential_ref"))
    } else if vstd::utf8::encode_utf8(value).len() as usize > 512 || has_ctrl(value) {
        Some(DomainError::InvalidValue("credential_ref"))
    } else {
        None
    }
}

impl CredentialRef {
    /// Accepts a non-blank reference of at most 512 bytes without control characters.
    pub fn try_new(value: &str) -> (r: Result<Self, DomainError>)
        ensures
            match credential_ref_error(value@) {
                Some(e) => r == Err::<Self, DomainError>(e),
                None => r matches Ok(c) && c@ == value@,
            },
    {
        let chars = chars_of(value);
        let trimmed = trim_chars(&chars);
        if trimmed.len() == 0 {
            return Err(DomainError::EmptyField("credential_ref"));
        }
        if value.len() > 512 || any_control(&chars) {
            return Err(DomainError::InvalidValue("credential_ref"));
        }
        Ok(CredentialRef(value.to_owned()))
    }

    pub fn as_str(&self) -> (s: &str)
        ensures
            s@ == self@,
    {
        self.0.as_str()
    }

    /// Whether both name the same vault entry.
    pub fn same_as(&self, other: &CredentialRef) -> (r: bool)
        ensures
            r == (self@ == other@),
    {
        self.0 == other.0
    }

    pub fn duplicate(&self) -> (r: CredentialRef)
        ensures
            r == *self,
            r@ == self@,
    {
        CredentialRef(self.0.clone())
    }

    /// Debug text that never shows the reference.
    pub fn redacted_debug(&self) -> (s: String)
        ensures
            s@ == "CredentialRef(<redacted>)"@,
    {
        String::from_str("CredentialRef(<redacted>)")
    }
}

/// How a Host authenticates; secrets stay in the vault and only references are kept.
#[derive(Clone, PartialEq, Eq)]
pub enum AuthMethod {
    Password { credential_ref: CredentialRef },
    PrivateKey { path: String, passphrase_ref: Option<CredentialRef> },
    Agent,
    NoAuth,
}

/// The references to vault secrets an authentication method uses.
pub open spec fn auth_refs(auth: AuthMethod) -> Seq<Seq<char>> {
    match auth {
        AuthMethod::Password { credential_ref } => seq![credential_ref@],
        AuthMethod::PrivateKey { passphrase_ref: Some(r), .. } => seq![r@],
        _ => Seq::empty(),
    }
}

pub open spec fn auth_is_valid(auth: AuthMethod) -> bool {
    !(auth matches AuthMethod::PrivateKey { path, .. } && path@.len() == 0)
}

impl AuthMethod {
    pub fn validate(&self) -> (r: Result<(), DomainError>)
        ensures
            auth_is_valid(*self) ==> r is Ok,
            !auth_is_valid(*self) ==> r == Err::<(), DomainError>(
                DomainError::EmptyField("private_key_path"),
            ),
    {
        match self {
            AuthMethod::PrivateKey { path, .. } => {
                if path.as_str().is_empty() {
                    return Err(DomainError::EmptyField("private_key_path"));
                }
                Ok(())
            },
            _ => Ok(()),
        }
    }

    pub fn credential_refs(&self) -> (r: Vec<CredentialRef>)
        ensures
            r@.map_values(|c: CredentialRef| c@) == auth_refs(*self),
    {
        let mut r: Vec<CredentialRef> = Vec::new();
        match self {
            AuthMethod::Password { credential_ref } => {
                r.push(credential_ref.duplicate());
            },
            AuthMethod::PrivateKey { passphrase_ref: Some(reference), .. } => {
                r.push(reference.duplicate());
            },
            _ => {},
        }
        assert(r@.map_values(|c: CredentialRef| c@) =~= auth_refs(*self));
        r
    }

    pub fn duplicate(&self) -> (r: AuthMethod)
        ensures
            r == *self,
    {
        match self {
            AuthMethod::Password { credential_ref } => AuthMethod::Password {
                credential_ref: credential_ref.duplicate(),
            },
            AuthMethod::PrivateKey { path, passphrase_ref } => AuthMethod::PrivateKey {
                path: path.clone(),
                passphrase_ref: match passphrase_ref {
                    Some(c) => Some(c.duplicate()),
                    None => None,
                },
            },
            AuthMethod::Agent => AuthMethod::Agent,
            AuthMethod::NoAuth => AuthMethod::NoAuth,
        }
    }
}

} // verus!

verus! {

/// The character views of a list of strings.
pub open spec fn views(v: Seq<String>) -> Seq<Seq<char>> {
    v.map_values(|s: String| s@)
}

/// `Option<String>` by its character view.
pub open spec fn opt_view(o: Option<String>) -> Option<Seq<char>> {
    match o {
        Some(s) => Some(s@),
        None => None,
    }
}

/// Strictly increasing in `String` order, hence free of duplicates.
pub open spec fn strictly_sorted(v: Seq<Seq<char>>) -> bool {
    forall|i: int, j: int| 0 <= i < j < v.len() ==> lex_lt(#[trigger] v[i], #[trigger] v[j])
}

/// Trims a required value; a blank one is an `EmptyField` error naming `field`.
fn required(field: &'static str, value: String) -> (r: Result<String, DomainError>)
    ensures
        trim(value@).len() == 0 ==> r == Err::<String, DomainError>(DomainError::EmptyField(field)),
        trim(value@).len() > 0 ==> (r matches Ok(v) && v@ == trim(value@)),
{
    let v = trim_string(value.as_str());
    if v.as_str().is_empty() {
        Err(DomainError::EmptyField(field))
    } else {
        Ok(v)
    }
}

/// The trimmed value of an optional text; blank counts as absent.
pub open spec fn optional_view(o: Option<Seq<char>>) -> Option<Seq<char>> {
    match o {
        Some(s) => if trim(s).len() > 0 {
            Some(trim(s))
        } else {
            None
        },
        None => None,
    }
}

fn optional(value: Option<String>) -> (r: Option<String>)
    ensures
        opt_view(r) == optional_view(opt_view(value)),
{
    match value {
        Some(v) => {
            let t = trim_string(v.as_str());
            if t.as_str().is_empty() {
                None
            } else {
                Some(t)
            }
        },
        None => None,
    }
}

/// The normal form of one tag: trimmed, then lower-cased.
pub open spec fn normal_tag(tag: Seq<char>) -> Seq<char> {
    spec_to_lowercase(trim(tag))
}

/// Inserts `x` into a strictly sorted list unless an equal text is already there.
fn insert_sorted_unique(v: &mut Vec<String>, x: String)
    requires
        strictly_sorted(views(old(v)@)),
    ensures
        strictly_sorted(views(final(v)@)),
        forall|t: Seq<char>|
            views(final(v)@).contains(t) <==> (views(old(v)@).contains(t) || t == x@),
{
    let ghost old_views = views(v@);
    let xc = chars_of(x.as_str());
    let mut p: usize = 0;
    while p < v.len()
        invariant
            p <= v@.len(),
            v@ == old(v)@,
            old_views == views(v@),
            xc@ == x@,
            forall|i: int| 0 <= i < p ==> lex_lt(#[trigger] old_views[i], x@),
        ensures
            p <= v@.len(),
            v@ == old(v)@,
            forall|i: int| 0 <= i < p ==> lex_lt(#[trigger] old_views[i], x@),
            p < v@.len() ==> !lex_lt(old_views[p as int], x@),
        decreases v@.len() - p,
    {
        let pc = chars_of(v[p].as_str());
        if !lex_less(&pc, &xc) {
            break;
        }
        p += 1;
    }
    if p < v.len() {
        let pc = chars_of(v[p].as_str());
        if chars_eq(&pc, &xc) {
            assert(views(v@).contains(x@)) by {
                assert(views(v@)[p as int] == x@);
            }
            return;
        }
        proof {
            lemma_lex_total(old_views[p as int], x@);
        }
    }
    proof {
        assert forall|j: int| p <= j < old_views.len() implies lex_lt(x@, #[trigger] old_views[j]) by {
            if j > p {
                lemma_lex_transitive(x@, old_views[p as int], old_views[j]);
            }
        }
    }
    v.insert(p, x);
    proof {
        let nv = views(v@);
        assert(nv =~= old_views.take(p as int).push(x@) + old_views.skip(p as int));
        assert forall|i: int, j: int| 0 <= i < j < nv.len() implies lex_lt(
            #[trigger] nv[i],
            #[trigger] nv[j],
        ) by {
            if j < p {
            } else if j == p {
            } else if i < p {
                lemma_lex_transitive(nv[i], x@, nv[j]);
            } else if i == p {
            } else {
            }
        }
        assert forall|t: Seq<char>| nv.contains(t) <==> (old_views.contains(t) || t == x@) by {
            if nv.contains(t) {
                let k = choose|k: int| 0 <= k < nv.len() && nv[k] == t;
                if k < p {
                    assert(old_views[k] == t);
                } else if k > p {
                    assert(old_views[k - 1] == t);
                }
            }
            if old_views.contains(t) {
                let k = choose|k: int| 0 <= k < old_views.len() && old_views[k] == t;
                if k < p {
                    assert(nv[k] == t);
                } else {
                    assert(nv[k + 1] == t);
                }
            }
            if t == x@ {
                assert(nv[p as int] == t);
            }
        }
    }
}

/// Tags are trimmed, lower-cased, deduplicated and sorted; a blank tag is rejected.
fn normalize_tags(tags: Vec<String>) -> (r: Result<Vec<String>, DomainError>)
    ensures
        (exists|i: int| 0 <= i < tags@.len() && trim(#[trigger] tags@[i]@).len() == 0) ==> r
            == Err::<Vec<String>, DomainError>(DomainError::EmptyField("tag")),
        (forall|i: int| 0 <= i < tags@.len() ==> trim(#[trigger] tags@[i]@).len() > 0) ==> (
        r matches Ok(v) && strictly_sorted(views(v@)) && forall|t: Seq<char>|
            views(v@).contains(t) <==> views(tags@).map_values(|s: Seq<char>| normal_tag(s)).contains(
                t,
            )),
{
    let ghost normals = views(tags@).map_values(|s: Seq<char>| normal_tag(s));
    let mut normalized: Vec<String> = Vec::new();
    let mut i: usize = 0;
    while i < tags.len()
        invariant
            i <= tags@.len(),
            normals == views(tags@).map_values(|s: Seq<char>| normal_tag(s)),
            forall|j: int| 0 <= j < i ==> trim(#[trigger] tags@[j]@).len() > 0,
            strictly_sorted(views(normalized@)),
            forall|t: Seq<char>|
                views(normalized@).contains(t) <==> normals.take(i as int).contains(t),
        decreases tags@.len() - i,
    {
        let tag = required("tag", tags[i].clone());
        let tag = match tag {
            Ok(t) => t,
            Err(e) => {
                return Err(e);
            },
        };
        let lower = to_lowercase(tag.as_str());
        assert(lower@ == normals[i as int]);
        insert_sorted_unique(&mut normalized, lower);
        proof {
            assert(normals.take(i + 1) =~= normals.take(i as int).push(normals[i as int]));
            assert forall|t: Seq<char>|
                views(normalized@).contains(t) <==> normals.take(i + 1).contains(t) by {
                let a = normals.take(i + 1);
                let b = normals.take(i as int);
                if a.contains(t) {
                    let k = choose|k: int| 0 <= k < a.len() && #[trigger] a[k] == t;
                    if k < i {
                        assert(b[k] == t);
                    }
                }
                if b.contains(t) {
                    let k = choose|k: int| 0 <= k < b.len() && #[trigger] b[k] == t;
                    assert(a[k] == t);
                }
                if t == normals[i as int] {
                    assert(a[i as int] == t);
                }
            }
        }
        i += 1;
    }
    assert(normals.take(tags@.len() as int) =~= normals);
    Ok(normalized)
}

} // verus!

verus! {

/// Host data as entered, before validation.
#[derive(Clone, PartialEq, Eq)]
pub struct HostDraft {
    pub name: String,
    pub address: String,
    pub port: u16,
    pub username: Option<String>,
    pub group_id: Option<GroupId>,
    pub tags: Vec<String>,
    pub auth: AuthMethod,
    pub favorite: bool,
}

/// A validated, normalized saved SSH Host.
#[derive(Clone, PartialEq, Eq)]
pub struct Host {
    pub id: HostId,
    pub name: String,
    pub address: String,
    pub port: u16,
    pub username: Option<String>,
    pub group_id: Option<GroupId>,
    pub tags: Vec<String>,
    pub auth: AuthMethod,
    pub favorite: bool,
    pub created_at: Timestamp,
    pub updated_at: Timestamp,
}

/// The first rule a draft breaks, in the order the checks run.
pub open spec fn host_draft_error(d: HostDraft) -> Option<DomainError> {
    if trim(d.name@).len() == 0 {
        Some(DomainError::EmptyField("name"))
    } else if trim(d.address@).len() == 0 {
        Some(DomainError::EmptyField("address"))
    } else if has_ws(trim(d.address@)) {
        Some(DomainError::InvalidValue("address"))
    } else if d.port == 0 {
        Some(DomainError::InvalidValue("port"))
    } else if exists|i: int| 0 <= i < d.tags@.len() && trim(#[trigger] d.tags@[i]@).len() == 0 {
        Some(DomainError::EmptyField("tag"))
    } else if !auth_is_valid(d.auth) {
        Some(DomainError::EmptyField("private_key_path"))
    } else {
        None
    }
}

/// `tags` is the normal form of the draft tags: strictly sorted, same set of normal tags.
pub open spec fn tags_normalized(draft_tags: Seq<String>, tags: Seq<String>) -> bool {
    &&& strictly_sorted(views(tags))
    &&& forall|t: Seq<char>|
        views(tags).contains(t) <==> views(draft_tags).map_values(|s: Seq<char>| normal_tag(s)).contains(t)
}

/// `h` holds the normalized values of `d`.
pub open spec fn host_from_draft(d: HostDraft, h: Host) -> bool {
    &&& h.name@ == trim(d.name@)
    &&& h.address@ == trim(d.address@)
    &&& h.port == d.port
    &&& opt_view(h.username) == optional_view(opt_view(d.username))
    &&& h.group_id == d.group_id
    &&& tags_normalized(d.tags@, h.tags@)
    &&& h.auth == d.auth
    &&& h.favorite == d.favorite
}

impl Host {
    /// A new Host with a fresh identifier, created and updated at `now`.
    pub fn new(draft: HostDraft, now: Timestamp) -> (r: Result<Self, DomainError>)
        ensures
            match host_draft_error(draft) {
                Some(e) => r == Err::<Self, DomainError>(e),
                None => r matches Ok(h) && host_from_draft(draft, h) && h.created_at == now
                    && h.updated_at == now,
            },
    {
        Self::rehydrate(HostId::new(), draft, now, now)
    }

    /// Validates and normalizes a draft into a Host with the given identity and times.
    pub fn rehydrate(id: HostId, draft: HostDraft, created_at: Timestamp, updated_at: Timestamp) -> (r:
        Result<Self, DomainError>)
        ensures
            match host_draft_error(draft) {
                Some(e) => r == Err::<Self, DomainError>(e),
                None => r matches Ok(h) && host_from_draft(draft, h) && h.id == id && h.created_at
                    == created_at && h.updated_at == updated_at,
            },
    {
        let ghost d = draft;
        let HostDraft { name, address, port, username, group_id, tags, auth, favorite } = draft;
        let name = match required("name", name) {
            Ok(v) => v,
            Err(e) => {
                return Err(e);
            },
        };
        let address = match required("address", address) {
            Ok(v) => v,
            Err(e) => {
                return Err(e);
            },
        };
        let address_chars = chars_of(address.as_str());
        if any_whitespace(&address_chars) {
            return Err(DomainError::InvalidValue("address"));
        }
        if port == 0 {
            return Err(DomainError::InvalidValue("port"));
        }
        let username = optional(username);
        let tags = match normalize_tags(tags) {
            Ok(v) => v,
            Err(e) => {
                return Err(e);
            },
        };
        match auth.validate() {
            Ok(()) => {},
            Err(e) => {
                return Err(e);
            },
        }
        Ok(Host {
            id,
            name,
            address,
            port,
            username,
            group_id,
            tags,
            auth,
            favorite,
            created_at,
            updated_at,
        })
    }

    pub fn credential_refs(&self) -> (r: Vec<CredentialRef>)
        ensures
            r@.map_values(|c: CredentialRef| c@) == auth_refs(self.auth),
    {
        self.auth.credential_refs()
    }
}

/// A named, ordered group of Hosts (groups do not nest).
#[derive(Clone, Debug, PartialEq, Eq)]
pub struct HostGroup {
    pub id: GroupId,
    pub name: String,
    pub sort_order: i32,
}

impl HostGroup {
    pub fn new(name: &str, sort_order: i32) -> (r: Result<Self, DomainError>)
        ensures
            trim(name@).len() == 0 ==> r == Err::<Self, DomainError>(
                DomainError::EmptyField("group_name"),
            ),
            trim(name@).len() > 0 ==> (r matches Ok(g) && g.name@ == trim(name@) && g.sort_order
                == sort_order),
    {
        Self::rehydrate(GroupId::new(), name, sort_order)
    }

    pub fn rehydrate(id: GroupId, name: &str, sort_order: i32) -> (r: Result<Self, DomainError>)
        ensures
            trim(name@).len() == 0 ==> r == Err::<Self, DomainError>(
                DomainError::EmptyField("group_name"),
            ),
            trim(name@).len() > 0 ==> (r matches Ok(g) && g.id == id && g.name@ == trim(name@)
                && g.sort_order == sort_order),
    {
        match required("group_name", name.to_owned()) {
            Ok(name) => Ok(HostGroup { id, name, sort_order }),
            Err(e) => Err(e),
        }
    }
}

/// What a terminal session is attached to.
#[derive(Clone, Copy, Debug, PartialEq, Eq, Structural)]
pub enum SessionKind {
    Local { shell_profile_id: ShellProfileId },
    Ssh { host_id: HostId },
}

/// Life-cycle state of a terminal session.
#[derive(Clone, Copy, Debug, PartialEq, Eq, Structural)]
pub enum SessionStatus {
    Starting,
    AwaitingTrust,
    AwaitingCredential,
    Connected,
    Disconnected,
    Failed,
}

/// A started or starting terminal session.
#[derive(Clone, Debug, PartialEq, Eq)]
pub struct SessionDescriptor {
    pub id: SessionId,
    pub kind: SessionKind,
    pub title: String,
    pub status: SessionStatus,
}

impl SessionDescriptor {
    /// A descriptor with a fresh identifier; the title is trimmed and required.
    pub fn new(kind: SessionKind, title: &str, status: SessionStatus) -> (r: Result<Self, DomainError>)
        ensures
            trim(title@).len() == 0 ==> r == Err::<Self, DomainError>(
                DomainError::EmptyField("session_title"),
            ),
            trim(title@).len() > 0 ==> (r matches Ok(s) && s.kind == kind && s.title@ == trim(
                title@,
            ) && s.status == status),
    {
        let id = SessionId::new();
        match required("session_title", title.to_owned()) {
            Ok(title) => Ok(SessionDescriptor { id, kind, title, status }),
            Err(e) => Err(e),
        }
    }
}

/// A local shell that can be started in a terminal.
#[derive(Clone, Debug, PartialEq, Eq)]
pub struct ShellProfile {
    pub id: ShellProfileId,
    pub name: String,
    pub program: String,
    pub arguments: Vec<String>,
}

impl ShellProfile {
    /// A profile with a fresh identifier; the program must be given and the name is required.
    pub fn new(name: &str, program: String, arguments: Vec<String>) -> (r: Result<Self, DomainError>)
        ensures
            program@.len() == 0 ==> r == Err::<Self, DomainError>(
                DomainError::EmptyField("shell_program"),
            ),
            program@.len() > 0 && trim(name@).len() == 0 ==> r == Err::<Self, DomainError>(
                DomainError::EmptyField("shell_name"),
            ),
            program@.len() > 0 && trim(name@).len() > 0 ==> (r matches Ok(p) && p.name@ == trim(
                name@,
            ) && p.program == program && p.arguments == arguments),
    {
        if program.as_str().is_empty() {
            return Err(DomainError::EmptyField("shell_program"));
        }
        let id = ShellProfileId::new();
        match required("shell_name", name.to_owned()) {
            Ok(name) => Ok(ShellProfile { id, name, program, arguments }),
            Err(e) => Err(e),
        }
    }
}

/// A trusted SSH host key (strict trust on first use).
#[derive(Clone, Debug, PartialEq, Eq)]
pub struct KnownHost {
    pub id: KnownHostId,
    pub destination: String,
    pub port: u16,
    pub algorithm: String,
    pub fingerprint: String,
    pub created_at: Timestamp,
    pub updated_at: Timestamp,
}

/// The normal form of an SSH destination: trimmed, trailing dots removed, lower-cased.
pub open spec fn normal_destination(value: Seq<char>) -> Seq<char> {
    spec_to_lowercase(trim_end_char(trim(value), '.'))
}

pub open spec fn destination_error(value: Seq<char>) -> Option<DomainError> {
    if trim(value).len() == 0 {
        Some(DomainError::EmptyField("destination"))
    } else if has_ws(trim(value)) {
        Some(DomainError::InvalidValue("destination"))
    } else {
        None
    }
}

pub open spec fn known_host_error(destination: Seq<char>, port: u16, algorithm: Seq<char>, fingerprint: Seq<char>) -> Option<DomainError> {
    if destination_error(destination) is Some {
        destination_error(destination)
    } else if port == 0 {
        Some(DomainError::InvalidValue("port"))
    } else if trim(algorithm).len() == 0 {
        Some(DomainError::EmptyField("algorithm"))
    } else if trim(fingerprint).len() == 0 {
        Some(DomainError::EmptyField("fingerprint"))
    } else {
        None
    }
}

impl KnownHost {
    /// A new trusted key record with a fresh identifier, created and updated at `now`.
    pub fn new(destination: &str, port: u16, algorithm: &str, fingerprint: &str, now: Timestamp) -> (r:
        Result<Self, DomainError>)
        ensures
            match known_host_error(destination@, port, algorithm@, fingerprint@) {
                Some(e) => r == Err::<Self, DomainError>(e),
                None => r matches Ok(k) && k.destination@ == normal_destination(destination@)
                    && k.port == port && k.algorithm@ == trim(algorithm@) && k.fingerprint@ == trim(
                    fingerprint@,
                ) && k.created_at == now && k.updated_at == now,
            },
    {
        Self::rehydrate(KnownHostId::new(), destination, port, algorithm, fingerprint, now, now)
    }

    pub fn rehydrate(
        id: KnownHostId,
        destination: &str,
        port: u16,
        algorithm: &str,
        fingerprint: &str,
        created_at: Timestamp,
        updated_at: Timestamp,
    ) -> (r: Result<Self, DomainError>)
        ensures
            match known_host_error(destination@, port, algorithm@, fingerprint@) {
                Some(e) => r == Err::<Self, DomainError>(e),
                None => r matches Ok(k) && k.id == id && k.destination@ == normal_destination(
                    destination@,
                ) && k.port == port && k.algorithm@ == trim(algorithm@) && k.fingerprint@ == trim(
                    fingerprint@,
                ) && k.created_at == created_at && k.updated_at == updated_at,
            },
    {
        let destination = match normalize_destination(destination) {
            Ok(v) => v,
            Err(e) => {
                return Err(e);
            },
        };
        if port == 0 {
            return Err(DomainError::InvalidValue("port"));
        }
        let algorithm = match required("algorithm", algorithm.to_owned()) {
            Ok(v) => v,
            Err(e) => {
                return Err(e);
            },
        };
        let fingerprint = match required("fingerprint", fingerprint.to_owned()) {
            Ok(v) => v,
            Err(e) => {
                return Err(e);
            },
        };
        Ok(KnownHost { id, destination, port, algorithm, fingerprint, created_at, updated_at })
    }
}

/// Normalizes an SSH destination for trust lookups.
pub fn normalize_destination(value: &str) -> (r: Result<String, DomainError>)
    ensures
        match destination_error(value@) {
            Some(e) => r == Err::<String, DomainError>(e),
            None => r matches Ok(v) && v@ == normal_destination(value@),
        },
{
    let value = match required("destination", value.to_owned()) {
        Ok(v) => v,
        Err(e) => {
            return Err(e);
        },
    };
    let chars = chars_of(value.as_str());
    if any_whitespace(&chars) {
        return Err(DomainError::InvalidValue("destination"));
    }
    let stripped = trim_end_matching(&chars, '.');
    let stripped = string_of(&stripped);
    Ok(to_lowercase(stripped.as_str()))
}

/// Stable identity of the product, independent of interface and infrastructure.
#[derive(Clone, Copy, Debug, PartialEq, Eq)]
pub struct ProductIdentity {
    name: &'static str,
    version: &'static str,
}

impl ProductIdentity {
    pub fn new(name: &'static str, version: &'static str) -> (r: Self)
        ensures
            r.spec_name() == name,
            r.spec_version() == version,
    {
        ProductIdentity { name, version }
    }

    pub closed spec fn spec_name(self) -> &'static str {
        self.name
    }

    pub closed spec fn spec_version(self) -> &'static str {
        self.version
    }

    pub fn name(self) -> (r: &'static str)
        ensures
            r == self.spec_name(),
    {
        self.name
    }

    pub fn version(self) -> (r: &'static str)
        ensures
            r == self.spec_version(),
    {
        self.version
    }
}

/// The product's own identity: name `OwnTerm` and the package version.
pub fn ownterm_identity() -> (r: ProductIdentity)
    ensures
        r.spec_name() == "OwnTerm",
        r.spec_version() == "0.1.0",
{
    ProductIdentity::new("OwnTerm", "0.1.0")
}

} // verus!
