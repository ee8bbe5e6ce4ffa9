//! Entity identifiers: 128-bit UUID values generated, printed and parsed by `uuid`.
use vstd::prelude::*;

verus! {

#[verifier::external_type_specification]
#[verifier::external_body]
pub struct ExUuidError(uuid::Error);

/// What `uuid::Uuid::parse_str` returns for a text: the UUID's 128-bit value, or nothing.
pub uninterp spec fn spec_uuid_parse(text: Seq<char>) -> Option<u128>;

/// Lower-case hexadecimal digit of a value below 16.
pub open spec fn hex_lower(n: int) -> char {
    if n < 10 {
        (('0' as int) + n) as char
    } else {
        (('a' as int) + n - 10) as char
    }
}

/// The `i`-th of the 32 hexadecimal digits of `v`, most significant first.
pub open spec fn uuid_nibble(v: u128, i: int) -> int {
    ((v >> ((4 * (31 - i)) as u128)) & 0xf) as int
}

/// Number of digits before output position `k` of the hyphenated form.
pub open spec fn uuid_digit_index(k: int) -> int {
    if k < 8 {
        k
    } else if k < 13 {
        k - 1
    } else if k < 18 {
        k - 2
    } else if k < 23 {
        k - 3
    } else {
        k - 4
    }
}

/// The hyphenated lower-case form `xxxxxxxx-xxxx-xxxx-xxxx-xxxxxxxxxxxx` of a UUID value.
pub open spec fn uuid_text(v: u128) -> Seq<char> {
    Seq::new(
        36,
        |k: int|
            if k == 8 || k == 13 || k == 18 || k == 23 {
                '-'
            } else {
                hex_lower(uuid_nibble(v, uuid_digit_index(k)))
            },
    )
}

/// Calls `uuid::Uuid::new_v4`: a random version-4 UUID. Nothing is claimed of the value.
#[verifier::external_body]
fn random_uuid() -> (v: u128) {
    uuid::Uuid::new_v4().as_u128()
}

/// Calls `Uuid::from_u128(v).to_string()`: the documented hyphenated lower-case form, which
/// `Uuid::parse_str` reads back as the same value.
#[verifier::external_body]
fn uuid_to_string(v: u128) -> (s: String)
    ensures
        s@ == uuid_text(v),
        spec_uuid_parse(s@) == Some(v),
{
    uuid::Uuid::from_u128(v).to_string()
}

/// The text of a fresh random UUID.
pub fn random_uuid_text() -> (s: String)
    ensures
        exists|v: u128| s@ == uuid_text(v),
{
    let v = random_uuid();
    uuid_to_string(v)
}

/// Every character of a UUID's text is a hyphen, a digit or a letter from `a` to `f`.
pub proof fn lemma_uuid_text_chars(v: u128)
    ensures
        forall|k: int| 0 <= k < 36 ==> 0x2D <= (#[trigger] uuid_text(v)[k]) as u32 <= 0x66,
{
    assert forall|k: int| 0 <= k < 36 implies 0x2D <= (#[trigger] uuid_text(v)[k]) as u32 <= 0x66 by {
        if !(k == 8 || k == 13 || k == 18 || k == 23) {
            let i = uuid_digit_index(k);
            let x: u128 = v >> ((4 * (31 - i)) as u128);
            assert(x & 0xf <= 0xf) by (bit_vector);
            assert(uuid_nibble(v, i) == (x & 0xf) as int);
        }
    }
}

/// Calls `uuid::Uuid::parse_str`, which accepts the simple, hyphenated, braced and URN forms.
#[verifier::external_body]
fn uuid_parse(text: &str) -> (r: Result<u128, uuid::Error>)
    ensures
        r is Ok <==> spec_uuid_parse(text@) is Some,
        r matches Ok(v) ==> spec_uuid_parse(text@) == Some(v),
{
    uuid::Uuid::parse_str(text).map(|u| u.as_u128())
}

/// The value `text` names as a UUID, if it names one.
pub fn parse_uuid_value(text: &str) -> (r: Option<u128>)
    ensures
        r == spec_uuid_parse(text@),
{
    match uuid_parse(text) {
        Ok(v) => Some(v),
        Err(_) => None,
    }
}

/// Identifier of a saved SSH Host.
#[derive(Clone, Copy, Debug, PartialEq, Eq, Structural, Hash, PartialOrd, Ord)]
pub struct HostId(u128);

/// Identifier of a Host group.
#[derive(Clone, Copy, Debug, PartialEq, Eq, Structural, Hash, PartialOrd, Ord)]
pub struct GroupId(u128);

/// Identifier of a terminal session.
#[derive(Clone, Copy, Debug, PartialEq, Eq, Structural, Hash, PartialOrd, Ord)]
pub struct SessionId(u128);

/// Identifier of a local shell profile.
#[derive(Clone, Copy, Debug, PartialEq, Eq, Structural, Hash, PartialOrd, Ord)]
pub struct ShellProfileId(u128);

/// Identifier of a trusted SSH host key.
#[derive(Clone, Copy, Debug, PartialEq, Eq, Structural, Hash, PartialOrd, Ord)]
pub struct KnownHostId(u128);

impl View for HostId {
    type V = u128;

    closed spec fn view(&self) -> u128 {
        self.0
    }
}

impl View for GroupId {
    type V = u128;

    closed spec fn view(&self) -> u128 {
        self.0
    }
}

impl View for SessionId {
    type V = u128;

    closed spec fn view(&self) -> u128 {
        self.0
    }
}

impl View for ShellProfileId {
    type V = u128;

    closed spec fn view(&self) -> u128 {
        self.0
    }
}

impl View for KnownHostId {
    type V = u128;

    closed spec fn view(&self) -> u128 {
        self.0
    }
}

impl HostId {
    /// A fresh random identifier.
    pub fn new() -> Self {
        HostId(random_uuid())
    }

    pub fn from_u128(value: u128) -> (r: Self)
        ensures
            r@ == value,
    {
        HostId(value)
    }

    pub fn as_u128(&self) -> (r: u128)
        ensures
            r == self@,
    {
        self.0
    }

    /// The hyphenated text of the identifier.
    pub fn to_string(&self) -> (s: String)
        ensures
            s@ == uuid_text(self@),
            spec_uuid_parse(s@) == Some(self@),
    {
        uuid_to_string(self.0)
    }

    /// The identifier that `text` names, if it names one.
    pub fn parse(text: &str) -> (r: Option<Self>)
        ensures
            match spec_uuid_parse(text@) {
                Some(v) => r matches Some(id) && id@ == v,
                None => r is None,
            },
    {
        match parse_uuid_value(text) {
            Some(v) => Some(HostId(v)),
            None => None,
        }
    }
}

impl GroupId {
    /// A fresh random identifier.
    pub fn new() -> Self {
        GroupId(random_uuid())
    }

    pub fn from_u128(value: u128) -> (r: Self)
        ensures
            r@ == value,
    {
        GroupId(value)
    }

    pub fn as_u128(&self) -> (r: u128)
        ensures
            r == self@,
    {
        self.0
    }

    /// The hyphenated text of the identifier.
    pub fn to_string(&self) -> (s: String)
        ensures
            s@ == uuid_text(self@),
            spec_uuid_parse(s@) == Some(self@),
    {
        uuid_to_string(self.0)
    }

    /// The identifier that `text` names, if it names one.
    pub fn parse(text: &str) -> (r: Option<Self>)
        ensures
            match spec_uuid_parse(text@) {
                Some(v) => r matches Some(id) && id@ == v,
                None => r is None,
            },
    {
        match parse_uuid_value(text) {
            Some(v) => Some(GroupId(v)),
            None => None,
        }
    }
}

impl SessionId {
    /// A fresh random identifier.
    pub fn new() -> Self {
        SessionId(random_uuid())
    }

    pub fn from_u128(value: u128) -> (r: Self)
        ensures
            r@ == value,
    {
        SessionId(value)
    }

    pub fn as_u128(&self) -> (r: u128)
        ensures
            r == self@,
    {
        self.0
    }

    /// The hyphenated text of the identifier.
    pub fn to_string(&self) -> (s: String)
        ensures
            s@ == uuid_text(self@),
            spec_uuid_parse(s@) == Some(self@),
    {
        uuid_to_string(self.0)
    }

    /// The identifier that `text` names, if it names one.
    pub fn parse(text: &str) -> (r: Option<Self>)
        ensures
            match spec_uuid_parse(text@) {
                Some(v) => r matches Some(id) && id@ == v,
                None => r is None,
            },
    {
        match parse_uuid_value(text) {
            Some(v) => Some(SessionId(v)),
            None => None,
        }
    }
}

impl ShellProfileId {
    /// A fresh random identifier.
    pub fn new() -> Self {
        ShellProfileId(random_uuid())
    }

    pub fn from_u128(value: u128) -> (r: Self)
        ensures
            r@ == value,
    {
        ShellProfileId(value)
    }

    pub fn as_u128(&self) -> (r: u128)
        ensures
            r == self@,
    {
        self.0
    }

    /// The hyphenated text of the identifier.
    pub fn to_string(&self) -> (s: String)
        ensures
            s@ == uuid_text(self@),
            spec_uuid_parse(s@) == Some(self@),
    {
        uuid_to_string(self.0)
    }

    /// The identifier that `text` names, if it names one.
    pub fn parse(text: &str) -> (r: Option<Self>)
        ensures
            match spec_uuid_parse(text@) {
                Some(v) => r matches Some(id) && id@ == v,
                None => r is None,
            },
    {
        match parse_uuid_value(text) {
            Some(v) => Some(ShellProfileId(v)),
            None => None,
        }
    }
}

impl KnownHostId {
    /// A fresh random identifier.
    pub fn new() -> Self {
        KnownHostId(random_uuid())
    }

    pub fn from_u128(value: u128) -> (r: Self)
        ensures
            r@ == value,
    {
        KnownHostId(value)
    }

    pub fn as_u128(&self) -> (r: u128)
        ensures
            r == self@,
    {
        self.0
    }

    /// The hyphenated text of the identifier.
    pub fn to_string(&self) -> (s: String)
        ensures
            s@ == uuid_text(self@),
            spec_uuid_parse(s@) == Some(self@),
    {
        uuid_to_string(self.0)
    }

    /// The identifier that `text` names, if it names one.
    pub fn parse(text: &str) -> (r: Option<Self>)
        ensures
            match spec_uuid_parse(text@) {
                Some(v) => r matches Some(id) && id@ == v,
                None => r is None,
            },
    {
        match parse_uuid_value(text) {
            Some(v) => Some(KnownHostId(v)),
            None => None,
        }
    }
}

} // verus!
