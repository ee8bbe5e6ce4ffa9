//! Local sessions on a pseudo-terminal: shell discovery, dimensions, the decoding of
//! WSL distribution lists and the decisions of the output pump. The PTY itself, its
//! threads and channels belong to the adapter.
use vstd::prelude::*;
use crate::domain::{
    views, SessionDescriptor, SessionKind, SessionStatus, ShellProfile,
};
use crate::ids::{SessionId, ShellProfileId};
use crate::text::{chars_of, is_ws, lines_of, string_of, text_lines, trim, trim_end, trim_start};

verus! {

pub const DEFAULT_ROWS: u16 = 24;

pub const DEFAULT_COLUMNS: u16 = 80;

/// Largest number of rows or columns a terminal may have.
pub const MAX_DIMENSION: u16 = 1000;

/// What a local session reports.
#[derive(Clone, Debug, PartialEq, Eq)]
pub enum SessionEvent {
    Output { session_id: SessionId, data: Vec<u8> },
    Status { session_id: SessionId, status: SessionStatus, reason: Option<String> },
    Exit { session_id: SessionId, exit_code: Option<u32> },
}

pub enum SessionEventView {
    Output { session_id: SessionId, data: Seq<u8> },
    Status { session_id: SessionId, status: SessionStatus, reason: Option<Seq<char>> },
    Exit { session_id: SessionId, exit_code: Option<u32> },
}

pub open spec fn reason_view(r: Option<String>) -> Option<Seq<char>> {
    match r {
        Some(s) => Some(s@),
        None => None,
    }
}

impl View for SessionEvent {
    type V = SessionEventView;

    open spec fn view(&self) -> SessionEventView {
        match self {
            SessionEvent::Output { session_id, data } => SessionEventView::Output {
                session_id: *session_id,
                data: data@,
            },
            SessionEvent::Status { session_id, status, reason } => SessionEventView::Status {
                session_id: *session_id,
                status: *status,
                reason: reason_view(*reason),
            },
            SessionEvent::Exit { session_id, exit_code } => SessionEventView::Exit {
                session_id: *session_id,
                exit_code: *exit_code,
            },
        }
    }
}

pub open spec fn event_views(v: Seq<SessionEvent>) -> Seq<SessionEventView> {
    v.map_values(|e: SessionEvent| e@)
}

/// Receives the events of local sessions.
pub trait SessionEventSink: Send + Sync {
    fn emit(&self, event: SessionEvent);
}

#[derive(Clone, Debug, PartialEq, Eq)]
pub enum TerminalError {
    InvalidSize,
    ProfileNotFound,
    SessionNotFound,
    Pty(String),
    Io(String),
    StateUnavailable,
}

pub open spec fn local_error_text(e: TerminalError) -> Seq<char> {
    match e {
        TerminalError::InvalidSize => "terminal dimensions are invalid"@,
        TerminalError::ProfileNotFound => "shell profile was not found"@,
        TerminalError::SessionNotFound => "terminal session was not found"@,
        TerminalError::Pty(m) => "PTY operation failed: "@ + m@,
        TerminalError::Io(m) => "terminal I/O failed: "@ + m@,
        TerminalError::StateUnavailable => "terminal state is unavailable"@,
    }
}

impl TerminalError {
    pub fn message(&self) -> (s: String)
        ensures
            s@ == local_error_text(*self),
    {
        match self {
            TerminalError::InvalidSize => String::from_str("terminal dimensions are invalid"),
            TerminalError::ProfileNotFound => String::from_str("shell profile was not found"),
            TerminalError::SessionNotFound => String::from_str("terminal session was not found"),
            TerminalError::Pty(m) => {
                let mut s = String::from_str("PTY operation failed: ");
                s.append(m.as_str());
                s
            },
            TerminalError::Io(m) => {
                let mut s = String::from_str("terminal I/O failed: ");
                s.append(m.as_str());
                s
            },
            TerminalError::StateUnavailable => String::from_str("terminal state is unavailable"),
        }
    }
}

/// Rows and columns of a terminal, both within `1..=MAX_DIMENSION`.
#[derive(Clone, Copy, Debug, PartialEq, Eq, Structural)]
pub struct TerminalSize {
    pub rows: u16,
    pub columns: u16,
}

pub open spec fn size_valid(rows: u16, columns: u16) -> bool {
    1 <= rows <= MAX_DIMENSION && 1 <= columns <= MAX_DIMENSION
}

/// The terminal size for `rows` and `columns`, refused unless both are in range.
pub fn validated_size(rows: u16, columns: u16) -> (r: Result<TerminalSize, TerminalError>)
    ensures
        size_valid(rows, columns) ==> r == Ok::<TerminalSize, TerminalError>(
            TerminalSize { rows, columns },
        ),
        !size_valid(rows, columns) ==> r == Err::<TerminalSize, TerminalError>(
            TerminalError::InvalidSize,
        ),
{
    if rows == 0 || columns == 0 || rows > MAX_DIMENSION || columns > MAX_DIMENSION {
        return Err(TerminalError::InvalidSize);
    }
    Ok(TerminalSize { rows, columns })
}

pub fn default_rows() -> (r: u16)
    ensures
        r == DEFAULT_ROWS,
{
    DEFAULT_ROWS
}

pub fn default_columns() -> (r: u16)
    ensures
        r == DEFAULT_COLUMNS,
{
    DEFAULT_COLUMNS
}

/// The shells that can be started on this machine.
#[derive(Clone, Debug)]
pub struct ShellCatalog {
    profiles: Vec<ShellProfile>,
}

impl ShellCatalog {
    pub closed spec fn entries(&self) -> Seq<ShellProfile> {
        self.profiles@
    }

    /// A catalog of the given profiles, in order.
    pub fn from_profiles(profiles: Vec<ShellProfile>) -> (c: Self)
        ensures
            c.entries() == profiles@,
    {
        ShellCatalog { profiles }
    }

    pub fn profiles(&self) -> (r: &[ShellProfile])
        ensures
            r@ == self.entries(),
    {
        self.profiles.as_slice()
    }

    /// The first profile with identifier `id`.
    pub fn find(&self, id: ShellProfileId) -> (r: Result<&ShellProfile, TerminalError>)
        ensures
            r matches Ok(p) ==> exists|i: int|
                0 <= i < self.entries().len() && self.entries()[i] == *p && p.id == id
                    && forall|j: int| 0 <= j < i ==> (#[trigger] self.entries()[j]).id != id,
            r is Err ==> r == Err::<&ShellProfile, TerminalError>(TerminalError::ProfileNotFound)
                && forall|j: int| 0 <= j < self.entries().len() ==> (#[trigger] self.entries()[j]).id != id,
    {
        let mut i: usize = 0;
        while i < self.profiles.len()
            invariant
                i <= self.profiles@.len(),
                forall|j: int| 0 <= j < i ==> (#[trigger] self.profiles@[j]).id != id,
            decreases self.profiles@.len() - i,
        {
            if self.profiles[i].id == id {
                assert(self.entries()[i as int] == self.profiles@[i as int]);
                assert(forall|j: int| 0 <= j < i ==> (#[trigger] self.entries()[j]).id != id);
                return Ok(&self.profiles[i]);
            }
            i += 1;
        }
        Err(TerminalError::ProfileNotFound)
    }
}

/// The program of the login shell: the configured one when it names an existing file,
/// otherwise `/bin/sh`.
pub fn login_shell_program(configured: Option<String>, configured_is_file: bool) -> (r: String)
    ensures
        configured is Some && configured_is_file ==> r@ == configured->0@,
        !(configured is Some && configured_is_file) ==> r@ == "/bin/sh"@,
{
    match configured {
        Some(c) if configured_is_file => c,
        _ => String::from_str("/bin/sh"),
    }
}

/// The catalog with the login shell alone, named after its file name (`Shell` when the
/// path has none); empty if that name is blank or the program is empty.
pub fn login_shell_catalog(program: String, file_name: Option<String>) -> (c: ShellCatalog)
    ensures
        ({
            let name = match file_name {
                Some(n) => n@,
                None => "Shell"@,
            };
            if program@.len() > 0 && trim(name).len() > 0 {
                c.entries().len() == 1 && c.entries()[0].name@ == trim(name)
                    && c.entries()[0].program@ == program@ && c.entries()[0].arguments@.len() == 0
            } else {
                c.entries().len() == 0
            }
        }),
{
    let name = match file_name {
        Some(n) => n,
        None => String::from_str("Shell"),
    };
    let mut profiles: Vec<ShellProfile> = Vec::new();
    match ShellProfile::new(name.as_str(), program, Vec::new()) {
        Ok(p) => {
            profiles.push(p);
        },
        Err(_) => {},
    }
    ShellCatalog { profiles }
}

/// The descriptor of a local session started from `profile`, already connected.
pub fn local_descriptor(profile: &ShellProfile) -> (r: Result<SessionDescriptor, TerminalError>)
    ensures
        trim(profile.name@).len() > 0 ==> (r matches Ok(d) && d.kind == (SessionKind::Local {
            shell_profile_id: profile.id,
        }) && d.title@ == trim(profile.name@) && d.status == SessionStatus::Connected),
        trim(profile.name@).len() == 0 ==> r is Err && r->Err_0 is Pty,
{
    match SessionDescriptor::new(
        SessionKind::Local { shell_profile_id: profile.id },
        profile.name.as_str(),
        SessionStatus::Connected,
    ) {
        Ok(d) => Ok(d),
        Err(e) => Err(TerminalError::Pty(e.message())),
    }
}

/// Characters stripped from both ends of a WSL distribution line.
pub open spec fn is_wsl_pad(c: char) -> bool {
    c == '\0' || c == '\r' || c == ' ' || c == '*'
}

/// `str::trim_matches` with the WSL padding characters.
pub open spec fn strip_pad(s: Seq<char>) -> Seq<char>
    decreases s.len(),
{
    if s.len() > 0 && is_wsl_pad(s[0]) {
        strip_pad(s.drop_first())
    } else if s.len() > 0 && is_wsl_pad(s.last()) {
        strip_pad(s.drop_last())
    } else {
        s
    }
}

fn strip_padding(v: &Vec<char>) -> (r: String)
    ensures
        r@ == strip_pad(v@),
{
    let mut lo: usize = 0;
    let mut hi: usize = v.len();
    assert(v@.subrange(0, v@.len() as int) =~= v@);
    loop
        invariant
            lo <= hi <= v@.len(),
            strip_pad(v@) == strip_pad(v@.subrange(lo as int, hi as int)),
        decreases hi - lo,
    {
        let ghost s = v@.subrange(lo as int, hi as int);
        if lo < hi && (v[lo] == '\0' || v[lo] == '\r' || v[lo] == ' ' || v[lo] == '*') {
            assert(s[0] == v@[lo as int]);
            assert(s.drop_first() =~= v@.subrange(lo + 1, hi as int));
            lo += 1;
        } else if lo < hi && (v[hi - 1] == '\0' || v[hi - 1] == '\r' || v[hi - 1] == ' ' || v[hi
            - 1] == '*') {
            assert(s[0] == v@[lo as int]);
            assert(s.last() == v@[hi - 1]);
            assert(s.drop_last() =~= v@.subrange(lo as int, hi - 1));
            hi -= 1;
        } else {
            if lo < hi {
                assert(s[0] == v@[lo as int]);
                assert(s.last() == v@[hi - 1]);
            }
            let piece = crate::text::slice_chars(v.as_slice(), lo, hi);
            return string_of(&piece);
        }
    }
}

/// The distribution names of a decoded WSL list: each line stripped, blank lines dropped.
pub open spec fn wsl_names(lines: Seq<Seq<char>>) -> Seq<Seq<char>>
    decreases lines.len(),
{
    if lines.len() == 0 {
        seq![]
    } else if strip_pad(lines.last()).len() == 0 {
        wsl_names(lines.drop_last())
    } else {
        wsl_names(lines.drop_last()).push(strip_pad(lines.last()))
    }
}

/// The distribution names listed in decoded `wsl --list --quiet` output.
pub fn wsl_distributions(decoded: &str) -> (r: Vec<String>)
    ensures
        views(r@) == wsl_names(text_lines(decoded@)),
{
    let chars = chars_of(decoded);
    let lines = lines_of(&chars);
    let ghost ls = lines@.map_values(|p: Vec<char>| p@);
    let mut r: Vec<String> = Vec::new();
    let mut i: usize = 0;
    assert(ls.take(0) =~= seq![]);
    assert(views(r@) =~= seq![]);
    while i < lines.len()
        invariant
            i <= lines@.len(),
            ls == lines@.map_values(|p: Vec<char>| p@),
            ls == text_lines(decoded@),
            views(r@) == wsl_names(ls.take(i as int)),
        decreases lines@.len() - i,
    {
        assert(ls.take(i + 1).drop_last() =~= ls.take(i as int));
        assert(ls.take(i + 1).last() == lines@[i as int]@);
        let name = strip_padding(&lines[i]);
        if name.as_str().is_empty() {
        } else {
            let ghost before = views(r@);
            r.push(name);
            assert(views(r@) =~= before.push(strip_pad(lines@[i as int]@)));
        }
        i += 1;
    }
    assert(ls.take(lines@.len() as int) =~= ls);
    r
}

/// What `String::from_utf8_lossy` makes of a byte sequence.
pub uninterp spec fn spec_utf8_lossy(bytes: Seq<u8>) -> Seq<char>;

/// UTF-16 decoding with each unpaired surrogate replaced by U+FFFD: a unit outside the
/// surrogate range is its own character, a high surrogate followed by a low one is the
/// character they encode together, and any other surrogate is replaced.
pub open spec fn utf16_decoded(units: Seq<u16>) -> Seq<char>
    decreases units.len(),
{
    if units.len() == 0 {
        Seq::empty()
    } else {
        let u = units[0];
        if u < 0xD800 || u > 0xDFFF {
            seq![u as char] + utf16_decoded(units.drop_first())
        } else if u <= 0xDBFF && units.len() > 1 && 0xDC00 <= units[1] <= 0xDFFF {
            let c = 0x10000 + (u - 0xD800) * 0x400 + (units[1] - 0xDC00);
            seq![c as char] + utf16_decoded(units.subrange(2, units.len() as int))
        } else {
            seq!['\u{FFFD}'] + utf16_decoded(units.drop_first())
        }
    }
}

/// Calls `String::from_utf8_lossy`: the contract claims only that the text depends on
/// the bytes alone.
#[verifier::external_body]
fn utf8_lossy(bytes: &[u8]) -> (r: String)
    ensures
        r@ == spec_utf8_lossy(bytes@),
{
    String::from_utf8_lossy(bytes).into_owned()
}

/// Calls `String::from_utf16_lossy`, which its documentation describes as decoding the
/// units as UTF-16 and replacing invalid data, the unpaired surrogates that
/// `char::decode_utf16` reports one by one, with U+FFFD.
#[verifier::external_body]
fn utf16_lossy(units: &[u16]) -> (r: String)
    ensures
        r@ == utf16_decoded(units@),
{
    String::from_utf16_lossy(units)
}

/// How many bytes at odd positions are zero.
pub open spec fn odd_zeros(b: Seq<u8>) -> nat
    decreases b.len(),
{
    if b.len() == 0 {
        0
    } else {
        odd_zeros(b.drop_last()) + if (b.len() - 1) % 2 == 1 && b.last() == 0 {
            1nat
        } else {
            0nat
        }
    }
}

/// Output looks like UTF-16 when more than an eighth of its length is zero high bytes.
pub open spec fn looks_utf16(b: Seq<u8>) -> bool {
    odd_zeros(b) > b.len() / 8
}

/// Little-endian code units of consecutive byte pairs; an odd last byte is dropped.
pub open spec fn le_units(b: Seq<u8>) -> Seq<u16> {
    Seq::new(b.len() / 2, |i: int| (b[2 * i] + 256 * b[2 * i + 1]) as u16)
}

/// The text of `wsl --list --quiet` output, which is UTF-16 on most systems.
pub open spec fn wsl_text(b: Seq<u8>) -> Seq<char> {
    if looks_utf16(b) {
        utf16_decoded(le_units(b))
    } else {
        spec_utf8_lossy(b)
    }
}

fn count_odd_zeros(bytes: &[u8]) -> (r: usize)
    ensures
        r == odd_zeros(bytes@),
{
    let mut n: usize = 0;
    let mut i: usize = 0;
    assert(bytes@.take(0) =~= seq![]);
    while i < bytes.len()
        invariant
            i <= bytes@.len(),
            n == odd_zeros(bytes@.take(i as int)),
            n <= i,
        decreases bytes@.len() - i,
    {
        assert(bytes@.take(i + 1).drop_last() =~= bytes@.take(i as int));
        assert(bytes@.take(i + 1).last() == bytes@[i as int]);
        if i % 2 == 1 && bytes[i] == 0 {
            n += 1;
        }
        i += 1;
    }
    assert(bytes@.take(bytes@.len() as int) =~= bytes@);
    n
}

fn utf16_units(bytes: &[u8]) -> (r: Vec<u16>)
    ensures
        r@ == le_units(bytes@),
{
    let mut r: Vec<u16> = Vec::new();
    let mut i: usize = 0;
    let n = bytes.len();
    let half = n / 2;
    while i < half
        invariant
            n == bytes@.len(),
            half == bytes@.len() / 2,
            i <= half,
            r@.len() == i,
            forall|j: int| 0 <= j < i ==> r@[j] == le_units(bytes@)[j],
        decreases half - i,
    {
        assert(2 * i + 1 < n) by {
            assert(i < n / 2);
        }
        let low = bytes[2 * i] as u16;
        let high = bytes[2 * i + 1] as u16;
        r.push(low + 256 * high);
        i += 1;
    }
    assert(r@ =~= le_units(bytes@));
    r
}

/// The WSL distribution names in raw `wsl --list --quiet` output, UTF-16 or UTF-8.
pub fn decode_wsl_output(bytes: &[u8]) -> (r: Vec<String>)
    ensures
        views(r@) == wsl_names(text_lines(wsl_text(bytes@))),
{
    let zeros = count_odd_zeros(bytes);
    let decoded = if zeros > bytes.len() / 8 {
        let units = utf16_units(bytes);
        utf16_lossy(units.as_slice())
    } else {
        utf8_lossy(bytes)
    };
    wsl_distributions(decoded.as_str())
}

/// A shell profile by its name, program and arguments.
pub open spec fn profile_shape(p: ShellProfile) -> (Seq<char>, Seq<char>, Seq<Seq<char>>) {
    (p.name@, p.program@, views(p.arguments@))
}

/// The profile of a WSL distribution.
pub open spec fn wsl_profile(d: Seq<char>) -> (Seq<char>, Seq<char>, Seq<Seq<char>>) {
    (trim("WSL · "@ + d), "wsl.exe"@, seq!["--distribution"@, d])
}

/// The shells offered on Windows: PowerShell and Command Prompt where they are available,
/// then one profile per WSL distribution.
pub open spec fn windows_shells(powershell: bool, command_prompt: bool, distributions: Seq<Seq<char>>) -> Seq<
    (Seq<char>, Seq<char>, Seq<Seq<char>>),
> {
    (if powershell {
        seq![("PowerShell"@, "powershell.exe"@, seq!["-NoLogo"@])]
    } else {
        Seq::empty()
    }) + (if command_prompt {
        seq![("Command Prompt"@, "cmd.exe"@, Seq::<Seq<char>>::empty())]
    } else {
        Seq::empty()
    }) + distributions.map_values(|d: Seq<char>| wsl_profile(d))
}

proof fn lemma_trim_keeps_first(s: Seq<char>)
    requires
        s.len() > 0,
        !is_ws(s[0]),
    ensures
        trim(s).len() > 0,
    decreases s.len(),
{
    assert(trim_start(s) == s);
    lemma_trim_end_keeps_first(s);
}

proof fn lemma_trim_end_keeps_first(s: Seq<char>)
    requires
        s.len() > 0,
        !is_ws(s[0]),
    ensures
        trim_end(s).len() > 0,
    decreases s.len(),
{
    if s.len() > 1 && is_ws(s.last()) {
        assert(s.drop_last()[0] == s[0]);
        lemma_trim_end_keeps_first(s.drop_last());
    }
}

proof fn lemma_plain_name(s: Seq<char>)
    requires
        s.len() > 0,
        !is_ws(s[0]),
        !is_ws(s.last()),
    ensures
        trim(s) == s,
        trim(s).len() > 0,
{
    assert(trim_start(s) == s);
    assert(trim_end(s) == s);
}

fn push_profile(profiles: &mut Vec<ShellProfile>, name: &str, program: &str, arguments: Vec<String>)
    requires
        program@.len() > 0,
        trim(name@).len() > 0,
    ensures
        final(profiles)@.len() == old(profiles)@.len() + 1,
        final(profiles)@.take(old(profiles)@.len() as int) == old(profiles)@,
        profile_shape(final(profiles)@.last()) == (trim(name@), program@, views(arguments@)),
{
    match ShellProfile::new(name, program.to_owned(), arguments) {
        Ok(p) => {
            profiles.push(p);
            assert(profiles@.take(old(profiles)@.len() as int) =~= old(profiles)@);
        },
        Err(_) => {},
    }
}

/// The Windows shell catalog from what the machine offers: whether PowerShell and Command
/// Prompt are available, and the raw `wsl --list --quiet` output when WSL is available.
pub fn windows_shell_catalog(powershell: bool, command_prompt: bool, wsl_listing: Option<&[u8]>) -> (c: ShellCatalog)
    ensures
        c.entries().map_values(|p: ShellProfile| profile_shape(p)) == windows_shells(
            powershell,
            command_prompt,
            match wsl_listing {
                Some(b) => wsl_names(text_lines(wsl_text(b@))),
                None => Seq::empty(),
            },
        ),
{
    proof {
        reveal_strlit("PowerShell");
        reveal_strlit("Command Prompt");
        reveal_strlit("powershell.exe");
        reveal_strlit("cmd.exe");
        lemma_plain_name("PowerShell"@);
        lemma_plain_name("Command Prompt"@);
    }
    let mut profiles: Vec<ShellProfile> = Vec::new();
    let ghost shells = windows_shells(powershell, command_prompt, Seq::empty());
    if powershell {
        let arguments = vec![String::from_str("-NoLogo")];
        assert(views(arguments@) =~= seq!["-NoLogo"@]);
        push_profile(&mut profiles, "PowerShell", "powershell.exe", arguments);
    }
    assert(profiles@.map_values(|p: ShellProfile| profile_shape(p)) =~= (if powershell {
        seq![("PowerShell"@, "powershell.exe"@, seq!["-NoLogo"@])]
    } else {
        Seq::empty()
    }));
    if command_prompt {
        let ghost before = profiles@;
        let arguments: Vec<String> = Vec::new();
        assert(views(arguments@) =~= Seq::<Seq<char>>::empty());
        push_profile(&mut profiles, "Command Prompt", "cmd.exe", arguments);
        assert(profiles@ =~= before.push(profiles@.last()));
    }
    let ghost first = profiles@.map_values(|p: ShellProfile| profile_shape(p));
    assert(first =~= shells);
    let distributions: Vec<String> = match wsl_listing {
        Some(b) => decode_wsl_output(b),
        None => Vec::new(),
    };
    let ghost names = views(distributions@);
    let mut i: usize = 0;
    assert(names.take(0).map_values(|d: Seq<char>| wsl_profile(d)) =~= Seq::empty());
    assert(first + names.take(0).map_values(|d: Seq<char>| wsl_profile(d)) =~= first);
    while i < distributions.len()
        invariant
            i <= distributions@.len(),
            names == views(distributions@),
            profiles@.map_values(|p: ShellProfile| profile_shape(p)) == first + names.take(i as int).map_values(
                |d: Seq<char>| wsl_profile(d),
            ),
        decreases distributions@.len() - i,
    {
        let d = &distributions[i];
        let mut name = String::from_str("WSL · ");
        name.append(d.as_str());
        proof {
            reveal_strlit("WSL · ");
            reveal_strlit("wsl.exe");
            assert(name@[0] == 'W');
            lemma_trim_keeps_first(name@);
        }
        let arguments = vec![String::from_str("--distribution"), d.clone()];
        assert(views(arguments@) =~= seq!["--distribution"@, d@]);
        let ghost before = profiles@;
        push_profile(&mut profiles, name.as_str(), "wsl.exe", arguments);
        proof {
            let old_shapes = before.map_values(|p: ShellProfile| profile_shape(p));
            let shapes = profiles@.map_values(|p: ShellProfile| profile_shape(p));
            let want = first + names.take(i + 1).map_values(|e: Seq<char>| wsl_profile(e));
            assert(names[i as int] == d@);
            assert(profile_shape(profiles@.last()) == wsl_profile(d@));
            assert(names.len() == distributions@.len());
            assert(old_shapes.len() == before.len());
            assert(names.take(i as int).len() == i);
            assert(names.take(i + 1).len() == i + 1);
            assert(shapes.len() == want.len());
            assert forall|k: int| 0 <= k < shapes.len() implies shapes[k] == want[k] by {
                if k < before.len() {
                    assert(profiles@[k] == profiles@.take(before.len() as int)[k]);
                    assert(shapes[k] == old_shapes[k]);
                } else {
                    assert(k == before.len());
                    assert(profiles@[k] == profiles@.last());
                }
            }
            assert(shapes =~= want);
        }
        i += 1;
    }
    assert(names.take(names.len() as int) =~= names);
    ShellCatalog { profiles }
}

/// What the output pump receives next.
pub enum PumpInput {
    /// Bytes read from the terminal.
    Chunk(Vec<u8>),
    /// Reading failed with this message.
    ReadFailed(String),
    /// The batching window closed without more output.
    WindowElapsed,
    /// The reader stopped: no more output will come.
    ReaderClosed,
}

pub enum PumpInputView {
    Chunk(Seq<u8>),
    ReadFailed(Seq<char>),
    WindowElapsed,
    ReaderClosed,
}

impl View for PumpInput {
    type V = PumpInputView;

    open spec fn view(&self) -> PumpInputView {
        match self {
            PumpInput::Chunk(c) => PumpInputView::Chunk(c@),
            PumpInput::ReadFailed(m) => PumpInputView::ReadFailed(m@),
            PumpInput::WindowElapsed => PumpInputView::WindowElapsed,
            PumpInput::ReaderClosed => PumpInputView::ReaderClosed,
        }
    }
}

/// Output is sent in batches of at most about this many bytes.
pub const MAX_BATCH_BYTES: usize = 65536;

pub open spec fn flush_view(id: SessionId, batch: Seq<u8>, active: bool) -> Seq<SessionEventView> {
    if active {
        seq![SessionEventView::Output { session_id: id, data: batch }]
    } else {
        seq![]
    }
}

pub open spec fn failure_view(id: SessionId, message: Seq<char>, active: bool) -> Seq<SessionEventView> {
    if active {
        seq![SessionEventView::Status { session_id: id, status: SessionStatus::Failed, reason: Some(message) }]
    } else {
        seq![]
    }
}

/// One step of the output pump: the batch it holds next, the events it emits (only while
/// the session is active), and whether it stops.
pub open spec fn pump_step(id: SessionId, batch: Option<Seq<u8>>, input: PumpInputView, active: bool) -> (
    Option<Seq<u8>>,
    Seq<SessionEventView>,
    bool,
) {
    let held = match batch {
        Some(b) => b,
        None => seq![],
    };
    match input {
        PumpInputView::Chunk(c) => {
            let next = held + c;
            if next.len() >= MAX_BATCH_BYTES {
                (None, flush_view(id, next, active), false)
            } else {
                (Some(next), seq![], false)
            }
        },
        PumpInputView::ReadFailed(m) => match batch {
            Some(b) => (None, failure_view(id, m, active) + flush_view(id, b, active), true),
            None => (None, failure_view(id, m, active), true),
        },
        PumpInputView::WindowElapsed => match batch {
            Some(b) => (None, flush_view(id, b, active), false),
            None => (None, seq![], false),
        },
        PumpInputView::ReaderClosed => match batch {
            Some(b) => (None, flush_view(id, b, active), true),
            None => (None, seq![], true),
        },
    }
}

/// The decisions of the output pump of one session: it gathers chunks into a batch until
/// the batch is large or the window closes, and reports a read failure.
pub struct OutputBatcher {
    session_id: SessionId,
    batch: Option<Vec<u8>>,
}

/// The events one pump step emits, and whether the pump stops.
pub struct PumpStep {
    pub events: Vec<SessionEvent>,
    pub finished: bool,
}

impl OutputBatcher {
    pub closed spec fn session(&self) -> SessionId {
        self.session_id
    }

    pub closed spec fn held(&self) -> Option<Seq<u8>> {
        match self.batch {
            Some(b) => Some(b@),
            None => None,
        }
    }

    pub fn new(session_id: SessionId) -> (b: Self)
        ensures
            b.session() == session_id,
            b.held() is None,
    {
        OutputBatcher { session_id, batch: None }
    }

    /// Whether a batch is being gathered, so the next wait is bounded by the window.
    pub fn is_batching(&self) -> (r: bool)
        ensures
            r == self.held() is Some,
    {
        self.batch.is_some()
    }

    fn flush(id: SessionId, batch: Vec<u8>, active: bool, events: &mut Vec<SessionEvent>)
        ensures
            event_views(final(events)@) == event_views(old(events)@) + flush_view(id, batch@, active),
    {
        let ghost before = event_views(events@);
        if active {
            events.push(SessionEvent::Output { session_id: id, data: batch });
            assert(event_views(events@) =~= before + flush_view(id, batch@, active));
        } else {
            assert(event_views(events@) =~= before + flush_view(id, batch@, active));
        }
    }

    fn fail(id: SessionId, message: String, active: bool, events: &mut Vec<SessionEvent>)
        ensures
            event_views(final(events)@) == event_views(old(events)@) + failure_view(id, message@, active),
    {
        let ghost before = event_views(events@);
        if active {
            events.push(
                SessionEvent::Status { session_id: id, status: SessionStatus::Failed, reason: Some(message) },
            );
            assert(event_views(events@) =~= before + failure_view(id, message@, active));
        } else {
            assert(event_views(events@) =~= before + failure_view(id, message@, active));
        }
    }

    /// Applies one input; `active` says whether the session may still emit.
    pub fn step(&mut self, input: PumpInput, active: bool) -> (r: PumpStep)
        ensures
            final(self).session() == old(self).session(),
            (final(self).held(), event_views(r.events@), r.finished) == pump_step(
                old(self).session(),
                old(self).held(),
                input@,
                active,
            ),
    {
        let id = self.session_id;
        let mut events: Vec<SessionEvent> = Vec::new();
        let ghost held_view = self.held();
        let held = self.batch.take();
        assert(event_views(events@) =~= seq![]);
        match input {
            PumpInput::Chunk(mut chunk) => {
                let mut next = match held {
                    Some(b) => b,
                    None => Vec::new(),
                };
                let ghost c = chunk@;
                next.append(&mut chunk);
                if next.len() >= MAX_BATCH_BYTES {
                    Self::flush(id, next, active, &mut events);
                    assert(event_views(events@) =~= flush_view(id, held_view.unwrap_or(seq![]) + c, active)) by {
                        assert(seq![] + flush_view(id, held_view.unwrap_or(seq![]) + c, active) =~= flush_view(id, held_view.unwrap_or(seq![]) + c, active));
                    }
                    PumpStep { events, finished: false }
                } else {
                    self.batch = Some(next);
                    PumpStep { events, finished: false }
                }
            },
            PumpInput::ReadFailed(message) => {
                Self::fail(id, message, active, &mut events);
                match held {
                    Some(b) => {
                        Self::flush(id, b, active, &mut events);
                    },
                    None => {},
                }
                assert(event_views(events@) =~= pump_step(id, held_view, input@, active).1);
                PumpStep { events, finished: true }
            },
            PumpInput::WindowElapsed => {
                match held {
                    Some(b) => {
                        Self::flush(id, b, active, &mut events);
                    },
                    None => {},
                }
                assert(event_views(events@) =~= pump_step(id, held_view, input@, active).1);
                PumpStep { events, finished: false }
            },
            PumpInput::ReaderClosed => {
                match held {
                    Some(b) => {
                        Self::flush(id, b, active, &mut events);
                    },
                    None => {},
                }
                assert(event_views(events@) =~= pump_step(id, held_view, input@, active).1);
                PumpStep { events, finished: true }
            },
        }
    }
}

/// The events reported when the shell process ends: nothing after the session was
/// closed; otherwise its exit code and a disconnection, or the failure to wait for it.
pub open spec fn exit_views(id: SessionId, was_active: bool, waited: Result<u32, Seq<char>>) -> Seq<
    SessionEventView,
> {
    if !was_active {
        seq![]
    } else {
        match waited {
            Ok(code) => seq![
                SessionEventView::Exit { session_id: id, exit_code: Some(code) },
                SessionEventView::Status { session_id: id, status: SessionStatus::Disconnected, reason: None },
            ],
            Err(m) => seq![SessionEventView::Status { session_id: id, status: SessionStatus::Failed, reason: Some(m) }],
        }
    }
}

pub open spec fn waited_view(w: Result<u32, String>) -> Result<u32, Seq<char>> {
    match w {
        Ok(c) => Ok(c),
        Err(m) => Err(m@),
    }
}

/// The events to emit once the shell of session `id` has ended.
pub fn exit_events(id: SessionId, was_active: bool, waited: Result<u32, String>) -> (r: Vec<SessionEvent>)
    ensures
        event_views(r@) == exit_views(id, was_active, waited_view(waited)),
{
    let mut r: Vec<SessionEvent> = Vec::new();
    if was_active {
        match waited {
            Ok(code) => {
                r.push(SessionEvent::Exit { session_id: id, exit_code: Some(code) });
                r.push(SessionEvent::Status { session_id: id, status: SessionStatus::Disconnected, reason: None });
            },
            Err(message) => {
                r.push(SessionEvent::Status { session_id: id, status: SessionStatus::Failed, reason: Some(message) });
            },
        }
    }
    assert(event_views(r@) =~= exit_views(id, was_active, waited_view(waited)));
    r
}

proof fn lemma_strip_pad_clean(s: Seq<char>)
    ensures
        strip_pad(s).len() > 0 ==> !is_wsl_pad(strip_pad(s)[0]) && !is_wsl_pad(strip_pad(s).last()),
    decreases s.len(),
{
    if s.len() > 0 && is_wsl_pad(s[0]) {
        lemma_strip_pad_clean(s.drop_first());
    } else if s.len() > 0 && is_wsl_pad(s.last()) {
        lemma_strip_pad_clean(s.drop_last());
    }
}

/// Every listed WSL distribution name is non-empty and has no padding at either end.
pub proof fn lemma_wsl_names_clean(lines: Seq<Seq<char>>)
    ensures
        forall|i: int|
            0 <= i < wsl_names(lines).len() ==> (#[trigger] wsl_names(lines)[i]).len() > 0 && !is_wsl_pad(
                wsl_names(lines)[i][0],
            ) && !is_wsl_pad(wsl_names(lines)[i].last()),
    decreases lines.len(),
{
    if lines.len() > 0 {
        lemma_wsl_names_clean(lines.drop_last());
        lemma_strip_pad_clean(lines.last());
        let rest = wsl_names(lines.drop_last());
        if strip_pad(lines.last()).len() > 0 {
            assert forall|i: int| 0 <= i < wsl_names(lines).len() implies (#[trigger] wsl_names(lines)[i]).len() > 0
                && !is_wsl_pad(wsl_names(lines)[i][0]) && !is_wsl_pad(wsl_names(lines)[i].last()) by {
                if i < rest.len() {
                    assert(wsl_names(lines)[i] == rest[i]);
                }
            }
        }
    }
}

/// The bytes the output events carry, in order.
pub open spec fn output_bytes(events: Seq<SessionEventView>) -> Seq<u8>
    decreases events.len(),
{
    if events.len() == 0 {
        seq![]
    } else {
        output_bytes(events.drop_last()) + match events.last() {
            SessionEventView::Output { data, .. } => data,
            _ => seq![],
        }
    }
}

/// The bytes read from the terminal, in order.
pub open spec fn chunk_bytes(inputs: Seq<PumpInputView>) -> Seq<u8>
    decreases inputs.len(),
{
    if inputs.len() == 0 {
        seq![]
    } else {
        chunk_bytes(inputs.drop_last()) + match inputs.last() {
            PumpInputView::Chunk(c) => c,
            _ => seq![],
        }
    }
}

/// The pump of an active session after a run of inputs: the batch it holds and every
/// event it emitted.
pub open spec fn pump_run(id: SessionId, inputs: Seq<PumpInputView>) -> (Option<Seq<u8>>, Seq<SessionEventView>)
    decreases inputs.len(),
{
    if inputs.len() == 0 {
        (None, seq![])
    } else {
        let before = pump_run(id, inputs.drop_last());
        let step = pump_step(id, before.0, inputs.last(), true);
        (step.0, before.1 + step.1)
    }
}

pub open spec fn held_bytes(batch: Option<Seq<u8>>) -> Seq<u8> {
    match batch {
        Some(b) => b,
        None => seq![],
    }
}

proof fn lemma_output_bytes_concat(a: Seq<SessionEventView>, b: Seq<SessionEventView>)
    ensures
        output_bytes(a + b) == output_bytes(a) + output_bytes(b),
    decreases b.len(),
{
    if b.len() == 0 {
        assert(a + b =~= a);
        assert(output_bytes(a) + seq![] =~= output_bytes(a));
    } else {
        lemma_output_bytes_concat(a, b.drop_last());
        assert((a + b).drop_last() =~= a + b.drop_last());
        assert((a + b).last() == b.last());
        let tail = match b.last() {
            SessionEventView::Output { data, .. } => data,
            _ => seq![],
        };
        assert(output_bytes(a) + output_bytes(b.drop_last()) + tail =~= output_bytes(a) + (
        output_bytes(b.drop_last()) + tail));
    }
}

/// While the session is active the pump neither loses nor reorders output: what it has
/// emitted followed by the batch it holds is exactly what was read, in order.
pub proof fn lemma_pump_preserves_output(id: SessionId, inputs: Seq<PumpInputView>)
    ensures
        output_bytes(pump_run(id, inputs).1) + held_bytes(pump_run(id, inputs).0) == chunk_bytes(inputs),
    decreases inputs.len(),
{
    if inputs.len() == 0 {
        assert(output_bytes(seq![]) + held_bytes(None) =~= seq![]);
    } else {
        lemma_pump_preserves_output(id, inputs.drop_last());
        let before = pump_run(id, inputs.drop_last());
        let step = pump_step(id, before.0, inputs.last(), true);
        lemma_output_bytes_concat(before.1, step.1);
        let held = held_bytes(before.0);
        assert(output_bytes(Seq::<SessionEventView>::empty()) == Seq::<u8>::empty());
        match inputs.last() {
            PumpInputView::Chunk(c) => {
                let next = held + c;
                if next.len() >= MAX_BATCH_BYTES {
                    let one = seq![SessionEventView::Output { session_id: id, data: next }];
                    assert(one.drop_last() =~= Seq::<SessionEventView>::empty());
                    assert(one.last() == SessionEventView::Output { session_id: id, data: next });
                    assert(output_bytes(one) =~= next);
                    assert(output_bytes(before.1) + next + seq![] =~= output_bytes(before.1) + held + c);
                } else {
                    assert(output_bytes(step.1) =~= seq![]);
                    assert(output_bytes(before.1) + seq![] + next =~= output_bytes(before.1) + held + c);
                }
            },
            PumpInputView::ReadFailed(m) => {
                let fail = seq![SessionEventView::Status { session_id: id, status: SessionStatus::Failed, reason: Some(m) }];
                assert(fail.drop_last() =~= Seq::<SessionEventView>::empty());
                assert(output_bytes(fail) =~= seq![]);
                match before.0 {
                    Some(b) => {
                        let out = seq![SessionEventView::Output { session_id: id, data: b }];
                        assert(out.drop_last() =~= Seq::<SessionEventView>::empty());
                        assert(out.last() == SessionEventView::Output { session_id: id, data: b });
                        assert(output_bytes(out) =~= b);
                        lemma_output_bytes_concat(fail, out);
                        assert(output_bytes(before.1) + (seq![] + b) + seq![] =~= output_bytes(before.1) + b + seq![]);
                    },
                    None => {
                        assert(output_bytes(before.1) + seq![] + seq![] =~= output_bytes(before.1) + seq![] + seq![]);
                    },
                }
            },
            _ => {
                match before.0 {
                    Some(b) => {
                        let out = seq![SessionEventView::Output { session_id: id, data: b }];
                        assert(out.drop_last() =~= Seq::<SessionEventView>::empty());
                        assert(out.last() == SessionEventView::Output { session_id: id, data: b });
                        assert(output_bytes(out) =~= b);
                        assert(output_bytes(before.1) + b + seq![] =~= output_bytes(before.1) + b + seq![]);
                    },
                    None => {
                        assert(output_bytes(step.1) =~= seq![]);
                        assert(output_bytes(before.1) + seq![] + seq![] =~= output_bytes(before.1) + seq![] + seq![]);
                    },
                }
            },
        }
    }
}

} // verus!
