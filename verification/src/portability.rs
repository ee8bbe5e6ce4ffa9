//! Safe portability contracts and a bounded parser for importing Hosts.
use vstd::prelude::*;
use crate::domain::{AuthMethod, Host, HostGroup};
use crate::text::{
    ascii_lower, chars_eq, chars_of, contains_char, eq_ignore_ascii_case, find_char,
    find_whitespace, has_char, idx_of, idx_ws, lemma_idx_of, lemma_idx_ws, lines_of,
    parse_u16, parse_unsigned, slice_chars, split_words, string_of, text_lines, to_ascii_lower,
    str_eq, trim, trim_chars, words,
};
use crate::text::{has_ws, is_ws, lemma_trim_start_skip, split_nl, strip_cr, trim_end, trim_start};
use crate::text::{all_digits, dec_text, is_digit, lemma_dec_text_reads_back};
use crate::ids::GroupId;

verus! {

pub const EXPORT_SCHEMA_VERSION: u8 = 1;

#[derive(Clone, Debug, PartialEq, Eq)]
pub struct PortableGroup {
    pub name: String,
    pub sort_order: i32,
}

#[derive(Clone, Copy, Debug, PartialEq, Eq, Structural)]
pub enum PortableAuthKind {
    Password,
    PrivateKey,
    Agent,
    NoAuth,
}

/// A Host as exported or imported: never a secret nor a vault reference.
#[derive(Clone, Debug, PartialEq, Eq)]
pub struct PortableHost {
    pub name: String,
    pub address: String,
    pub port: u16,
    pub username: Option<String>,
    pub group: Option<String>,
    pub tags: Vec<String>,
    pub favorite: bool,
    pub auth_kind: PortableAuthKind,
    pub private_key_path: Option<String>,
    pub credential_required: bool,
}

pub struct PortableHostView {
    pub name: Seq<char>,
    pub address: Seq<char>,
    pub port: u16,
    pub username: Option<Seq<char>>,
    pub group: Option<Seq<char>>,
    pub tags: Seq<Seq<char>>,
    pub favorite: bool,
    pub auth_kind: PortableAuthKind,
    pub private_key_path: Option<Seq<char>>,
    pub credential_required: bool,
}

pub open spec fn opt_seq(o: Option<String>) -> Option<Seq<char>> {
    match o {
        Some(s) => Some(s@),
        None => None,
    }
}

impl View for PortableHost {
    type V = PortableHostView;

    open spec fn view(&self) -> PortableHostView {
        PortableHostView {
            name: self.name@,
            address: self.address@,
            port: self.port,
            username: opt_seq(self.username),
            group: opt_seq(self.group),
            tags: self.tags@.map_values(|t: String| t@),
            favorite: self.favorite,
            auth_kind: self.auth_kind,
            private_key_path: opt_seq(self.private_key_path),
            credential_required: self.credential_required,
        }
    }
}

/// A copy of a list of texts.
pub fn copy_strings(v: &Vec<String>) -> (r: Vec<String>)
    ensures
        r@ == v@,
{
    let mut r: Vec<String> = Vec::new();
    let mut i: usize = 0;
    while i < v.len()
        invariant
            i <= v@.len(),
            r@ == v@.take(i as int),
        decreases v@.len() - i,
    {
        r.push(v[i].clone());
        assert(r@ =~= v@.take(i + 1));
        i += 1;
    }
    assert(v@.take(v@.len() as int) =~= v@);
    r
}

pub fn copy_opt_string(o: &Option<String>) -> (r: Option<String>)
    ensures
        r == *o,
{
    match o {
        Some(s) => Some(s.clone()),
        None => None,
    }
}

impl PortableHost {
    pub fn duplicate(&self) -> (r: PortableHost)
        ensures
            r@ == self@,
    {
        PortableHost {
            name: self.name.clone(),
            address: self.address.clone(),
            port: self.port,
            username: copy_opt_string(&self.username),
            group: copy_opt_string(&self.group),
            tags: copy_strings(&self.tags),
            favorite: self.favorite,
            auth_kind: self.auth_kind,
            private_key_path: copy_opt_string(&self.private_key_path),
            credential_required: self.credential_required,
        }
    }
}

/// A portable workspace document; settings hold only portable keys.
#[derive(Clone, Debug, PartialEq, Eq)]
pub struct WorkspaceExport {
    pub schema_version: u8,
    pub exported_at: String,
    pub groups: Vec<PortableGroup>,
    pub hosts: Vec<PortableHost>,
    pub settings: Vec<(String, String)>,
}

/// A configuration line the import did not apply, and why.
#[derive(Clone, Debug, PartialEq, Eq)]
pub struct IgnoredDirective {
    pub line: usize,
    pub directive: String,
    pub reason: String,
}

pub struct IgnoredView {
    pub line: int,
    pub directive: Seq<char>,
    pub reason: Seq<char>,
}

impl View for IgnoredDirective {
    type V = IgnoredView;

    open spec fn view(&self) -> IgnoredView {
        IgnoredView { line: self.line as int, directive: self.directive@, reason: self.reason@ }
    }
}

#[derive(Clone, Copy, Debug, PartialEq, Eq, Structural)]
pub enum ImportAction {
    Create,
    Update,
    Skip,
}

#[derive(Clone, Debug, PartialEq, Eq)]
pub struct ImportPreviewEntry {
    pub host: PortableHost,
    pub conflict: bool,
    pub default_action: ImportAction,
}

pub struct EntryView {
    pub host: PortableHostView,
    pub conflict: bool,
    pub default_action: ImportAction,
}

impl View for ImportPreviewEntry {
    type V = EntryView;

    open spec fn view(&self) -> EntryView {
        EntryView { host: self.host@, conflict: self.conflict, default_action: self.default_action }
    }
}

#[derive(Clone, Debug, PartialEq, Eq)]
pub struct ImportPreview {
    pub groups: Vec<PortableGroup>,
    pub settings: Vec<(String, String)>,
    pub entries: Vec<ImportPreviewEntry>,
    pub ignored: Vec<IgnoredDirective>,
}

#[derive(Clone, Copy, Debug, PartialEq, Eq, Structural)]
pub enum PortabilityError {
    InvalidFormat,
    UnsupportedSchema,
    InvalidSelection,
}

impl PortabilityError {
    pub fn message(&self) -> (s: &'static str)
        ensures
            s@ == match self {
                PortabilityError::InvalidFormat => "workspace format is invalid"@,
                PortabilityError::UnsupportedSchema => "workspace schema version is unsupported"@,
                PortabilityError::InvalidSelection => "import selection is invalid"@,
            },
    {
        match self {
            PortabilityError::InvalidFormat => "workspace format is invalid",
            PortabilityError::UnsupportedSchema => "workspace schema version is unsupported",
            PortabilityError::InvalidSelection => "import selection is invalid",
        }
    }
}

/// The names of the Hosts already saved.
pub open spec fn host_names(existing: Seq<Host>) -> Seq<Seq<char>> {
    existing.map_values(|h: Host| h.name@)
}

/// A saved Host has the same name, ignoring ASCII case.
pub open spec fn name_conflicts(name: Seq<char>, existing: Seq<Seq<char>>) -> bool {
    exists|j: int| 0 <= j < existing.len() && ascii_lower(#[trigger] existing[j]) == ascii_lower(name)
}

/// The preview of one imported Host: a name conflict is skipped by default.
pub open spec fn preview_of(h: PortableHostView, existing: Seq<Seq<char>>) -> EntryView {
    let conflict = name_conflicts(h.name, existing);
    EntryView {
        host: h,
        conflict,
        default_action: if conflict {
            ImportAction::Skip
        } else {
            ImportAction::Create
        },
    }
}

fn preview_entry(host: PortableHost, existing: &[Host]) -> (r: ImportPreviewEntry)
    ensures
        r@ == preview_of(host@, host_names(existing@)),
{
    let name = chars_of(host.name.as_str());
    let ghost names = host_names(existing@);
    let mut conflict = false;
    let mut i: usize = 0;
    while i < existing.len()
        invariant
            i <= existing@.len(),
            names == host_names(existing@),
            name@ == host.name@,
            conflict == exists|j: int|
                0 <= j < i && ascii_lower(#[trigger] names[j]) == ascii_lower(name@),
        decreases existing@.len() - i,
    {
        let other = chars_of(existing[i].name.as_str());
        assert(names[i as int] == existing@[i as int].name@);
        if eq_ignore_ascii_case(&other, &name) {
            conflict = true;
        }
        i += 1;
    }
    ImportPreviewEntry {
        host,
        conflict,
        default_action: if conflict {
            ImportAction::Skip
        } else {
            ImportAction::Create
        },
    }
}

/// An alias that names one Host rather than a pattern.
pub open spec fn concrete(alias: Seq<char>) -> bool {
    alias.len() > 0 && !has_char(alias, '*') && !has_char(alias, '?') && !has_char(alias, '!')
}

fn concrete_alias(alias: &[char]) -> (r: bool)
    ensures
        r == concrete(alias@),
{
    alias.len() > 0 && !contains_char(alias, '*') && !contains_char(alias, '?') && !contains_char(
        alias,
        '!',
    )
}

/// The Host a `Host` block starts with: port 22, no credentials.
pub open spec fn blank_host() -> PortableHostView {
    PortableHostView {
        name: seq![],
        address: seq![],
        port: 22,
        username: None,
        group: None,
        tags: seq![],
        favorite: false,
        auth_kind: PortableAuthKind::NoAuth,
        private_key_path: None,
        credential_required: false,
    }
}

pub open spec fn ignored_view(line: int, directive: Seq<char>, reason: Seq<char>) -> IgnoredView {
    IgnoredView { line, directive, reason }
}

/// The entries and ignored lines a `Host` block adds: one entry per concrete alias, named
/// after it and addressed to it when no `HostName` was given.
pub open spec fn flush_aliases(
    line: int,
    aliases: Seq<Seq<char>>,
    host: PortableHostView,
    existing: Seq<Seq<char>>,
    entries: Seq<EntryView>,
    ignored: Seq<IgnoredView>,
) -> (Seq<EntryView>, Seq<IgnoredView>)
    decreases aliases.len(),
{
    if aliases.len() == 0 {
        (entries, ignored)
    } else {
        let a = aliases[0];
        if !concrete(a) {
            flush_aliases(
                line,
                aliases.drop_first(),
                host,
                existing,
                entries,
                ignored.push(
                    ignored_view(line, "Host "@ + a, "pattern aliases are out of scope"@),
                ),
            )
        } else {
            let h = PortableHostView {
                name: a,
                address: if host.address.len() == 0 {
                    a
                } else {
                    host.address
                },
                ..host
            };
            flush_aliases(
                line,
                aliases.drop_first(),
                host,
                existing,
                entries.push(preview_of(h, existing)),
                ignored,
            )
        }
    }
}

/// The parser's state between lines.
pub struct ParseState {
    pub current: Option<(int, Seq<Seq<char>>, PortableHostView)>,
    pub entries: Seq<EntryView>,
    pub ignored: Seq<IgnoredView>,
}

pub open spec fn flush(st: ParseState, existing: Seq<Seq<char>>) -> ParseState {
    match st.current {
        None => st,
        Some((line, aliases, host)) => {
            let (e, i) = flush_aliases(line, aliases, host, existing, st.entries, st.ignored);
            ParseState { current: None, entries: e, ignored: i }
        },
    }
}

/// The directive text of a line: before any `#`, trimmed.
pub open spec fn directive_text(raw: Seq<char>) -> Seq<char> {
    trim(raw.take(idx_of(raw, '#')))
}

pub open spec fn with_ignored(st: ParseState, line: int, directive: Seq<char>, reason: Seq<char>) -> ParseState {
    ParseState { ignored: st.ignored.push(ignored_view(line, directive, reason)), ..st }
}

pub open spec fn with_host(st: ParseState, host: PortableHostView) -> ParseState {
    match st.current {
        Some((l, a, _)) => ParseState { current: Some((l, a, host)), ..st },
        None => st,
    }
}

/// One line of an OpenSSH client configuration applied to the parser state.
pub open spec fn step(st: ParseState, line: int, raw: Seq<char>, existing: Seq<Seq<char>>) -> ParseState {
    let text = directive_text(raw);
    if text.len() == 0 {
        st
    } else if idx_ws(text) >= text.len() {
        with_ignored(st, line, text, "directive has no value"@)
    } else {
        let key = ascii_lower(text.take(idx_ws(text)));
        let value = trim(text.skip(idx_ws(text) + 1));
        if key == "host"@ {
            ParseState { current: Some((line, words(value), blank_host())), ..flush(st, existing) }
        } else {
            match st.current {
                None => with_ignored(st, line, key, "global directives are ignored"@),
                Some((_, _, host)) => if key == "hostname"@ {
                    with_host(st, PortableHostView { address: value, ..host })
                } else if key == "user"@ {
                    with_host(
                        st,
                        PortableHostView {
                            username: if value.len() == 0 {
                                None
                            } else {
                                Some(value)
                            },
                            ..host
                        },
                    )
                } else if key == "port"@ {
                    match parse_unsigned(value, 0xFFFF) {
                        Some(p) => if p != 0 {
                            with_host(st, PortableHostView { port: p as u16, ..host })
                        } else {
                            with_ignored(st, line, "Port"@, "port must be between 1 and 65535"@)
                        },
                        None => with_ignored(
                            st,
                            line,
                            "Port"@,
                            "port must be between 1 and 65535"@,
                        ),
                    }
                } else if key == "identityfile"@ {
                    with_host(
                        st,
                        PortableHostView {
                            auth_kind: PortableAuthKind::PrivateKey,
                            private_key_path: Some(value),
                            credential_required: true,
                            ..host
                        },
                    )
                } else if key == "include"@ || key == "proxyjump"@ {
                    with_ignored(st, line, key, "directive is out of scope"@)
                } else {
                    with_ignored(st, line, key, "directive is not supported"@)
                },
            }
        }
    }
}

pub open spec fn initial_state() -> ParseState {
    ParseState { current: None, entries: seq![], ignored: seq![] }
}

/// The state after the first `lines.len()` lines (numbered from 1).
pub open spec fn run(lines: Seq<Seq<char>>, existing: Seq<Seq<char>>) -> ParseState
    decreases lines.len(),
{
    if lines.len() == 0 {
        initial_state()
    } else {
        step(run(lines.drop_last(), existing), lines.len() as int, lines.last(), existing)
    }
}

/// What importing an OpenSSH configuration yields: entries and ignored directives.
pub open spec fn openssh_import(content: Seq<char>, existing: Seq<Seq<char>>) -> ParseState {
    flush(run(text_lines(content), existing), existing)
}

/// A configuration line: indentation, a key, one white-space character, then a value.
pub open spec fn directive_line(indent: Seq<char>, key: Seq<char>, gap: char, value: Seq<char>) -> Seq<char> {
    indent + key + seq![gap] + value
}

/// The line is well formed: indentation of white space only, a key without white space, a
/// value that neither starts nor ends with white space, and no comment.
pub open spec fn plain_directive(indent: Seq<char>, key: Seq<char>, gap: char, value: Seq<char>) -> bool {
    &&& forall|i: int| 0 <= i < indent.len() ==> is_ws(#[trigger] indent[i])
    &&& key.len() > 0
    &&& !has_ws(key)
    &&& !has_char(key, '#')
    &&& is_ws(gap)
    &&& value.len() > 0
    &&& !is_ws(value[0])
    &&& !is_ws(value.last())
    &&& !has_char(value, '#')
}

proof fn lemma_directive_parts(indent: Seq<char>, key: Seq<char>, gap: char, value: Seq<char>)
    requires
        plain_directive(indent, key, gap, value),
    ensures
        directive_text(directive_line(indent, key, gap, value)) == key + seq![gap] + value,
        idx_ws(key + seq![gap] + value) == key.len(),
        (key + seq![gap] + value).take(key.len() as int) == key,
        trim((key + seq![gap] + value).skip(key.len() as int + 1)) == value,
{
    let raw = directive_line(indent, key, gap, value);
    let body = key + seq![gap] + value;
    let n = indent.len() as int;
    let m = key.len() as int;
    lemma_idx_of(raw, '#');
    let h = idx_of(raw, '#');
    if h < raw.len() {
        assert(raw[h] == '#');
        if h < n {
            assert(raw[h] == indent[h]);
            assert(is_ws(indent[h]));
        } else if h < n + m {
            assert(raw[h] == key[h - n]);
        } else if h == n + m {
            assert(raw[h] == gap);
        } else {
            assert(raw[h] == value[h - n - m - 1]);
        }
    }
    assert(raw.take(h) =~= raw);
    assert forall|j: int| 0 <= j < n implies is_ws(#[trigger] raw[j]) by {
        assert(raw[j] == indent[j]);
    }
    lemma_trim_start_skip(raw, n);
    assert(raw.subrange(n, raw.len() as int) =~= body);
    assert(!is_ws(body[0])) by {
        assert(body[0] == key[0]);
    }
    assert(trim_start(body) == body);
    assert(body.last() == value.last());
    assert(trim_end(body) == body);
    lemma_idx_ws(body);
    let w = idx_ws(body);
    assert(body[m] == gap);
    if w < m {
        assert(body[w] == key[w]);
    }
    assert(w == m);
    assert(body.take(m) =~= key);
    assert(body.skip(m + 1) =~= value);
    assert(trim_start(value) == value);
    assert(trim_end(value) == value);
}

/// A `User` line inside a `Host` block (any casing of the key) sets the block's username to
/// the line's value and reports nothing: the rest of the parser's state is unchanged.
pub proof fn lemma_user_line_sets_username(
    st: ParseState,
    line: int,
    indent: Seq<char>,
    key: Seq<char>,
    gap: char,
    name: Seq<char>,
    existing: Seq<Seq<char>>,
)
    requires
        plain_directive(indent, key, gap, name),
        ascii_lower(key) == "user"@,
        st.current is Some,
    ensures
        match st.current {
            Some((l, aliases, host)) => step(st, line, directive_line(indent, key, gap, name), existing)
                == (ParseState {
                current: Some((l, aliases, PortableHostView { username: Some(name), ..host })),
                entries: st.entries,
                ignored: st.ignored,
            }),
            None => true,
        },
{
    reveal_strlit("user");
    reveal_strlit("host");
    reveal_strlit("hostname");
    lemma_directive_parts(indent, key, gap, name);
    assert(ascii_lower(key) != "host"@) by {
        assert("user"@[0] != "host"@[0]);
    }
    assert(ascii_lower(key) != "hostname"@) by {
        assert("user"@.len() != "hostname"@.len());
    }
}

/// A `HostName` line inside a `Host` block (any casing of the key) sets the block's address
/// to the line's value and reports nothing: the rest of the parser's state is unchanged.
pub proof fn lemma_hostname_line_sets_address(
    st: ParseState,
    line: int,
    indent: Seq<char>,
    key: Seq<char>,
    gap: char,
    address: Seq<char>,
    existing: Seq<Seq<char>>,
)
    requires
        plain_directive(indent, key, gap, address),
        ascii_lower(key) == "hostname"@,
        st.current is Some,
    ensures
        match st.current {
            Some((l, aliases, host)) => step(st, line, directive_line(indent, key, gap, address), existing)
                == (ParseState {
                current: Some((l, aliases, PortableHostView { address, ..host })),
                entries: st.entries,
                ignored: st.ignored,
            }),
            None => true,
        },
{
    reveal_strlit("host");
    reveal_strlit("hostname");
    lemma_directive_parts(indent, key, gap, address);
    assert(ascii_lower(key) != "host"@) by {
        assert("hostname"@.len() != "host"@.len());
    }
}

/// A `Host` line (any casing of the key) closes the block being read, if any, and opens a
/// new one named by the line's aliases, on port 22 and without credentials.
pub proof fn lemma_host_line_opens_block(
    st: ParseState,
    line: int,
    indent: Seq<char>,
    key: Seq<char>,
    gap: char,
    aliases: Seq<char>,
    existing: Seq<Seq<char>>,
)
    requires
        plain_directive(indent, key, gap, aliases),
        ascii_lower(key) == "host"@,
    ensures
        step(st, line, directive_line(indent, key, gap, aliases), existing) == (ParseState {
            current: Some((line, words(aliases), blank_host())),
            ..flush(st, existing)
        }),
{
    lemma_directive_parts(indent, key, gap, aliases);
}

/// The decimal text of a number is a directive value: digits only, no comment.
proof fn lemma_number_value(n: nat)
    ensures
        dec_text(n).len() > 0,
        !is_ws(dec_text(n)[0]),
        !is_ws(dec_text(n).last()),
        !has_char(dec_text(n), '#'),
        parse_unsigned(dec_text(n), 0xFFFF) == (if n <= 0xFFFF {
            Some(n as int)
        } else {
            None::<int>
        }),
{
    let d = dec_text(n);
    lemma_dec_text_reads_back(n);
    assert(is_digit(d[0]) && is_digit(d[d.len() - 1]));
    assert forall|i: int| 0 <= i < d.len() implies d[i] != '#' by {
        assert(is_digit(d[i]));
    }
}

/// A `Port` line inside a `Host` block (any casing of the key) whose value is the decimal
/// text of a number sets the block's port to it when it is in 1..=65535, and otherwise
/// leaves the block as it is and reports the line.
pub proof fn lemma_port_line(
    st: ParseState,
    line: int,
    indent: Seq<char>,
    key: Seq<char>,
    gap: char,
    port: nat,
    existing: Seq<Seq<char>>,
)
    requires
        plain_directive(indent, key, gap, dec_text(port)),
        ascii_lower(key) == "port"@,
        st.current is Some,
    ensures
        match st.current {
            Some((l, aliases, host)) => step(st, line, directive_line(indent, key, gap, dec_text(port)), existing)
                == (if 1 <= port <= 0xFFFF {
                ParseState {
                    current: Some((l, aliases, PortableHostView { port: port as u16, ..host })),
                    entries: st.entries,
                    ignored: st.ignored,
                }
            } else {
                ParseState {
                    ignored: st.ignored.push(
                        ignored_view(line, "Port"@, "port must be between 1 and 65535"@),
                    ),
                    ..st
                }
            }),
            None => true,
        },
{
    reveal_strlit("port");
    reveal_strlit("host");
    reveal_strlit("hostname");
    reveal_strlit("user");
    lemma_directive_parts(indent, key, gap, dec_text(port));
    lemma_number_value(port);
    assert(ascii_lower(key) != "host"@) by {
        assert("port"@[0] != "host"@[0]);
    }
    assert(ascii_lower(key) != "user"@) by {
        assert("port"@[0] != "user"@[0]);
    }
    assert(ascii_lower(key) != "hostname"@) by {
        assert("port"@.len() != "hostname"@.len());
    }
}

/// An `IdentityFile` line inside a `Host` block (any casing of the key) makes the block a
/// private-key Host with the line's value as the key path, whose credential must be set up
/// again; nothing is reported.
pub proof fn lemma_identity_file_line(
    st: ParseState,
    line: int,
    indent: Seq<char>,
    key: Seq<char>,
    gap: char,
    path: Seq<char>,
    existing: Seq<Seq<char>>,
)
    requires
        plain_directive(indent, key, gap, path),
        ascii_lower(key) == "identityfile"@,
        st.current is Some,
    ensures
        match st.current {
            Some((l, aliases, host)) => step(st, line, directive_line(indent, key, gap, path), existing)
                == (ParseState {
                current: Some(
                    (
                        l,
                        aliases,
                        PortableHostView {
                            auth_kind: PortableAuthKind::PrivateKey,
                            private_key_path: Some(path),
                            credential_required: true,
                            ..host
                        },
                    ),
                ),
                entries: st.entries,
                ignored: st.ignored,
            }),
            None => true,
        },
{
    reveal_strlit("identityfile");
    reveal_strlit("port");
    reveal_strlit("host");
    reveal_strlit("hostname");
    reveal_strlit("user");
    lemma_directive_parts(indent, key, gap, path);
    assert(ascii_lower(key).len() == 12);
}

/// Any other directive inside a `Host` block is reported with its lower-cased key, as out
/// of scope for `Include` and `ProxyJump` and as not supported otherwise; the block is
/// left as it is.
pub proof fn lemma_other_directive_reported(
    st: ParseState,
    line: int,
    indent: Seq<char>,
    key: Seq<char>,
    gap: char,
    value: Seq<char>,
    existing: Seq<Seq<char>>,
)
    requires
        plain_directive(indent, key, gap, value),
        ascii_lower(key) != "host"@,
        ascii_lower(key) != "hostname"@,
        ascii_lower(key) != "user"@,
        ascii_lower(key) != "port"@,
        ascii_lower(key) != "identityfile"@,
        st.current is Some,
    ensures
        step(st, line, directive_line(indent, key, gap, value), existing) == (ParseState {
            ignored: st.ignored.push(
                ignored_view(
                    line,
                    ascii_lower(key),
                    if ascii_lower(key) == "include"@ || ascii_lower(key) == "proxyjump"@ {
                        "directive is out of scope"@
                    } else {
                        "directive is not supported"@
                    },
                ),
            ),
            ..st
        }),
{
    lemma_directive_parts(indent, key, gap, value);
}

/// Before the first `Host` line every directive other than `Host` is reported as a global
/// directive with its lower-cased key, and nothing else changes.
pub proof fn lemma_global_directive_reported(
    st: ParseState,
    line: int,
    indent: Seq<char>,
    key: Seq<char>,
    gap: char,
    value: Seq<char>,
    existing: Seq<Seq<char>>,
)
    requires
        plain_directive(indent, key, gap, value),
        ascii_lower(key) != "host"@,
        st.current is None,
    ensures
        step(st, line, directive_line(indent, key, gap, value), existing) == (ParseState {
            ignored: st.ignored.push(ignored_view(line, ascii_lower(key), "global directives are ignored"@)),
            ..st
        }),
{
    lemma_directive_parts(indent, key, gap, value);
}

/// A comment line, or a blank one, changes nothing.
pub proof fn lemma_comment_line_ignored(st: ParseState, line: int, indent: Seq<char>, rest: Seq<char>, existing: Seq<Seq<char>>)
    requires
        forall|i: int| 0 <= i < indent.len() ==> is_ws(#[trigger] indent[i]),
    ensures
        step(st, line, indent + seq!['#'] + rest, existing) == st,
        step(st, line, indent, existing) == st,
{
    let raw = indent + seq!['#'] + rest;
    lemma_idx_of(raw, '#');
    let k = idx_of(raw, '#');
    assert(raw[indent.len() as int] == '#');
    if k < indent.len() {
        assert(raw[k] == indent[k]);
        assert(is_ws(indent[k]));
    }
    assert(k == indent.len());
    assert(raw.take(k) =~= indent);
    lemma_blank_trims_away(indent);
    lemma_idx_of(indent, '#');
    let h = idx_of(indent, '#');
    if h < indent.len() {
        assert(is_ws(indent[h]));
    }
    assert(indent.take(h) =~= indent);
}

proof fn lemma_blank_trims_away(s: Seq<char>)
    requires
        forall|i: int| 0 <= i < s.len() ==> is_ws(#[trigger] s[i]),
    ensures
        trim(s).len() == 0,
{
    lemma_trim_start_skip(s, s.len() as int);
    assert(s.subrange(s.len() as int, s.len() as int) =~= Seq::<char>::empty());
}

/// Splitting at the first line feed.
proof fn lemma_split_at_newline(a: Seq<char>, b: Seq<char>)
    requires
        !has_char(a, '\n'),
    ensures
        split_nl(a + seq!['\n'] + b) == seq![a] + split_nl(b),
{
    let s = a + seq!['\n'] + b;
    lemma_idx_of(s, '\n');
    let k = idx_of(s, '\n');
    assert(s[a.len() as int] == '\n');
    if k < a.len() {
        assert(s[k] == a[k]);
    }
    assert(k == a.len());
    assert(s.take(k) =~= a);
    assert(s.skip(k + 1) =~= b);
}

/// A text without white space is a single word.
proof fn lemma_single_word(s: Seq<char>)
    requires
        s.len() > 0,
        !has_ws(s),
    ensures
        words(s) == seq![s],
{
    lemma_idx_ws(s);
    assert(s.take(s.len() as int) =~= s);
    assert(s.skip(s.len() as int) =~= Seq::<char>::empty());
    assert(words(Seq::<char>::empty()) == Seq::<Seq<char>>::empty());
    assert(seq![s] + Seq::<Seq<char>>::empty() =~= seq![s]);
}

/// A directive line without a line feed in it.
proof fn lemma_line_has_no_newline(indent: Seq<char>, key: Seq<char>, gap: char, value: Seq<char>)
    requires
        forall|i: int| 0 <= i < indent.len() ==> #[trigger] indent[i] == ' ',
        !has_char(key, '\n'),
        gap == ' ',
        !has_char(value, '\n'),
    ensures
        !has_char(directive_line(indent, key, gap, value), '\n'),
{
    let l = directive_line(indent, key, gap, value);
    let n = indent.len() as int;
    let m = key.len() as int;
    assert forall|i: int| 0 <= i < l.len() implies l[i] != '\n' by {
        if i < n {
            assert(l[i] == indent[i]);
        } else if i < n + m {
            assert(l[i] == key[i - n]);
        } else if i > n + m {
            assert(l[i] == value[i - n - m - 1]);
        }
    }
}

/// The configuration of one Host with its address and user, one directive per line.
pub open spec fn user_block_config(alias: Seq<char>, address: Seq<char>, user: Seq<char>) -> Seq<char> {
    "Host "@ + alias + "\n HostName "@ + address + "\n User "@ + user + "\n"@
}

/// Importing a `Host` block with a `HostName` and a `User` line gives exactly one entry,
/// named after the alias, at that address, with that username, on port 22 and without
/// credentials, previewed against the saved names; and no line is reported as ignored.
pub proof fn lemma_import_user_block(alias: Seq<char>, address: Seq<char>, user: Seq<char>, existing: Seq<Seq<char>>)
    requires
        concrete(alias),
        !has_ws(alias),
        !has_char(alias, '#'),
        address.len() > 0,
        !has_ws(address),
        !has_char(address, '#'),
        user.len() > 0,
        !is_ws(user[0]),
        !is_ws(user.last()),
        !has_char(user, '#'),
        !has_char(user, '\n'),
    ensures
        openssh_import(user_block_config(alias, address, user), existing) == (ParseState {
            current: None,
            entries: seq![
                preview_of(
                    PortableHostView { name: alias, address, username: Some(user), ..blank_host() },
                    existing,
                ),
            ],
            ignored: seq![],
        }),
{
    reveal_strlit("Host ");
    reveal_strlit("\n HostName ");
    reveal_strlit("\n User ");
    reveal_strlit("\n");
    reveal_strlit("Host");
    reveal_strlit("HostName");
    reveal_strlit("User");
    reveal_strlit("host");
    reveal_strlit("hostname");
    reveal_strlit("user");
    let host_key = "Host"@;
    let name_key = "HostName"@;
    let user_key = "User"@;
    let none: Seq<char> = seq![];
    let pad: Seq<char> = seq![' '];
    let l1 = directive_line(none, host_key, ' ', alias);
    let l2 = directive_line(pad, name_key, ' ', address);
    let l3 = directive_line(pad, user_key, ' ', user);
    let content = user_block_config(alias, address, user);
    assert(content =~= l1 + seq!['\n'] + (l2 + seq!['\n'] + (l3 + seq!['\n'] + none)));
    assert(!has_ws(host_key)) by {
        assert forall|i: int| 0 <= i < host_key.len() implies !is_ws(#[trigger] host_key[i]) by {
            assert(i == 0 || i == 1 || i == 2 || i == 3);
        }
    }
    assert(!has_ws(name_key)) by {
        assert forall|i: int| 0 <= i < name_key.len() implies !is_ws(#[trigger] name_key[i]) by {
            assert(0 <= i < 8);
        }
    }
    assert(!has_ws(user_key)) by {
        assert forall|i: int| 0 <= i < user_key.len() implies !is_ws(#[trigger] user_key[i]) by {
            assert(i == 0 || i == 1 || i == 2 || i == 3);
        }
    }
    assert(!has_char(host_key, '#') && !has_char(host_key, '\n'));
    assert(!has_char(name_key, '#') && !has_char(name_key, '\n'));
    assert(!has_char(user_key, '#') && !has_char(user_key, '\n'));
    assert(!has_char(alias, '\n')) by {
        assert forall|i: int| 0 <= i < alias.len() implies alias[i] != '\n' by {
            assert(!is_ws(alias[i]));
        }
    }
    assert(!has_char(address, '\n')) by {
        assert forall|i: int| 0 <= i < address.len() implies address[i] != '\n' by {
            assert(!is_ws(address[i]));
        }
    }
    assert(!is_ws(alias[0]) && !is_ws(alias.last()));
    assert(!is_ws(address[0]) && !is_ws(address.last()));
    lemma_line_has_no_newline(none, host_key, ' ', alias);
    lemma_line_has_no_newline(pad, name_key, ' ', address);
    lemma_line_has_no_newline(pad, user_key, ' ', user);
    lemma_split_at_newline(l1, l2 + seq!['\n'] + (l3 + seq!['\n'] + none));
    lemma_split_at_newline(l2, l3 + seq!['\n'] + none);
    lemma_split_at_newline(l3, none);
    assert(split_nl(none) == seq![none]);
    let pieces = split_nl(content);
    assert(pieces =~= seq![l1, l2, l3, none]);
    assert(l1.last() == alias.last() && l2.last() == address.last() && l3.last() == user.last());
    assert(strip_cr(l1) == l1 && strip_cr(l2) == l2 && strip_cr(l3) == l3);
    let lines = text_lines(content);
    assert(lines =~= seq![l1, l2, l3]);
    assert(ascii_lower(host_key) =~= "host"@);
    assert(ascii_lower(name_key) =~= "hostname"@);
    assert(ascii_lower(user_key) =~= "user"@);
    assert(plain_directive(none, host_key, ' ', alias));
    assert(plain_directive(pad, name_key, ' ', address));
    assert(plain_directive(pad, user_key, ' ', user));
    lemma_single_word(alias);
    let st0 = initial_state();
    lemma_host_line_opens_block(st0, 1, none, host_key, ' ', alias, existing);
    let st1 = step(st0, 1, l1, existing);
    assert(st1 == (ParseState { current: Some((1, seq![alias], blank_host())), entries: seq![], ignored: seq![] }));
    lemma_hostname_line_sets_address(st1, 2, pad, name_key, ' ', address, existing);
    let st2 = step(st1, 2, l2, existing);
    lemma_user_line_sets_username(st2, 3, pad, user_key, ' ', user, existing);
    let st3 = step(st2, 3, l3, existing);
    assert(lines.drop_last() =~= seq![l1, l2]);
    assert(lines.drop_last().drop_last() =~= seq![l1]);
    assert(lines.drop_last().drop_last().drop_last() =~= Seq::<Seq<char>>::empty());
    let one = seq![l1];
    let two = seq![l1, l2];
    assert(one.drop_last() =~= Seq::<Seq<char>>::empty());
    assert(run(Seq::<Seq<char>>::empty(), existing) == st0);
    assert(one.last() == l1 && one.len() == 1);
    assert(run(one, existing) == st1);
    assert(two.drop_last() =~= one);
    assert(two.last() == l2 && two.len() == 2);
    assert(run(two, existing) == st2);
    assert(lines.drop_last() =~= two);
    assert(lines.last() == l3 && lines.len() == 3);
    assert(run(lines, existing) == st3);
    let h3 = PortableHostView { address, username: Some(user), ..blank_host() };
    assert(st3.current == Some((1int, seq![alias], h3)));
    let entry = PortableHostView { name: alias, address, username: Some(user), ..blank_host() };
    assert(seq![alias].drop_first() =~= Seq::<Seq<char>>::empty());
    let found: Seq<EntryView> = seq![preview_of(entry, existing)];
    let nothing: Seq<IgnoredView> = seq![];
    assert(Seq::<EntryView>::empty().push(preview_of(entry, existing)) =~= found);
    assert(flush_aliases(1, Seq::<Seq<char>>::empty(), h3, existing, found, nothing) == (found, nothing));
    assert(flush_aliases(1, seq![alias], h3, existing, seq![], nothing) == (found, nothing));
    assert(flush(st3, existing) == (ParseState { current: None, entries: found, ignored: nothing }));
}

/// Closing a block keeps the entries found before it and adds one entry per concrete
/// alias, in order, each carrying the block's address (or the alias when none was given),
/// username, port and key settings.
pub proof fn lemma_block_entries(
    line: int,
    aliases: Seq<Seq<char>>,
    host: PortableHostView,
    existing: Seq<Seq<char>>,
    entries: Seq<EntryView>,
    ignored: Seq<IgnoredView>,
)
    ensures
        ({
            let found = flush_aliases(line, aliases, host, existing, entries, ignored).0;
            &&& entries.len() <= found.len() <= entries.len() + aliases.len()
            &&& found.take(entries.len() as int) == entries
            &&& forall|i: int|
                entries.len() <= i < found.len() ==> {
                    let h = (#[trigger] found[i]).host;
                    &&& h.username == host.username
                    &&& h.port == host.port
                    &&& h.address == (if host.address.len() == 0 {
                        h.name
                    } else {
                        host.address
                    })
                    &&& h.auth_kind == host.auth_kind
                    &&& h.private_key_path == host.private_key_path
                }
        }),
    decreases aliases.len(),
{
    if aliases.len() > 0 {
        let a = aliases[0];
        if !concrete(a) {
            lemma_block_entries(
                line,
                aliases.drop_first(),
                host,
                existing,
                entries,
                ignored.push(ignored_view(line, "Host "@ + a, "pattern aliases are out of scope"@)),
            );
        } else {
            let h = PortableHostView {
                name: a,
                address: if host.address.len() == 0 {
                    a
                } else {
                    host.address
                },
                ..host
            };
            let more = entries.push(preview_of(h, existing));
            lemma_block_entries(line, aliases.drop_first(), host, existing, more, ignored);
            let found = flush_aliases(line, aliases, host, existing, entries, ignored).0;
            assert(found.take(more.len() as int).take(entries.len() as int) =~= found.take(entries.len() as int));
            assert(more.take(entries.len() as int) =~= entries);
            assert(found[entries.len() as int] == more[entries.len() as int]);
        }
    } else {
        assert(entries.take(entries.len() as int) =~= entries);
    }
}

} // verus!

verus! {

pub open spec fn entries_view(v: Seq<ImportPreviewEntry>) -> Seq<EntryView> {
    v.map_values(|e: ImportPreviewEntry| e@)
}

pub open spec fn ignored_views(v: Seq<IgnoredDirective>) -> Seq<IgnoredView> {
    v.map_values(|d: IgnoredDirective| d@)
}

pub open spec fn current_view(c: Option<(usize, Vec<Vec<char>>, PortableHost)>) -> Option<
    (int, Seq<Seq<char>>, PortableHostView),
> {
    match c {
        Some((l, a, h)) => Some((l as int, a@.map_values(|p: Vec<char>| p@), h@)),
        None => None,
    }
}

pub open spec fn state_of(
    c: Option<(usize, Vec<Vec<char>>, PortableHost)>,
    entries: Seq<ImportPreviewEntry>,
    ignored: Seq<IgnoredDirective>,
) -> ParseState {
    ParseState { current: current_view(c), entries: entries_view(entries), ignored: ignored_views(ignored) }
}

fn ignore(ignored: &mut Vec<IgnoredDirective>, line: usize, directive: String, reason: &str)
    ensures
        ignored_views(final(ignored)@) == ignored_views(old(ignored)@).push(
            ignored_view(line as int, directive@, reason@),
        ),
{
    let ghost before = ignored_views(ignored@);
    ignored.push(IgnoredDirective { line, directive, reason: reason.to_owned() });
    assert(ignored_views(ignored@) =~= before.push(ignored_view(line as int, directive@, reason@)));
}

fn blank_portable_host() -> (h: PortableHost)
    ensures
        h@ == blank_host(),
{
    let h = PortableHost {
        name: String::new(),
        address: String::new(),
        port: 22,
        username: None,
        group: None,
        tags: Vec::new(),
        favorite: false,
        auth_kind: PortableAuthKind::NoAuth,
        private_key_path: None,
        credential_required: false,
    };
    assert(h@.tags =~= seq![]);
    h
}

/// Emits the entries and ignored aliases of a finished `Host` block.
fn flush_block(
    line: usize,
    aliases: &Vec<Vec<char>>,
    host: &PortableHost,
    existing: &[Host],
    entries: &mut Vec<ImportPreviewEntry>,
    ignored: &mut Vec<IgnoredDirective>,
)
    ensures
        (entries_view(final(entries)@), ignored_views(final(ignored)@)) == flush_aliases(
            line as int,
            aliases@.map_values(|p: Vec<char>| p@),
            host@,
            host_names(existing@),
            entries_view(old(entries)@),
            ignored_views(old(ignored)@),
        ),
{
    let ghost all = aliases@.map_values(|p: Vec<char>| p@);
    let ghost names = host_names(existing@);
    let mut k: usize = 0;
    assert(all.skip(0) =~= all);
    while k < aliases.len()
        invariant
            k <= aliases@.len(),
            all == aliases@.map_values(|p: Vec<char>| p@),
            names == host_names(existing@),
            flush_aliases(
                line as int,
                all,
                host@,
                names,
                entries_view(old(entries)@),
                ignored_views(old(ignored)@),
            ) == flush_aliases(
                line as int,
                all.skip(k as int),
                host@,
                names,
                entries_view(entries@),
                ignored_views(ignored@),
            ),
        decreases aliases@.len() - k,
    {
        let alias = &aliases[k];
        assert(all.skip(k as int)[0] == alias@);
        assert(all.skip(k as int).drop_first() =~= all.skip(k + 1));
        if !concrete_alias(alias) {
            let mut d = String::from_str("Host ");
            let a = string_of(alias);
            d.append(a.as_str());
            ignore(ignored, line, d, "pattern aliases are out of scope");
        } else {
            let mut h = host.duplicate();
            h.name = string_of(alias);
            if h.address.as_str().is_empty() {
                h.address = string_of(alias);
            }
            let e = preview_entry(h, existing);
            let ghost before = entries_view(entries@);
            entries.push(e);
            assert(entries_view(entries@) =~= before.push(e@));
        }
        k += 1;
    }
    assert(all.skip(aliases@.len() as int) =~= seq![]);
}

/// Reads an OpenSSH client configuration into an import preview. Only `Host` blocks with
/// concrete aliases become entries; `HostName`, `User`, `Port` and `IdentityFile` are applied,
/// and every other line is reported with its number and the reason it was ignored.
pub fn parse_openssh_config(content: &str, existing: &[Host]) -> (r: ImportPreview)
    ensures
        r.groups@.len() == 0,
        r.settings@.len() == 0,
        entries_view(r.entries@) == openssh_import(content@, host_names(existing@)).entries,
        ignored_views(r.ignored@) == openssh_import(content@, host_names(existing@)).ignored,
{
    let chars = chars_of(content);
    let lines = lines_of(&chars);
    let ghost ls = text_lines(content@);
    let ghost names = host_names(existing@);
    let mut entries: Vec<ImportPreviewEntry> = Vec::new();
    let mut ignored: Vec<IgnoredDirective> = Vec::new();
    let mut current: Option<(usize, Vec<Vec<char>>, PortableHost)> = None;
    let mut i: usize = 0;
    assert(ls.take(0) =~= seq![]);
    assert(entries_view(entries@) =~= seq![]);
    assert(ignored_views(ignored@) =~= seq![]);
    while i < lines.len()
        invariant
            i <= lines@.len(),
            lines@.map_values(|p: Vec<char>| p@) == ls,
            ls == text_lines(content@),
            names == host_names(existing@),
            state_of(current, entries@, ignored@) == run(ls.take(i as int), names),
        decreases lines@.len() - i,
    {
        let line = i + 1;
        let raw = &lines[i];
        assert(raw@ == ls[i as int]);
        assert(ls.take(i + 1).drop_last() =~= ls.take(i as int));
        assert(ls.take(i + 1).last() == ls[i as int]);
        let ghost st = state_of(current, entries@, ignored@);
        let hash = find_char(raw, '#');
        proof {
            lemma_idx_of(raw@, '#');
        }
        let before = slice_chars(raw, 0, hash);
        assert(before@ =~= raw@.take(hash as int));
        let text = trim_chars(&before);
        if text.len() == 0 {
            i += 1;
            continue;
        }
        let k = find_whitespace(&text);
        proof {
            lemma_idx_ws(text@);
        }
        if k >= text.len() {
            ignore(&mut ignored, line, string_of(&text), "directive has no value");
            i += 1;
            continue;
        }
        let key_raw = slice_chars(&text, 0, k);
        assert(key_raw@ =~= text@.take(k as int));
        let key = to_ascii_lower(&key_raw);
        let value_raw = slice_chars(&text, k + 1, text.len());
        assert(value_raw@ =~= text@.skip(k + 1));
        let value = trim_chars(&value_raw);
        if chars_eq(&key, &chars_of("host")) {
            match current {
                Some((l, aliases, host)) => {
                    flush_block(l, &aliases, &host, existing, &mut entries, &mut ignored);
                },
                None => {},
            }
            let aliases = split_words(&value);
            current = Some((line, aliases, blank_portable_host()));
            i += 1;
            continue;
        }
        match current {
            None => {
                ignore(&mut ignored, line, string_of(&key), "global directives are ignored");
                current = None;
            },
            Some((l, aliases, mut host)) => {
                if chars_eq(&key, &chars_of("hostname")) {
                    host.address = string_of(&value);
                } else if chars_eq(&key, &chars_of("user")) {
                    host.username = if value.len() == 0 {
                        None
                    } else {
                        Some(string_of(&value))
                    };
                } else if chars_eq(&key, &chars_of("port")) {
                    match parse_u16(&value) {
                        Some(p) => {
                            if p != 0 {
                                host.port = p;
                            } else {
                                ignore(
                                    &mut ignored,
                                    line,
                                    String::from_str("Port"),
                                    "port must be between 1 and 65535",
                                );
                            }
                        },
                        None => {
                            ignore(
                                &mut ignored,
                                line,
                                String::from_str("Port"),
                                "port must be between 1 and 65535",
                            );
                        },
                    }
                } else if chars_eq(&key, &chars_of("identityfile")) {
                    host.auth_kind = PortableAuthKind::PrivateKey;
                    host.private_key_path = Some(string_of(&value));
                    host.credential_required = true;
                } else if chars_eq(&key, &chars_of("include")) || chars_eq(
                    &key,
                    &chars_of("proxyjump"),
                ) {
                    ignore(&mut ignored, line, string_of(&key), "directive is out of scope");
                } else {
                    ignore(&mut ignored, line, string_of(&key), "directive is not supported");
                }
                current = Some((l, aliases, host));
            },
        }
        i += 1;
    }
    assert(ls.take(lines@.len() as int) =~= ls);
    match current {
        Some((l, aliases, host)) => {
            flush_block(l, &aliases, &host, existing, &mut entries, &mut ignored);
        },
        None => {},
    }
    ImportPreview { groups: Vec::new(), settings: Vec::new(), entries, ignored }
}

} // verus!

verus! {

/// Settings by their character views.
pub open spec fn settings_view(s: Seq<(String, String)>) -> Seq<(Seq<char>, Seq<char>)> {
    s.map_values(|p: (String, String)| (p.0@, p.1@))
}

/// The last `theme` entry of a list of settings; with settings read as a map, where a
/// later value for a key replaces an earlier one, the `theme` setting.
pub open spec fn last_theme(s: Seq<(Seq<char>, Seq<char>)>) -> Option<(Seq<char>, Seq<char>)>
    decreases s.len(),
{
    if s.len() == 0 {
        None
    } else if s.last().0 == "theme"@ {
        Some(s.last())
    } else {
        last_theme(s.drop_last())
    }
}

/// The settings a workspace document may carry: the `theme` setting alone, if any.
pub open spec fn theme_only(s: Seq<(Seq<char>, Seq<char>)>) -> Seq<(Seq<char>, Seq<char>)> {
    match last_theme(s) {
        Some(p) => seq![p],
        None => Seq::empty(),
    }
}

/// Keeps only the settings that may leave this machine: the `theme`. The settings are a
/// map, so of several `theme` entries the last one counts.
pub fn portable_settings(settings: Vec<(String, String)>) -> (r: Vec<(String, String)>)
    ensures
        settings_view(r@) == theme_only(settings_view(settings@)),
{
    let ghost all = settings_view(settings@);
    let mut found: Option<usize> = None;
    let mut i: usize = 0;
    assert(all.take(0) =~= seq![]);
    while i < settings.len()
        invariant
            i <= settings@.len(),
            all == settings_view(settings@),
            match found {
                Some(k) => k < i && last_theme(all.take(i as int)) == Some(all[k as int]),
                None => last_theme(all.take(i as int)) is None,
            },
        decreases settings@.len() - i,
    {
        assert(all.take(i + 1).drop_last() =~= all.take(i as int));
        assert(all.take(i + 1).last() == all[i as int]);
        if str_eq(settings[i].0.as_str(), "theme") {
            found = Some(i);
        }
        i += 1;
    }
    assert(all.take(settings@.len() as int) =~= all);
    let mut r: Vec<(String, String)> = Vec::new();
    match found {
        Some(k) => {
            r.push((settings[k].0.clone(), settings[k].1.clone()));
            assert(settings_view(r@) =~= seq![all[k as int]]);
        },
        None => {
            assert(settings_view(r@) =~= Seq::<(Seq<char>, Seq<char>)>::empty());
        },
    }
    r
}

proof fn lemma_last_theme_is_theme(s: Seq<(Seq<char>, Seq<char>)>)
    ensures
        last_theme(s) matches Some(p) ==> p.0 == "theme"@,
    decreases s.len(),
{
    if s.len() > 0 && s.last().0 != "theme"@ {
        lemma_last_theme_is_theme(s.drop_last());
    }
}

/// A workspace carries at most one setting, and only the `theme`.
pub proof fn lemma_portable_settings_only_theme(s: Seq<(Seq<char>, Seq<char>)>)
    ensures
        forall|i: int| 0 <= i < theme_only(s).len() ==> (#[trigger] theme_only(s)[i]).0 == "theme"@,
        theme_only(s).len() <= 1,
{
    lemma_last_theme_is_theme(s);
}

/// What an authentication method exports as: its kind, the key path, and whether a
/// credential must be configured again after import. Never a vault reference.
pub open spec fn portable_auth(auth: AuthMethod) -> (PortableAuthKind, Option<Seq<char>>, bool) {
    match auth {
        AuthMethod::Password { .. } => (PortableAuthKind::Password, None, true),
        AuthMethod::PrivateKey { path, .. } => (PortableAuthKind::PrivateKey, Some(path@), true),
        AuthMethod::Agent => (PortableAuthKind::Agent, None, true),
        AuthMethod::NoAuth => (PortableAuthKind::NoAuth, None, false),
    }
}

/// The name of the last group in `groups` with identifier `id`.
pub open spec fn group_name(groups: Seq<HostGroup>, id: GroupId) -> Option<Seq<char>>
    decreases groups.len(),
{
    if groups.len() == 0 {
        None
    } else if groups.last().id == id {
        Some(groups.last().name@)
    } else {
        group_name(groups.drop_last(), id)
    }
}

/// The exported form of a saved Host.
pub open spec fn portable_of(h: Host, groups: Seq<HostGroup>) -> PortableHostView {
    PortableHostView {
        name: h.name@,
        address: h.address@,
        port: h.port,
        username: opt_seq(h.username),
        group: match h.group_id {
            Some(id) => group_name(groups, id),
            None => None,
        },
        tags: h.tags@.map_values(|t: String| t@),
        favorite: h.favorite,
        auth_kind: portable_auth(h.auth).0,
        private_key_path: portable_auth(h.auth).1,
        credential_required: portable_auth(h.auth).2,
    }
}

fn find_group_name(groups: &[HostGroup], id: GroupId) -> (r: Option<String>)
    ensures
        opt_seq(r) == group_name(groups@, id),
{
    let mut k: usize = groups.len();
    assert(groups@.take(groups@.len() as int) =~= groups@);
    while k > 0
        invariant
            k <= groups@.len(),
            group_name(groups@, id) == group_name(groups@.take(k as int), id),
        decreases k,
    {
        let ghost t = groups@.take(k as int);
        assert(t.drop_last() =~= groups@.take(k - 1));
        assert(t.last() == groups@[k - 1]);
        if groups[k - 1].id == id {
            return Some(groups[k - 1].name.clone());
        }
        k -= 1;
    }
    None
}

fn export_host(host: &Host, groups: &[HostGroup]) -> (r: PortableHost)
    ensures
        r@ == portable_of(*host, groups@),
{
    let (auth_kind, private_key_path, credential_required) = match &host.auth {
        AuthMethod::Password { .. } => (PortableAuthKind::Password, None, true),
        AuthMethod::PrivateKey { path, .. } => (PortableAuthKind::PrivateKey, Some(path.clone()), true),
        AuthMethod::Agent => (PortableAuthKind::Agent, None, true),
        AuthMethod::NoAuth => (PortableAuthKind::NoAuth, None, false),
    };
    let group = match host.group_id {
        Some(id) => find_group_name(groups, id),
        None => None,
    };
    let tags = copy_strings(&host.tags);
    let r = PortableHost {
        name: host.name.clone(),
        address: host.address.clone(),
        port: host.port,
        username: copy_opt_string(&host.username),
        group,
        tags,
        favorite: host.favorite,
        auth_kind,
        private_key_path,
        credential_required,
    };
    assert(r@.tags =~= portable_of(*host, groups@).tags);
    r
}

/// `w` is the workspace document of the given groups, Hosts and settings, exported at
/// `exported_at`: groups by name and order, Hosts in their exported form, and only the
/// portable settings.
pub open spec fn is_workspace_export(
    w: WorkspaceExport,
    groups: Seq<HostGroup>,
    hosts: Seq<Host>,
    settings: Seq<(Seq<char>, Seq<char>)>,
    exported_at: Seq<char>,
) -> bool {
    &&& w.schema_version == EXPORT_SCHEMA_VERSION
    &&& w.exported_at@ == exported_at
    &&& w.groups@.len() == groups.len()
    &&& forall|i: int|
        0 <= i < groups.len() ==> (#[trigger] w.groups@[i]).name@ == groups[i].name@
            && w.groups@[i].sort_order == groups[i].sort_order
    &&& w.hosts@.len() == hosts.len()
    &&& forall|i: int| 0 <= i < hosts.len() ==> (#[trigger] w.hosts@[i])@ == portable_of(hosts[i], groups)
    &&& settings_view(w.settings@) == theme_only(settings)
}

/// What an exported Host says of the saved Host `h`: its name, address, port, username,
/// tags and favourite mark unchanged, and its authentication by kind only: a key path for
/// a private key, never a vault reference, and whether a credential must be set up again.
pub open spec fn exported_as(e: PortableHostView, h: Host) -> bool {
    &&& e.name == h.name@
    &&& e.address == h.address@
    &&& e.port == h.port
    &&& match h.username {
        Some(u) => e.username == Some(u@),
        None => e.username is None,
    }
    &&& e.tags.len() == h.tags@.len()
    &&& forall|j: int| 0 <= j < h.tags@.len() ==> e.tags[j] == (#[trigger] h.tags@[j])@
    &&& e.favorite == h.favorite
    &&& match h.auth {
        AuthMethod::Password { .. } => e.auth_kind == PortableAuthKind::Password && e.private_key_path is None
            && e.credential_required,
        AuthMethod::PrivateKey { path, .. } => e.auth_kind == PortableAuthKind::PrivateKey && e.private_key_path
            == Some(path@) && e.credential_required,
        AuthMethod::Agent => e.auth_kind == PortableAuthKind::Agent && e.private_key_path is None
            && e.credential_required,
        AuthMethod::NoAuth => e.auth_kind == PortableAuthKind::NoAuth && e.private_key_path is None
            && !e.credential_required,
    }
}

/// Every saved Host is exported, in its place, with its name, address, port, username,
/// tags and favourite mark unchanged and without any vault reference; every group with its
/// name and order.
pub proof fn lemma_export_keeps_host_fields(
    w: WorkspaceExport,
    groups: Seq<HostGroup>,
    hosts: Seq<Host>,
    settings: Seq<(Seq<char>, Seq<char>)>,
    exported_at: Seq<char>,
)
    requires
        is_workspace_export(w, groups, hosts, settings, exported_at),
    ensures
        w.hosts@.len() == hosts.len(),
        forall|i: int| 0 <= i < hosts.len() ==> exported_as((#[trigger] w.hosts@[i])@, hosts[i]),
        w.groups@.len() == groups.len(),
        forall|i: int|
            0 <= i < groups.len() ==> (#[trigger] w.groups@[i]).name@ == groups[i].name@
                && w.groups@[i].sort_order == groups[i].sort_order,
{
    assert forall|i: int| 0 <= i < hosts.len() implies exported_as((#[trigger] w.hosts@[i])@, hosts[i]) by {
        assert(w.hosts@[i]@ == portable_of(hosts[i], groups));
    }
}

/// `p` is the import preview of the workspace document `w` against the saved Host names
/// `existing`: its groups as given, only portable settings, every Host checked for a name
/// conflict, and nothing ignored.
pub open spec fn is_workspace_preview(p: ImportPreview, w: WorkspaceExport, existing: Seq<Seq<char>>) -> bool {
    &&& p.groups == w.groups
    &&& settings_view(p.settings@) == theme_only(settings_view(w.settings@))
    &&& entries_view(p.entries@) == w.hosts@.map_values(|h: PortableHost| preview_of(h@, existing))
    &&& p.ignored@.len() == 0
}

/// The workspace document for the given groups, Hosts and settings: groups by name and
/// order, Hosts without any vault reference, and only portable settings.
pub fn workspace_export(
    groups: &[HostGroup],
    hosts: &[Host],
    settings: Vec<(String, String)>,
    exported_at: String,
) -> (r: WorkspaceExport)
    ensures
        is_workspace_export(r, groups@, hosts@, settings_view(settings@), exported_at@),
{
    let mut portable_groups: Vec<PortableGroup> = Vec::new();
    let mut i: usize = 0;
    while i < groups.len()
        invariant
            i <= groups@.len(),
            portable_groups@.len() == i,
            forall|j: int|
                0 <= j < i ==> (#[trigger] portable_groups@[j]).name@ == groups@[j].name@
                    && portable_groups@[j].sort_order == groups@[j].sort_order,
        decreases groups@.len() - i,
    {
        portable_groups.push(PortableGroup { name: groups[i].name.clone(), sort_order: groups[i].sort_order });
        i += 1;
    }
    let mut portable_hosts: Vec<PortableHost> = Vec::new();
    let mut i: usize = 0;
    while i < hosts.len()
        invariant
            i <= hosts@.len(),
            portable_hosts@.len() == i,
            forall|j: int| 0 <= j < i ==> (#[trigger] portable_hosts@[j])@ == portable_of(hosts@[j], groups@),
        decreases hosts@.len() - i,
    {
        portable_hosts.push(export_host(&hosts[i], groups));
        i += 1;
    }
    WorkspaceExport {
        schema_version: EXPORT_SCHEMA_VERSION,
        exported_at,
        groups: portable_groups,
        hosts: portable_hosts,
        settings: portable_settings(settings),
    }
}

/// The import preview of a workspace document: refused unless it has the supported schema;
/// groups as given, only portable settings, and every Host checked for a name conflict.
pub fn preview_workspace(export: WorkspaceExport, existing: &[Host]) -> (r: Result<ImportPreview, PortabilityError>)
    ensures
        export.schema_version != EXPORT_SCHEMA_VERSION ==> r == Err::<ImportPreview, PortabilityError>(
            PortabilityError::UnsupportedSchema,
        ),
        export.schema_version == EXPORT_SCHEMA_VERSION ==> (r matches Ok(p) && is_workspace_preview(
            p,
            export,
            host_names(existing@),
        )),
{
    if export.schema_version != EXPORT_SCHEMA_VERSION {
        return Err(PortabilityError::UnsupportedSchema);
    }
    let WorkspaceExport { schema_version, exported_at, groups, hosts, settings } = export;
    let ghost want = hosts@.map_values(|h: PortableHost| preview_of(h@, host_names(existing@)));
    let mut entries: Vec<ImportPreviewEntry> = Vec::new();
    let mut i: usize = 0;
    while i < hosts.len()
        invariant
            i <= hosts@.len(),
            want == hosts@.map_values(|h: PortableHost| preview_of(h@, host_names(existing@))),
            entries_view(entries@) == want.take(i as int),
        decreases hosts@.len() - i,
    {
        let ghost before = entries_view(entries@);
        let e = preview_entry(hosts[i].duplicate(), existing);
        assert(want[i as int] == preview_of(hosts@[i as int]@, host_names(existing@)));
        entries.push(e);
        assert(entries_view(entries@) =~= before.push(e@));
        assert(entries_view(entries@) =~= want.take(i + 1));
        i += 1;
    }
    assert(want.take(hosts@.len() as int) =~= want);
    Ok(ImportPreview { groups, settings: portable_settings(settings), entries, ignored: Vec::new() })
}

proof fn lemma_theme_only_idempotent(s: Seq<(Seq<char>, Seq<char>)>)
    ensures
        theme_only(theme_only(s)) == theme_only(s),
{
    lemma_last_theme_is_theme(s);
    if let Some(p) = last_theme(s) {
        let t = seq![p];
        assert(t.last() == p);
        assert(last_theme(t) == Some(p));
    } else {
        assert(last_theme(Seq::<(Seq<char>, Seq<char>)>::empty()) is None);
    }
}

/// Previewing an exported workspace gives back what was exported: the groups by name and
/// order, every Host in its exported form (which holds no vault reference, and asks for a
/// credential again exactly when the Host logged in with one), and the `theme` setting
/// alone.
pub proof fn lemma_workspace_round_trip(
    w: WorkspaceExport,
    p: ImportPreview,
    groups: Seq<HostGroup>,
    hosts: Seq<Host>,
    settings: Seq<(Seq<char>, Seq<char>)>,
    exported_at: Seq<char>,
    existing: Seq<Seq<char>>,
)
    requires
        is_workspace_export(w, groups, hosts, settings, exported_at),
        is_workspace_preview(p, w, existing),
    ensures
        p.groups@.len() == groups.len(),
        forall|i: int|
            0 <= i < groups.len() ==> (#[trigger] p.groups@[i]).name@ == groups[i].name@
                && p.groups@[i].sort_order == groups[i].sort_order,
        p.entries@.len() == hosts.len(),
        forall|i: int|
            0 <= i < hosts.len() ==> (#[trigger] p.entries@[i])@.host == portable_of(hosts[i], groups)
                && p.entries@[i].host.credential_required == !(hosts[i].auth is NoAuth),
        settings_view(p.settings@) == theme_only(settings),
        p.ignored@.len() == 0,
{
    lemma_theme_only_idempotent(settings);
    let previews = w.hosts@.map_values(|h: PortableHost| preview_of(h@, existing));
    assert(entries_view(p.entries@).len() == p.entries@.len());
    assert(previews.len() == hosts.len());
    assert forall|i: int| 0 <= i < hosts.len() implies (#[trigger] p.entries@[i])@.host == portable_of(
        hosts[i],
        groups,
    ) && p.entries@[i].host.credential_required == !(hosts[i].auth is NoAuth) by {
        assert(entries_view(p.entries@)[i] == p.entries@[i]@);
        assert(previews[i] == preview_of(w.hosts@[i]@, existing));
        assert(w.hosts@[i]@ == portable_of(hosts[i], groups));
    }
}

/// A Host read from an OpenSSH block asks for a credential exactly when it logs in with
/// a key file.
pub open spec fn key_consistent(h: PortableHostView) -> bool {
    &&& (h.auth_kind == PortableAuthKind::PrivateKey) == h.private_key_path is Some
    &&& h.credential_required == h.private_key_path is Some
    &&& (h.auth_kind == PortableAuthKind::PrivateKey || h.auth_kind == PortableAuthKind::NoAuth)
}

/// What every imported OpenSSH entry satisfies.
pub open spec fn entry_clean(e: EntryView) -> bool {
    &&& concrete(e.host.name)
    &&& e.host.address.len() > 0
    &&& e.default_action == if e.conflict {
        ImportAction::Skip
    } else {
        ImportAction::Create
    }
    &&& key_consistent(e.host)
}

pub open spec fn entries_clean(entries: Seq<EntryView>) -> bool {
    forall|i: int| 0 <= i < entries.len() ==> entry_clean(#[trigger] entries[i])
}

pub open spec fn state_clean(st: ParseState) -> bool {
    &&& entries_clean(st.entries)
    &&& (st.current matches Some((_, _, h)) ==> key_consistent(h))
}

proof fn lemma_flush_aliases_clean(
    line: int,
    aliases: Seq<Seq<char>>,
    host: PortableHostView,
    existing: Seq<Seq<char>>,
    entries: Seq<EntryView>,
    ignored: Seq<IgnoredView>,
)
    requires
        entries_clean(entries),
        key_consistent(host),
    ensures
        entries_clean(flush_aliases(line, aliases, host, existing, entries, ignored).0),
    decreases aliases.len(),
{
    if aliases.len() > 0 {
        let a = aliases[0];
        if !concrete(a) {
            lemma_flush_aliases_clean(
                line,
                aliases.drop_first(),
                host,
                existing,
                entries,
                ignored.push(ignored_view(line, "Host "@ + a, "pattern aliases are out of scope"@)),
            );
        } else {
            let h = PortableHostView { name: a, address: if host.address.len() == 0 { a } else { host.address }, ..host };
            let pushed = entries.push(preview_of(h, existing));
            assert forall|i: int| 0 <= i < pushed.len() implies entry_clean(#[trigger] pushed[i]) by {
                if i < entries.len() {
                    assert(pushed[i] == entries[i]);
                }
            }
            lemma_flush_aliases_clean(line, aliases.drop_first(), host, existing, pushed, ignored);
        }
    }
}

proof fn lemma_flush_clean(st: ParseState, existing: Seq<Seq<char>>)
    requires
        state_clean(st),
    ensures
        state_clean(flush(st, existing)),
{
    match st.current {
        Some((line, aliases, host)) => {
            lemma_flush_aliases_clean(line, aliases, host, existing, st.entries, st.ignored);
        },
        None => {},
    }
}

proof fn lemma_step_clean(st: ParseState, line: int, raw: Seq<char>, existing: Seq<Seq<char>>)
    requires
        state_clean(st),
    ensures
        state_clean(step(st, line, raw, existing)),
{
    lemma_flush_clean(st, existing);
    assert(key_consistent(blank_host()));
}

proof fn lemma_run_clean(lines: Seq<Seq<char>>, existing: Seq<Seq<char>>)
    ensures
        state_clean(run(lines, existing)),
    decreases lines.len(),
{
    if lines.len() > 0 {
        lemma_run_clean(lines.drop_last(), existing);
        lemma_step_clean(run(lines.drop_last(), existing), lines.len() as int, lines.last(), existing);
    }
}

/// Every entry imported from an OpenSSH configuration names one concrete alias, has an
/// address, is skipped by default exactly when its name is taken, and asks for a
/// credential exactly when it logs in with a key file.
pub proof fn lemma_openssh_entries_clean(content: Seq<char>, existing: Seq<Seq<char>>)
    ensures
        entries_clean(openssh_import(content, existing).entries),
{
    lemma_run_clean(text_lines(content), existing);
    lemma_flush_clean(run(text_lines(content), existing), existing);
}

} // verus!
