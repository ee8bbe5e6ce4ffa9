# ownterm

OwnTerm is a local-first terminal workspace: saved SSH Hosts and groups, local shells,
strict trust-on-first-use for host keys, secrets kept only in the system credential vault,
import from OpenSSH configuration and a portable workspace document, and per-profile
terminal appearance.

## Layout

- `src/` is the library, verified with Verus. Each rule of the product is an executable
  function with a `requires`/`ensures` contract over mathematical models (`Seq`, `Map`,
  views of the data types), and the properties that span several functions are stated
  and proved as public `proof fn`s (named `lemma_*`).
  - `domain`, `ids`, `text`: the domain values and their validation and normal forms.
  - `repositories`, `vault`, `storage`: the storage and vault ports, and the row
    encoding of Hosts and known hosts.
  - `ssh`, `ssh_trust`, `ssh_session`: connection targets, host-key trust and the
    decisions of an interactive SSH session.
  - `terminal`, `local_session`: local shells, terminal sizes, WSL listing and the
    output pump of a local session.
  - `portability`: OpenSSH import and the workspace document.
  - `appearance`, `appearance_editor`, `window_opacity`: appearance settings, profiles
    and colour schemes.
  - `desktop`, `commands`, `host_save`: what the desktop interface is sent and how its
    commands use the stores.
  - `platform`, `diagnostics`, `application`: directories, the system vault, diagnostic
    events and the product identity.
- `tests/` runs the library on concrete values.
- `app/` is the ordinary Rust around the library: SQLite storage, pseudo-terminals, the
  SSH client, JSON documents, the clock and the file system. It holds no rule of its own.

Outside calls that the library makes (UUIDs, the system vault, string case mapping,
lossy text decoding, the clock) go through small trusted wrappers whose contracts are
stated next to them in `src/`.
