//! Application settings that carry no floating-point values: cursor shapes,
//! worktree defaults, field defaults, remote connections, and the migration
//! of older settings files.
use vstd::prelude::*;
use crate::lifecycle::{distinct_ids, id_set, with};
use crate::text::{join_path, path_join};

verus! {

/// Terminal cursor shape.
#[derive(Clone, Copy, Debug, PartialEq, Eq, Structural)]
pub enum CursorShape {
    /// Full-cell block.
    Block,
    /// Thin vertical bar.
    Bar,
    /// Horizontal underline.
    Underline,
}

impl Default for CursorShape {
    fn default() -> (c: Self)
        ensures
            c == CursorShape::Block,
    {
        CursorShape::Block
    }
}

impl CursorShape {
    pub fn display_name(self) -> (r: &'static str)
        ensures
            r@ == (match self {
                CursorShape::Block => "Block"@,
                CursorShape::Bar => "Bar"@,
                CursorShape::Underline => "Underline"@,
            }),
    {
        match self {
            CursorShape::Block => "Block",
            CursorShape::Bar => "Bar",
            CursorShape::Underline => "Underline",
        }
    }

    /// Every shape, in menu order.
    pub fn all_variants() -> (r: Vec<CursorShape>)
        ensures
            r@ == seq![CursorShape::Block, CursorShape::Bar, CursorShape::Underline],
    {
        vec![CursorShape::Block, CursorShape::Bar, CursorShape::Underline]
    }
}

/// Defaults for creating and closing worktrees.
#[derive(Clone, Debug)]
pub struct WorktreeConfig {
    /// Where new worktrees go; relative paths start at the project
    /// directory. `{repo}` is the repository folder name, `{branch}` the
    /// branch name.
    pub path_template: String,
    pub default_merge: bool,
    pub default_stash: bool,
    pub default_fetch: bool,
    pub default_push: bool,
    pub default_delete_branch: bool,
}

impl Default for WorktreeConfig {
    fn default() -> (c: Self)
        ensures
            c.path_template@ == "../{repo}-wt/{branch}"@,
            !c.default_merge,
            !c.default_stash,
            c.default_fetch,
            !c.default_push,
            !c.default_delete_branch,
    {
        WorktreeConfig {
            path_template: default_worktree_path_template(),
            default_merge: false,
            default_stash: false,
            default_fetch: default_true(),
            default_push: false,
            default_delete_branch: false,
        }
    }
}

pub fn default_worktree_path_template() -> (s: String)
    ensures
        s@ == "../{repo}-wt/{branch}"@,
{
    "../{repo}-wt/{branch}".to_owned()
}

pub fn default_true() -> (b: bool)
    ensures
        b,
{
    true
}

/// The version a settings file without a version field has (it predates
/// versioning).
pub fn default_settings_version() -> (v: u32)
    ensures
        v == 0,
{
    0
}

pub fn default_show_focused_border() -> (b: bool)
    ensures
        !b,
{
    false
}

pub fn default_auto_update_enabled() -> (b: bool)
    ensures
        b,
{
    true
}

pub fn default_font_family() -> (s: String)
    ensures
        s@ == "JetBrains Mono"@,
{
    "JetBrains Mono".to_owned()
}

pub fn default_cursor_blink() -> (b: bool)
    ensures
        !b,
{
    false
}

pub fn default_scrollback_lines() -> (n: u32)
    ensures
        n == 10000,
{
    10000
}

/// An empty opener means the system default.
pub fn default_file_opener() -> (s: String)
    ensures
        s@ == Seq::<char>::empty(),
{
    String::new()
}

/// Idle detection is off (0) unless configured.
pub fn default_idle_timeout_secs() -> (n: u32)
    ensures
        n == 0,
{
    0
}

pub fn default_remote_listen_address() -> (s: String)
    ensures
        s@ == "127.0.0.1"@,
{
    "127.0.0.1".to_owned()
}

/// A saved connection to a remote server.
#[derive(Clone, Debug)]
pub struct RemoteConnectionConfig {
    /// Stable id, unique across sessions.
    pub id: String,
    /// Label shown to the user.
    pub name: String,
    pub host: String,
    pub port: u16,
    /// Saved bearer token.
    pub saved_token: Option<String>,
    /// Unix time the token was obtained.
    pub token_obtained_at: Option<i64>,
}

/// The name of the settings file inside the configuration directory.
pub open spec fn settings_file_name() -> Seq<char> {
    seq!['s', 'e', 't', 't', 'i', 'n', 'g', 's', '.', 'j', 's', 'o', 'n']
}

/// The settings file inside the configuration directory `config_dir`.
pub fn get_settings_path(config_dir: &str) -> (r: String)
    ensures
        r@ == path_join(config_dir@, settings_file_name()),
{
    let r = join_path(config_dir, "settings.json");
    proof {
        reveal_strlit("settings.json");
        assert("settings.json"@ =~= settings_file_name());
    }
    r
}

/// Current settings schema version.
pub const SETTINGS_VERSION: u32 = 3;

/// The part of the settings that migration reads and writes: the schema
/// version, the legacy per-extension flags, and the enabled extensions.
#[derive(Clone, Debug)]
pub struct MigrationFields {
    pub version: u32,
    pub claude_code_integration: bool,
    pub codex_integration: bool,
    pub auto_update_enabled: bool,
    /// Ids of the enabled extensions (a set).
    pub enabled_extensions: Vec<String>,
}

/// Length of the `_integration` suffix of a legacy settings key.
pub const INTEGRATION_SUFFIX_LEN: usize = 12;

/// The extension a legacy `<name>_integration` settings key turned on:
/// `<name>` with `-` in place of `_`.
pub open spec fn integration_extension(key: Seq<char>) -> Seq<char> {
    key.take(key.len() - INTEGRATION_SUFFIX_LEN).map_values(|c: char| if c == '_' { '-' } else { c })
}

/// Id of the extension that legacy settings key `key` (ending in
/// `_integration`) turned on.
pub fn integration_extension_id(key: &str) -> (s: String)
    requires
        key@.len() >= INTEGRATION_SUFFIX_LEN,
    ensures
        s@ == integration_extension(key@),
{
    let v = crate::text::chars_of(key);
    let n = v.len() - INTEGRATION_SUFFIX_LEN;
    let mut out: Vec<char> = Vec::new();
    let mut i: usize = 0;
    while i < n
        invariant
            i <= n <= v@.len(),
            v@ == key@,
            out@ == v@.take(i as int).map_values(|c: char| if c == '_' { '-' } else { c }),
        decreases n - i,
    {
        let c = if v[i] == '_' {
            '-'
        } else {
            v[i]
        };
        out.push(c);
        assert(out@ =~= v@.take(i + 1).map_values(|c: char| if c == '_' { '-' } else { c }));
        i += 1;
    }
    crate::text::string_from_chars(&out)
}

/// The enabled-extension set after the legacy flags are moved into it.
pub open spec fn migrated_extensions(f: MigrationFields) -> Set<Seq<char>> {
    let s = id_set(f.enabled_extensions@);
    let s = if f.claude_code_integration {
        s.insert(integration_extension("claude_code_integration"@))
    } else {
        s
    };
    let s = if f.codex_integration {
        s.insert(integration_extension("codex_integration"@))
    } else {
        s
    };
    if f.auto_update_enabled {
        s.insert("updater"@)
    } else {
        s
    }
}

/// What migration makes of `f`: a file older than version 3 has its legacy
/// flags moved into the extension set and is marked version 3; a current or
/// newer file is left as it is.
pub open spec fn migration_result(f: MigrationFields, r: MigrationFields) -> bool {
    if f.version < SETTINGS_VERSION {
        &&& r.version == SETTINGS_VERSION
        &&& id_set(r.enabled_extensions@) == migrated_extensions(f)
        &&& !r.claude_code_integration
        &&& !r.codex_integration
        &&& !r.auto_update_enabled
    } else {
        &&& r.version == f.version
        &&& id_set(r.enabled_extensions@) == id_set(f.enabled_extensions@)
        &&& r.claude_code_integration == f.claude_code_integration
        &&& r.codex_integration == f.codex_integration
        &&& r.auto_update_enabled == f.auto_update_enabled
    }
}

/// Brings settings from an older schema version to the current one.
pub fn migrate_settings(f: MigrationFields) -> (r: MigrationFields)
    ensures
        migration_result(f, r),
        distinct_ids(f.enabled_extensions@) ==> distinct_ids(r.enabled_extensions@),
{
    let mut s = f;
    if s.version == 0 {
        s.version = 1;
    }
    if s.version == 1 {
        s.version = 2;
    }
    if s.version == 2 {
        if s.claude_code_integration {
            proof {
                reveal_strlit("claude_code_integration");
            }
            let id = integration_extension_id("claude_code_integration");
            with(&mut s.enabled_extensions, id.as_str());
        }
        if s.codex_integration {
            proof {
                reveal_strlit("codex_integration");
            }
            let id = integration_extension_id("codex_integration");
            with(&mut s.enabled_extensions, id.as_str());
        }
        if s.auto_update_enabled {
            with(&mut s.enabled_extensions, "updater");
        }
        s.claude_code_integration = false;
        s.codex_integration = false;
        s.auto_update_enabled = false;
        s.version = 3;
    }
    if s.version < SETTINGS_VERSION {
        s.version = SETTINGS_VERSION;
    }
    s
}

/// Migrating settings a second time changes nothing: the result of a
/// migration is at the current version with no legacy flags left.
pub proof fn law_migration_idempotent(f: MigrationFields, once: MigrationFields, twice: MigrationFields)
    requires
        migration_result(f, once),
        migration_result(once, twice),
    ensures
        twice.version == once.version,
        id_set(twice.enabled_extensions@) == id_set(once.enabled_extensions@),
        twice.claude_code_integration == once.claude_code_integration,
        twice.codex_integration == once.codex_integration,
        twice.auto_update_enabled == once.auto_update_enabled,
        once.version >= SETTINGS_VERSION,
{
}

} // verus!
