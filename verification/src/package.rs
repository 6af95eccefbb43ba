//! The canonical package manifest (`extension.toml`, `impetus.extension_package.v1`)
//! as the library models it, and the repository rules built on it: entrypoint
//! artifacts, unique ids, catalog consistency, catalog sync, legacy packaging and
//! the compatibility pins.
use vstd::prelude::*;
use crate::json::{Json, JsonV, push_field, object, fields_v, elems_v};
use crate::text::{chars_of, owned, concat, concat3, str_eq, trim, trim_chars, views_s, strs_v, in_list,
    has_infix, string_of};
use crate::manifest::{ExtensionManifestKind, PackageKind, SUPPORTED_IMPETUS_TAG, SDK_GIT_REV, PACKAGE_SCHEMA_ID,
    valid_extension_id, is_valid_extension_id};
use crate::workspace::str_result;

verus! {

// ---------------------------------------------------------------------------
// Vocabulary

/// The entrypoint kinds of v1 (a closed set).
pub open spec fn entrypoint_kind_strs() -> Seq<&'static str> {
    seq!["instruction_pack", "mcp_bridge", "host_process"]
}

pub open spec fn allowed_entrypoint_kinds() -> Seq<Seq<char>> {
    strs_v(entrypoint_kind_strs())
}

/// The entrypoint kinds of v1, as a list.
pub fn allowed_entrypoint_kind_list() -> (v: Vec<&'static str>)
    ensures
        v@ == entrypoint_kind_strs(),
{
    let v: Vec<&'static str> = vec!["instruction_pack", "mcp_bridge", "host_process"];
    assert(v@ =~= entrypoint_kind_strs());
    v
}

/// The permission vocabulary (a closed set).
pub open spec fn permission_strs() -> Seq<&'static str> {
    seq![
        "filesystem_read", "filesystem_write", "network", "process_spawn", "pty", "git", "mcp", "browser",
        "lsp", "memory", "secrets_provider",
    ]
}

pub open spec fn allowed_permissions() -> Seq<Seq<char>> {
    strs_v(permission_strs())
}

/// The permission vocabulary, as a list.
pub fn allowed_permission_list() -> (v: Vec<&'static str>)
    ensures
        v@ == permission_strs(),
{
    let v: Vec<&'static str> = vec![
        "filesystem_read", "filesystem_write", "network", "process_spawn", "pty", "git", "mcp", "browser",
        "lsp", "memory", "secrets_provider",
    ];
    assert(v@ =~= permission_strs());
    v
}

/// A permission a package may ask for.
#[derive(Debug, Clone, Copy, PartialEq, Eq, Structural)]
pub enum ExtensionPermission {
    FilesystemRead,
    FilesystemWrite,
    Network,
    ProcessSpawn,
    Pty,
    Git,
    Mcp,
    Browser,
    Lsp,
    Memory,
    SecretsProvider,
}

impl ExtensionPermission {
    /// The permission's token.
    pub open spec fn token(self) -> Seq<char> {
        match self {
            ExtensionPermission::FilesystemRead => "filesystem_read"@,
            ExtensionPermission::FilesystemWrite => "filesystem_write"@,
            ExtensionPermission::Network => "network"@,
            ExtensionPermission::ProcessSpawn => "process_spawn"@,
            ExtensionPermission::Pty => "pty"@,
            ExtensionPermission::Git => "git"@,
            ExtensionPermission::Mcp => "mcp"@,
            ExtensionPermission::Browser => "browser"@,
            ExtensionPermission::Lsp => "lsp"@,
            ExtensionPermission::Memory => "memory"@,
            ExtensionPermission::SecretsProvider => "secrets_provider"@,
        }
    }

    /// The permission's token.
    pub fn as_str(&self) -> (r: &'static str)
        ensures
            r@ == self.token(),
    {
        match self {
            ExtensionPermission::FilesystemRead => "filesystem_read",
            ExtensionPermission::FilesystemWrite => "filesystem_write",
            ExtensionPermission::Network => "network",
            ExtensionPermission::ProcessSpawn => "process_spawn",
            ExtensionPermission::Pty => "pty",
            ExtensionPermission::Git => "git",
            ExtensionPermission::Mcp => "mcp",
            ExtensionPermission::Browser => "browser",
            ExtensionPermission::Lsp => "lsp",
            ExtensionPermission::Memory => "memory",
            ExtensionPermission::SecretsProvider => "secrets_provider",
        }
    }

    /// The permission named by a token.
    pub fn from_token(t: &str) -> (r: Option<ExtensionPermission>)
        ensures
            match r {
                Some(p) => p.token() == t@,
                None => forall|p: ExtensionPermission| p.token() != t@,
            },
    {
        if str_eq(t, "filesystem_read") {
            Some(ExtensionPermission::FilesystemRead)
        } else if str_eq(t, "filesystem_write") {
            Some(ExtensionPermission::FilesystemWrite)
        } else if str_eq(t, "network") {
            Some(ExtensionPermission::Network)
        } else if str_eq(t, "process_spawn") {
            Some(ExtensionPermission::ProcessSpawn)
        } else if str_eq(t, "pty") {
            Some(ExtensionPermission::Pty)
        } else if str_eq(t, "git") {
            Some(ExtensionPermission::Git)
        } else if str_eq(t, "mcp") {
            Some(ExtensionPermission::Mcp)
        } else if str_eq(t, "browser") {
            Some(ExtensionPermission::Browser)
        } else if str_eq(t, "lsp") {
            Some(ExtensionPermission::Lsp)
        } else if str_eq(t, "memory") {
            Some(ExtensionPermission::Memory)
        } else if str_eq(t, "secrets_provider") {
            Some(ExtensionPermission::SecretsProvider)
        } else {
            None
        }
    }
}

/// How a package is started.
#[derive(Debug)]
pub enum ExtensionEntrypoint {
    /// Portable instructions under a package-relative directory.
    InstructionPack { root: String },
    /// Tools exposed through an MCP module.
    McpBridge { module_id: String },
    /// A crash-isolated child process.
    HostProcess { command: String, args: Vec<String> },
}

/// The canonical package manifest.
#[derive(Debug)]
pub struct ExtensionPackageManifest {
    pub schema_version: u32,
    pub id: String,
    pub name: String,
    pub version: String,
    pub description: String,
    pub author: String,
    pub extension_api_version: u32,
    pub capabilities: Vec<String>,
    pub permissions: Vec<ExtensionPermission>,
    pub entrypoint: ExtensionEntrypoint,
}

/// The entrypoint's kind.
pub open spec fn kind_spec(ep: ExtensionEntrypoint) -> Seq<char> {
    match ep {
        ExtensionEntrypoint::InstructionPack { .. } => "instruction_pack"@,
        ExtensionEntrypoint::McpBridge { .. } => "mcp_bridge"@,
        ExtensionEntrypoint::HostProcess { .. } => "host_process"@,
    }
}

/// The portable surface an entrypoint offers.
pub open spec fn surface_spec(ep: ExtensionEntrypoint) -> Seq<char> {
    match ep {
        ExtensionEntrypoint::InstructionPack { .. } => "skill"@,
        ExtensionEntrypoint::McpBridge { .. } => "mcp"@,
        ExtensionEntrypoint::HostProcess { .. } => "host_process"@,
    }
}

/// The entrypoint's kind.
pub fn entrypoint_kind(ep: &ExtensionEntrypoint) -> (r: &'static str)
    ensures
        r@ == kind_spec(*ep),
{
    match ep {
        ExtensionEntrypoint::InstructionPack { .. } => "instruction_pack",
        ExtensionEntrypoint::McpBridge { .. } => "mcp_bridge",
        ExtensionEntrypoint::HostProcess { .. } => "host_process",
    }
}

/// The portable surface an entrypoint offers.
pub fn portable_surface(ep: &ExtensionEntrypoint) -> (r: &'static str)
    ensures
        r@ == surface_spec(*ep),
{
    match ep {
        ExtensionEntrypoint::InstructionPack { .. } => "skill",
        ExtensionEntrypoint::McpBridge { .. } => "mcp",
        ExtensionEntrypoint::HostProcess { .. } => "host_process",
    }
}

/// Every entrypoint kind is in the v1 set.
pub proof fn lemma_kinds_allowed(ep: ExtensionEntrypoint)
    ensures
        allowed_entrypoint_kinds().contains(kind_spec(ep)),
{
    let a = allowed_entrypoint_kinds();
    match ep {
        ExtensionEntrypoint::InstructionPack { .. } => { assert(a[0] == kind_spec(ep)); },
        ExtensionEntrypoint::McpBridge { .. } => { assert(a[1] == kind_spec(ep)); },
        ExtensionEntrypoint::HostProcess { .. } => { assert(a[2] == kind_spec(ep)); },
    }
}

// ---------------------------------------------------------------------------
// Manifest rules

/// Whether `semver::Version::parse` accepts a version.
pub uninterp spec fn semver_parses(v: Seq<char>) -> bool;

/// `semver::Version::parse(v).is_ok()`; the contract names the answer.
#[verifier::external_body]
pub(crate) fn semver_valid(v: &str) -> (r: bool)
    ensures
        r == semver_parses(v@),
{
    semver::Version::parse(v).is_ok()
}

/// A package-relative path: not absolute, and no `..` in it.
pub open spec fn relative_root(root: Seq<char>) -> bool {
    !(root.len() > 0 && root[0] == '/') && !has_infix(root, ".."@)
}

/// The documented rules of a manifest, checked in order: schema version 1, a
/// valid id, a semver version, API version 1, at least one capability, and a
/// package-relative instruction root.
pub open spec fn manifest_rules_spec(
    schema_version: u32,
    id: Seq<char>,
    version: Seq<char>,
    api: u32,
    n_capabilities: nat,
    ep: ExtensionEntrypoint,
) -> Result<(), Seq<char>> {
    if schema_version != 1 {
        Err("unsupported schema_version"@)
    } else if !valid_extension_id(id) {
        Err("invalid extension id"@)
    } else if !semver_parses(version) {
        Err("version must be semver"@)
    } else if api != 1 {
        Err("unsupported extension_api_version"@)
    } else if n_capabilities == 0 {
        Err("capabilities must be non-empty"@)
    } else {
        match ep {
            ExtensionEntrypoint::InstructionPack { root } => if relative_root(root@) {
                Ok(())
            } else {
                Err("instruction_pack root must be package-relative"@)
            },
            _ => Ok(()),
        }
    }
}

pub open spec fn unit_v(r: Result<(), String>) -> Result<(), Seq<char>> {
    match r {
        Ok(()) => Ok(()),
        Err(e) => Err(e@),
    }
}

/// Checks a manifest against the documented rules of `extension.toml`.
pub fn validate_package_manifest(m: &ExtensionPackageManifest) -> (r: Result<(), String>)
    ensures
        unit_v(r) == manifest_rules_spec(m.schema_version, m.id@, m.version@, m.extension_api_version, m.capabilities@.len(), m.entrypoint),
{
    if m.schema_version != 1 {
        return Err(owned("unsupported schema_version"));
    }
    if !is_valid_extension_id(m.id.as_str()) {
        return Err(owned("invalid extension id"));
    }
    if !semver_valid(m.version.as_str()) {
        return Err(owned("version must be semver"));
    }
    if m.extension_api_version != 1 {
        return Err(owned("unsupported extension_api_version"));
    }
    if m.capabilities.len() == 0 {
        return Err(owned("capabilities must be non-empty"));
    }
    match &m.entrypoint {
        ExtensionEntrypoint::InstructionPack { root } => {
            let c = chars_of(root.as_str());
            let dots = chars_of("..");
            let bad = (c.len() > 0 && c[0] == '/') || crate::text::contains_chars(c.as_slice(), dots.as_slice());
            if bad {
                Err(owned("instruction_pack root must be package-relative"))
            } else {
                Ok(())
            }
        },
        _ => Ok(()),
    }
}

// ---------------------------------------------------------------------------
// Entrypoint artifacts

/// What the filesystem shows about a package's entrypoint artifacts.
pub struct ArtifactFacts {
    /// The instruction root is a directory.
    pub root_is_dir: bool,
    /// `SKILL.md` is a file under the instruction root.
    pub skill_is_file: bool,
    /// `mcp.json` is a file beside `extension.toml`.
    pub mcp_is_file: bool,
    /// The parsed `mcp.json`, when it was read.
    pub mcp: Option<Json>,
    /// A relative host command names a file under the package.
    pub command_is_file: bool,
}

/// `id` (or else `name`) of an `mcp.json`, empty when it is not a string.
pub open spec fn mcp_module_name(v: JsonV) -> Seq<char> {
    let f = match v.get("id"@) {
        Some(x) => Some(x),
        None => v.get("name"@),
    };
    match f {
        Some(x) => match x.as_str() {
            Some(s) => s,
            None => Seq::empty(),
        },
        None => Seq::empty(),
    }
}

/// The verdict on a package's entrypoint artifacts.
pub open spec fn artifacts_spec(id: Seq<char>, ep: ExtensionEntrypoint, root_is_dir: bool, skill_is_file: bool,
    mcp_is_file: bool, mcp: JsonV, command_is_file: bool) -> Result<(), Seq<char>> {
    match ep {
        ExtensionEntrypoint::InstructionPack { root } => if !root_is_dir {
            Err(id + ": instruction_pack root `"@ + root@ + "` is not a directory"@)
        } else if !skill_is_file {
            Err(id + ": missing "@ + root@ + "/SKILL.md"@)
        } else {
            Ok(())
        },
        ExtensionEntrypoint::McpBridge { module_id } => if !mcp_is_file {
            Err(id + ": mcp_bridge requires mcp.json beside extension.toml"@)
        } else {
            let name = mcp_module_name(mcp);
            if name.len() == 0 {
                Err(id + ": mcp.json must set id (or name) equal to entrypoint.module_id `"@ + module_id@ + "`"@)
            } else if name != module_id@ {
                Err(id + ": mcp.json id/name `"@ + name + "` != entrypoint.module_id `"@ + module_id@ + "`"@)
            } else if match mcp.str_at("command"@) { Some(c) => c.len() == 0, None => true } {
                Err(id + ": mcp.json missing command"@)
            } else {
                Ok(())
            }
        },
        ExtensionEntrypoint::HostProcess { command, .. } => if trim(command@).len() == 0 {
            Err(id + ": host_process command must be non-empty"@)
        } else if !(command@[0] == '/') && !command_is_file {
            Err(id + ": host_process command `"@ + command@ + "` not found under package"@)
        } else {
            Ok(())
        },
    }
}

fn mcp_name_of(v: &Json) -> (r: String)
    ensures
        r@ == mcp_module_name(v@),
{
    let f = match v.get("id") {
        Some(x) => Some(x),
        None => v.get("name"),
    };
    match f {
        Some(x) => match x.as_str() {
            Some(s) => owned(s),
            None => String::new(),
        },
        None => String::new(),
    }
}

/// Checks that a package's entrypoint artifacts are in place.
pub fn check_entrypoint_artifacts(m: &ExtensionPackageManifest, facts: &ArtifactFacts) -> (r: Result<(), String>)
    ensures
        unit_v(r) == artifacts_spec(m.id@, m.entrypoint, facts.root_is_dir, facts.skill_is_file, facts.mcp_is_file,
            match facts.mcp { Some(j) => j@, None => JsonV::Null }, facts.command_is_file),
{
    let id = m.id.as_str();
    match &m.entrypoint {
        ExtensionEntrypoint::InstructionPack { root } => {
            if !facts.root_is_dir {
                let a = concat3(id, ": instruction_pack root `", root.as_str());
                return Err(concat(a.as_str(), "` is not a directory"));
            }
            if !facts.skill_is_file {
                let a = concat3(id, ": missing ", root.as_str());
                return Err(concat(a.as_str(), "/SKILL.md"));
            }
            Ok(())
        },
        ExtensionEntrypoint::McpBridge { module_id } => {
            if !facts.mcp_is_file {
                return Err(concat(id, ": mcp_bridge requires mcp.json beside extension.toml"));
            }
            let null = Json::Null;
            let v: &Json = match &facts.mcp {
                Some(j) => j,
                None => &null,
            };
            let name = mcp_name_of(v);
            if name.as_str().is_empty() {
                let a = concat3(id, ": mcp.json must set id (or name) equal to entrypoint.module_id `", module_id.as_str());
                return Err(concat(a.as_str(), "`"));
            }
            if !str_eq(name.as_str(), module_id.as_str()) {
                let a = concat3(id, ": mcp.json id/name `", name.as_str());
                let b = concat3(a.as_str(), "` != entrypoint.module_id `", module_id.as_str());
                return Err(concat(b.as_str(), "`"));
            }
            let missing = match v.str_at("command") {
                Some(c) => c.as_str().is_empty(),
                None => true,
            };
            if missing {
                return Err(concat(id, ": mcp.json missing command"));
            }
            Ok(())
        },
        ExtensionEntrypoint::HostProcess { command, .. } => {
            let c = chars_of(command.as_str());
            let t = trim_chars(c.as_slice());
            if t.len() == 0 {
                return Err(concat(id, ": host_process command must be non-empty"));
            }
            if !(c[0] == '/') && !facts.command_is_file {
                let a = concat3(id, ": host_process command `", command.as_str());
                return Err(concat(a.as_str(), "` not found under package"));
            }
            Ok(())
        },
    }
}

// ---------------------------------------------------------------------------
// The set of packages

/// The packages registered so far, by id.
pub struct ExtensionRegistry {
    ids: Vec<String>,
}

impl View for ExtensionRegistry {
    type V = Seq<Seq<char>>;

    closed spec fn view(&self) -> Seq<Seq<char>> {
        views_s(self.ids@)
    }
}

/// No id occurs twice.
pub open spec fn distinct(s: Seq<Seq<char>>) -> bool {
    forall|i: int, j: int| 0 <= i < j < s.len() ==> s[i] != s[j]
}

impl ExtensionRegistry {
    pub fn new() -> (r: ExtensionRegistry)
        ensures
            r@ == Seq::<Seq<char>>::empty(),
    {
        let r = ExtensionRegistry { ids: Vec::new() };
        assert(r@ =~= Seq::<Seq<char>>::empty());
        r
    }

    /// Whether an id was registered.
    pub fn contains(&self, id: &str) -> (r: bool)
        ensures
            r == self@.contains(id@),
    {
        let mut i: usize = 0;
        while i < self.ids.len()
            invariant
                i <= self.ids.len(),
                forall|j: int| 0 <= j < i ==> self@[j] != id@,
            decreases self.ids.len() - i,
        {
            if str_eq(self.ids[i].as_str(), id) {
                assert(self@[i as int] == id@);
                return true;
            }
            i += 1;
        }
        false
    }

    /// Registers a package: its id must be new, its permissions in the vocabulary
    /// and its entrypoint kind in the v1 set.
    pub fn register(&mut self, m: &ExtensionPackageManifest) -> (r: Result<(), String>)
        ensures
            old(self)@.contains(m.id@) ==> (r matches Err(e) && e@ == "duplicate extension id `"@ + m.id@ + "` under extensions/"@
                && final(self)@ == old(self)@),
            !old(self)@.contains(m.id@) ==> r is Ok && final(self)@ == old(self)@.push(m.id@),
    {
        if self.contains(m.id.as_str()) {
            return Err(concat3("duplicate extension id `", m.id.as_str(), "` under extensions/"));
        }
        let ghost before = self@;
        self.ids.push(owned(m.id.as_str()));
        assert(self@ =~= before.push(m.id@));
        let perms = allowed_permission_list();
        let mut i: usize = 0;
        while i < m.permissions.len()
            invariant
                i <= m.permissions.len(),
                perms@ == permission_strs(),
            decreases m.permissions.len() - i,
        {
            let token = m.permissions[i].as_str();
            proof {
                let a = allowed_permissions();
                match m.permissions@[i as int] {
                    ExtensionPermission::FilesystemRead => assert(a[0] == token@),
                    ExtensionPermission::FilesystemWrite => assert(a[1] == token@),
                    ExtensionPermission::Network => assert(a[2] == token@),
                    ExtensionPermission::ProcessSpawn => assert(a[3] == token@),
                    ExtensionPermission::Pty => assert(a[4] == token@),
                    ExtensionPermission::Git => assert(a[5] == token@),
                    ExtensionPermission::Mcp => assert(a[6] == token@),
                    ExtensionPermission::Browser => assert(a[7] == token@),
                    ExtensionPermission::Lsp => assert(a[8] == token@),
                    ExtensionPermission::Memory => assert(a[9] == token@),
                    ExtensionPermission::SecretsProvider => assert(a[10] == token@),
                }
            }
            let known = in_list(token, &perms);
            assert(known);
            i += 1;
        }
        let kinds = allowed_entrypoint_kind_list();
        let kind = entrypoint_kind(&m.entrypoint);
        proof {
            lemma_kinds_allowed(m.entrypoint);
        }
        let known_kind = in_list(kind, &kinds);
        assert(known_kind);
        Ok(())
    }
}

/// Registering keeps the registered ids distinct, and a second package with an id
/// already registered is refused.
pub proof fn lemma_registry_distinct(ids: Seq<Seq<char>>, id: Seq<char>)
    requires
        distinct(ids),
    ensures
        !ids.contains(id) ==> distinct(ids.push(id)),
        ids.push(id).contains(id),
{
    if !ids.contains(id) {
        assert forall|i: int, j: int| 0 <= i < j < ids.push(id).len() implies ids.push(id)[i] != ids.push(id)[j] by {
            if j == ids.len() {
                assert(ids.push(id)[i] == ids[i]);
                if ids[i] == id {
                    assert(ids.contains(id));
                }
            }
        }
    }
    assert(ids.push(id)[ids.len() as int] == id);
}

} // verus!
