//! The legacy Skill/MCP install layout generated under `dist/` from a canonical
//! manifest, and the compatibility pins of the repository.
use vstd::prelude::*;
use crate::json::{Json, JsonV};
use crate::text::{owned, concat, concat3, str_eq, debug_str, debug_str_spec, views_s, chars_of, string_of, contains_chars,
    has_infix, find_char, first_index, slice_range};
use crate::manifest::{ExtensionManifest, ExtensionManifestKind, PackageKind, ManifestV, ManifestErrorV, error_text,
    built_manifest, validate_spec, build_core_manifest, SUPPORTED_IMPETUS_TAG, SDK_GIT_REV, PACKAGE_SCHEMA_ID};
use crate::package::{ExtensionPackageManifest, ExtensionEntrypoint, ExtensionPermission};

verus! {

// ---------------------------------------------------------------------------
// package.toml

pub open spec fn package_kind_name(k: PackageKind) -> Seq<char> {
    match k {
        PackageKind::Skill => "skill"@,
        PackageKind::McpConfig => "mcp_config"@,
    }
}

/// `key = <debug-quoted value>` and a newline.
pub open spec fn quoted_line(key: Seq<char>, value: Seq<char>) -> Seq<char> {
    key + " = "@ + debug_str_spec(value) + "\n"@
}

/// The permission tokens, each debug-quoted, separated by `, `.
pub open spec fn quoted_list(tokens: Seq<Seq<char>>) -> Seq<char>
    decreases tokens.len(),
{
    if tokens.len() == 0 {
        Seq::empty()
    } else if tokens.len() == 1 {
        debug_str_spec(tokens[0])
    } else {
        quoted_list(tokens.drop_last()) + ", "@ + debug_str_spec(tokens.last())
    }
}

pub open spec fn opt_line(key: Seq<char>, value: Option<Seq<char>>) -> Seq<char> {
    match value {
        Some(v) => quoted_line(key, v),
        None => Seq::empty(),
    }
}

/// The generated legacy `package.toml`.
pub open spec fn legacy_toml_spec(
    id: Seq<char>,
    version: Seq<char>,
    kind: PackageKind,
    name: Seq<char>,
    description: Seq<char>,
    permissions: Seq<Seq<char>>,
    skill_md: Option<Seq<char>>,
    mcp_json: Option<Seq<char>>,
    binary: Option<Seq<char>>,
) -> Seq<char> {
    "# GENERATED from extension.toml — legacy Skill/MCP CLI adapter only.\n"@
        + quoted_line("id"@, id)
        + quoted_line("version"@, version)
        + quoted_line("kind"@, package_kind_name(kind))
        + quoted_line("display_name"@, name)
        + quoted_line("description"@, description)
        + "permissions = ["@ + quoted_list(permissions) + "]\n"@
        + "permission_rationale = []\n\n"@
        + "[compatibility]\n"@
        + "extension_api_version = \"0.1.0-skill-mcp\"\n"@
        + quoted_line("impetus_tag"@, SUPPORTED_IMPETUS_TAG@)
        + "extension_schema = \"impetus.extension.v1@1\"\n"@
        + "mcp_schema = \"impetus.mcp.v1@1\"\n"@
        + (if id == "browser"@ { quoted_line("browser_protocol"@, "0.1"@) } else { Seq::empty() })
        + "\n"@
        + "[entrypoints]\n"@
        + opt_line("skill_md"@, skill_md)
        + opt_line("mcp_json"@, mcp_json)
        + opt_line("binary"@, binary)
}

fn push_quoted_line(out: &mut String, key: &str, value: &str)
    ensures
        final(out)@ == old(out)@ + quoted_line(key@, value@),
{
    let q = debug_str(value);
    out.append(key);
    out.append(" = ");
    out.append(q.as_str());
    out.append("\n");
}

fn push_opt_line(out: &mut String, key: &str, value: Option<&str>)
    ensures
        final(out)@ == old(out)@ + opt_line(key@, match value { Some(v) => Some(v@), None => None }),
{
    match value {
        Some(v) => push_quoted_line(out, key, v),
        None => {
            assert(out@ =~= out@ + Seq::<char>::empty());
        },
    }
}

pub open spec fn permission_tokens_spec(p: Seq<ExtensionPermission>) -> Seq<Seq<char>> {
    p.map_values(|x: ExtensionPermission| x.token())
}

fn push_permission_list(out: &mut String, perms: &Vec<ExtensionPermission>)
    ensures
        final(out)@ == old(out)@ + quoted_list(permission_tokens_spec(perms@)),
{
    let ghost o = out@;
    let mut i: usize = 0;
    assert(permission_tokens_spec(perms@).take(0) =~= Seq::<Seq<char>>::empty());
    while i < perms.len()
        invariant
            i <= perms.len(),
            out@ == o + quoted_list(permission_tokens_spec(perms@).take(i as int)),
        decreases perms.len() - i,
    {
        let ghost t = permission_tokens_spec(perms@);
        if i > 0 {
            out.append(", ");
        }
        let q = debug_str(perms[i].as_str());
        out.append(q.as_str());
        proof {
            let s = t.take(i + 1);
            assert(s.drop_last() =~= t.take(i as int));
            assert(s.last() == perms@[i as int].token());
            if i == 0 {
                assert(s.len() == 1);
                assert(s[0] == perms@[0].token());
            }
        }
        i += 1;
    }
    assert(permission_tokens_spec(perms@).take(perms.len() as int) =~= permission_tokens_spec(perms@));
}

/// The legacy `package.toml` generated for a package.
pub fn legacy_package_toml(
    m: &ExtensionPackageManifest,
    kind: PackageKind,
    skill_md: Option<&str>,
    mcp_json: Option<&str>,
    binary: Option<&str>,
) -> (r: String)
    ensures
        r@ == legacy_toml_spec(
            m.id@,
            m.version@,
            kind,
            m.name@,
            m.description@,
            permission_tokens_spec(m.permissions@),
            match skill_md { Some(v) => Some(v@), None => None },
            match mcp_json { Some(v) => Some(v@), None => None },
            match binary { Some(v) => Some(v@), None => None },
        ),
{
    let mut doc = String::new();
    doc.append("# GENERATED from extension.toml — legacy Skill/MCP CLI adapter only.\n");
    push_quoted_line(&mut doc, "id", m.id.as_str());
    push_quoted_line(&mut doc, "version", m.version.as_str());
    let kname = match kind {
        PackageKind::Skill => "skill",
        PackageKind::McpConfig => "mcp_config",
    };
    push_quoted_line(&mut doc, "kind", kname);
    push_quoted_line(&mut doc, "display_name", m.name.as_str());
    push_quoted_line(&mut doc, "description", m.description.as_str());
    doc.append("permissions = [");
    push_permission_list(&mut doc, &m.permissions);
    doc.append("]\n");
    doc.append("permission_rationale = []\n\n");
    doc.append("[compatibility]\n");
    doc.append("extension_api_version = \"0.1.0-skill-mcp\"\n");
    push_quoted_line(&mut doc, "impetus_tag", SUPPORTED_IMPETUS_TAG);
    doc.append("extension_schema = \"impetus.extension.v1@1\"\n");
    doc.append("mcp_schema = \"impetus.mcp.v1@1\"\n");
    let browser = str_eq(m.id.as_str(), "browser");
    if browser {
        push_quoted_line(&mut doc, "browser_protocol", "0.1");
    }
    doc.append("\n");
    doc.append("[entrypoints]\n");
    push_opt_line(&mut doc, "skill_md", skill_md);
    push_opt_line(&mut doc, "mcp_json", mcp_json);
    push_opt_line(&mut doc, "binary", binary);
    assert(doc@ =~= legacy_toml_spec(
        m.id@,
        m.version@,
        kind,
        m.name@,
        m.description@,
        permission_tokens_spec(m.permissions@),
        match skill_md { Some(v) => Some(v@), None => None },
        match mcp_json { Some(v) => Some(v@), None => None },
        match binary { Some(v) => Some(v@), None => None },
    ));
    doc
}

// ---------------------------------------------------------------------------
// Packaging

/// The directory a package is written to under the output root: `<id>-<version>`.
pub fn package_dir_name(m: &ExtensionPackageManifest) -> (r: String)
    ensures
        r@ == m.id@ + "-"@ + m.version@,
{
    concat3(m.id.as_str(), "-", m.version.as_str())
}

/// How a package is packaged for the legacy CLI: instruction packs as skills,
/// MCP bridges as MCP configs, each with its capabilities; host processes are
/// not packaged.
pub open spec fn legacy_plan_spec(id: Seq<char>, ep: ExtensionEntrypoint) -> Result<(PackageKind, ExtensionManifestKind, Seq<Seq<char>>), Seq<char>> {
    match ep {
        ExtensionEntrypoint::InstructionPack { .. } => Ok((PackageKind::Skill, ExtensionManifestKind::Skill, seq!["instructions"@, "triggers"@])),
        ExtensionEntrypoint::McpBridge { .. } => Ok((PackageKind::McpConfig, ExtensionManifestKind::McpConfig, seq!["mcp"@, "stdio"@, "tools"@])),
        ExtensionEntrypoint::HostProcess { .. } => Err(id + ": host_process is not packaged via the legacy Skill/MCP CLI; install under the Extension Host package root"@),
    }
}

/// The legacy packaging of a package.
pub fn legacy_plan(m: &ExtensionPackageManifest) -> (r: Result<(PackageKind, ExtensionManifestKind, Vec<String>), String>)
    ensures
        match r {
            Ok((k, mk, caps)) => legacy_plan_spec(m.id@, m.entrypoint) == Ok::<(PackageKind, ExtensionManifestKind, Seq<Seq<char>>), Seq<char>>((k, mk, views_s(caps@))),
            Err(e) => legacy_plan_spec(m.id@, m.entrypoint) == Err::<(PackageKind, ExtensionManifestKind, Seq<Seq<char>>), Seq<char>>(e@),
        },
{
    match &m.entrypoint {
        ExtensionEntrypoint::InstructionPack { .. } => {
            let mut c: Vec<String> = Vec::new();
            c.push(owned("instructions"));
            c.push(owned("triggers"));
            assert(views_s(c@) =~= seq!["instructions"@, "triggers"@]);
            Ok((PackageKind::Skill, ExtensionManifestKind::Skill, c))
        },
        ExtensionEntrypoint::McpBridge { .. } => {
            let mut c: Vec<String> = Vec::new();
            c.push(owned("mcp"));
            c.push(owned("stdio"));
            c.push(owned("tools"));
            assert(views_s(c@) =~= seq!["mcp"@, "stdio"@, "tools"@]);
            Ok((PackageKind::McpConfig, ExtensionManifestKind::McpConfig, c))
        },
        ExtensionEntrypoint::HostProcess { .. } => Err(concat(
            m.id.as_str(),
            ": host_process is not packaged via the legacy Skill/MCP CLI; install under the Extension Host package root",
        )),
    }
}

/// The legacy envelope of a packaged package, or why it is refused.
pub fn legacy_envelope(m: &ExtensionPackageManifest, kind: ExtensionManifestKind, digest: &str, capabilities: Vec<String>) -> (r: Result<ExtensionManifest, String>)
    ensures
        ({
            let b = built_manifest(m.id@, kind, m.version@, digest@, views_s(capabilities@));
            match r {
                Ok(env) => validate_spec(b) is Ok && env@ == b,
                Err(e) => validate_spec(b) is Err && e@ == "legacy envelope: "@ + error_text(validate_spec(b)->Err_0),
            }
        }),
{
    let ghost caps = views_s(capabilities@);
    match build_core_manifest(m.id.as_str(), kind, m.version.as_str(), digest, capabilities) {
        Ok(env) => {
            proof {
                assert(crate::manifest::strings_v(capabilities@) =~= caps);
            }
            Ok(env)
        },
        Err(e) => {
            let t = e.message();
            Err(concat("legacy envelope: ", t.as_str()))
        },
    }
}

// ---------------------------------------------------------------------------
// Compatibility pins

/// `Value::pointer` for a two-step path `/a/b`.
pub open spec fn pointer2(v: JsonV, a: Seq<char>, b: Seq<char>) -> Option<JsonV> {
    match v.get(a) {
        Some(x) => x.get(b),
        None => None,
    }
}

pub open spec fn str_or_empty(v: Option<JsonV>) -> Seq<char> {
    match v {
        Some(x) => match x.as_str() {
            Some(s) => s,
            None => Seq::empty(),
        },
        None => Seq::empty(),
    }
}

/// The strings among the listed entrypoints.
pub open spec fn listed_kinds(v: JsonV) -> Seq<JsonV> {
    match pointer2(v, "canonical_package_contract"@, "entrypoints"@) {
        Some(JsonV::Arr(a)) => a,
        _ => Seq::empty(),
    }
}

pub open spec fn lists_kind(v: JsonV, k: Seq<char>) -> bool {
    listed_kinds(v).contains(JsonV::Str(k))
}

/// The verdict on `compatibility.json`, checks taken in order: the legacy tag,
/// the SDK rev, the canonical schema, each v1 entrypoint listed, and no
/// `native_module`.
pub open spec fn compatibility_spec(v: JsonV) -> Result<(), Seq<char>> {
    let tag = match pointer2(v, "legacy_helper"@, "impetus_tag"@) {
        Some(x) => str_or_empty(Some(x)),
        None => str_or_empty(v.get("impetus_tag"@)),
    };
    let rev = str_or_empty(pointer2(v, "sdk"@, "rev"@));
    let schema = str_or_empty(pointer2(v, "canonical_package_contract"@, "schema"@));
    if tag != SUPPORTED_IMPETUS_TAG@ {
        Err("compatibility.json legacy impetus_tag="@ + tag + ", expected "@ + SUPPORTED_IMPETUS_TAG@)
    } else if rev != SDK_GIT_REV@ {
        Err("compatibility.json sdk.rev="@ + rev + ", expected "@ + SDK_GIT_REV@)
    } else if schema != PACKAGE_SCHEMA_ID@ {
        Err("compatibility.json canonical schema="@ + schema + ", expected "@ + PACKAGE_SCHEMA_ID@)
    } else if !lists_kind(v, "instruction_pack"@) {
        Err("compatibility.json missing entrypoint `instruction_pack`"@)
    } else if !lists_kind(v, "mcp_bridge"@) {
        Err("compatibility.json missing entrypoint `mcp_bridge`"@)
    } else if !lists_kind(v, "host_process"@) {
        Err("compatibility.json missing entrypoint `host_process`"@)
    } else if lists_kind(v, "native_module"@) {
        Err("compatibility.json must not list native_module as a public entrypoint"@)
    } else {
        Ok(())
    }
}

fn pointer2_exec<'a>(v: &'a Json, a: &str, b: &str) -> (r: Option<&'a Json>)
    ensures
        match r {
            Some(x) => pointer2(v@, a@, b@) == Some(x@),
            None => pointer2(v@, a@, b@) is None,
        },
{
    match v.get(a) {
        Some(x) => x.get(b),
        None => None,
    }
}

fn str_or_empty_exec(v: Option<&Json>) -> (r: String)
    ensures
        r@ == str_or_empty(match v { Some(x) => Some(x@), None => None }),
{
    match v {
        Some(x) => match x.as_str() {
            Some(s) => owned(s),
            None => String::new(),
        },
        None => String::new(),
    }
}

fn lists_kind_exec(v: &Json, k: &str) -> (r: bool)
    ensures
        r == lists_kind(v@, k@),
{
    match pointer2_exec(v, "canonical_package_contract", "entrypoints") {
        Some(Json::Arr(a)) => {
            proof {
                crate::json::lemma_arr_view(*a);
            }
            let mut i: usize = 0;
            while i < a.len()
                invariant
                    i <= a.len(),
                    listed_kinds(v@) == crate::json::elems_v(a@),
                    forall|j: int| 0 <= j < i ==> crate::json::elems_v(a@)[j] != JsonV::Str(k@),
                decreases a.len() - i,
            {
                let hit = match a[i].as_str() {
                    Some(s) => str_eq(s, k),
                    None => false,
                };
                proof {
                    assert(crate::json::elems_v(a@)[i as int] == a@[i as int]@);
                }
                if hit {
                    assert(crate::json::elems_v(a@)[i as int] == JsonV::Str(k@));
                    return true;
                }
                i += 1;
            }
            false
        },
        _ => false,
    }
}

/// Checks the pins of `compatibility.json`.
pub fn check_compatibility(v: &Json) -> (r: Result<(), String>)
    ensures
        match r {
            Ok(()) => compatibility_spec(v@) is Ok,
            Err(e) => compatibility_spec(v@) == Err::<(), Seq<char>>(e@),
        },
{
    let tag = match pointer2_exec(v, "legacy_helper", "impetus_tag") {
        Some(x) => str_or_empty_exec(Some(x)),
        None => str_or_empty_exec(v.get("impetus_tag")),
    };
    if !str_eq(tag.as_str(), SUPPORTED_IMPETUS_TAG) {
        let a = concat3("compatibility.json legacy impetus_tag=", tag.as_str(), ", expected ");
        return Err(concat(a.as_str(), SUPPORTED_IMPETUS_TAG));
    }
    let rev = str_or_empty_exec(pointer2_exec(v, "sdk", "rev"));
    if !str_eq(rev.as_str(), SDK_GIT_REV) {
        let a = concat3("compatibility.json sdk.rev=", rev.as_str(), ", expected ");
        return Err(concat(a.as_str(), SDK_GIT_REV));
    }
    let schema = str_or_empty_exec(pointer2_exec(v, "canonical_package_contract", "schema"));
    if !str_eq(schema.as_str(), PACKAGE_SCHEMA_ID) {
        let a = concat3("compatibility.json canonical schema=", schema.as_str(), ", expected ");
        return Err(concat(a.as_str(), PACKAGE_SCHEMA_ID));
    }
    if !lists_kind_exec(v, "instruction_pack") {
        return Err(owned("compatibility.json missing entrypoint `instruction_pack`"));
    }
    if !lists_kind_exec(v, "mcp_bridge") {
        return Err(owned("compatibility.json missing entrypoint `mcp_bridge`"));
    }
    if !lists_kind_exec(v, "host_process") {
        return Err(owned("compatibility.json missing entrypoint `host_process`"));
    }
    if lists_kind_exec(v, "native_module") {
        return Err(owned("compatibility.json must not list native_module as a public entrypoint"));
    }
    Ok(())
}

/// A package may not ask for `secrets_provider` without a security review.
pub fn check_no_secrets(m: &ExtensionPackageManifest) -> (r: Result<(), String>)
    ensures
        r is Ok <==> !m.permissions@.contains(ExtensionPermission::SecretsProvider),
        r matches Err(e) ==> e@ == m.id@ + ": secrets_provider requires explicit SECURITY.md review — refuse casual grants"@,
{
    let mut i: usize = 0;
    while i < m.permissions.len()
        invariant
            i <= m.permissions.len(),
            forall|j: int| 0 <= j < i ==> m.permissions@[j] != ExtensionPermission::SecretsProvider,
        decreases m.permissions.len() - i,
    {
        if m.permissions[i] == ExtensionPermission::SecretsProvider {
            return Err(concat(
                m.id.as_str(),
                ": secrets_provider requires explicit SECURITY.md review — refuse casual grants",
            ));
        }
        i += 1;
    }
    Ok(())
}


// ---------------------------------------------------------------------------
// Installing a packaged extension

/// What an installed `package.toml` says the package is: a skill when it holds
/// `kind = "skill"`, else an MCP config when it holds `kind = "mcp_config"`.
pub open spec fn installed_kind_spec(meta: Seq<char>) -> Result<PackageKind, Seq<char>> {
    if has_infix(meta, "kind = \"skill\""@) {
        Ok(PackageKind::Skill)
    } else if has_infix(meta, "kind = \"mcp_config\""@) {
        Ok(PackageKind::McpConfig)
    } else {
        Err("packaged package.toml missing skill/mcp_config kind"@)
    }
}

/// Reads the kind of a packaged extension from its `package.toml` text.
pub fn installed_kind(meta: &str) -> (r: Result<PackageKind, String>)
    ensures
        match r {
            Ok(k) => installed_kind_spec(meta@) == Ok::<PackageKind, Seq<char>>(k),
            Err(e) => installed_kind_spec(meta@) == Err::<PackageKind, Seq<char>>(e@),
        },
{
    let m = chars_of(meta);
    let skill = chars_of("kind = \"skill\"");
    let mcp = chars_of("kind = \"mcp_config\"");
    if contains_chars(m.as_slice(), skill.as_slice()) {
        Ok(PackageKind::Skill)
    } else if contains_chars(m.as_slice(), mcp.as_slice()) {
        Ok(PackageKind::McpConfig)
    } else {
        Err(owned("packaged package.toml missing skill/mcp_config kind"))
    }
}

/// The extension id guessed from a packaged directory's name (`<id>-<version>`):
/// the part before the first `-`, or `extension` when the name is not known.
pub open spec fn dir_extension_id_spec(name: Option<Seq<char>>) -> Seq<char> {
    match name {
        None => "extension"@,
        Some(n) => match first_index(n, '-') {
            Some(i) => n.take(i),
            None => n,
        },
    }
}

/// The extension id of a packaged directory without `extension.toml`.
pub fn dir_extension_id(name: Option<&str>) -> (r: String)
    ensures
        r@ == dir_extension_id_spec(match name { Some(n) => Some(n@), None => None }),
{
    match name {
        None => owned("extension"),
        Some(n) => {
            let c = chars_of(n);
            match find_char(c.as_slice(), '-') {
                Some(i) => {
                    let p = slice_range(c.as_slice(), 0, i);
                    proof {
                        assert(c@.subrange(0, i as int) =~= c@.take(i as int));
                    }
                    string_of(p.as_slice())
                },
                None => owned(n),
            }
        },
    }
}

} // verus!
