use impetus_ext::catalog::{
    catalog_load_error, check_catalog_schema, check_entry_against, source_path, sort_strings, str_lt, sync_catalog,
    CatalogCheck, CatalogEntry, CatalogFile,
};
use impetus_ext::digest::content_digest;
use impetus_ext::json::Json;
use impetus_ext::legacy::{
    check_compatibility, check_no_secrets, dir_extension_id, installed_kind, legacy_envelope, legacy_package_toml, legacy_plan, package_dir_name,
};
use impetus_ext::manifest::{
    build_core_manifest, default_legacy_schema_version, is_valid_extension_id, validate_digest, ExtensionManifest,
    ExtensionManifestKind, ManifestError, PackageKind, PACKAGE_SCHEMA_ID,
};
use impetus_ext::package::{
    allowed_entrypoint_kind_list, allowed_permission_list, check_entrypoint_artifacts, entrypoint_kind,
    portable_surface, validate_package_manifest, ArtifactFacts, ExtensionEntrypoint, ExtensionPackageManifest,
    ExtensionPermission, ExtensionRegistry,
};

fn sobj(fields: Vec<(&str, Json)>) -> Json {
    Json::Obj(fields.into_iter().map(|(k, v)| (k.to_string(), v)).collect())
}

fn sstr(s: &str) -> Json {
    Json::Str(s.to_string())
}

fn pkg(id: &str, entrypoint: ExtensionEntrypoint, permissions: Vec<ExtensionPermission>) -> ExtensionPackageManifest {
    ExtensionPackageManifest {
        schema_version: 1,
        id: id.to_string(),
        name: format!("{id} name"),
        version: "0.1.0".to_string(),
        description: format!("{id} description"),
        author: "Impetus Contributors".to_string(),
        extension_api_version: 1,
        capabilities: vec!["tool".to_string()],
        permissions,
        entrypoint,
    }
}

fn facts(root: bool, skill: bool, mcp_file: bool, mcp: Option<Json>, command: bool) -> ArtifactFacts {
    ArtifactFacts { root_is_dir: root, skill_is_file: skill, mcp_is_file: mcp_file, mcp, command_is_file: command }
}

#[test]
fn sdk_constants_align() {
    assert_eq!(PACKAGE_SCHEMA_ID, "impetus.extension_package.v1");
    assert!(!allowed_entrypoint_kind_list().contains(&"native_module"));
}

#[test]
fn digest_and_legacy_manifest_roundtrip() {
    let digest = content_digest(b"hello");
    assert!(digest.starts_with("sha256:"));
    let m = build_core_manifest(
        "hello-extension",
        ExtensionManifestKind::Skill,
        "0.1.0",
        &digest,
        vec!["instructions".into()],
    )
    .unwrap();
    m.validate().unwrap();
    let v = m.to_json();
    ExtensionManifest::from_json_value(&v).unwrap();
}

#[test]
fn rejects_undocumented_legacy_fields() {
    let v = sobj(vec![
        ("schema_version", Json::UInt(1)),
        ("id", sstr("x")),
        ("kind", sstr("skill")),
        ("version", sstr("0.1.0")),
        ("digest", Json::Str(content_digest(b"a"))),
        ("capabilities", Json::Arr(vec![sstr("instructions")])),
        ("extra", Json::Bool(true)),
    ]);
    assert!(matches!(ExtensionManifest::from_json_value(&v), Err(ManifestError::UndocumentedField)));
}

#[test]
fn digest_of_known_input() {
    assert_eq!(
        content_digest(b"hello"),
        "sha256:2cf24dba5fb0a30e26e83b2ac5b9e29e1b161e5c1fa7425e73043362938b9824"
    );
    assert_eq!(content_digest(b"").len(), 71);
    assert!(validate_digest(&content_digest(b"abc")).is_ok());
}

#[test]
fn envelope_errors_each_have_their_input() {
    let d = content_digest(b"x");
    let caps = || vec!["instructions".to_string()];
    assert_eq!(
        build_core_manifest("Bad", ExtensionManifestKind::Skill, "1", &d, caps()).unwrap_err(),
        ManifestError::InvalidId
    );
    assert_eq!(
        build_core_manifest("ok", ExtensionManifestKind::Skill, "  ", &d, caps()).unwrap_err(),
        ManifestError::EmptyVersion
    );
    assert_eq!(
        build_core_manifest("ok", ExtensionManifestKind::Skill, "1", "sha256:XYZ", caps()).unwrap_err(),
        ManifestError::InvalidDigest("sha256:XYZ".to_string())
    );
    assert_eq!(
        build_core_manifest("ok", ExtensionManifestKind::Skill, "1", &d, vec![]).unwrap_err(),
        ManifestError::InvalidCapabilities
    );
    assert_eq!(
        build_core_manifest("ok", ExtensionManifestKind::Skill, "1", &d, vec!["a".into(), "a".into()]).unwrap_err(),
        ManifestError::InvalidCapabilities
    );
    let env = sobj(vec![
        ("schema_version", Json::UInt(2)),
        ("id", sstr("x")),
        ("kind", sstr("skill")),
        ("version", sstr("0.1.0")),
        ("digest", Json::Str(d.clone())),
        ("capabilities", Json::Arr(vec![sstr("instructions")])),
    ]);
    assert_eq!(ExtensionManifest::from_json_value(&env).unwrap_err(), ManifestError::UnsupportedSchemaVersion(2));
    assert_eq!(ManifestError::UnsupportedSchemaVersion(2).message(), "unsupported schema_version 2");
    assert_eq!(
        ManifestError::InvalidDigest("q".into()).message(),
        "invalid digest `q`: expected sha256: + 64 lowercase hex"
    );
    assert_eq!(default_legacy_schema_version(), 1);
}

#[test]
fn envelope_schema_version_defaults_to_one() {
    let env = sobj(vec![
        ("id", sstr("x")),
        ("kind", sstr("mcp_config")),
        ("version", sstr("0.1.0")),
        ("digest", Json::Str(content_digest(b"a"))),
        ("capabilities", Json::Arr(vec![sstr("mcp")])),
    ]);
    let m = ExtensionManifest::from_json_value(&env).unwrap();
    assert_eq!(m.schema_version, 1);
    assert_eq!(m.kind, ExtensionManifestKind::McpConfig);
}

#[test]
fn extension_ids() {
    assert!(is_valid_extension_id("hello-extension"));
    assert!(is_valid_extension_id("a"));
    assert!(!is_valid_extension_id(""));
    assert!(!is_valid_extension_id("-a"));
    assert!(!is_valid_extension_id("A"));
    assert!(!is_valid_extension_id(&"a".repeat(65)));
    assert!(is_valid_extension_id(&"a".repeat(64)));
}

#[test]
fn entrypoint_kinds_and_surfaces() {
    let ip = ExtensionEntrypoint::InstructionPack { root: "skills".into() };
    let mb = ExtensionEntrypoint::McpBridge { module_id: "m".into() };
    let hp = ExtensionEntrypoint::HostProcess { command: "./bin/x".into(), args: vec![] };
    assert_eq!(entrypoint_kind(&ip), "instruction_pack");
    assert_eq!(entrypoint_kind(&mb), "mcp_bridge");
    assert_eq!(entrypoint_kind(&hp), "host_process");
    assert_eq!(portable_surface(&ip), "skill");
    assert_eq!(portable_surface(&mb), "mcp");
    assert_eq!(portable_surface(&hp), "host_process");
    assert_eq!(allowed_permission_list().len(), 11);
    assert_eq!(ExtensionPermission::from_token("network"), Some(ExtensionPermission::Network));
    assert_eq!(ExtensionPermission::from_token("root"), None);
    assert_eq!(ExtensionPermission::SecretsProvider.as_str(), "secrets_provider");
}

#[test]
fn package_manifest_rules() {
    let ok = pkg("hello-extension", ExtensionEntrypoint::InstructionPack { root: "skills".into() }, vec![]);
    assert!(validate_package_manifest(&ok).is_ok());
    let mut bad = pkg("hello", ExtensionEntrypoint::InstructionPack { root: "../x".into() }, vec![]);
    assert_eq!(validate_package_manifest(&bad).unwrap_err(), "instruction_pack root must be package-relative");
    bad.version = "one".into();
    assert_eq!(validate_package_manifest(&bad).unwrap_err(), "version must be semver");
    bad.id = "Hello".into();
    assert_eq!(validate_package_manifest(&bad).unwrap_err(), "invalid extension id");
    let mut api = pkg("x", ExtensionEntrypoint::McpBridge { module_id: "x".into() }, vec![]);
    api.extension_api_version = 2;
    assert_eq!(validate_package_manifest(&api).unwrap_err(), "unsupported extension_api_version");
}

#[test]
fn entrypoint_artifact_checks() {
    let ip = pkg("s", ExtensionEntrypoint::InstructionPack { root: "skills".into() }, vec![]);
    assert_eq!(
        check_entrypoint_artifacts(&ip, &facts(false, false, false, None, false)).unwrap_err(),
        "s: instruction_pack root `skills` is not a directory"
    );
    assert_eq!(
        check_entrypoint_artifacts(&ip, &facts(true, false, false, None, false)).unwrap_err(),
        "s: missing skills/SKILL.md"
    );
    assert!(check_entrypoint_artifacts(&ip, &facts(true, true, false, None, false)).is_ok());

    let mb = pkg("m", ExtensionEntrypoint::McpBridge { module_id: "tools".into() }, vec![]);
    assert_eq!(
        check_entrypoint_artifacts(&mb, &facts(false, false, false, None, false)).unwrap_err(),
        "m: mcp_bridge requires mcp.json beside extension.toml"
    );
    let named = sobj(vec![("name", sstr("other")), ("command", sstr("bin"))]);
    assert_eq!(
        check_entrypoint_artifacts(&mb, &facts(false, false, true, Some(named), false)).unwrap_err(),
        "m: mcp.json id/name `other` != entrypoint.module_id `tools`"
    );
    let no_cmd = sobj(vec![("id", sstr("tools"))]);
    assert_eq!(
        check_entrypoint_artifacts(&mb, &facts(false, false, true, Some(no_cmd), false)).unwrap_err(),
        "m: mcp.json missing command"
    );
    let empty = sobj(vec![]);
    assert_eq!(
        check_entrypoint_artifacts(&mb, &facts(false, false, true, Some(empty), false)).unwrap_err(),
        "m: mcp.json must set id (or name) equal to entrypoint.module_id `tools`"
    );
    let good = sobj(vec![("id", sstr("tools")), ("command", sstr("impetus-ext-tools"))]);
    assert!(check_entrypoint_artifacts(&mb, &facts(false, false, true, Some(good), false)).is_ok());

    let hp = pkg("h", ExtensionEntrypoint::HostProcess { command: "./bin/h".into(), args: vec![] }, vec![]);
    assert_eq!(
        check_entrypoint_artifacts(&hp, &facts(false, false, false, None, false)).unwrap_err(),
        "h: host_process command `./bin/h` not found under package"
    );
    let abs = pkg("h", ExtensionEntrypoint::HostProcess { command: "/usr/bin/h".into(), args: vec![] }, vec![]);
    assert!(check_entrypoint_artifacts(&abs, &facts(false, false, false, None, false)).is_ok());
    let blank = pkg("h", ExtensionEntrypoint::HostProcess { command: "  ".into(), args: vec![] }, vec![]);
    assert_eq!(
        check_entrypoint_artifacts(&blank, &facts(false, false, false, None, true)).unwrap_err(),
        "h: host_process command must be non-empty"
    );
}

#[test]
fn registry_refuses_duplicate_ids() {
    let mut reg = ExtensionRegistry::new();
    let a = pkg("a", ExtensionEntrypoint::McpBridge { module_id: "a".into() }, vec![ExtensionPermission::Network]);
    assert!(reg.register(&a).is_ok());
    assert!(reg.contains("a"));
    assert_eq!(reg.register(&a).unwrap_err(), "duplicate extension id `a` under extensions/");
    let b = pkg("b", ExtensionEntrypoint::McpBridge { module_id: "b".into() }, vec![]);
    assert!(reg.register(&b).is_ok());
}

fn entry(id: &str, version: &str, entrypoint: &str) -> CatalogEntry {
    CatalogEntry {
        id: id.to_string(),
        name: format!("{id} name"),
        version: version.to_string(),
        summary: "s".to_string(),
        source_path: format!("extensions/{id}"),
        entrypoint: entrypoint.to_string(),
        portable_surface: None,
        implementation: None,
        distribution: Json::Null,
    }
}

#[test]
fn catalog_prechecks() {
    let file = CatalogFile { schema_version: 2, repository: "r".into(), extensions: vec![] };
    assert_eq!(check_catalog_schema(&file).unwrap_err(), "catalog: unsupported schema_version 2");
    let mut check = CatalogCheck::new();
    assert!(check.precheck(&entry("a", "0.1.0", "mcp_bridge")).is_ok());
    assert_eq!(check.precheck(&entry("a", "0.1.0", "mcp_bridge")).unwrap_err(), "catalog: duplicate catalog id `a`");
    assert_eq!(check.precheck(&entry("b", " ", "mcp_bridge")).unwrap_err(), "catalog: b: empty version");
    assert_eq!(check.precheck(&entry("c", "v1", "mcp_bridge")).unwrap_err(), "catalog: c: invalid semver `v1`");
    assert_eq!(
        check.precheck(&entry("d", "1.0.0", "native_module")).unwrap_err(),
        "catalog: d: unknown entrypoint `native_module`"
    );
    assert!(check.contains("d"));
    assert_eq!(
        check.check_complete(vec!["z".into(), "a".into(), "e".into()]).unwrap_err(),
        "catalog: extension `e` has extension.toml but is missing from catalog.json"
    );
    assert!(check.check_complete(vec!["d".into(), "a".into()]).is_ok());
    assert_eq!(catalog_load_error("x", "boom"), "catalog: x: boom");
}

#[test]
fn catalog_entry_against_manifest() {
    let m = pkg("a", ExtensionEntrypoint::McpBridge { module_id: "a".into() }, vec![]);
    let discovered = vec!["a".to_string()];
    let mut e = entry("a", "0.1.0", "mcp_bridge");
    assert!(check_entry_against(&e, &m, &discovered).is_ok());
    e.portable_surface = Some("skill".into());
    assert_eq!(
        check_entry_against(&e, &m, &discovered).unwrap_err(),
        "catalog: a: portable_surface `skill` != derived `mcp`"
    );
    e.portable_surface = None;
    e.version = "0.2.0".into();
    assert_eq!(
        check_entry_against(&e, &m, &discovered).unwrap_err(),
        "catalog: a: catalog version `0.2.0` != extension.toml version `0.1.0`"
    );
    e.version = "0.1.0".into();
    assert_eq!(
        check_entry_against(&e, &m, &vec![]).unwrap_err(),
        "catalog: a: listed in catalog but not discovered under extensions/"
    );
    e.entrypoint = "host_process".into();
    assert_eq!(
        check_entry_against(&e, &m, &discovered).unwrap_err(),
        "catalog: a: catalog entrypoint `host_process` != extension.toml `mcp_bridge`"
    );
}

#[test]
fn string_order_and_sorting() {
    assert!(str_lt("a", "b"));
    assert!(str_lt("a", "ab"));
    assert!(!str_lt("b", "ab"));
    assert!(!str_lt("a", "a"));
    assert_eq!(
        sort_strings(vec!["lsp".into(), "browser".into(), "git-tools".into(), "code-search".into()]),
        vec!["browser".to_string(), "code-search".into(), "git-tools".into(), "lsp".into()]
    );
}

#[test]
fn sync_catalog_sorts_and_keeps_curated_fields() {
    let mut prev = entry("lsp", "0.0.1", "mcp_bridge");
    prev.summary = "curated".into();
    prev.implementation = Some("rust".into());
    let existing = CatalogFile { schema_version: 1, repository: "https://example.test/repo".into(), extensions: vec![prev] };
    let found = vec![
        ("extensions/lsp".to_string(), pkg("lsp", ExtensionEntrypoint::McpBridge { module_id: "lsp".into() }, vec![])),
        (
            "extensions/hello-extension".to_string(),
            pkg("hello-extension", ExtensionEntrypoint::InstructionPack { root: "skills".into() }, vec![]),
        ),
    ];
    let c = sync_catalog(Some(existing), &found);
    assert_eq!(c.schema_version, 1);
    assert_eq!(c.repository, "https://example.test/repo");
    assert_eq!(c.extensions.len(), 2);
    assert_eq!(c.extensions[0].id, "hello-extension");
    assert_eq!(c.extensions[0].summary, "hello-extension description");
    assert_eq!(c.extensions[0].implementation.as_deref(), Some("declarative"));
    assert_eq!(c.extensions[0].portable_surface.as_deref(), Some("skill"));
    assert_eq!(c.extensions[1].id, "lsp");
    assert_eq!(c.extensions[1].summary, "curated");
    assert_eq!(c.extensions[1].version, "0.1.0");
    assert_eq!(c.extensions[1].entrypoint, "mcp_bridge");
    let fresh = sync_catalog(None, &found);
    assert_eq!(fresh.repository, "https://github.com/1tuz/impetus-extensions");
    match &fresh.extensions[1].distribution {
        Json::Obj(f) => assert_eq!(f[0].0, "kind"),
        other => panic!("unexpected distribution {other:?}"),
    }
    assert_eq!(source_path("/repo/extensions/lsp", "/repo"), "extensions/lsp");
    assert_eq!(source_path("/elsewhere/x", "/repo"), "/elsewhere/x");
}

#[test]
fn synced_entries_pass_the_catalog_check() {
    let mut prev = entry("lsp", "0.0.1", "host_process");
    prev.portable_surface = Some("host_process".into());
    let existing = CatalogFile { schema_version: 1, repository: "r".into(), extensions: vec![prev] };
    let found = vec![
        ("extensions/lsp".to_string(), pkg("lsp", ExtensionEntrypoint::McpBridge { module_id: "lsp".into() }, vec![])),
        (
            "extensions/hello-extension".to_string(),
            pkg("hello-extension", ExtensionEntrypoint::InstructionPack { root: "skills".into() }, vec![]),
        ),
    ];
    let discovered = vec!["lsp".to_string(), "hello-extension".to_string()];
    let c = sync_catalog(Some(existing), &found);
    assert!(check_entry_against(&c.extensions[0], &found[1].1, &discovered).is_ok());
    assert!(check_entry_against(&c.extensions[1], &found[0].1, &discovered).is_ok());
}

#[test]
fn legacy_package_layout() {
    let m = pkg("browser", ExtensionEntrypoint::McpBridge { module_id: "browser".into() }, vec![
        ExtensionPermission::Network,
        ExtensionPermission::Browser,
    ]);
    assert_eq!(package_dir_name(&m), "browser-0.1.0");
    let toml = legacy_package_toml(&m, PackageKind::McpConfig, None, Some("mcp.json"), Some("impetus-ext-browser"));
    assert!(toml.starts_with("# GENERATED from extension.toml — legacy Skill/MCP CLI adapter only.\n"));
    assert!(toml.contains("id = \"browser\"\n"));
    assert!(toml.contains("kind = \"mcp_config\"\n"));
    assert!(toml.contains("permissions = [\"network\", \"browser\"]\n"));
    assert!(toml.contains("impetus_tag = \"v0.1.2\"\n"));
    assert!(toml.contains("browser_protocol = \"0.1\"\n"));
    assert!(toml.ends_with("[entrypoints]\nmcp_json = \"mcp.json\"\nbinary = \"impetus-ext-browser\"\n"));
    let (kind, mkind, caps) = legacy_plan(&m).unwrap();
    assert_eq!(kind, PackageKind::McpConfig);
    assert_eq!(mkind, ExtensionManifestKind::McpConfig);
    assert_eq!(caps, vec!["mcp".to_string(), "stdio".into(), "tools".into()]);
    let hp = pkg("h", ExtensionEntrypoint::HostProcess { command: "x".into(), args: vec![] }, vec![]);
    assert_eq!(
        legacy_plan(&hp).unwrap_err(),
        "h: host_process is not packaged via the legacy Skill/MCP CLI; install under the Extension Host package root"
    );
    let env = legacy_envelope(&m, mkind, &content_digest(b"{}"), caps).unwrap();
    assert_eq!(env.id, "browser");
    assert_eq!(
        legacy_envelope(&m, ExtensionManifestKind::Skill, "nope", vec!["a".into()]).unwrap_err(),
        "legacy envelope: invalid digest `nope`: expected sha256: + 64 lowercase hex"
    );
}

fn compat(tag: &str, rev: &str, schema: &str, kinds: &[&str]) -> Json {
    sobj(vec![
        ("legacy_helper", sobj(vec![("impetus_tag", sstr(tag))])),
        ("sdk", sobj(vec![("rev", sstr(rev))])),
        (
            "canonical_package_contract",
            sobj(vec![
                ("schema", sstr(schema)),
                ("entrypoints", Json::Arr(kinds.iter().map(|k| sstr(k)).collect())),
            ]),
        ),
    ])
}

#[test]
fn compatibility_pins() {
    let rev = "7dc456a0062fd61c9d47d1abe2fed76fec56a12c";
    let schema = "impetus.extension_package.v1";
    let all = ["instruction_pack", "mcp_bridge", "host_process"];
    assert!(check_compatibility(&compat("v0.1.2", rev, schema, &all)).is_ok());
    assert_eq!(
        check_compatibility(&compat("v0.2.0", rev, schema, &all)).unwrap_err(),
        "compatibility.json legacy impetus_tag=v0.2.0, expected v0.1.2"
    );
    assert_eq!(
        check_compatibility(&compat("v0.1.2", "abc", schema, &all)).unwrap_err(),
        format!("compatibility.json sdk.rev=abc, expected {rev}")
    );
    assert_eq!(
        check_compatibility(&compat("v0.1.2", rev, "x", &all)).unwrap_err(),
        "compatibility.json canonical schema=x, expected impetus.extension_package.v1"
    );
    assert_eq!(
        check_compatibility(&compat("v0.1.2", rev, schema, &["instruction_pack", "host_process"])).unwrap_err(),
        "compatibility.json missing entrypoint `mcp_bridge`"
    );
    assert_eq!(
        check_compatibility(&compat("v0.1.2", rev, schema, &["instruction_pack", "mcp_bridge", "host_process", "native_module"]))
            .unwrap_err(),
        "compatibility.json must not list native_module as a public entrypoint"
    );
    let top_level_tag = sobj(vec![("impetus_tag", sstr("v0.1.2"))]);
    assert_eq!(
        check_compatibility(&top_level_tag).unwrap_err(),
        format!("compatibility.json sdk.rev=, expected {rev}")
    );
    let m = pkg("s", ExtensionEntrypoint::McpBridge { module_id: "s".into() }, vec![ExtensionPermission::SecretsProvider]);
    assert_eq!(
        check_no_secrets(&m).unwrap_err(),
        "s: secrets_provider requires explicit SECURITY.md review — refuse casual grants"
    );
}

#[test]
fn installed_package_kind_and_id() {
    assert_eq!(installed_kind("id = \"x\"\nkind = \"skill\"\n").unwrap(), PackageKind::Skill);
    assert_eq!(installed_kind("kind = \"mcp_config\"\n").unwrap(), PackageKind::McpConfig);
    assert_eq!(installed_kind("kind = \"other\"").unwrap_err(), "packaged package.toml missing skill/mcp_config kind");
    assert_eq!(dir_extension_id(Some("browser-0.1.0")), "browser");
    assert_eq!(dir_extension_id(Some("lsp")), "lsp");
    assert_eq!(dir_extension_id(None), "extension");
}
