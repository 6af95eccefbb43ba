//! The legacy install envelope (`impetus.extension.v1`) that packaging writes
//! under `dist/` for the Skill/MCP CLI, and its validation.
use vstd::prelude::*;
use crate::json::{Json, JsonV, lookup, lemma_lookup_at, fields_v, elems_v, push_field, push_elem, object, array, lemma_obj_view, lemma_arr_view};
use crate::text::{chars_of, trim, trim_chars, has_prefix, str_eq, owned, all_digits};
use crate::digest::content_digest_spec;

verus! {

/// Legacy install envelope schema id (Impetus Skill/MCP CLI adapter).
pub const LEGACY_EXTENSION_SCHEMA_ID: &'static str = "impetus.extension.v1";

/// Legacy install envelope schema version.
pub const LEGACY_EXTENSION_SCHEMA_VERSION: u16 = 1;

/// MCP config schema id (legacy helper pin).
pub const MCP_SCHEMA_ID: &'static str = "impetus.mcp.v1";

/// MCP config schema version.
pub const MCP_SCHEMA_VERSION: u16 = 1;

/// Browser provider protocol version (implementation detail of browser pack).
pub const BROWSER_PROVIDER_PROTOCOL_VERSION: &'static str = "0.1";

/// Supported Impetus release tag for the legacy CLI install helper.
pub const SUPPORTED_IMPETUS_TAG: &'static str = "v0.1.2";

/// Immutable Impetus git rev that provides `impetus-extension-sdk`.
pub const SDK_GIT_REV: &'static str = "7dc456a0062fd61c9d47d1abe2fed76fec56a12c";

/// Canonical package schema id.
pub const PACKAGE_SCHEMA_ID: &'static str = "impetus.extension_package.v1";

#[derive(Debug, Clone, Copy, PartialEq, Eq, Structural)]
pub enum PackageKind {
    Skill,
    McpConfig,
}

#[derive(Debug, Clone, Copy, PartialEq, Eq, Structural)]
pub enum ExtensionManifestKind {
    Skill,
    McpConfig,
}

/// The legacy install envelope.
#[derive(Debug)]
pub struct ExtensionManifest {
    pub schema_version: u16,
    pub id: String,
    pub kind: ExtensionManifestKind,
    pub version: String,
    pub digest: String,
    pub capabilities: Vec<String>,
}

#[derive(Debug, PartialEq, Eq)]
pub enum ManifestError {
    InvalidId,
    EmptyVersion,
    InvalidDigest(String),
    InvalidCapabilities,
    UnsupportedSchemaVersion(u16),
    UndocumentedField,
}

pub enum ManifestErrorV {
    InvalidId,
    EmptyVersion,
    InvalidDigest(Seq<char>),
    InvalidCapabilities,
    UnsupportedSchemaVersion(u16),
    UndocumentedField,
}

impl View for ManifestError {
    type V = ManifestErrorV;

    open spec fn view(&self) -> ManifestErrorV {
        match self {
            ManifestError::InvalidId => ManifestErrorV::InvalidId,
            ManifestError::EmptyVersion => ManifestErrorV::EmptyVersion,
            ManifestError::InvalidDigest(d) => ManifestErrorV::InvalidDigest(d@),
            ManifestError::InvalidCapabilities => ManifestErrorV::InvalidCapabilities,
            ManifestError::UnsupportedSchemaVersion(v) => ManifestErrorV::UnsupportedSchemaVersion(*v),
            ManifestError::UndocumentedField => ManifestErrorV::UndocumentedField,
        }
    }
}

/// What a refusal prints.
pub open spec fn error_text(e: ManifestErrorV) -> Seq<char> {
    match e {
        ManifestErrorV::InvalidId => "extension id must be non-empty and match ^[a-z0-9][a-z0-9_-]{0,63}$"@,
        ManifestErrorV::EmptyVersion => "extension version must be non-empty"@,
        ManifestErrorV::InvalidDigest(d) => "invalid digest `"@ + d + "`: expected sha256: + 64 lowercase hex"@,
        ManifestErrorV::InvalidCapabilities => "capabilities must contain at least one unique valid token"@,
        ManifestErrorV::UnsupportedSchemaVersion(v) => "unsupported schema_version "@ + crate::text::dec(v as nat),
        ManifestErrorV::UndocumentedField => "unknown critical field in envelope (undocumented fields are rejected)"@,
    }
}

impl ManifestError {
    /// The message of the refusal.
    pub fn message(&self) -> (r: String)
        ensures
            r@ == error_text(self@),
    {
        match self {
            ManifestError::InvalidId => owned("extension id must be non-empty and match ^[a-z0-9][a-z0-9_-]{0,63}$"),
            ManifestError::EmptyVersion => owned("extension version must be non-empty"),
            ManifestError::InvalidDigest(d) => crate::text::concat3(
                "invalid digest `",
                d.as_str(),
                "`: expected sha256: + 64 lowercase hex",
            ),
            ManifestError::InvalidCapabilities => owned("capabilities must contain at least one unique valid token"),
            ManifestError::UnsupportedSchemaVersion(v) => {
                let d = crate::text::dec_string(*v as u64);
                crate::text::concat("unsupported schema_version ", d.as_str())
            },
            ManifestError::UndocumentedField => owned("unknown critical field in envelope (undocumented fields are rejected)"),
        }
    }
}

/// The envelope as mathematical values.
pub struct ManifestV {
    pub schema_version: u16,
    pub id: Seq<char>,
    pub kind: ExtensionManifestKind,
    pub version: Seq<char>,
    pub digest: Seq<char>,
    pub capabilities: Seq<Seq<char>>,
}

pub open spec fn strings_v(v: Seq<String>) -> Seq<Seq<char>> {
    v.map_values(|s: String| s@)
}

impl View for ExtensionManifest {
    type V = ManifestV;

    open spec fn view(&self) -> ManifestV {
        ManifestV {
            schema_version: self.schema_version,
            id: self.id@,
            kind: self.kind,
            version: self.version@,
            digest: self.digest@,
            capabilities: strings_v(self.capabilities@),
        }
    }
}

// ---------------------------------------------------------------------------
// Field rules

pub open spec fn is_lower_or_digit(c: char) -> bool {
    ('a' <= c && c <= 'z') || ('0' <= c && c <= '9')
}

pub open spec fn is_id_char(c: char) -> bool {
    is_lower_or_digit(c) || c == '_' || c == '-'
}

/// `^[a-z0-9][a-z0-9_-]{0,63}$`.
pub open spec fn valid_extension_id(id: Seq<char>) -> bool {
    &&& 1 <= id.len() <= 64
    &&& is_lower_or_digit(id[0])
    &&& forall|i: int| 1 <= i < id.len() ==> is_id_char(id[i])
}

pub open spec fn is_lower_hex(c: char) -> bool {
    ('0' <= c && c <= '9') || ('a' <= c && c <= 'f')
}

/// `sha256:` followed by exactly 64 lowercase hex digits.
pub open spec fn valid_digest(d: Seq<char>) -> bool {
    &&& has_prefix(d, "sha256:"@)
    &&& d.len() == 71
    &&& forall|i: int| 7 <= i < d.len() ==> is_lower_hex(d[i])
}

/// At least one capability; every one non-empty; no two equal.
pub open spec fn valid_capabilities(c: Seq<Seq<char>>) -> bool {
    &&& c.len() > 0
    &&& forall|i: int| 0 <= i < c.len() ==> c[i].len() > 0
    &&& forall|i: int, j: int| 0 <= i < j < c.len() ==> c[i] != c[j]
}

/// What `ExtensionManifest::validate` reports, checks taken in order.
pub open spec fn validate_spec(m: ManifestV) -> Result<(), ManifestErrorV> {
    if m.schema_version != 1 {
        Err(ManifestErrorV::UnsupportedSchemaVersion(m.schema_version))
    } else if !valid_extension_id(m.id) {
        Err(ManifestErrorV::InvalidId)
    } else if trim(m.version).len() == 0 {
        Err(ManifestErrorV::EmptyVersion)
    } else if !valid_digest(m.digest) {
        Err(ManifestErrorV::InvalidDigest(m.digest))
    } else if !valid_capabilities(m.capabilities) {
        Err(ManifestErrorV::InvalidCapabilities)
    } else {
        Ok(())
    }
}

pub open spec fn unit_result_v(r: Result<(), ManifestError>) -> Result<(), ManifestErrorV> {
    match r {
        Ok(()) => Ok(()),
        Err(e) => Err(e@),
    }
}

/// Whether `id` is a valid extension id: non-empty, at most 64 characters,
/// lowercase ASCII letters, digits, `_` and `-`, not starting with `_` or `-`.
pub fn is_valid_extension_id(id: &str) -> (r: bool)
    ensures
        r == valid_extension_id(id@),
{
    let c = chars_of(id);
    if c.len() == 0 || c.len() > 64 {
        return false;
    }
    let first = c[0];
    if !(('a' <= first && first <= 'z') || ('0' <= first && first <= '9')) {
        return false;
    }
    let mut i: usize = 1;
    while i < c.len()
        invariant
            1 <= i <= c.len(),
            c@ == id@,
            forall|j: int| 1 <= j < i ==> is_id_char(c@[j]),
        decreases c.len() - i,
    {
        let b = c[i];
        if !(('a' <= b && b <= 'z') || ('0' <= b && b <= '9') || b == '_' || b == '-') {
            return false;
        }
        i += 1;
    }
    true
}

/// Checks that `digest` is `sha256:` + 64 lowercase hex digits.
pub fn validate_digest(digest: &str) -> (r: Result<(), ManifestError>)
    ensures
        r is Ok <==> valid_digest(digest@),
        r matches Err(e) ==> e@ == ManifestErrorV::InvalidDigest(digest@),
{
    proof {
        reveal_strlit("sha256:");
    }
    let c = chars_of(digest);
    let p = chars_of("sha256:");
    if !crate::text::starts_with(c.as_slice(), p.as_slice()) || c.len() != 71 {
        return Err(ManifestError::InvalidDigest(owned(digest)));
    }
    let mut i: usize = 7;
    while i < c.len()
        invariant
            7 <= i <= c.len(),
            c@ == digest@,
            forall|j: int| 7 <= j < i ==> is_lower_hex(c@[j]),
        decreases c.len() - i,
    {
        let b = c[i];
        if !(('0' <= b && b <= '9') || ('a' <= b && b <= 'f')) {
            return Err(ManifestError::InvalidDigest(owned(digest)));
        }
        i += 1;
    }
    Ok(())
}

fn validate_legacy_capabilities(capabilities: &Vec<String>) -> (r: Result<(), ManifestError>)
    ensures
        r is Ok <==> valid_capabilities(strings_v(capabilities@)),
        r matches Err(e) ==> e == ManifestError::InvalidCapabilities,
{
    let ghost c = strings_v(capabilities@);
    if capabilities.len() == 0 {
        return Err(ManifestError::InvalidCapabilities);
    }
    let mut i: usize = 0;
    while i < capabilities.len()
        invariant
            i <= capabilities.len(),
            c == strings_v(capabilities@),
            forall|k: int| 0 <= k < i ==> c[k].len() > 0,
            forall|k: int, l: int| 0 <= k < l < i ==> c[k] != c[l],
        decreases capabilities.len() - i,
    {
        let tok = capabilities[i].as_str();
        if tok.is_empty() {
            return Err(ManifestError::InvalidCapabilities);
        }
        let mut j: usize = 0;
        while j < i
            invariant
                j <= i < capabilities.len(),
                c == strings_v(capabilities@),
                tok@ == c[i as int],
                forall|k: int| 0 <= k < j ==> c[k] != c[i as int],
            decreases i - j,
        {
            if str_eq(capabilities[j].as_str(), tok) {
                proof {
                    assert(c[j as int] == capabilities@[j as int]@);
                    assert(c[j as int] == c[i as int]);
                }
                return Err(ManifestError::InvalidCapabilities);
            }
            j += 1;
        }
        i += 1;
    }
    Ok(())
}

impl ExtensionManifest {
    /// Checks the envelope: schema version 1, a valid id, a non-blank version,
    /// a valid digest, and a non-empty list of distinct non-empty capabilities.
    pub fn validate(&self) -> (r: Result<(), ManifestError>)
        ensures
            unit_result_v(r) == validate_spec(self@),
    {
        if self.schema_version != LEGACY_EXTENSION_SCHEMA_VERSION {
            return Err(ManifestError::UnsupportedSchemaVersion(self.schema_version));
        }
        if !is_valid_extension_id(self.id.as_str()) {
            return Err(ManifestError::InvalidId);
        }
        let vc = chars_of(self.version.as_str());
        let t = trim_chars(vc.as_slice());
        if t.len() == 0 {
            return Err(ManifestError::EmptyVersion);
        }
        match validate_digest(self.digest.as_str()) {
            Ok(()) => {},
            Err(e) => return Err(e),
        }
        match validate_legacy_capabilities(&self.capabilities) {
            Ok(()) => {},
            Err(e) => return Err(e),
        }
        Ok(())
    }
}

/// The schema version an envelope has when it does not state one.
pub fn default_legacy_schema_version() -> (r: u16)
    ensures
        r == 1,
{
    LEGACY_EXTENSION_SCHEMA_VERSION
}

pub open spec fn built_manifest(
    id: Seq<char>,
    kind: ExtensionManifestKind,
    version: Seq<char>,
    digest: Seq<char>,
    capabilities: Seq<Seq<char>>,
) -> ManifestV {
    ManifestV { schema_version: 1, id, kind, version, digest, capabilities }
}

/// Builds a schema-1 envelope from its parts and validates it.
pub fn build_core_manifest(
    id: &str,
    kind: ExtensionManifestKind,
    version: &str,
    digest: &str,
    capabilities: Vec<String>,
) -> (r: Result<ExtensionManifest, ManifestError>)
    ensures
        ({
            let m = built_manifest(id@, kind, version@, digest@, strings_v(capabilities@));
            match r {
                Ok(out) => validate_spec(m) is Ok && out@ == m,
                Err(e) => validate_spec(m) == Err::<(), ManifestErrorV>(e@),
            }
        }),
{
    let manifest = ExtensionManifest {
        schema_version: default_legacy_schema_version(),
        id: owned(id),
        kind,
        version: owned(version),
        digest: owned(digest),
        capabilities,
    };
    match manifest.validate() {
        Ok(()) => Ok(manifest),
        Err(e) => Err(e),
    }
}


// ---------------------------------------------------------------------------
// JSON form

/// The members an envelope may have.
pub open spec fn allowed_envelope_key(k: Seq<char>) -> bool {
    k == "schema_version"@ || k == "id"@ || k == "kind"@ || k == "version"@ || k == "digest"@
        || k == "capabilities"@
}

pub open spec fn kind_name(k: ExtensionManifestKind) -> Seq<char> {
    match k {
        ExtensionManifestKind::Skill => "skill"@,
        ExtensionManifestKind::McpConfig => "mcp_config"@,
    }
}

/// The envelope kind a JSON value denotes: its snake_case name as a string, or an
/// object with that name as its only key and `null` as its value.
pub open spec fn decode_kind(v: JsonV) -> Option<ExtensionManifestKind> {
    let name = match v {
        JsonV::Str(s) => Some(s),
        JsonV::Obj(f) => if f.len() == 1 && f[0].1 == JsonV::Null {
            Some(f[0].0)
        } else {
            None
        },
        _ => None,
    };
    match name {
        Some(n) => if n == "skill"@ {
            Some(ExtensionManifestKind::Skill)
        } else if n == "mcp_config"@ {
            Some(ExtensionManifestKind::McpConfig)
        } else {
            None
        },
        None => None,
    }
}

/// Every element a string.
pub open spec fn all_strings(a: Seq<JsonV>) -> bool {
    forall|i: int| 0 <= i < a.len() ==> a[i] is Str
}

pub open spec fn string_elems(a: Seq<JsonV>) -> Seq<Seq<char>> {
    a.map_values(|x: JsonV| x->Str_0)
}

/// The envelope a JSON value decodes to, before validation.
pub open spec fn decode_fields(v: JsonV) -> Option<ManifestV> {
    let sv = match v.get("schema_version"@) {
        None => Some(1u16),
        Some(JsonV::UInt(n)) => if n <= 65535 {
            Some(n as u16)
        } else {
            None
        },
        Some(_) => None,
    };
    let kind = match v.get("kind"@) {
        Some(k) => decode_kind(k),
        None => None,
    };
    let caps = match v.get("capabilities"@) {
        Some(JsonV::Arr(a)) => if all_strings(a) {
            Some(string_elems(a))
        } else {
            None
        },
        _ => None,
    };
    if sv is Some && v.str_at("id"@) is Some && kind is Some && v.str_at("version"@) is Some
        && v.str_at("digest"@) is Some && caps is Some {
        Some(
            ManifestV {
                schema_version: sv.unwrap(),
                id: v.str_at("id"@).unwrap(),
                kind: kind.unwrap(),
                version: v.str_at("version"@).unwrap(),
                digest: v.str_at("digest"@).unwrap(),
                capabilities: caps.unwrap(),
            },
        )
    } else {
        None
    }
}

/// What `ExtensionManifest::from_json_value` returns for `v`.
pub open spec fn from_json_spec(v: JsonV) -> Result<ManifestV, ManifestErrorV> {
    match v {
        JsonV::Obj(f) => {
            if exists|i: int| 0 <= i < f.len() && !allowed_envelope_key(#[trigger] f[i].0) {
                Err(ManifestErrorV::UndocumentedField)
            } else {
                match decode_fields(v) {
                    None => Err(ManifestErrorV::UndocumentedField),
                    Some(m) => match validate_spec(m) {
                        Ok(()) => Ok(m),
                        Err(e) => Err(e),
                    },
                }
            }
        },
        _ => Err(ManifestErrorV::UndocumentedField),
    }
}

/// The JSON form of an envelope, members in declaration order.
pub open spec fn to_json_spec(m: ManifestV) -> JsonV {
    JsonV::Obj(
        seq![
            ("schema_version"@, JsonV::UInt(m.schema_version as u64)),
            ("id"@, JsonV::Str(m.id)),
            ("kind"@, JsonV::Str(kind_name(m.kind))),
            ("version"@, JsonV::Str(m.version)),
            ("digest"@, JsonV::Str(m.digest)),
            ("capabilities"@, JsonV::Arr(m.capabilities.map_values(|c: Seq<char>| JsonV::Str(c)))),
        ],
    )
}

pub open spec fn manifest_result_v(r: Result<ExtensionManifest, ManifestError>) -> Result<ManifestV, ManifestErrorV> {
    match r {
        Ok(m) => Ok(m@),
        Err(e) => Err(e@),
    }
}

fn is_allowed_envelope_key(k: &str) -> (r: bool)
    ensures
        r == allowed_envelope_key(k@),
{
    str_eq(k, "schema_version") || str_eq(k, "id") || str_eq(k, "kind") || str_eq(k, "version")
        || str_eq(k, "digest") || str_eq(k, "capabilities")
}

fn read_kind(v: &Json) -> (r: Option<ExtensionManifestKind>)
    ensures
        r == decode_kind(v@),
{
    proof {
        reveal_strlit("skill");
        reveal_strlit("mcp_config");
    }
    let name: Option<&str> = match v {
        Json::Str(s) => Some(s.as_str()),
        Json::Obj(f) => {
            proof {
                lemma_obj_view(*f);
            }
            if f.len() == 1 {
                match &f[0].1 {
                    Json::Null => Some(f[0].0.as_str()),
                    _ => None,
                }
            } else {
                None
            }
        },
        _ => None,
    };
    match name {
        Some(n) => if str_eq(n, "skill") {
            Some(ExtensionManifestKind::Skill)
        } else if str_eq(n, "mcp_config") {
            Some(ExtensionManifestKind::McpConfig)
        } else {
            None
        },
        None => None,
    }
}

fn read_string_array(v: &Json) -> (r: Option<Vec<String>>)
    ensures
        match v@ {
            JsonV::Arr(a) => if all_strings(a) {
                r is Some && strings_v(r.unwrap()@) == string_elems(a)
            } else {
                r is None
            },
            _ => r is None,
        },
{
    match v {
        Json::Arr(a) => {
            proof {
                lemma_arr_view(*a);
            }
            let ghost av = elems_v(a@);
            let mut out: Vec<String> = Vec::new();
            let mut i: usize = 0;
            while i < a.len()
                invariant
                    i <= a.len(),
                    av == elems_v(a@),
                    v@ == JsonV::Arr(av),
                    forall|k: int| 0 <= k < i ==> av[k] is Str,
                    strings_v(out@) == string_elems(av.take(i as int)),
                decreases a.len() - i,
            {
                match &a[i] {
                    Json::Str(s) => {
                        let ghost old_out = out@;
                        out.push(s.clone());
                        proof {
                            assert(strings_v(out@) =~= strings_v(old_out).push(s@));
                            assert(string_elems(av.take(i + 1)) =~= string_elems(av.take(i as int)).push(s@));
                        }
                    },
                    _ => {
                        proof {
                            assert(!(av[i as int] is Str));
                        }
                        return None;
                    },
                }
                i += 1;
            }
            proof {
                assert(av.take(a.len() as int) =~= av);
            }
            Some(out)
        },
        _ => None,
    }
}

impl ExtensionManifest {
    /// The JSON form of the envelope.
    pub fn to_json(&self) -> (r: Json)
        ensures
            r@ == to_json_spec(self@),
    {
        let mut caps: Vec<Json> = Vec::new();
        let mut i: usize = 0;
        while i < self.capabilities.len()
            invariant
                i <= self.capabilities.len(),
                elems_v(caps@) == strings_v(self.capabilities@).take(i as int).map_values(
                    |c: Seq<char>| JsonV::Str(c),
                ),
            decreases self.capabilities.len() - i,
        {
            push_elem(&mut caps, Json::Str(self.capabilities[i].clone()));
            proof {
                let sv = strings_v(self.capabilities@);
                assert(sv.take(i + 1) =~= sv.take(i as int).push(self.capabilities@[i as int]@));
                assert(sv.take(i + 1).map_values(|c: Seq<char>| JsonV::Str(c)) =~= sv.take(
                    i as int,
                ).map_values(|c: Seq<char>| JsonV::Str(c)).push(JsonV::Str(self.capabilities@[i as int]@)));
            }
            i += 1;
        }
        proof {
            assert(strings_v(self.capabilities@).take(self.capabilities@.len() as int) =~= strings_v(
                self.capabilities@,
            ));
        }
        let kind = match self.kind {
            ExtensionManifestKind::Skill => Json::string("skill"),
            ExtensionManifestKind::McpConfig => Json::string("mcp_config"),
        };
        let mut f: Vec<(String, Json)> = Vec::new();
        push_field(&mut f, "schema_version", Json::UInt(self.schema_version as u64));
        push_field(&mut f, "id", Json::Str(self.id.clone()));
        push_field(&mut f, "kind", kind);
        push_field(&mut f, "version", Json::Str(self.version.clone()));
        push_field(&mut f, "digest", Json::Str(self.digest.clone()));
        push_field(&mut f, "capabilities", array(caps));
        let r = object(f);
        proof {
            assert(fields_v(f@) =~= to_json_spec(self@)->Obj_0);
        }
        r
    }

    /// Reads an envelope from JSON: only the documented members are accepted, the
    /// members must have their types, and the result must validate.
    pub fn from_json_value(value: &Json) -> (r: Result<ExtensionManifest, ManifestError>)
        ensures
            manifest_result_v(r) == from_json_spec(value@),
    {
        let fields = match value {
            Json::Obj(f) => f,
            _ => return Err(ManifestError::UndocumentedField),
        };
        proof {
            lemma_obj_view(*fields);
        }
        let ghost fv = fields_v(fields@);
        let mut i: usize = 0;
        while i < fields.len()
            invariant
                i <= fields.len(),
                fv == fields_v(fields@),
                value@ == JsonV::Obj(fv),
                forall|k: int| 0 <= k < i ==> allowed_envelope_key(#[trigger] fv[k].0),
            decreases fields.len() - i,
        {
            if !is_allowed_envelope_key(fields[i].0.as_str()) {
                proof {
                    assert(!allowed_envelope_key(fv[i as int].0));
                }
                return Err(ManifestError::UndocumentedField);
            }
            i += 1;
        }
        let schema_version: u16 = match value.get("schema_version") {
            None => default_legacy_schema_version(),
            Some(Json::UInt(n)) => if *n <= 65535 {
                *n as u16
            } else {
                return Err(ManifestError::UndocumentedField);
            },
            Some(_) => return Err(ManifestError::UndocumentedField),
        };
        let id = match value.str_at("id") {
            Some(s) => s,
            None => return Err(ManifestError::UndocumentedField),
        };
        let kind = match value.get("kind") {
            Some(k) => match read_kind(k) {
                Some(k) => k,
                None => return Err(ManifestError::UndocumentedField),
            },
            None => return Err(ManifestError::UndocumentedField),
        };
        let version = match value.str_at("version") {
            Some(s) => s,
            None => return Err(ManifestError::UndocumentedField),
        };
        let digest = match value.str_at("digest") {
            Some(s) => s,
            None => return Err(ManifestError::UndocumentedField),
        };
        let capabilities = match value.get("capabilities") {
            Some(c) => match read_string_array(c) {
                Some(v) => v,
                None => return Err(ManifestError::UndocumentedField),
            },
            None => return Err(ManifestError::UndocumentedField),
        };
        let manifest = ExtensionManifest { schema_version, id, kind, version, digest, capabilities };
        proof {
            assert(decode_fields(value@) == Some(manifest@));
        }
        match manifest.validate() {
            Ok(()) => Ok(manifest),
            Err(e) => Err(e),
        }
    }
}


/// An envelope that validates reads back unchanged from its own JSON form.
pub proof fn lemma_envelope_json_roundtrip(m: ManifestV)
    requires
        validate_spec(m) is Ok,
    ensures
        from_json_spec(to_json_spec(m)) == Ok::<ManifestV, ManifestErrorV>(m),
{
    reveal_strlit("schema_version");
    reveal_strlit("id");
    reveal_strlit("kind");
    reveal_strlit("version");
    reveal_strlit("digest");
    reveal_strlit("capabilities");
    reveal_strlit("skill");
    reveal_strlit("mcp_config");
    let j = to_json_spec(m);
    let f = j->Obj_0;
    assert("schema_version"@.len() == 14);
    assert("id"@.len() == 2);
    assert("kind"@.len() == 4);
    assert("version"@.len() == 7);
    assert("digest"@.len() == 6);
    assert("capabilities"@.len() == 12);
    lemma_lookup_at(f, "schema_version"@, 0);
    lemma_lookup_at(f, "id"@, 1);
    lemma_lookup_at(f, "kind"@, 2);
    lemma_lookup_at(f, "version"@, 3);
    lemma_lookup_at(f, "digest"@, 4);
    lemma_lookup_at(f, "capabilities"@, 5);
    assert forall|i: int| 0 <= i < f.len() implies allowed_envelope_key(#[trigger] f[i].0) by {}
    let caps = m.capabilities.map_values(|c: Seq<char>| JsonV::Str(c));
    assert(all_strings(caps));
    assert(string_elems(caps) =~= m.capabilities);
    if m.kind is Skill {
        assert(decode_kind(JsonV::Str(kind_name(m.kind))) == Some(m.kind));
    } else {
        assert("mcp_config"@.len() == 10);
        assert("skill"@.len() == 5);
        assert(decode_kind(JsonV::Str(kind_name(m.kind))) == Some(m.kind));
    }
    assert(j.get("schema_version"@) == Some(JsonV::UInt(m.schema_version as u64)));
    assert(j.get("capabilities"@) == Some(JsonV::Arr(caps)));
    assert(decode_fields(j) == Some(m));
}


/// An extension id is valid exactly when it has 1 to 64 characters, begins with
/// a lowercase ASCII letter or a digit, and every later character is a
/// lowercase ASCII letter, a digit, `_` or `-`.
pub proof fn lemma_extension_id_rule(id: Seq<char>)
    ensures
        valid_extension_id(id) <==> (1 <= id.len() <= 64
            && (('a' <= id[0] && id[0] <= 'z') || ('0' <= id[0] && id[0] <= '9'))
            && forall|i: int| 1 <= i < id.len() ==> (('a' <= #[trigger] id[i] && id[i] <= 'z')
                || ('0' <= id[i] && id[i] <= '9') || id[i] == '_' || id[i] == '-')),
{
}

} // verus!
