//! `catalog.json`: publisher discovery metadata that must agree with the
//! canonical manifests, and its regeneration from them (sorted by id).
use vstd::prelude::*;
use crate::json::{Json, JsonV, push_field, object, fields_v};
use crate::text::{chars_of, owned, concat, concat3, str_eq, trim, trim_chars, views_s, strs_v, in_list, string_of,
    dec, dec_string};
use crate::package::{ExtensionPackageManifest, ExtensionEntrypoint, kind_spec, surface_spec, entrypoint_kind,
    portable_surface, allowed_entrypoint_kinds, allowed_entrypoint_kind_list, semver_parses, semver_valid};
use crate::paths::{path_strip_prefix, strip_prefix_path};

verus! {

// ---------------------------------------------------------------------------
// Lexicographic order

/// `str` ordering: lexicographic by character (which is UTF-8 byte order).
pub open spec fn seq_lt(a: Seq<char>, b: Seq<char>) -> bool
    decreases a.len(),
{
    if b.len() == 0 {
        false
    } else if a.len() == 0 {
        true
    } else if a[0] != b[0] {
        a[0] < b[0]
    } else {
        seq_lt(a.drop_first(), b.drop_first())
    }
}

pub proof fn lemma_lt_irreflexive(a: Seq<char>)
    ensures
        !seq_lt(a, a),
    decreases a.len(),
{
    if a.len() > 0 {
        lemma_lt_irreflexive(a.drop_first());
    }
}

pub proof fn lemma_lt_total(a: Seq<char>, b: Seq<char>)
    ensures
        a == b || seq_lt(a, b) || seq_lt(b, a),
    decreases a.len(),
{
    if a.len() > 0 && b.len() > 0 && a[0] == b[0] {
        lemma_lt_total(a.drop_first(), b.drop_first());
        if a.drop_first() == b.drop_first() {
            assert(a =~= seq![a[0]] + a.drop_first());
            assert(b =~= seq![b[0]] + b.drop_first());
        }
    } else if a.len() == 0 && b.len() == 0 {
        assert(a =~= b);
    }
}

pub proof fn lemma_lt_asymmetric(a: Seq<char>, b: Seq<char>)
    ensures
        !(seq_lt(a, b) && seq_lt(b, a)),
    decreases a.len(),
{
    if a.len() > 0 && b.len() > 0 && a[0] == b[0] {
        lemma_lt_asymmetric(a.drop_first(), b.drop_first());
    }
}

pub proof fn lemma_lt_transitive(a: Seq<char>, b: Seq<char>, c: Seq<char>)
    requires
        seq_lt(a, b),
        seq_lt(b, c),
    ensures
        seq_lt(a, c),
    decreases a.len(),
{
    if a.len() > 0 && b.len() > 0 && c.len() > 0 && a[0] == b[0] && b[0] == c[0] {
        lemma_lt_transitive(a.drop_first(), b.drop_first(), c.drop_first());
    }
}

/// `a < b` for strings.
pub fn str_lt(a: &str, b: &str) -> (r: bool)
    ensures
        r == seq_lt(a@, b@),
{
    let x = chars_of(a);
    let y = chars_of(b);
    let mut i: usize = 0;
    assert(x@.skip(0) =~= x@);
    assert(y@.skip(0) =~= y@);
    while i < x.len() && i < y.len()
        invariant
            i <= x.len(),
            i <= y.len(),
            x@ == a@,
            y@ == b@,
            seq_lt(a@, b@) == seq_lt(x@.skip(i as int), y@.skip(i as int)),
        decreases x.len() - i,
    {
        let ghost xs = x@.skip(i as int);
        let ghost ys = y@.skip(i as int);
        assert(xs[0] == x@[i as int]);
        assert(ys[0] == y@[i as int]);
        if x[i] != y[i] {
            return x[i] < y[i];
        }
        assert(xs.drop_first() =~= x@.skip(i + 1));
        assert(ys.drop_first() =~= y@.skip(i + 1));
        i += 1;
    }
    i == x.len() && i < y.len()
}

// ---------------------------------------------------------------------------
// Stable insertion sort by a key

/// `e` inserted into `s` after every element whose key is not greater.
pub open spec fn sorted_insert<T>(s: Seq<T>, e: T, key: spec_fn(T) -> Seq<char>) -> Seq<T>
    decreases s.len(),
{
    if s.len() == 0 {
        seq![e]
    } else if seq_lt(key(e), key(s[0])) {
        seq![e] + s
    } else {
        seq![s[0]] + sorted_insert(s.drop_first(), e, key)
    }
}

/// The stable sort of `s` by key.
pub open spec fn sort_by_key<T>(s: Seq<T>, key: spec_fn(T) -> Seq<char>) -> Seq<T>
    decreases s.len(),
{
    if s.len() == 0 {
        Seq::empty()
    } else {
        sorted_insert(sort_by_key(s.drop_last(), key), s.last(), key)
    }
}

/// Keys never decrease along `s`.
pub open spec fn sorted_by_key<T>(s: Seq<T>, key: spec_fn(T) -> Seq<char>) -> bool {
    forall|i: int, j: int| 0 <= i < j < s.len() ==> !seq_lt(key(s[j]), key(s[i]))
}

/// Inserting at the first element with a greater key is `sorted_insert`.
proof fn lemma_sorted_insert_at<T>(s: Seq<T>, e: T, key: spec_fn(T) -> Seq<char>, i: int)
    requires
        0 <= i <= s.len(),
        forall|j: int| 0 <= j < i ==> !seq_lt(key(e), key(s[j])),
        i < s.len() ==> seq_lt(key(e), key(s[i])),
    ensures
        sorted_insert(s, e, key) == s.insert(i, e),
    decreases i,
{
    if i == 0 {
        if s.len() == 0 {
            assert(s.insert(0, e) =~= seq![e]);
        } else {
            assert(s.insert(0, e) =~= seq![e] + s);
        }
    } else {
        lemma_sorted_insert_at(s.drop_first(), e, key, i - 1);
        assert(s.insert(i, e) =~= seq![s[0]] + s.drop_first().insert(i - 1, e));
    }
}

/// `sorted_insert` inserts at the first element with a greater key.
proof fn lemma_insert_index<T>(s: Seq<T>, e: T, key: spec_fn(T) -> Seq<char>) -> (i: int)
    ensures
        0 <= i <= s.len(),
        sorted_insert(s, e, key) == s.insert(i, e),
        forall|j: int| 0 <= j < i ==> !seq_lt(key(e), #[trigger] key(s[j])),
        i < s.len() ==> seq_lt(key(e), key(s[i])),
    decreases s.len(),
{
    if s.len() == 0 {
        assert(s.insert(0, e) =~= seq![e]);
        0
    } else if seq_lt(key(e), key(s[0])) {
        assert(s.insert(0, e) =~= seq![e] + s);
        0
    } else {
        let t = s.drop_first();
        let k = lemma_insert_index(t, e, key);
        assert(s.insert(k + 1, e) =~= seq![s[0]] + t.insert(k, e));
        assert forall|j: int| 0 <= j < k + 1 implies !seq_lt(key(e), #[trigger] key(s[j])) by {
            if j > 0 {
                assert(s[j] == t[j - 1]);
            }
        }
        if k < t.len() {
            assert(s[k + 1] == t[k]);
        }
        k + 1
    }
}

/// Inserting into a sorted sequence keeps it sorted, and adds exactly `e`.
pub proof fn lemma_sorted_insert_sorted<T>(s: Seq<T>, e: T, key: spec_fn(T) -> Seq<char>)
    requires
        sorted_by_key(s, key),
    ensures
        sorted_by_key(sorted_insert(s, e, key), key),
        sorted_insert(s, e, key).len() == s.len() + 1,
        sorted_insert(s, e, key).to_multiset() == s.to_multiset().insert(e),
{
    let i = lemma_insert_index(s, e, key);
    let r = s.insert(i, e);
    vstd::seq_lib::to_multiset_insert(s, i, e);
    assert forall|a: int, b: int| 0 <= a < b < r.len() implies !seq_lt(key(r[b]), key(r[a])) by {
        if b < i {
            assert(r[a] == s[a] && r[b] == s[b]);
        } else if b == i {
            assert(r[a] == s[a] && r[b] == e);
        } else if a < i {
            assert(r[a] == s[a] && r[b] == s[b - 1]);
        } else if a == i {
            assert(r[a] == e && r[b] == s[b - 1]);
            if seq_lt(key(s[b - 1]), key(e)) {
                if b - 1 == i {
                    lemma_lt_asymmetric(key(e), key(s[i]));
                } else {
                    lemma_lt_transitive(key(s[b - 1]), key(e), key(s[i]));
                }
            }
        } else {
            assert(r[a] == s[a - 1] && r[b] == s[b - 1]);
        }
    }
}

/// The sort by key orders by key and keeps exactly the same elements.
pub proof fn lemma_sort_by_key<T>(s: Seq<T>, key: spec_fn(T) -> Seq<char>)
    ensures
        sorted_by_key(sort_by_key(s, key), key),
        sort_by_key(s, key).to_multiset() == s.to_multiset(),
    decreases s.len(),
{
    if s.len() == 0 {
        assert(sort_by_key(s, key) =~= s);
    } else {
        lemma_sort_by_key(s.drop_last(), key);
        lemma_sorted_insert_sorted(sort_by_key(s.drop_last(), key), s.last(), key);
        assert(s =~= s.drop_last().push(s.last()));
        vstd::seq_lib::to_multiset_build(s.drop_last(), s.last());
    }
}

pub open spec fn text_key() -> spec_fn(Seq<char>) -> Seq<char> {
    |s: Seq<char>| s
}

/// Sorts strings (stably, which for strings is simply sorting).
pub fn sort_strings(v: Vec<String>) -> (r: Vec<String>)
    ensures
        views_s(r@) == sort_by_key(views_s(v@), text_key()),
{
    let mut out: Vec<String> = Vec::new();
    let mut k: usize = 0;
    assert(views_s(v@).take(0) =~= Seq::<Seq<char>>::empty());
    assert(views_s(out@) =~= Seq::<Seq<char>>::empty());
    while k < v.len()
        invariant
            k <= v.len(),
            views_s(out@) == sort_by_key(views_s(v@).take(k as int), text_key()),
        decreases v.len() - k,
    {
        let e = v[k].as_str();
        let mut i: usize = 0;
        while i < out.len() && !str_lt(e, out[i].as_str())
            invariant
                i <= out.len(),
                forall|j: int| 0 <= j < i ==> !seq_lt(e@, views_s(out@)[j]),
            decreases out.len() - i,
        {
            i += 1;
        }
        proof {
            lemma_sorted_insert_at(views_s(out@), e@, text_key(), i as int);
            assert(views_s(v@).take(k + 1).drop_last() =~= views_s(v@).take(k as int));
            assert(views_s(v@).take(k + 1).last() == e@);
        }
        let ghost before = views_s(out@);
        out.insert(i, owned(e));
        assert(views_s(out@) =~= before.insert(i as int, e@));
        k += 1;
    }
    assert(views_s(v@).take(v.len() as int) =~= views_s(v@));
    out
}

// ---------------------------------------------------------------------------
// Catalog types

/// One catalog entry.
pub struct CatalogEntry {
    pub id: String,
    pub name: String,
    pub version: String,
    pub summary: String,
    pub source_path: String,
    pub entrypoint: String,
    pub portable_surface: Option<String>,
    pub implementation: Option<String>,
    pub distribution: Json,
}

/// A catalog entry as values.
pub struct CatalogEntryV {
    pub id: Seq<char>,
    pub name: Seq<char>,
    pub version: Seq<char>,
    pub summary: Seq<char>,
    pub source_path: Seq<char>,
    pub entrypoint: Seq<char>,
    pub portable_surface: Option<Seq<char>>,
    pub implementation: Option<Seq<char>>,
    pub distribution: JsonV,
}

pub open spec fn opt_v(o: Option<String>) -> Option<Seq<char>> {
    match o {
        Some(s) => Some(s@),
        None => None,
    }
}

impl View for CatalogEntry {
    type V = CatalogEntryV;

    open spec fn view(&self) -> CatalogEntryV {
        CatalogEntryV {
            id: self.id@,
            name: self.name@,
            version: self.version@,
            summary: self.summary@,
            source_path: self.source_path@,
            entrypoint: self.entrypoint@,
            portable_surface: opt_v(self.portable_surface),
            implementation: opt_v(self.implementation),
            distribution: self.distribution@,
        }
    }
}

pub open spec fn entries_v(v: Seq<CatalogEntry>) -> Seq<CatalogEntryV> {
    v.map_values(|e: CatalogEntry| e@)
}

pub open spec fn entry_key() -> spec_fn(CatalogEntryV) -> Seq<char> {
    |e: CatalogEntryV| e.id
}

/// `catalog.json`.
pub struct CatalogFile {
    pub schema_version: u32,
    pub repository: String,
    pub extensions: Vec<CatalogEntry>,
}

/// The catalog format this repository reads.
pub fn check_catalog_schema(c: &CatalogFile) -> (r: Result<(), String>)
    ensures
        r is Ok <==> c.schema_version == 1,
        r matches Err(e) ==> e@ == "catalog: unsupported schema_version "@ + dec(c.schema_version as nat),
{
    if c.schema_version != 1 {
        let d = dec_string(c.schema_version as u64);
        return Err(concat("catalog: unsupported schema_version ", d.as_str()));
    }
    Ok(())
}

/// The checks on a catalog entry that need no manifest, in order: a new id, a
/// non-blank version that is semver once trimmed, a known entrypoint kind.
pub open spec fn precheck_spec(seen: Seq<Seq<char>>, e: CatalogEntryV) -> Result<(), Seq<char>> {
    if seen.contains(e.id) {
        Err("catalog: duplicate catalog id `"@ + e.id + "`"@)
    } else if trim(e.version).len() == 0 {
        Err("catalog: "@ + e.id + ": empty version"@)
    } else if !semver_parses(trim(e.version)) {
        Err("catalog: "@ + e.id + ": invalid semver `"@ + e.version + "`"@)
    } else if !allowed_entrypoint_kinds().contains(e.entrypoint) {
        Err("catalog: "@ + e.id + ": unknown entrypoint `"@ + e.entrypoint + "`"@)
    } else {
        Ok(())
    }
}

pub open spec fn unit_v(r: Result<(), String>) -> Result<(), Seq<char>> {
    match r {
        Ok(()) => Ok(()),
        Err(e) => Err(e@),
    }
}

/// The catalog ids seen so far.
pub struct CatalogCheck {
    seen: Vec<String>,
}

impl View for CatalogCheck {
    type V = Seq<Seq<char>>;

    closed spec fn view(&self) -> Seq<Seq<char>> {
        views_s(self.seen@)
    }
}

impl CatalogCheck {
    pub fn new() -> (r: CatalogCheck)
        ensures
            r@ == Seq::<Seq<char>>::empty(),
    {
        let r = CatalogCheck { seen: Vec::new() };
        assert(r@ =~= Seq::<Seq<char>>::empty());
        r
    }

    /// Whether an id was seen.
    pub fn contains(&self, id: &str) -> (r: bool)
        ensures
            r == self@.contains(id@),
    {
        let mut i: usize = 0;
        while i < self.seen.len()
            invariant
                i <= self.seen.len(),
                forall|j: int| 0 <= j < i ==> self@[j] != id@,
            decreases self.seen.len() - i,
        {
            if str_eq(self.seen[i].as_str(), id) {
                assert(self@[i as int] == id@);
                return true;
            }
            i += 1;
        }
        false
    }

    /// Records an entry's id and checks what needs no manifest.
    pub fn precheck(&mut self, e: &CatalogEntry) -> (r: Result<(), String>)
        ensures
            unit_v(r) == precheck_spec(old(self)@, e@),
            final(self)@ == (if old(self)@.contains(e.id@) { old(self)@ } else { old(self)@.push(e.id@) }),
    {
        if self.contains(e.id.as_str()) {
            return Err(concat3("catalog: duplicate catalog id `", e.id.as_str(), "`"));
        }
        let ghost before = self@;
        self.seen.push(owned(e.id.as_str()));
        assert(self@ =~= before.push(e.id@));
        let vc = chars_of(e.version.as_str());
        let t = trim_chars(vc.as_slice());
        if t.len() == 0 {
            return Err(concat3("catalog: ", e.id.as_str(), ": empty version"));
        }
        let ts = string_of(t.as_slice());
        if !semver_valid(ts.as_str()) {
            let a = concat3("catalog: ", e.id.as_str(), ": invalid semver `");
            return Err(concat3(a.as_str(), e.version.as_str(), "`"));
        }
        let kinds = allowed_entrypoint_kind_list();
        if !in_list(e.entrypoint.as_str(), &kinds) {
            let a = concat3("catalog: ", e.id.as_str(), ": unknown entrypoint `");
            return Err(concat3(a.as_str(), e.entrypoint.as_str(), "`"));
        }
        Ok(())
    }

    /// Every discovered package must be listed: the first one (in id order) that
    /// is not, is reported.
    pub fn check_complete(&self, discovered: Vec<String>) -> (r: Result<(), String>)
        ensures
            ({
                let ids = sort_by_key(views_s(discovered@), text_key());
                &&& r is Ok <==> (forall|i: int| 0 <= i < ids.len() ==> self@.contains(#[trigger] ids[i]))
                &&& r matches Err(e) ==> exists|i: int| 0 <= i < ids.len() && !self@.contains(#[trigger] ids[i])
                    && (forall|j: int| 0 <= j < i ==> self@.contains(#[trigger] ids[j]))
                    && e@ == "catalog: extension `"@ + ids[i] + "` has extension.toml but is missing from catalog.json"@
            }),
    {
        let ghost target = sort_by_key(views_s(discovered@), text_key());
        let ids = sort_strings(discovered);
        let mut i: usize = 0;
        while i < ids.len()
            invariant
                i <= ids.len(),
                views_s(ids@) == target,
                target == sort_by_key(views_s(discovered@), text_key()),
                forall|j: int| 0 <= j < i ==> self@.contains(#[trigger] views_s(ids@)[j]),
            decreases ids.len() - i,
        {
            if !self.contains(ids[i].as_str()) {
                assert(views_s(ids@)[i as int] == ids@[i as int]@);
                assert(!self@.contains(target[i as int]));
                let a = concat3("catalog: extension `", ids[i].as_str(), "` has extension.toml but is missing from catalog.json");
                return Err(a);
            }
            i += 1;
        }
        Ok(())
    }
}

/// The checks of a catalog entry against its package's manifest, in order.
pub open spec fn against_spec(e: CatalogEntryV, m_id: Seq<char>, m_name: Seq<char>, m_version: Seq<char>, ep: ExtensionEntrypoint,
    discovered: Seq<Seq<char>>) -> Result<(), Seq<char>> {
    let p = "catalog: "@ + e.id;
    if m_id != e.id {
        Err(p + ": catalog id != extension.toml id `"@ + m_id + "`"@)
    } else if m_name != e.name {
        Err(p + ": catalog name `"@ + e.name + "` != extension.toml name `"@ + m_name + "`"@)
    } else if m_version != e.version {
        Err(p + ": catalog version `"@ + e.version + "` != extension.toml version `"@ + m_version + "`"@)
    } else if e.entrypoint != kind_spec(ep) {
        Err(p + ": catalog entrypoint `"@ + e.entrypoint + "` != extension.toml `"@ + kind_spec(ep) + "`"@)
    } else if e.portable_surface is Some && e.portable_surface->0 != surface_spec(ep) {
        Err(p + ": portable_surface `"@ + e.portable_surface->0 + "` != derived `"@ + surface_spec(ep) + "`"@)
    } else if !discovered.contains(e.id) {
        Err(p + ": listed in catalog but not discovered under extensions/"@)
    } else {
        Ok(())
    }
}

fn list_contains(v: &Vec<String>, s: &str) -> (r: bool)
    ensures
        r == views_s(v@).contains(s@),
{
    let mut i: usize = 0;
    while i < v.len()
        invariant
            i <= v.len(),
            forall|j: int| 0 <= j < i ==> views_s(v@)[j] != s@,
        decreases v.len() - i,
    {
        if str_eq(v[i].as_str(), s) {
            assert(views_s(v@)[i as int] == s@);
            return true;
        }
        i += 1;
    }
    false
}

/// Checks that a catalog entry agrees with its package's manifest and that the
/// package was discovered.
pub fn check_entry_against(e: &CatalogEntry, m: &ExtensionPackageManifest, discovered: &Vec<String>) -> (r: Result<(), String>)
    ensures
        unit_v(r) == against_spec(e@, m.id@, m.name@, m.version@, m.entrypoint, views_s(discovered@)),
{
    let p = concat("catalog: ", e.id.as_str());
    let ps = p.as_str();
    if !str_eq(m.id.as_str(), e.id.as_str()) {
        let a = concat3(ps, ": catalog id != extension.toml id `", m.id.as_str());
        return Err(concat(a.as_str(), "`"));
    }
    if !str_eq(m.name.as_str(), e.name.as_str()) {
        let a = concat3(ps, ": catalog name `", e.name.as_str());
        let b = concat3(a.as_str(), "` != extension.toml name `", m.name.as_str());
        return Err(concat(b.as_str(), "`"));
    }
    if !str_eq(m.version.as_str(), e.version.as_str()) {
        let a = concat3(ps, ": catalog version `", e.version.as_str());
        let b = concat3(a.as_str(), "` != extension.toml version `", m.version.as_str());
        return Err(concat(b.as_str(), "`"));
    }
    let kind = entrypoint_kind(&m.entrypoint);
    if !str_eq(e.entrypoint.as_str(), kind) {
        let a = concat3(ps, ": catalog entrypoint `", e.entrypoint.as_str());
        let b = concat3(a.as_str(), "` != extension.toml `", kind);
        return Err(concat(b.as_str(), "`"));
    }
    match &e.portable_surface {
        Some(s) => {
            let expected = portable_surface(&m.entrypoint);
            if !str_eq(s.as_str(), expected) {
                let a = concat3(ps, ": portable_surface `", s.as_str());
                let b = concat3(a.as_str(), "` != derived `", expected);
                return Err(concat(b.as_str(), "`"));
            }
        },
        None => {},
    }
    if !list_contains(discovered, e.id.as_str()) {
        return Err(concat(ps, ": listed in catalog but not discovered under extensions/"));
    }
    Ok(())
}

/// The error of a catalog entry whose package failed to load.
pub fn catalog_load_error(id: &str, error: &str) -> (r: String)
    ensures
        r@ == "catalog: "@ + id@ + ": "@ + error@,
{
    let a = concat3("catalog: ", id, ": ");
    concat(a.as_str(), error)
}

// ---------------------------------------------------------------------------
// Regeneration

/// The last entry of a catalog with a given id.
pub open spec fn last_with_id(entries: Seq<CatalogEntryV>, id: Seq<char>) -> Option<CatalogEntryV>
    decreases entries.len(),
{
    if entries.len() == 0 {
        None
    } else if entries.last().id == id {
        Some(entries.last())
    } else {
        last_with_id(entries.drop_last(), id)
    }
}

/// `{"kind": "repository_source"}`.
pub open spec fn repository_source() -> JsonV {
    JsonV::Obj(seq![("kind"@, JsonV::Str("repository_source"@))])
}

/// The entry regenerated for a package found at `rel`: discovery fields from the
/// manifest; summary, implementation and distribution kept from the previous
/// entry when it had them.
pub open spec fn synced_entry_spec(prev: Option<CatalogEntryV>, rel: Seq<char>, id: Seq<char>, name: Seq<char>,
    version: Seq<char>, description: Seq<char>, ep: ExtensionEntrypoint) -> CatalogEntryV {
    CatalogEntryV {
        id,
        name,
        version,
        summary: match prev { Some(p) => p.summary, None => description },
        source_path: rel,
        entrypoint: kind_spec(ep),
        portable_surface: Some(surface_spec(ep)),
        implementation: match prev {
            Some(p) if p.implementation is Some => p.implementation,
            _ => Some(if ep is InstructionPack { "declarative"@ } else { "rust"@ }),
        },
        distribution: match prev { Some(p) => p.distribution, None => repository_source() },
    }
}

/// A regenerated entry agrees with the package it was made from: checked
/// against that package's manifest, it passes once the package is discovered.
pub proof fn lemma_synced_entry_agrees(prev: Option<CatalogEntryV>, rel: Seq<char>, id: Seq<char>, name: Seq<char>,
    version: Seq<char>, description: Seq<char>, ep: ExtensionEntrypoint, discovered: Seq<Seq<char>>)
    requires
        discovered.contains(id),
    ensures
        against_spec(synced_entry_spec(prev, rel, id, name, version, description, ep), id, name, version, ep, discovered)
            is Ok,
{
}

fn find_last(entries: &Vec<CatalogEntry>, id: &str) -> (r: Option<usize>)
    ensures
        match r {
            Some(i) => i < entries@.len() && last_with_id(entries_v(entries@), id@) == Some(entries@[i as int]@),
            None => last_with_id(entries_v(entries@), id@) is None,
        },
{
    let mut k: usize = entries.len();
    let ghost all = entries_v(entries@);
    assert(all.take(k as int) =~= all);
    while k > 0
        invariant
            k <= entries.len(),
            all == entries_v(entries@),
            last_with_id(all, id@) == last_with_id(all.take(k as int), id@),
        decreases k,
    {
        proof {
            let t = all.take(k as int);
            assert(t.last() == entries@[k - 1]@);
            assert(t.drop_last() =~= all.take(k - 1));
        }
        if str_eq(entries[k - 1].id.as_str(), id) {
            return Some(k - 1);
        }
        k -= 1;
    }
    None
}

fn repository_source_json() -> (r: Json)
    ensures
        r@ == repository_source(),
{
    let mut f: Vec<(String, Json)> = Vec::new();
    push_field(&mut f, "kind", Json::string("repository_source"));
    assert(fields_v(f@) =~= repository_source()->Obj_0);
    object(f)
}

fn copy_opt(o: &Option<String>) -> (r: Option<String>)
    ensures
        opt_v(r) == opt_v(*o),
{
    match o {
        Some(s) => Some(owned(s.as_str())),
        None => None,
    }
}

/// The entry regenerated for one package.
pub fn synced_entry(prev: Option<&CatalogEntry>, rel: &str, m: &ExtensionPackageManifest) -> (r: CatalogEntry)
    ensures
        r@ == synced_entry_spec(match prev { Some(p) => Some(p@), None => None }, rel@, m.id@, m.name@, m.version@,
            m.description@, m.entrypoint),
{
    let summary = match prev {
        Some(p) => owned(p.summary.as_str()),
        None => owned(m.description.as_str()),
    };
    let prev_impl = match prev {
        Some(p) => copy_opt(&p.implementation),
        None => None,
    };
    let implementation = match prev_impl {
        Some(i) => Some(i),
        None => match &m.entrypoint {
            ExtensionEntrypoint::InstructionPack { .. } => Some(owned("declarative")),
            _ => Some(owned("rust")),
        },
    };
    let distribution = match prev {
        Some(p) => p.distribution.copy(),
        None => repository_source_json(),
    };
    CatalogEntry {
        id: owned(m.id.as_str()),
        name: owned(m.name.as_str()),
        version: owned(m.version.as_str()),
        summary,
        source_path: owned(rel),
        entrypoint: owned(entrypoint_kind(&m.entrypoint)),
        portable_surface: Some(owned(portable_surface(&m.entrypoint))),
        implementation,
        distribution,
    }
}

/// The repository a regenerated catalog names when there was no catalog.
pub open spec fn default_repository() -> Seq<char> {
    "https://github.com/1tuz/impetus-extensions"@
}

/// Regenerates the catalog from the packages found (each with its source path):
/// one entry per package, sorted by id, schema version 1, the previous
/// repository kept.
pub fn sync_catalog(existing: Option<CatalogFile>, found: &Vec<(String, ExtensionPackageManifest)>) -> (r: CatalogFile)
    ensures
        r.schema_version == 1,
        r.repository@ == (match existing { Some(c) => c.repository@, None => default_repository() }),
        entries_v(r.extensions@) == sort_by_key(
            Seq::new(found@.len(), |i: int| synced_entry_spec(
                match existing { Some(c) => last_with_id(entries_v(c.extensions@), found@[i].1.id@), None => None },
                found@[i].0@, found@[i].1.id@, found@[i].1.name@, found@[i].1.version@, found@[i].1.description@,
                found@[i].1.entrypoint,
            )),
            entry_key(),
        ),
{
    let ghost unsorted = Seq::new(found@.len(), |i: int| synced_entry_spec(
        match existing { Some(c) => last_with_id(entries_v(c.extensions@), found@[i].1.id@), None => None },
        found@[i].0@, found@[i].1.id@, found@[i].1.name@, found@[i].1.version@, found@[i].1.description@,
        found@[i].1.entrypoint,
    ));
    let mut out: Vec<CatalogEntry> = Vec::new();
    let mut k: usize = 0;
    assert(unsorted.take(0) =~= Seq::<CatalogEntryV>::empty());
    assert(entries_v(out@) =~= Seq::<CatalogEntryV>::empty());
    while k < found.len()
        invariant
            k <= found.len(),
            unsorted.len() == found@.len(),
            forall|i: int| 0 <= i < found@.len() ==> #[trigger] unsorted[i] == synced_entry_spec(
                match existing { Some(c) => last_with_id(entries_v(c.extensions@), found@[i].1.id@), None => None },
                found@[i].0@, found@[i].1.id@, found@[i].1.name@, found@[i].1.version@, found@[i].1.description@,
                found@[i].1.entrypoint,
            ),
            entries_v(out@) == sort_by_key(unsorted.take(k as int), entry_key()),
        decreases found.len() - k,
    {
        let (rel, m) = (&found[k].0, &found[k].1);
        let prev: Option<&CatalogEntry> = match &existing {
            Some(c) => match find_last(&c.extensions, m.id.as_str()) {
                Some(i) => Some(&c.extensions[i]),
                None => None,
            },
            None => None,
        };
        let e = synced_entry(prev, rel.as_str(), m);
        assert(e@ == unsorted[k as int]);
        let mut i: usize = 0;
        while i < out.len() && !str_lt(e.id.as_str(), out[i].id.as_str())
            invariant
                i <= out.len(),
                forall|j: int| 0 <= j < i ==> !seq_lt(e@.id, (entry_key())(entries_v(out@)[j])),
            decreases out.len() - i,
        {
            assert((entry_key())(entries_v(out@)[i as int]) == out@[i as int].id@);
            i += 1;
        }
        proof {
            if i < out.len() {
                assert((entry_key())(entries_v(out@)[i as int]) == out@[i as int].id@);
            }
            lemma_sorted_insert_at(entries_v(out@), e@, entry_key(), i as int);
            assert(unsorted.take(k + 1).drop_last() =~= unsorted.take(k as int));
            assert(unsorted.take(k + 1).last() == e@);
        }
        let ghost before = entries_v(out@);
        let ghost ev = e@;
        out.insert(i, e);
        assert(entries_v(out@) =~= before.insert(i as int, ev));
        k += 1;
    }
    assert(unsorted.take(found.len() as int) =~= unsorted);
    let repository = match &existing {
        Some(c) => owned(c.repository.as_str()),
        None => owned("https://github.com/1tuz/impetus-extensions"),
    };
    CatalogFile { schema_version: 1, repository, extensions: out }
}

/// A regenerated catalog lists its entries sorted by id.
pub proof fn lemma_synced_sorted(unsorted: Seq<CatalogEntryV>)
    ensures
        sorted_by_key(sort_by_key(unsorted, entry_key()), entry_key()),
        sort_by_key(unsorted, entry_key()).to_multiset() == unsorted.to_multiset(),
{
    lemma_sort_by_key(unsorted, entry_key());
}

/// The source path recorded for a package directory: the path relative to the
/// repository (the whole path when it is not under it), with `/` separators.
pub open spec fn source_path_spec(dir: Seq<char>, root: Seq<char>) -> Seq<char> {
    let rel = match path_strip_prefix(dir, root) {
        Some(r) => r,
        None => dir,
    };
    rel.map_values(|c: char| if c == '\\' { '/' } else { c })
}

/// The source path recorded for a package directory.
pub fn source_path(dir: &str, root: &str) -> (r: String)
    ensures
        r@ == source_path_spec(dir@, root@),
{
    let rel = match strip_prefix_path(dir, root) {
        Some(r) => r,
        None => owned(dir),
    };
    let c = chars_of(rel.as_str());
    let mut out: Vec<char> = Vec::new();
    let mut i: usize = 0;
    while i < c.len()
        invariant
            i <= c.len(),
            out@ == c@.take(i as int).map_values(|c: char| if c == '\\' { '/' } else { c }),
        decreases c.len() - i,
    {
        let x = if c[i] == '\\' { '/' } else { c[i] };
        out.push(x);
        assert(c@.take(i + 1) =~= c@.take(i as int).push(c@[i as int]));
        assert(out@ =~= c@.take(i + 1).map_values(|c: char| if c == '\\' { '/' } else { c }));
        i += 1;
    }
    assert(c@.take(c.len() as int) =~= c@);
    string_of(out.as_slice())
}

} // verus!
