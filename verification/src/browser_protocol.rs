//! Browser Provider Protocol `0.1` wire shapes.
use vstd::prelude::*;
use crate::text::{chars_of, find_char, slice_range, first_index, chars_eq};

verus! {

/// Semantic protocol version aligned with the audited reference (`0.1`).
pub const BROWSER_PROVIDER_PROTOCOL_VERSION: &'static str = "0.1";

#[derive(Debug, Clone, Copy, PartialEq, Eq, Hash, Structural)]
pub enum BrowserCapability {
    Navigate,
    Snapshot,
    RenderedReadableText,
    RenderedLinks,
    Screenshot,
    Click,
    Type,
    Wait,
}

#[derive(Debug, Clone, PartialEq, Eq)]
pub struct BrowserProviderDescriptor {
    pub provider_id: String,
    pub provider_version: Option<String>,
    pub protocol_version: String,
    pub browser_families: Vec<String>,
    pub capabilities: Vec<BrowserCapability>,
}

#[derive(Debug, Clone, PartialEq, Eq)]
pub enum BrowserServiceStatus {
    Unavailable { reason: String },
    Degraded { reason: String },
    Misconfigured { reason: String },
    Available { provider_id: String, capabilities: Vec<BrowserCapability> },
}

#[derive(Debug, Clone, PartialEq, Eq)]
pub struct BrowserNegotiateRequest {
    pub protocol_version: String,
    pub required_capabilities: Vec<BrowserCapability>,
    pub optional_capabilities: Vec<BrowserCapability>,
}

#[derive(Debug, Clone, PartialEq, Eq)]
pub struct BrowserNegotiateResult {
    pub protocol_version: String,
    pub compatible: bool,
    pub provider: BrowserProviderDescriptor,
    pub granted_capabilities: Vec<BrowserCapability>,
    pub missing_required: Vec<BrowserCapability>,
}

#[derive(Debug, Clone, PartialEq, Eq)]
pub struct BrowserSessionEnsureRequest {
    pub client_session_id: String,
    pub browser_preference: Option<String>,
}

#[derive(Debug, Clone, PartialEq, Eq)]
pub struct BrowserSessionHandle {
    pub session_id: String,
    pub browser_family: Option<String>,
    pub default_page_id: Option<String>,
}

#[derive(Debug, Clone, PartialEq, Eq)]
pub struct BrowserNavigateRequest {
    pub session_id: String,
    pub url: String,
    pub page_id: Option<String>,
    pub new_page: bool,
}

#[derive(Debug, Clone, PartialEq, Eq)]
pub struct BrowserNavigateResult {
    pub page_id: String,
    pub url: String,
    pub title: Option<String>,
}

#[derive(Debug, Clone, PartialEq, Eq)]
pub struct BrowserPageState {
    pub session_id: String,
    pub page_id: String,
    pub url: String,
    pub title: Option<String>,
    pub ready: bool,
}

#[derive(Debug, Clone, PartialEq, Eq)]
pub struct BrowserFetchRenderedRequest {
    pub session_id: String,
    pub page_id: Option<String>,
    pub url: Option<String>,
}

#[derive(Debug, Clone, PartialEq, Eq)]
pub struct BrowserFetchRenderedResult {
    pub page_id: String,
    pub url: String,
    pub title: Option<String>,
    pub content_type: String,
    pub text: String,
}

#[derive(Debug, Clone, PartialEq, Eq)]
pub struct BrowserActionRequest {
    pub session_id: String,
    pub page_id: Option<String>,
    pub selector: Option<String>,
    pub text: Option<String>,
    pub timeout_ms: Option<u64>,
}

#[derive(Debug, Clone, PartialEq, Eq)]
pub struct BrowserActionResult {
    pub ok: bool,
    pub detail: String,
}

#[derive(Debug, Clone, PartialEq, Eq)]
pub struct BrowserCancelRequest {
    pub session_id: Option<String>,
}

/// The text before the first `.` (the whole text when there is none).
pub open spec fn major_of(v: Seq<char>) -> Seq<char> {
    match first_index(v, '.') {
        Some(i) => v.take(i),
        None => v,
    }
}

fn major_component(version: &[char]) -> (r: Vec<char>)
    ensures
        r@ == major_of(version@),
{
    match find_char(version, '.') {
        Some(i) => {
            proof {
                assert(version@.subrange(0, i as int) == version@.take(i as int));
            }
            slice_range(version, 0, i)
        },
        None => slice_range(version, 0, version.len()),
    }
}

/// Major-component protocol compatibility (`0.1` ≈ `0.1.x`).
pub fn protocol_compatible(requested: &str, offered: &str) -> (r: bool)
    ensures
        r == (major_of(requested@) == major_of(offered@)),
{
    let a = chars_of(requested);
    let b = chars_of(offered);
    let ma = major_component(a.as_slice());
    let mb = major_component(b.as_slice());
    chars_eq(ma.as_slice(), mb.as_slice())
}

/// The protocol version a negotiate request has when it states none.
pub fn default_protocol_version() -> (r: String)
    ensures
        r@ == BROWSER_PROVIDER_PROTOCOL_VERSION@,
{
    crate::text::owned(BROWSER_PROVIDER_PROTOCOL_VERSION)
}

} // verus!
