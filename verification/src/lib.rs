use vstd::prelude::*;

pub mod text;
pub mod keyed;
pub mod json;
pub mod mcp;
pub mod digest;
pub mod manifest;
pub mod package;
pub mod catalog;
pub mod legacy;
pub mod browser_protocol;
pub mod browser_backend;
pub mod browser_tools;
pub mod paths;
pub mod workspace;
pub mod code_search;
pub mod git_tools;
pub mod http_fetch;
pub mod lsp_protocol;
pub mod lsp_session;
pub mod lsp_mock;

verus! {
} // verus!
