//! File-system paths, held as text.
use vstd::prelude::*;

verus! {

/// What `Path::join` gives for a base path and a further component, both as
/// text, under the path rules of the platform the crate is built for.
pub uninterp spec fn joined_path(base: Seq<char>, name: Seq<char>) -> Seq<char>;

/// Calls `std::path::Path::join`.  Both paths and the result are handled as
/// UTF-8 text (the result is made of the two texts and separators, so it is
/// UTF-8 too); the platform's separator rules are left to the name.
#[verifier::external_body]
pub(crate) fn join_path(base: &str, name: &str) -> (r: String)
    ensures
        r@ == joined_path(base@, name@),
{
    std::path::Path::new(base).join(name).to_string_lossy().into_owned()
}

/// `models_cache.<provider>.json`.
pub open spec fn provider_cache_file_name(provider_id: Seq<char>) -> Seq<char> {
    "models_cache."@ + provider_id + ".json"@
}

pub fn provider_cache_file_name_exec(provider_id: &str) -> (r: String)
    ensures
        r@ == provider_cache_file_name(provider_id@),
{
    let mut out = String::new();
    out.append("models_cache.");
    out.append(provider_id);
    out.append(".json");
    out
}

/// Where the models cache of one provider lives under CODEX_HOME.
pub fn provider_scoped_cache_path(codex_home: &str, provider_id: &str) -> (r: String)
    ensures
        r@ == joined_path(codex_home@, provider_cache_file_name(provider_id@)),
{
    let file_name = provider_cache_file_name_exec(provider_id);
    join_path(codex_home, file_name.as_str())
}

} // verus!
