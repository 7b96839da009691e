use vstd::prelude::*;

verus! {

/// The Unicode lower-casing of a character sequence, exactly as
/// `str::to_lowercase` computes it: a pure function of the characters alone.
pub uninterp spec fn lower_of(s: Seq<char>) -> Seq<char>;

/// Relies on str::to_lowercase: the result depends on the input characters
/// alone, and an empty input gives an empty result.
#[verifier::external_body]
pub(crate) fn to_lowercase(s: &str) -> (r: String)
    ensures
        r@ == lower_of(s@),
        s@.len() == 0 ==> r@.len() == 0,
{
    s.to_lowercase()
}

/// Relies on dirs::download_dir: the platform's downloads directory, when one
/// is known. The answer depends on the environment, so nothing is promised of
/// the value; callers must cope with every outcome.
#[verifier::external_body]
pub(crate) fn downloads_dir() -> (r: Option<String>) {
    dirs::download_dir().map(|p| p.to_string_lossy().into_owned())
}

/// Relies on dirs::config_dir: the per-user configuration root, when one is
/// known. As above, the answer depends on the environment.
#[verifier::external_body]
pub(crate) fn config_root_dir() -> (r: Option<String>) {
    dirs::config_dir().map(|p| p.to_string_lossy().into_owned())
}

} // verus!
