use vstd::prelude::*;

verus! {

/// The search engine's executable.
pub const SEARCH_BINARY: &'static str = "rg";

/// The selector engine's executable.
pub const SELECTOR_BINARY: &'static str = "sk";

/// A required executable that could not be found.
pub struct MissingBinary {
    pub name: String,
}

impl MissingBinary {
    /// The text shown to the user: which tool is missing and how to get it.
    pub fn message(&self) -> (r: String)
        ensures
            r@ == self.name@ + " not found in PATH. Try installing it with cargo install "@
                + self.name@,
    {
        let mut r = self.name.clone();
        r.append(" not found in PATH. Try installing it with cargo install ");
        r.append(self.name.as_str());
        r
    }
}

/// What the readiness check reports, given whether each engine was found:
/// the search engine is reported first, and the selector only when the
/// search engine is there.
pub open spec fn preflight_spec(search_found: bool, selector_found: bool) -> Result<
    (),
    Seq<char>,
> {
    if !search_found {
        Err(SEARCH_BINARY@)
    } else if !selector_found {
        Err(SELECTOR_BINARY@)
    } else {
        Ok(())
    }
}

pub open spec fn missing_view(r: Result<(), MissingBinary>) -> Result<(), Seq<char>> {
    match r {
        Ok(()) => Ok(()),
        Err(m) => Err(m.name@),
    }
}

/// Decides the readiness check from what the lookups found.
pub fn preflight(search_found: bool, selector_found: bool) -> (r: Result<(), MissingBinary>)
    ensures
        missing_view(r) == preflight_spec(search_found, selector_found),
{
    if !search_found {
        Err(MissingBinary { name: String::from_str(SEARCH_BINARY) })
    } else if !selector_found {
        Err(MissingBinary { name: String::from_str(SELECTOR_BINARY) })
    } else {
        Ok(())
    }
}

/// Relies on `which::which`: whether `name` resolves to an executable on the
/// search path. The answer depends on the machine, so nothing is promised.
#[verifier::external_body]
fn binary_on_path(name: &str) -> (r: bool) {
    which::which(name).is_ok()
}

/// Checks that both engines can be found, looking for the selector only once
/// the search engine has been found.
pub fn check_binaries() -> (r: Result<(), MissingBinary>)
    ensures
        missing_view(r) == preflight_spec(true, true) || missing_view(r) == preflight_spec(
            false,
            true,
        ) || missing_view(r) == preflight_spec(true, false),
{
    if !binary_on_path(SEARCH_BINARY) {
        return preflight(false, true);
    }
    let selector_found = binary_on_path(SELECTOR_BINARY);
    preflight(true, selector_found)
}

/// When the search engine cannot be found the check names it, and never the
/// selector, whether or not the selector is there.
pub proof fn lemma_missing_search_engine_named_first(selector_found: bool)
    ensures
        preflight_spec(false, selector_found) == Err::<(), Seq<char>>("rg"@),
        preflight_spec(false, selector_found) != Err::<(), Seq<char>>("sk"@),
{
    reveal_strlit("rg");
    reveal_strlit("sk");
    assert("rg"@[0] != "sk"@[0]);
}

} // verus!
