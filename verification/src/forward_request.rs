//! Rewriting the target of a request onto the fixed upstream.

use vstd::prelude::*;
use vstd::string::StringExecFns;

verus! {

/// The target on the upstream: the base, then the path, then the query
/// behind a question mark if there is one.
pub open spec fn spec_target(base: Seq<char>, path: Seq<char>, query: Option<Seq<char>>) -> Seq<
    char,
> {
    match query {
        Some(q) => base + path + seq!['?'] + q,
        None => base + path,
    }
}

/// The text of an optional string slice.
pub open spec fn opt_text(text: Option<&str>) -> Option<Seq<char>> {
    match text {
        Some(t) => Some(t@),
        None => None,
    }
}

/// Forwarding to one fixed upstream.
pub struct ForwardRequest {
    base: String,
}

impl ForwardRequest {
    /// Forwarding to the upstream at `base`.
    pub fn new(base: String) -> (r: ForwardRequest)
        ensures
            r.base() == base@,
    {
        ForwardRequest { base }
    }

    /// The text of the upstream's base.
    pub closed spec fn base(&self) -> Seq<char> {
        self.base@
    }

    /// The target on the upstream for a request to `path` with `query`.
    pub fn target(&self, path: &str, query: Option<&str>) -> (target: String)
        ensures
            target@ == spec_target(self.base(), path@, opt_text(query)),
    {
        let head: String = self.base.clone().concat(path);
        match query {
            Some(q) => {
                proof {
                    reveal_strlit("?");
                    assert("?"@ =~= seq!['?']);
                }
                head.concat("?").concat(q)
            },
            None => head,
        }
    }
}

} // verus!
