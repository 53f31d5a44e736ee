//! Which file of the front end is served for an address.

use vstd::prelude::*;
use crate::server::api::images::opt_text_view;
use crate::text::{is_path_within, path_within};
use crate::text::{chars_of, has_char, same_text, string_of_range};

verus! {

/// What is answered to a request for a file of the front end.
#[derive(Debug, Copy, Clone, PartialEq, Eq, Structural)]
pub enum StaticDecision {
    /// The start page is sent.
    Index,
    /// Nothing is found.
    NotFound,
    /// The path leaves the directory of the front end.
    Forbidden,
    /// The directory of the front end cannot be resolved.
    ServerError,
    /// The asked file is sent.
    Serve,
}

/// How many `/` stand at the start of `s`.
pub open spec fn leading_slashes(s: Seq<char>) -> int
    decreases s.len(),
{
    if s.len() == 0 || s[0] != '/' {
        0
    } else {
        1 + leading_slashes(s.drop_first())
    }
}

/// The path of a file of the front end for an address: the path of the
/// address without the `/` at its start.
pub open spec fn asset_path_of(uri_path: Seq<char>) -> Seq<char> {
    uri_path.skip(leading_slashes(uri_path))
}

/// What is answered when no file can be served for `path`: a path with a `.`
/// names a file that is missing; any other path belongs to the front end's
/// own navigation and gets the start page.
pub open spec fn missing(path: Seq<char>) -> StaticDecision {
    if path.contains('.') {
        StaticDecision::NotFound
    } else {
        StaticDecision::Index
    }
}

/// What is answered to a request for the file `path` of the front end.
/// `canonical` and `base` are the resolved forms of the asked file and of the
/// directory of the front end, where they can be resolved; `is_file` says
/// whether a file stands at the path.
pub open spec fn static_decision(
    path: Seq<char>,
    canonical: Option<Seq<char>>,
    base: Option<Seq<char>>,
    is_file: bool,
) -> StaticDecision {
    if path.len() == 0 || path == "index.html"@ {
        StaticDecision::Index
    } else if canonical is None {
        missing(path)
    } else if base is None {
        StaticDecision::ServerError
    } else if !path_within(canonical->0, base->0) {
        StaticDecision::Forbidden
    } else if !is_file {
        missing(path)
    } else {
        StaticDecision::Serve
    }
}

/// The path of a file of the front end for the path of an address.
pub fn asset_path(uri_path: &str) -> (r: String)
    ensures
        r@ == asset_path_of(uri_path@),
{
    let chars = chars_of(uri_path);
    let mut k: usize = 0;
    while k < chars.len() && chars[k] == '/'
        invariant
            k <= chars@.len(),
            forall|i: int| 0 <= i < k ==> chars@[i] == '/',
        decreases chars@.len() - k,
    {
        k += 1;
    }
    proof {
        lemma_leading_slashes_unique(chars@, k as int);
        assert(chars@.subrange(k as int, chars@.len() as int) =~= chars@.skip(k as int));
    }
    string_of_range(&chars, k, chars.len())
}

/// A place before which only `/` stands and at which none stands is the
/// number of leading slashes.
proof fn lemma_leading_slashes_unique(s: Seq<char>, k: int)
    requires
        0 <= k <= s.len(),
        forall|i: int| 0 <= i < k ==> s[i] == '/',
        k < s.len() ==> s[k] != '/',
    ensures
        leading_slashes(s) == k,
    decreases s.len(),
{
    if s.len() == 0 || s[0] != '/' {
    } else {
        let rest = s.drop_first();
        assert forall|i: int| 0 <= i < k - 1 implies rest[i] == '/' by {
            assert(rest[i] == s[i + 1]);
        }
        if k - 1 < rest.len() {
            assert(rest[k - 1] == s[k]);
        }
        lemma_leading_slashes_unique(rest, k - 1);
    }
}

/// What is answered to a request for the file `path` of the front end.
pub fn static_handler(path: &str, canonical: Option<&str>, base: Option<&str>, is_file: bool) -> (r:
    StaticDecision)
    ensures
        r == static_decision(path@, opt_text_view(canonical), opt_text_view(base), is_file),
        r == StaticDecision::Serve ==> canonical is Some && base is Some && path_within(
            canonical->0@,
            base->0@,
        ) && is_file,
{
    proof {
        reveal_strlit("");
    }
    if same_text(path, "") || same_text(path, "index.html") {
        return StaticDecision::Index;
    }
    proof {
        if path@.len() == 0 {
            assert(path@ =~= ""@);
        }
    }
    let chars = chars_of(path);
    let names_file = has_char(&chars, '.');
    let resolved = match canonical {
        Some(c) => c,
        None => {
            return if names_file {
                StaticDecision::NotFound
            } else {
                StaticDecision::Index
            };
        },
    };
    let root = match base {
        Some(b) => b,
        None => {
            return StaticDecision::ServerError;
        },
    };
    if !is_path_within(resolved, root) {
        return StaticDecision::Forbidden;
    }
    if !is_file {
        return if names_file {
            StaticDecision::NotFound
        } else {
            StaticDecision::Index
        };
    }
    StaticDecision::Serve
}

} // verus!
