//! Which file, if any, is served for a path that the front end asks for.

use vstd::prelude::*;
use crate::text::{is_path_within, path_within, same_text};

verus! {

/// The value of an optional string slice.
pub open spec fn opt_text_view(o: Option<&str>) -> Option<Seq<char>> {
    match o {
        Some(s) => Some(s@),
        None => None,
    }
}

/// What is answered to a request for an image.
#[derive(Debug, Copy, Clone, PartialEq, Eq, Structural)]
pub enum ImageDecision {
    /// The request names no path.
    BadRequest,
    /// The path cannot be resolved, or it leaves the ROM directory.
    Forbidden,
    /// No file stands at the path.
    NotFound,
    /// The file is sent.
    Serve,
}

/// What is answered to a request for the image at `path`. `canonical` and
/// `base` are the resolved forms of the asked file and of the ROM directory,
/// where they can be resolved; `is_file` says whether a file stands at the
/// path. Nothing outside the ROM directory is ever served.
pub open spec fn image_decision(
    path: Seq<char>,
    canonical: Option<Seq<char>>,
    base: Option<Seq<char>>,
    is_file: bool,
) -> ImageDecision {
    if path.len() == 0 {
        ImageDecision::BadRequest
    } else if canonical is None || base is None || !path_within(canonical->0, base->0) {
        ImageDecision::Forbidden
    } else if !is_file {
        ImageDecision::NotFound
    } else {
        ImageDecision::Serve
    }
}

/// What is answered to a request for the image at `path`.
pub fn serve_image(path: &str, canonical: Option<&str>, base: Option<&str>, is_file: bool) -> (r:
    ImageDecision)
    ensures
        r == image_decision(path@, opt_text_view(canonical), opt_text_view(base), is_file),
        r == ImageDecision::Serve ==> canonical is Some && base is Some && path_within(
            canonical->0@,
            base->0@,
        ) && is_file,
{
    if same_text(path, "") {
        proof {
            reveal_strlit("");
        }
        return ImageDecision::BadRequest;
    }
    proof {
        reveal_strlit("");
        if path@.len() == 0 {
            assert(path@ =~= ""@);
        }
    }
    let resolved = match canonical {
        Some(c) => c,
        None => {
            return ImageDecision::Forbidden;
        },
    };
    let root = match base {
        Some(b) => b,
        None => {
            return ImageDecision::Forbidden;
        },
    };
    if !is_path_within(resolved, root) {
        return ImageDecision::Forbidden;
    }
    if !is_file {
        return ImageDecision::NotFound;
    }
    ImageDecision::Serve
}

} // verus!
