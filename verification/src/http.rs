//! The parts of an HTTP address that an outgoing request is built from.

use vstd::prelude::*;
use crate::text::{chars_of, copy_range, starts_with_exec, string_of};

verus! {

/// An HTTP address taken apart.
pub struct UrlParts {
    /// `https` rather than `http`.
    pub secure: bool,
    /// Host and port, between `://` and the first `/` after it.
    pub authority: String,
    /// The rest, from that `/` on (`/` where there is nothing).
    pub path_with_query: String,
}

/// What follows the scheme of an `http://` or `https://` address, and
/// whether it is `https`.
pub open spec fn after_scheme(url: Seq<char>) -> Option<(bool, Seq<char>)> {
    if "https://"@.is_prefix_of(url) {
        Some((true, url.skip(8)))
    } else if "http://"@.is_prefix_of(url) {
        Some((false, url.skip(7)))
    } else {
        None
    }
}

/// `k` is where the authority of `rest` ends: the first `/`, or the end.
pub open spec fn authority_end(rest: Seq<char>, k: int) -> bool {
    &&& 0 <= k <= rest.len()
    &&& forall|j: int| 0 <= j < k ==> rest[j] != '/'
    &&& (k == rest.len() || rest[k] == '/')
}

/// `parts` is `url` taken apart.
pub open spec fn is_split_of(url: Seq<char>, parts: UrlParts) -> bool {
    &&& after_scheme(url) is Some
    &&& {
        let (secure, rest) = after_scheme(url).unwrap();
        let k = parts.authority@.len() as int;
        &&& parts.secure == secure
        &&& authority_end(rest, k)
        &&& parts.authority@ == rest.take(k)
        &&& parts.path_with_query@ == if k == rest.len() { "/"@ } else { rest.skip(k) }
    }
}

/// An `http://` or `https://` address taken apart; `None` for any other.
pub fn split_url(url: &str) -> (r: Option<UrlParts>)
    ensures
        r is Some <==> after_scheme(url@) is Some,
        r matches Some(parts) ==> is_split_of(url@, parts),
{
    proof {
        reveal_strlit("https://");
        reveal_strlit("http://");
    }
    let u = chars_of(url);
    let https = chars_of("https://");
    let http = chars_of("http://");
    let (secure, start) = if starts_with_exec(&u, &https) {
        (true, 8usize)
    } else if starts_with_exec(&u, &http) {
        (false, 7usize)
    } else {
        return None;
    };
    let ghost rest = u@.skip(start as int);
    let mut k = start;
    while k < u.len() && u[k] != '/'
        invariant
            start <= k <= u.len(),
            rest == u@.skip(start as int),
            forall|j: int| 0 <= j < k - start ==> rest[j] != '/',
        decreases u.len() - k,
    {
        k += 1;
    }
    let authority = copy_range(&u, start, k);
    let path = if k == u.len() {
        "/".to_owned()
    } else {
        string_of(&copy_range(&u, k, u.len()))
    };
    assert(authority@ =~= rest.take(k - start));
    if k < u.len() {
        assert(u@.subrange(k as int, u.len() as int) =~= rest.skip(k - start));
    }
    Some(UrlParts { secure, authority: string_of(&authority), path_with_query: path })
}

} // verus!
