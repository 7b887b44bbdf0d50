//! Signing Yahoo Finance requests.
use vstd::prelude::*;
use crate::text::{
    chars_of, contains_seq, has_substring, lemma_trim_end_keeps_start, lemma_trim_start_idempotent, string_of,
    trim, trim_end, trim_start, trimmed,
};

verus! {

/// The crumb a sign-in reply yields: its trimmed text, unless that is empty
/// or mentions an error.
pub open spec fn crumb_of(reply: Seq<char>) -> Option<Seq<char>> {
    let c = trim(reply);
    if c.len() == 0 || has_substring(c, "error"@) {
        None
    } else {
        Some(c)
    }
}

/// Reads the crumb from the reply to a crumb request; `None` means sign-in failed.
pub fn valid_crumb(reply: &str) -> (r: Option<String>)
    ensures
        match r {
            Some(c) => crumb_of(reply@) == Some(c@),
            None => crumb_of(reply@) is None,
        },
{
    let c = trimmed(&chars_of(reply));
    if c.len() == 0 || contains_seq(&c, &chars_of("error")) {
        None
    } else {
        Some(string_of(&c))
    }
}

/// A URL with the crumb added as a query parameter.
pub open spec fn signed_url(url: Seq<char>, crumb: Seq<char>) -> Seq<char> {
    url + (if url.contains('?') {
        "&"@
    } else {
        "?"@
    }) + "crumb="@ + crumb
}

/// Adds the crumb to a request URL.
pub fn url_with_crumb(url: &str, crumb: &str) -> (r: String)
    ensures
        r@ == signed_url(url@, crumb@),
        url@.contains('?') ==> r@ == url@ + "&crumb="@ + crumb@,
        !url@.contains('?') ==> r@ == url@ + "?crumb="@ + crumb@,
{
    let chars = chars_of(url);
    let mut has_query = false;
    let mut i: usize = 0;
    while i < chars.len()
        invariant
            i <= chars.len(),
            chars@ == url@,
            has_query == exists|k: int| 0 <= k < i && chars@[k] == '?',
        decreases chars.len() - i,
    {
        if chars[i] == '?' {
            has_query = true;
        }
        i = i + 1;
    }
    let mut r = String::from_str(url);
    if has_query {
        r.append("&");
    } else {
        r.append("?");
    }
    r.append("crumb=");
    r.append(crumb);
    proof {
        reveal_strlit("&");
        reveal_strlit("?");
        reveal_strlit("crumb=");
        reveal_strlit("&crumb=");
        reveal_strlit("?crumb=");
        assert("&"@ + "crumb="@ == "&crumb="@);
        assert("?"@ + "crumb="@ == "?crumb="@);
        assert(url@ + "&"@ + "crumb="@ + crumb@ == url@ + "&crumb="@ + crumb@);
        assert(url@ + "?"@ + "crumb="@ + crumb@ == url@ + "?crumb="@ + crumb@);
    }
    r
}


/// A crumb accepted from a reply is never empty, has no white space at either
/// end, and never mentions an error.
pub proof fn lemma_crumb_well_formed(reply: Seq<char>)
    ensures
        crumb_of(reply) matches Some(c) ==> c.len() > 0 && !has_substring(c, "error"@) && c == trim(c),
{
    lemma_trim_idempotent(reply);
}

proof fn lemma_trim_idempotent(s: Seq<char>)
    ensures
        trim(trim(s)) == trim(s),
{
    let a = trim_start(s);
    lemma_trim_start_idempotent(s);
    lemma_trim_end_keeps_start(a);
    let t = trim_end(a);
    // t starts and ends with non-white-space, so trimming it again changes nothing.
    if t.len() > 0 {
        assert(trim_start(t) == t);
        assert(trim_end(t) == t);
    } else {
        assert(trim_start(t) == t);
        assert(trim_end(t) == t);
    }
}

/// A signed URL starts with the URL it was made from and ends with the crumb.
pub proof fn lemma_signed_url_shape(url: Seq<char>, crumb: Seq<char>)
    ensures
        signed_url(url, crumb).take(url.len() as int) == url,
        signed_url(url, crumb).skip(signed_url(url, crumb).len() - crumb.len()) == crumb,
        signed_url(url, crumb).len() == url.len() + 1 + 6 + crumb.len(),
{
    reveal_strlit("&");
    reveal_strlit("?");
    reveal_strlit("crumb=");
    let sep = if url.contains('?') {
        "&"@
    } else {
        "?"@
    };
    let s = url + sep + "crumb="@ + crumb;
    assert(s.take(url.len() as int) =~= url);
    assert(s.skip(s.len() - crumb.len()) =~= crumb);
}

} // verus!
