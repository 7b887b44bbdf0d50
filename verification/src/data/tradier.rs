//! Reading Tradier replies.
use vstd::prelude::*;
use crate::text::{chars_of, same_chars};
use crate::types::OptionType;

verus! {

/// A reply field that Tradier sends as one value or as a list of values.
pub enum OneOrMany<T> {
    One(T),
    Many(Vec<T>),
}

impl<T> OneOrMany<T> {
    /// The values as a list.
    pub fn into_vec(self) -> (r: Vec<T>)
        ensures
            r@ == (match self {
                OneOrMany::One(item) => seq![item],
                OneOrMany::Many(items) => items@,
            }),
    {
        match self {
            OneOrMany::One(item) => {
                let mut v = Vec::new();
                v.push(item);
                v
            },
            OneOrMany::Many(items) => items,
        }
    }
}

/// The option type named in a Tradier contract: `call` or `put`.
pub open spec fn tradier_option_type(text: Seq<char>) -> Option<OptionType> {
    if text == "call"@ {
        Some(OptionType::Call)
    } else if text == "put"@ {
        Some(OptionType::Put)
    } else {
        None
    }
}

/// Reads the option type of a Tradier contract; other values mark a contract
/// that is skipped.
pub fn parse_option_type(text: &str) -> (r: Option<OptionType>)
    ensures
        r == tradier_option_type(text@),
        text@ == "call"@ ==> r == Some(OptionType::Call),
        text@ == "put"@ ==> r == Some(OptionType::Put),
        text@ != "call"@ && text@ != "put"@ ==> r is None,
{
    proof {
        reveal_strlit("call");
        reveal_strlit("put");
        assert("call"@.len() != "put"@.len());
    }
    let t = chars_of(text);
    if same_chars(&t, &chars_of("call")) {
        Some(OptionType::Call)
    } else if same_chars(&t, &chars_of("put")) {
        Some(OptionType::Put)
    } else {
        None
    }
}

/// The Tradier host for live or sandbox accounts.
pub open spec fn tradier_base_url(sandbox: bool) -> Seq<char> {
    if sandbox {
        "https://sandbox.tradier.com"@
    } else {
        "https://api.tradier.com"@
    }
}

/// The Tradier host to call.
pub fn base_url(sandbox: bool) -> (r: String)
    ensures
        r@ == tradier_base_url(sandbox),
        sandbox ==> r@ == "https://sandbox.tradier.com"@,
        !sandbox ==> r@ == "https://api.tradier.com"@,
{
    if sandbox {
        String::from_str("https://sandbox.tradier.com")
    } else {
        String::from_str("https://api.tradier.com")
    }
}

} // verus!
