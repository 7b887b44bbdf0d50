//! Where webhook alerts go.
use vstd::prelude::*;
use crate::text::{chars_of, contains_seq, has_substring, occurs_at};

verus! {

/// The kind of service a webhook URL points at, which decides the payload sent.
#[derive(Debug, Clone, Copy, PartialEq, Eq, Structural)]
pub enum WebhookKind {
    /// Discord: the message goes in a `content` field.
    Discord,
    /// Telegram: the message goes in a `text` field, as Markdown.
    Telegram,
    /// Any other service: the message goes in a `text` field.
    Generic,
}

/// The service of a webhook URL: Discord when it mentions `discord`,
/// Telegram when it mentions `api.telegram.org`, otherwise a generic hook.
pub open spec fn webhook_kind_of(url: Seq<char>) -> WebhookKind {
    if has_substring(url, "discord"@) {
        WebhookKind::Discord
    } else if has_substring(url, "api.telegram.org"@) {
        WebhookKind::Telegram
    } else {
        WebhookKind::Generic
    }
}

/// Detects the service of a webhook URL (see `webhook_kind_of`).
pub fn webhook_kind(url: &str) -> (r: WebhookKind)
    ensures
        r == webhook_kind_of(url@),
        has_substring(url@, "discord"@) ==> r == WebhookKind::Discord,
        !has_substring(url@, "discord"@) && has_substring(url@, "api.telegram.org"@) ==> r
            == WebhookKind::Telegram,
        !has_substring(url@, "discord"@) && !has_substring(url@, "api.telegram.org"@) ==> r
            == WebhookKind::Generic,
{
    let u = chars_of(url);
    if contains_seq(&u, &chars_of("discord")) {
        WebhookKind::Discord
    } else if contains_seq(&u, &chars_of("api.telegram.org")) {
        WebhookKind::Telegram
    } else {
        WebhookKind::Generic
    }
}

/// Any URL in which the text `discord` occurs is a Discord hook.
pub proof fn lemma_discord_urls(url: Seq<char>, i: int)
    requires
        0 <= i,
        i + 7 <= url.len(),
        url.subrange(i, i + 7) == "discord"@,
    ensures
        webhook_kind_of(url) == WebhookKind::Discord,
{
    reveal_strlit("discord");
    assert(occurs_at(url, "discord"@, i));
}

/// A URL is a Telegram hook exactly when it mentions `api.telegram.org` and
/// not `discord`; every URL mentioning neither is a generic hook.
pub proof fn lemma_webhook_kinds(url: Seq<char>)
    ensures
        (webhook_kind_of(url) == WebhookKind::Discord) <==> has_substring(url, "discord"@),
        (webhook_kind_of(url) == WebhookKind::Telegram) <==> (!has_substring(url, "discord"@)
            && has_substring(url, "api.telegram.org"@)),
        (webhook_kind_of(url) == WebhookKind::Generic) <==> (!has_substring(url, "discord"@)
            && !has_substring(url, "api.telegram.org"@)),
{
}

} // verus!
