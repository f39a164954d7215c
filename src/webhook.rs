//! Messages from the game on their way to the chat platform's webhook: the
//! text with the platform's markup neutralised, the sender's name kept from
//! pinging the platform's own name, and the sender's avatar.
use vstd::prelude::*;
use vstd::string::*;

use crate::format::push_char;

verus! {

broadcast use vstd::string::axiom_spec_iter;

#[verifier::external_type_specification]
#[verifier::external_body]
pub struct ExRegex(regex::Regex);

/// The class of markup characters that the platform interprets.
pub const FORMATTING_PATTERN: &'static str = r"([\\_`*>|-~\[\]()#])";

/// The platform's name, in any case, with its groups around the `i`.
pub const PLATFORM_NAME_PATTERN: &'static str = "(?i)(d)(i)(scord)";

/// Where the avatar of a player is served, by the simple form of their id.
pub const AVATAR_BASE: &'static str = "https://minotar.net/helm/";

/// The two patterns the webhook text goes through, compiled once.
pub struct ChatEscaper {
    formatting: regex::Regex,
    platform_name: regex::Regex,
}

/// What the webhook is asked to post.
#[derive(Debug)]
pub struct WebhookPost {
    pub content: String,
    pub username: String,
    pub avatar_url: Option<String>,
}

/// Whether the platform reads `c` as markup.
pub open spec fn is_markup(c: char) -> bool {
    c == '\\' || c == '_' || c == '`' || c == '*' || c == '>' || ('|' <= c && c <= '~') || c == '['
        || c == ']' || c == '(' || c == ')' || c == '#'
}

/// `s` with a backslash before each character that satisfies `hit`.
pub open spec fn backslash_before(s: Seq<char>, hit: spec_fn(char) -> bool) -> Seq<char>
    decreases s.len(),
{
    if s.len() == 0 {
        Seq::empty()
    } else {
        backslash_before(s.drop_last(), hit) + if hit(s.last()) {
            seq!['\\', s.last()]
        } else {
            seq![s.last()]
        }
    }
}

/// `s` with its markup characters escaped.
pub open spec fn markup_escaped(s: Seq<char>) -> Seq<char> {
    backslash_before(s, |c: char| is_markup(c))
}

/// `s` with its colons escaped, so that the platform embeds no link.
pub open spec fn colons_escaped(s: Seq<char>) -> Seq<char> {
    backslash_before(s, |c: char| c == ':')
}

/// `s` with every occurrence of the platform's name, in any case, given an
/// inverted exclamation mark in place of its `i`.
pub uninterp spec fn platform_name_masked(s: Seq<char>) -> Seq<char>;

/// The digit for `n`, lower case.
pub open spec fn hex_digit(n: u128) -> char {
    "0123456789abcdef"@[n as int]
}

/// The 32 lower-case hexadecimal digits of `id`, most significant first.
pub open spec fn simple_hex(id: u128) -> Seq<char> {
    Seq::new(32, |i: int| hex_digit((id >> ((124 - 4 * i) as u128)) & 0xf))
}

/// The content of a post: markup escaped, and colons too unless links may embed.
pub open spec fn post_content(content: Seq<char>, embed_url: bool) -> Seq<char> {
    if embed_url {
        markup_escaped(content)
    } else {
        colons_escaped(markup_escaped(content))
    }
}

/// Relies on `regex::Regex::new`: compiles `pattern`; whether it succeeds is
/// not stated.
#[verifier::external_body]
fn compile(pattern: &str) -> (r: Option<regex::Regex>) {
    regex::Regex::new(pattern).ok()
}

/// Relies on `regex::Regex::replace_all` with the formatting pattern, which
/// matches one markup character, and the replacement `\$1`: every markup
/// character gets a backslash before it. The regex is the one that
/// `ChatEscaper::new`, the only constructor, compiled from `FORMATTING_PATTERN`.
#[verifier::external_body]
fn replace_markup(escaper: &ChatEscaper, text: &str) -> (r: String)
    ensures
        r@ == markup_escaped(text@),
{
    escaper.formatting.replace_all(text, "\\$1").into_owned()
}

/// Relies on `regex::Regex::replace_all` with the platform-name pattern and
/// the replacement `$1¡$3`; the result depends on the text alone, since the
/// regex is the one that `ChatEscaper::new`, the only constructor, compiled
/// from `PLATFORM_NAME_PATTERN`.
#[verifier::external_body]
fn replace_platform_name(escaper: &ChatEscaper, text: &str) -> (r: String)
    ensures
        r@ == platform_name_masked(text@),
{
    escaper.platform_name.replace_all(text, "$1¡$3").into_owned()
}

/// Relies on `uuid::Uuid::from_u128` and the `Simple` formatter: 32 lower-case
/// hexadecimal digits of the id, most significant first.
#[verifier::external_body]
fn uuid_simple(id: u128) -> (r: String)
    ensures
        r@ == simple_hex(id),
{
    uuid::Uuid::from_u128(id).simple().to_string()
}

/// `text` with a backslash before each colon.
pub fn escape_colons(text: &str) -> (r: String)
    ensures
        r@ == colons_escaped(text@),
{
    let mut out = String::new();
    for c in it: text.chars()
        invariant
            it.seq() == text@,
            out@ == colons_escaped(text@.take(it.index() as int)),
    {
        let ghost i = it.index() as int;
        if c == ':' {
            push_char(&mut out, '\\');
        }
        push_char(&mut out, c);
        proof {
            assert(text@.take(i + 1).drop_last() =~= text@.take(i));
            assert(out@ =~= colons_escaped(text@.take(i + 1)));
        }
    }
    proof {
        assert(text@.take(text@.len() as int) =~= text@);
    }
    out
}

/// The avatar address of the player with id `id`.
pub fn avatar_url(id: u128) -> (r: String)
    ensures
        r@ == AVATAR_BASE@ + simple_hex(id),
{
    let mut url = String::new();
    url.append(AVATAR_BASE);
    let digits = uuid_simple(id);
    url.append(digits.as_str());
    url
}

impl ChatEscaper {
    /// Compiles the two patterns; `None` if the regex engine refuses one.
    pub fn new() -> (r: Option<ChatEscaper>) {
        let formatting = match compile(FORMATTING_PATTERN) {
            Some(re) => re,
            None => return None,
        };
        let platform_name = match compile(PLATFORM_NAME_PATTERN) {
            Some(re) => re,
            None => return None,
        };
        Some(ChatEscaper { formatting, platform_name })
    }

    /// The post for a message from the game: `content` by `sender_name`,
    /// whose player id, if known, gives the avatar.
    pub fn webhook_post(
        &self,
        embed_url: bool,
        sender_name: &str,
        sender_id: Option<u128>,
        content: &str,
    ) -> (r: WebhookPost)
        ensures
            r.content@ == post_content(content@, embed_url),
            r.username@ == platform_name_masked(sender_name@),
            r.avatar_url is Some <==> sender_id is Some,
            r.avatar_url matches Some(url) ==> url@ == AVATAR_BASE@ + simple_hex(sender_id->0),
    {
        let escaped = replace_markup(self, content);
        let content = if embed_url {
            escaped
        } else {
            escape_colons(escaped.as_str())
        };
        let username = replace_platform_name(self, sender_name);
        let avatar_url = match sender_id {
            Some(id) => Some(avatar_url(id)),
            None => None,
        };
        WebhookPost { content, username, avatar_url }
    }
}

} // verus!
