//! In-app navigation allowlist: `*.whatsapp.com` and `*.whatsapp.net`,
//! https only; everything else belongs in the system browser.
use vstd::prelude::*;

use crate::text::chars_of;

verus! {

/// The parts of a URL that the link policy reads.
#[derive(Clone, Debug)]
pub struct UrlParts {
    /// The scheme, lower case, without `:`.
    pub scheme: String,
    /// The host as serialized by the URL parser, if the URL has one.
    pub host: Option<String>,
    /// The path, starting with `/` for URLs with a host.
    pub path: String,
}

pub struct UrlPartsView {
    pub scheme: Seq<char>,
    pub host: Option<Seq<char>>,
    pub path: Seq<char>,
}

impl View for UrlParts {
    type V = UrlPartsView;

    open spec fn view(&self) -> UrlPartsView {
        UrlPartsView {
            scheme: self.scheme@,
            host: match self.host {
                Some(h) => Some(h@),
                None => None,
            },
            path: self.path@,
        }
    }
}

/// Scheme, host and path of `text` as the WHATWG URL parser of the `url`
/// crate gives them, or `None` when `text` is not a valid URL.
pub uninterp spec fn url_parts(text: Seq<char>) -> Option<(Seq<char>, Option<Seq<char>>, Seq<char>)>;

pub open spec fn parts_tuple(u: UrlPartsView) -> (Seq<char>, Option<Seq<char>>, Seq<char>) {
    (u.scheme, u.host, u.path)
}

pub open spec fn parsed_view(r: Option<UrlParts>) -> Option<(Seq<char>, Option<Seq<char>>, Seq<char>)> {
    match r {
        None => None,
        Some(u) => Some(parts_tuple(u@)),
    }
}

/// `url::Url::parse`, then `scheme()`, `host_str()` and `path()` copied out.
/// The contract claims only that the result is the one named by `url_parts`
/// for this text.
#[verifier::external_body]
fn parse_url(text: &str) -> (r: Option<UrlParts>)
    ensures
        parsed_view(r) == url_parts(text@),
{
    let u = url::Url::parse(text).ok()?;
    Some(
        UrlParts {
            scheme: u.scheme().to_string(),
            host: u.host_str().map(|h| h.to_string()),
            path: u.path().to_string(),
        },
    )
}

impl UrlParts {
    /// Parses `text` as a URL; `None` when it is not one.
    pub fn parse(text: &str) -> (r: Option<UrlParts>)
        ensures
            parsed_view(r) == url_parts(text@),
    {
        parse_url(text)
    }
}

/// `suffix` ends `s`.
pub open spec fn ends_with(s: Seq<char>, suffix: Seq<char>) -> bool {
    suffix.len() <= s.len() && s.subrange(s.len() - suffix.len(), s.len() as int) == suffix
}

/// A WhatsApp host: `whatsapp.com`, `whatsapp.net`, or a subdomain of either.
pub open spec fn is_whatsapp_host(h: Seq<char>) -> bool {
    ||| h == "whatsapp.com"@
    ||| ends_with(h, ".whatsapp.com"@)
    ||| h == "whatsapp.net"@
    ||| ends_with(h, ".whatsapp.net"@)
}

/// Stays in the app: https to a WhatsApp host.
pub open spec fn internal_url(u: UrlPartsView) -> bool {
    u.scheme == "https"@ && match u.host {
        Some(h) => is_whatsapp_host(h),
        None => false,
    }
}

/// The "browser not supported" page.
pub open spec fn browser_wall_url(u: UrlPartsView) -> bool {
    internal_url(u) && u.path == "/browsers.html"@
}

fn ends_with_exec(s: &Vec<char>, suffix: &Vec<char>) -> (b: bool)
    ensures
        b == ends_with(s@, suffix@),
{
    if suffix.len() > s.len() {
        return false;
    }
    let off = s.len() - suffix.len();
    let ghost tail = s@.subrange(off as int, s@.len() as int);
    let mut i: usize = 0;
    while i < suffix.len()
        invariant
            off + suffix.len() == s.len(),
            tail == s@.subrange(off as int, s@.len() as int),
            i <= suffix.len(),
            forall|j: int| 0 <= j < i ==> tail[j] == suffix@[j],
        decreases suffix.len() - i,
    {
        if s[off + i] != suffix[i] {
            assert(tail[i as int] != suffix@[i as int]);
            return false;
        }
        i = i + 1;
    }
    assert(tail =~= suffix@);
    true
}

fn is_whatsapp_host_exec(h: &String) -> (b: bool)
    ensures
        b == is_whatsapp_host(h@),
{
    let s = chars_of(h.as_str());
    let com = chars_of(".whatsapp.com");
    let net = chars_of(".whatsapp.net");
    *h == String::from_str("whatsapp.com") || ends_with_exec(&s, &com) || *h == String::from_str(
        "whatsapp.net",
    ) || ends_with_exec(&s, &net)
}

/// In-app navigation allowlist: `*.whatsapp.com` / `*.whatsapp.net`, https
/// only. Look-alike hosts such as `evil-whatsapp.com` are external.
pub fn is_internal(url: &UrlParts) -> (b: bool)
    ensures
        b == internal_url(url@),
{
    if url.scheme != String::from_str("https") {
        return false;
    }
    match &url.host {
        Some(h) => is_whatsapp_host_exec(h),
        None => false,
    }
}

/// The "browser not supported" wall that WhatsApp serves to user agents it
/// rejects.
pub fn is_browser_wall(url: &UrlParts) -> (b: bool)
    ensures
        b == browser_wall_url(url@),
{
    is_internal(url) && url.path == String::from_str("/browsers.html")
}

/// Where a navigation goes.
#[derive(Clone, Copy, Debug, PartialEq, Eq)]
pub enum NavigationPolicy {
    /// The unsupported-browser page: shown, and the user is told why.
    BrowserWall,
    /// A WhatsApp page: shown in the app.
    Internal,
    /// Anything else: handed to the system browser, not shown in the app.
    External,
}

/// The policy for a navigation to `url`.
pub fn navigation_policy(url: &UrlParts) -> (p: NavigationPolicy)
    ensures
        p == (if browser_wall_url(url@) {
            NavigationPolicy::BrowserWall
        } else if internal_url(url@) {
            NavigationPolicy::Internal
        } else {
            NavigationPolicy::External
        }),
{
    if is_browser_wall(url) {
        NavigationPolicy::BrowserWall
    } else if is_internal(url) {
        NavigationPolicy::Internal
    } else {
        NavigationPolicy::External
    }
}

/// Nothing but https reaches the app, and the browser wall is a WhatsApp
/// page: a plain-http or foreign URL is always handed to the system browser.
pub proof fn lemma_only_https_whatsapp_stays(u: UrlPartsView)
    ensures
        internal_url(u) ==> u.scheme == "https"@,
        internal_url(u) ==> (u.host matches Some(h) && is_whatsapp_host(h)),
        browser_wall_url(u) ==> internal_url(u),
        u.host is None ==> !internal_url(u),
{
}

/// Exactly https links to `whatsapp.com`, `whatsapp.net` or a host ending
/// in `.whatsapp.com` / `.whatsapp.net` stay in the app; look-alikes such as
/// `evil-whatsapp.com` or `whatsapp.com.evil.com` do not. The browser wall
/// is such a link whose path is `/browsers.html`.
pub proof fn lemma_internal_exactly(u: UrlPartsView)
    ensures
        internal_url(u) <==> u.scheme == "https"@ && (u.host matches Some(h) && (h
            == "whatsapp.com"@ || h == "whatsapp.net"@ || (h.len() >= 13 && h.subrange(
            h.len() - 13,
            h.len() as int,
        ) == ".whatsapp.com"@) || (h.len() >= 13 && h.subrange(h.len() - 13, h.len() as int)
            == ".whatsapp.net"@))),
        browser_wall_url(u) <==> internal_url(u) && u.path == "/browsers.html"@,
{
    reveal_strlit(".whatsapp.com");
    reveal_strlit(".whatsapp.net");
    assert(".whatsapp.com"@.len() == 13);
    assert(".whatsapp.net"@.len() == 13);
}

} // verus!
