//! The proxy address as a `url::Url`: the settings decide whether there is a
//! proxy and which credentials it carries; the `url` crate parses the address
//! and percent-encodes the credentials. Between the calls the URL travels as
//! its serialization.
use vstd::prelude::*;

use crate::message_text::decimal;
use crate::settings::{proxy_scheme, proxy_validation_error, GlobalProxySettings};
use crate::text::trim_spec;

verus! {

#[verifier::external_type_specification]
#[verifier::external_body]
pub struct ExUrl(url::Url);

/// What `url::Url::parse` gives for a text: the serialization of the parsed
/// URL, or the text of the parse error.
pub uninterp spec fn parsed_url(input: Seq<char>) -> Result<Seq<char>, Seq<char>>;

/// The serialization of a URL, as `url::Url::as_str` gives it.
pub uninterp spec fn url_text(u: url::Url) -> Seq<char>;

/// What `url::Url::set_username` gives on the URL parsed from `url`: the new
/// serialization, or `None` when parsing or setting the user name is refused.
pub uninterp spec fn url_with_username(url: Seq<char>, username: Seq<char>) -> Option<Seq<char>>;

/// What `url::Url::set_password` gives on the URL parsed from `url`: the new
/// serialization, or `None` when parsing or setting the password is refused.
pub uninterp spec fn url_with_password(url: Seq<char>, password: Seq<char>) -> Option<Seq<char>>;

/// `url::Url::parse`. The result is named `parsed_url` of the input: the URL
/// with its serialization (`Url::as_str`, named `url_text` of the URL), or
/// the parse error's text. The crate keeps the invariant that parsing a
/// serialization gives it back (`Url::check_invariants`), so a serialization
/// parses to itself.
#[verifier::external_body]
fn parse_url(input: &str) -> (r: Result<(url::Url, String), String>)
    ensures
        match r {
            Ok((u, t)) => parsed_url(input@) == Ok::<Seq<char>, Seq<char>>(t@) && parsed_url(t@) == Ok::<
                Seq<char>,
                Seq<char>,
            >(t@) && url_text(u) == t@,
            Err(e) => parsed_url(input@) == Err::<Seq<char>, Seq<char>>(e@),
        },
{
    match url::Url::parse(input) {
        Ok(u) => {
            let text = u.as_str().to_owned();
            Ok((u, text))
        },
        Err(e) => Err(e.to_string()),
    }
}

/// `url::Url::set_username` on the URL written `url_text`. The result is
/// named `url_with_username`. The new serialization inserts the
/// percent-encoded user name (at most three bytes per byte) and an `@`, so it
/// has at most `4 * s + 12 * u + 1` characters for a parsed serialization of
/// `s` characters and a user name of `u`; it is a serialization, so it parses
/// to itself. The crate panics when a serialization outgrows `u32`, which the
/// `requires` rules out.
#[verifier::external_body]
fn set_url_username(url_text: &str, username: &str) -> (r: Option<String>)
    requires
        parsed_url(url_text@) matches Ok(s) ==> 4 * s.len() + 12 * username@.len() + 1 <= u32::MAX,
    ensures
        match r {
            Some(t) => url_with_username(url_text@, username@) == Some(t@) && parsed_url(t@) == Ok::<
                Seq<char>,
                Seq<char>,
            >(t@) && (parsed_url(url_text@) matches Ok(s) && t@.len() <= 4 * s.len() + 12
                * username@.len() + 1),
            None => url_with_username(url_text@, username@) is None,
        },
{
    let mut url = url::Url::parse(url_text).ok()?;
    url.set_username(username).ok()?;
    Some(url.into())
}

/// `url::Url::set_password` with a password, on the URL written `url_text`.
/// The result is named `url_with_password`; it is a serialization, so it
/// parses to itself. The crate panics when a serialization outgrows `u32`,
/// which the `requires` rules out.
#[verifier::external_body]
fn set_url_password(url_text: &str, password: &str) -> (r: Option<String>)
    requires
        parsed_url(url_text@) matches Ok(s) ==> 4 * s.len() + 12 * password@.len() + 2 <= u32::MAX,
    ensures
        match r {
            Some(t) => url_with_password(url_text@, password@) == Some(t@) && parsed_url(t@) == Ok::<
                Seq<char>,
                Seq<char>,
            >(t@),
            None => url_with_password(url_text@, password@) is None,
        },
{
    let mut url = url::Url::parse(url_text).ok()?;
    url.set_password(Some(password)).ok()?;
    Some(url.into())
}

/// The address before credentials: `scheme://host:port`, the host trimmed.
pub open spec fn proxy_base_text(p: GlobalProxySettings) -> Seq<char> {
    proxy_scheme(p.proxy_type) + "://"@ + trim_spec(p.host@) + ":"@ + decimal(p.port as nat)
}

/// The address with the password, if one is given.
pub open spec fn with_password_outcome(url: Seq<char>, password: Seq<char>) -> Result<
    Option<Seq<char>>,
    Seq<char>,
> {
    if password.len() > 0 {
        match url_with_password(url, password) {
            Some(t) => Ok(Some(t)),
            None => Err("代理密码格式不正确"@),
        }
    } else {
        Ok(Some(url))
    }
}

/// The proxy address of the settings: `None` when the proxy is disabled; the
/// validation message; else the parsed base address, then the trimmed user
/// name unless it is blank, then the password unless it is empty, each step
/// failing with its own message.
pub open spec fn proxy_url_outcome(p: GlobalProxySettings) -> Result<Option<Seq<char>>, Seq<char>> {
    if !p.enabled {
        Ok(None)
    } else if proxy_validation_error(p) is Some {
        Err(proxy_validation_error(p)->0)
    } else {
        match parsed_url(proxy_base_text(p)) {
            Err(msg) => Err("代理地址格式不正确: "@ + msg),
            Ok(s0) => if trim_spec(p.username@).len() > 0 {
                match url_with_username(s0, trim_spec(p.username@)) {
                    Some(s1) => with_password_outcome(s1, p.password@),
                    None => Err("代理用户名格式不正确"@),
                }
            } else {
                with_password_outcome(s0, p.password@)
            },
        }
    }
}

/// The credentials fit the `url` crate's limit on a serialization's size
/// (`u32`), counted on the parsed base address.
pub open spec fn proxy_url_fits(p: GlobalProxySettings) -> bool {
    p.enabled && proxy_validation_error(p) is None ==> (parsed_url(proxy_base_text(p)) matches Ok(s0)
        ==> 16 * s0.len() + 48 * trim_spec(p.username@).len() + 12 * p.password@.len() + 6
        <= u32::MAX)
}

impl GlobalProxySettings {
    /// The proxy address as text: `Ok(None)` when disabled, the validation
    /// message, or the address built by the `url` crate from the base
    /// address and the credentials, with the messages of the step that
    /// refused.
    pub fn proxy_url_text(&self) -> (r: Result<Option<String>, String>)
        requires
            proxy_url_fits(*self),
        ensures
            match r {
                Ok(Some(t)) => proxy_url_outcome(*self) == Ok::<Option<Seq<char>>, Seq<char>>(Some(t@)),
                Ok(None) => proxy_url_outcome(*self) == Ok::<Option<Seq<char>>, Seq<char>>(None),
                Err(e) => proxy_url_outcome(*self) == Err::<Option<Seq<char>>, Seq<char>>(e@),
            },
            r matches Ok(Some(t)) ==> parsed_url(t@) == Ok::<Seq<char>, Seq<char>>(t@),
    {
        let base = match self.proxy_url_base() {
            Err(e) => return Err(e),
            Ok(None) => return Ok(None),
            Ok(Some(base)) => base,
        };
        let s0 = match parse_url(base.as_str()) {
            Err(msg) => {
                let mut e = "代理地址格式不正确: ".to_owned();
                e.append(msg.as_str());
                return Err(e);
            },
            Ok((_, text)) => text,
        };
        let (username, password) = self.proxy_credentials();
        let s1 = match username {
            Some(user) => match set_url_username(s0.as_str(), user.as_str()) {
                Some(t) => t,
                None => return Err("代理用户名格式不正确".to_owned()),
            },
            None => s0,
        };
        match password {
            Some(password) => match set_url_password(s1.as_str(), password.as_str()) {
                Some(t) => Ok(Some(t)),
                None => Err("代理密码格式不正确".to_owned()),
            },
            None => Ok(Some(s1)),
        }
    }

    /// The proxy URL of the settings: `None` when the proxy is disabled, the
    /// validation message when the settings are incomplete, the message of
    /// the `url` step that refused, else the URL whose text `proxy_url_text`
    /// writes.
    pub fn to_proxy_url(&self) -> (r: Result<Option<url::Url>, String>)
        requires
            proxy_url_fits(*self),
        ensures
            match r {
                Ok(Some(u)) => proxy_url_outcome(*self) == Ok::<Option<Seq<char>>, Seq<char>>(Some(url_text(u))),
                Ok(None) => proxy_url_outcome(*self) == Ok::<Option<Seq<char>>, Seq<char>>(None),
                Err(e) => proxy_url_outcome(*self) == Err::<Option<Seq<char>>, Seq<char>>(e@),
            },
    {
        match self.proxy_url_text() {
            Err(e) => Err(e),
            Ok(None) => Ok(None),
            Ok(Some(text)) => match parse_url(text.as_str()) {
                Ok((url, _)) => Ok(Some(url)),
                Err(msg) => {
                    let mut e = "代理地址格式不正确: ".to_owned();
                    e.append(msg.as_str());
                    Err(e)
                },
            },
        }
    }

    /// `to_proxy_url` where the credentials fit the `url` crate's size limit;
    /// `None` where they do not, and the crate would panic.
    pub fn try_to_proxy_url(&self) -> (r: Option<Result<Option<url::Url>, String>>)
        ensures
            r is Some <==> proxy_url_fits(*self),
            r matches Some(x) ==> match x {
                Ok(Some(u)) => proxy_url_outcome(*self) == Ok::<Option<Seq<char>>, Seq<char>>(Some(url_text(u))),
                Ok(None) => proxy_url_outcome(*self) == Ok::<Option<Seq<char>>, Seq<char>>(None),
                Err(e) => proxy_url_outcome(*self) == Err::<Option<Seq<char>>, Seq<char>>(e@),
            },
    {
        let fits = match self.proxy_url_base() {
            Ok(Some(base)) => match parse_url(base.as_str()) {
                Ok((_, s0)) => {
                    let (username, _) = self.proxy_credentials();
                    let u: u64 = match &username {
                        Some(user) => user.unicode_len() as u64,
                        None => 0,
                    };
                    let p = self.password.unicode_len() as u64;
                    let s = s0.unicode_len() as u64;
                    s <= 0x1000_0000 && u <= 0x0800_0000 && p <= 0x2000_0000 && 16 * s + 48 * u + 12 * p
                        + 6 <= 0xffff_ffff
                },
                Err(_) => true,
            },
            _ => true,
        };
        if fits {
            Some(self.to_proxy_url())
        } else {
            None
        }
    }
}

} // verus!
