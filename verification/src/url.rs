//! A URL of the plain HTTP scheme, cut at fixed delimiters into host, port,
//! path and search part.
//!
//! The cutting follows no general URI grammar. After one leading `http://` is
//! taken off, the first `/` ends the authority, the first `:` of the authority
//! ends the host, and the first `?` after the authority ends the path.

use vstd::prelude::*;
use crate::text::{
    after, after_first, before, before_first, contains, has_infix, lemma_before_first_lacks,
    occurs_at, trim_prefix, without_prefix,
};

verus! {

/// What a [`Url`] holds, as sequences of characters.
pub struct UrlView {
    pub url: Seq<char>,
    pub host: Seq<char>,
    pub port: Seq<char>,
    pub path: Seq<char>,
    pub searchpart: Seq<char>,
}

/// The scheme that a URL must name.
pub const SCHEME: &'static str = "http://";

/// The port of a URL that names none.
pub const DEFAULT_PORT: &'static str = "80";

/// The message of the one error that parsing has.
pub const UNSUPPORTED_SCHEME: &'static str = "Only HTTP scheme is supported";

/// The characters of [`SCHEME`].
pub open spec fn scheme() -> Seq<char> {
    SCHEME@
}

/// The characters of [`DEFAULT_PORT`].
pub open spec fn default_port() -> Seq<char> {
    DEFAULT_PORT@
}

/// The characters of [`UNSUPPORTED_SCHEME`].
pub open spec fn unsupported_scheme() -> Seq<char> {
    UNSUPPORTED_SCHEME@
}

/// `raw` names the HTTP scheme: `http://` stands somewhere in it, not
/// necessarily at its start.
pub open spec fn is_http(raw: Seq<char>) -> bool {
    has_infix(raw, scheme())
}

/// Host and port of `raw`, still joined: what stands between one leading
/// `http://`, if there is one, and the first `/` after it.
pub open spec fn authority(raw: Seq<char>) -> Seq<char> {
    before_first(without_prefix(raw, scheme()), '/')
}

/// What follows the `/` that ends the authority of `raw`, where there is one.
pub open spec fn remainder(raw: Seq<char>) -> Option<Seq<char>> {
    after_first(without_prefix(raw, scheme()), '/')
}

/// The host of `raw`: its authority up to the first `:`.
pub open spec fn host_of(raw: Seq<char>) -> Seq<char> {
    before_first(authority(raw), ':')
}

/// The port of `raw`: what follows the first `:` of its authority, which may
/// be nothing; `80` where the authority holds no `:`.
pub open spec fn port_of(raw: Seq<char>) -> Seq<char> {
    match after_first(authority(raw), ':') {
        Some(port) => port,
        None => default_port(),
    }
}

/// The path of `raw`: its remainder up to the first `?`; empty where the
/// authority ends the URL.
pub open spec fn path_of(raw: Seq<char>) -> Seq<char> {
    match remainder(raw) {
        Some(rest) => before_first(rest, '?'),
        None => Seq::empty(),
    }
}

/// The search part of `raw`: what follows the first `?` of its remainder;
/// empty where there is none.
pub open spec fn searchpart_of(raw: Seq<char>) -> Seq<char> {
    match remainder(raw) {
        Some(rest) => match after_first(rest, '?') {
            Some(search) => search,
            None => Seq::empty(),
        },
        None => Seq::empty(),
    }
}

/// A URL that has not been parsed: only `raw` is set.
pub open spec fn unparsed(raw: Seq<char>) -> UrlView {
    UrlView {
        url: raw,
        host: Seq::empty(),
        port: Seq::empty(),
        path: Seq::empty(),
        searchpart: Seq::empty(),
    }
}

/// A URL that has been parsed: every part is cut from `raw`.
pub open spec fn parsed(raw: Seq<char>) -> UrlView {
    UrlView {
        url: raw,
        host: host_of(raw),
        port: port_of(raw),
        path: path_of(raw),
        searchpart: searchpart_of(raw),
    }
}

/// The state in which parsing leaves a URL that it found in state `v`.
pub open spec fn parse_state(v: UrlView) -> UrlView {
    if is_http(v.url) {
        parsed(v.url)
    } else {
        v
    }
}

/// What parsing returns for a URL that it found in state `v`: the parsed URL,
/// or the message of the error.
pub open spec fn parse_result(v: UrlView) -> Result<UrlView, Seq<char>> {
    if is_http(v.url) {
        Ok(parsed(v.url))
    } else {
        Err(unsupported_scheme())
    }
}

/// What parsing returned, as sequences of characters.
pub open spec fn outcome(res: Result<Url, String>) -> Result<UrlView, Seq<char>> {
    match res {
        Ok(url) => Ok(url@),
        Err(message) => Err(message@),
    }
}

/// A URL text together with the parts that parsing cut from it.
///
/// A URL starts out unparsed: it holds its text, and its parts are empty. A
/// successful [`Url::parse`] fills in the parts; nothing else changes them,
/// and nothing changes the text.
#[derive(Debug, PartialEq)]
pub struct Url {
    url: String,
    host: String,
    port: String,
    path: String,
    searchpart: String,
}

impl View for Url {
    type V = UrlView;

    closed spec fn view(&self) -> UrlView {
        UrlView {
            url: self.url@,
            host: self.host@,
            port: self.port@,
            path: self.path@,
            searchpart: self.searchpart@,
        }
    }
}

impl Url {
    /// A URL is either unparsed, or parsed from a text of the HTTP scheme.
    #[verifier::type_invariant]
    spec fn inv(&self) -> bool {
        self@ == unparsed(self.url@) || (is_http(self.url@) && self@ == parsed(self.url@))
    }

    /// An unparsed URL of the text `url`. Any text is taken.
    pub fn new(url: String) -> (r: Self)
        ensures
            r@ == unparsed(url@),
    {
        Self {
            url,
            host: String::new(),
            port: String::new(),
            path: String::new(),
            searchpart: String::new(),
        }
    }

    /// Cuts the text into its parts, keeps them, and returns a copy of the
    /// URL as it then stands. A text that does not name the HTTP scheme is
    /// refused with the one error message, and the URL stays unparsed.
    pub fn parse(&mut self) -> (res: Result<Url, String>)
        ensures
            res is Ok <==> is_http(old(self)@.url),
            outcome(res) == parse_result(old(self)@),
            final(self)@ == parse_state(old(self)@),
            final(self)@.url == old(self)@.url,
            res is Err ==> final(self)@ == unparsed(old(self)@.url),
    {
        proof {
            use_type_invariant(&*self);
        }
        if !self.is_http() {
            return Err(UNSUPPORTED_SCHEME.to_owned());
        }
        let host = self.extract_host();
        let port = self.extract_port();
        let path = self.extract_path();
        let searchpart = self.extract_searchpart();
        *self = Url { url: self.url.clone(), host, port, path, searchpart };
        Ok(self.clone())
    }

    /// The text that the URL was made of.
    pub fn url(&self) -> (r: String)
        ensures
            r@ == self@.url,
    {
        self.url.clone()
    }

    /// The host, as last parsed; empty before.
    pub fn host(&self) -> (r: String)
        ensures
            r@ == self@.host,
    {
        self.host.clone()
    }

    /// The port, as last parsed; empty before.
    pub fn port(&self) -> (r: String)
        ensures
            r@ == self@.port,
    {
        self.port.clone()
    }

    /// The path, as last parsed; empty before.
    pub fn path(&self) -> (r: String)
        ensures
            r@ == self@.path,
    {
        self.path.clone()
    }

    /// The search part, as last parsed; empty before.
    pub fn searchpart(&self) -> (r: String)
        ensures
            r@ == self@.searchpart,
    {
        self.searchpart.clone()
    }

    /// Whether the text names the HTTP scheme.
    fn is_http(&self) -> (b: bool)
        ensures
            b == is_http(self@.url),
    {
        contains(self.url.as_str(), SCHEME)
    }

    /// Cuts the host from the text.
    fn extract_host(&self) -> (r: String)
        ensures
            r@ == host_of(self@.url),
    {
        let rest = trim_prefix(self.url.as_str(), SCHEME);
        let authority = before(rest, '/');
        before(authority, ':').to_owned()
    }

    /// Cuts the port from the text, or takes the default.
    fn extract_port(&self) -> (r: String)
        ensures
            r@ == port_of(self@.url),
    {
        let rest = trim_prefix(self.url.as_str(), SCHEME);
        let authority = before(rest, '/');
        match after(authority, ':') {
            Some(port) => port.to_owned(),
            None => DEFAULT_PORT.to_owned(),
        }
    }

    /// Cuts the path from the text.
    fn extract_path(&self) -> (r: String)
        ensures
            r@ == path_of(self@.url),
    {
        let rest = trim_prefix(self.url.as_str(), SCHEME);
        match after(rest, '/') {
            Some(path_and_searchpart) => before(path_and_searchpart, '?').to_owned(),
            None => String::new(),
        }
    }

    /// Cuts the search part from the text.
    fn extract_searchpart(&self) -> (r: String)
        ensures
            r@ == searchpart_of(self@.url),
    {
        let rest = trim_prefix(self.url.as_str(), SCHEME);
        match after(rest, '/') {
            Some(path_and_searchpart) => match after(path_and_searchpart, '?') {
                Some(searchpart) => searchpart.to_owned(),
                None => String::new(),
            },
            None => String::new(),
        }
    }
}

impl Clone for Url {
    /// A copy that holds the same text and the same parts.
    fn clone(&self) -> (r: Self)
        ensures
            r@ == self@,
    {
        proof {
            use_type_invariant(self);
        }
        Url {
            url: self.url.clone(),
            host: self.host.clone(),
            port: self.port.clone(),
            path: self.path.clone(),
            searchpart: self.searchpart.clone(),
        }
    }
}

/// Parsing a URL once more changes nothing and returns what it returned
/// before.
pub proof fn lemma_parse_idempotent(v: UrlView)
    ensures
        parse_state(parse_state(v)) == parse_state(v),
        parse_result(parse_state(v)) == parse_result(v),
{
}

/// Putting `https://` before a text that does not name the HTTP scheme gives
/// a text that does not name it either: the `s` keeps `http://` from standing
/// at its start.
pub proof fn lemma_https_is_refused(rest: Seq<char>)
    requires
        !is_http(rest),
    ensures
        !is_http("https://"@ + rest),
{
    reveal_strlit("https://");
    reveal_strlit("http://");
    let text = "https://"@ + rest;
    assert forall|i: int| !occurs_at(text, scheme(), i) by {
        if occurs_at(text, scheme(), i) {
            let found = text.subrange(i, i + 7);
            if i >= 8 {
                assert(rest.subrange(i - 8, i - 8 + 7) =~= found);
                assert(occurs_at(rest, scheme(), i - 8));
            } else {
                assert(found[0] == text[i]);
                assert(found[4] == text[i + 4]);
            }
        }
    }
}

/// No part holds the delimiter that ends it: the host holds neither `:` nor
/// `/`, the port no `/`, the path no `?`.
pub proof fn lemma_parts_lack_delimiters(raw: Seq<char>)
    ensures
        !host_of(raw).contains(':'),
        !host_of(raw).contains('/'),
        !port_of(raw).contains('/'),
        !path_of(raw).contains('?'),
{
    reveal_strlit("80");
    let auth = authority(raw);
    lemma_before_first_lacks(without_prefix(raw, scheme()), '/');
    auth.index_of_first_ensures(':');
    if let Some(rest) = remainder(raw) {
        lemma_before_first_lacks(rest, '?');
    }
}

/// The port is empty just when the first `:` of the authority is its last
/// character: a `:` with nothing behind it names no port, and the default is
/// not put in its place.
pub proof fn lemma_port_empty_iff_colon_last(raw: Seq<char>)
    ensures
        port_of(raw).len() == 0 <==> authority(raw).index_of_first(':') == Some(
            authority(raw).len() - 1,
        ),
{
    reveal_strlit("80");
    authority(raw).index_of_first_ensures(':');
}

} // verus!
