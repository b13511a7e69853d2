//! Web addresses, as the `url` crate reads them.

use vstd::prelude::*;
use vstd::string::*;
use vstd::utf8::encode_utf8;

use crate::error::{because, Error, Fault};
use crate::text::{
    byte_len, bytes_in, chars_of, concat3, opt_view, same, trailing_signs_are_taken, trim_end_char,
    trim_end_of, views,
};

verus! {

/// `url::Url`: an address that was read.
#[verifier::external_type_specification]
#[verifier::external_body]
pub struct ExUrl(url::Url);

/// The address that a text is read as, or the complaint of the reader that it is
/// none.
pub uninterp spec fn parsed_url(text: Seq<char>) -> Result<url::Url, Seq<char>>;

/// How an address is written.
pub uninterp spec fn url_text(url: url::Url) -> Seq<char>;

/// The path of an address.
pub uninterp spec fn url_path(url: url::Url) -> Seq<char>;

/// The query of an address, if it has one.
pub uninterp spec fn url_query(url: url::Url) -> Option<Seq<char>>;

/// The fragment of an address, if it has one.
pub uninterp spec fn url_fragment(url: url::Url) -> Option<Seq<char>>;

/// An address with an empty path in place of its own.
pub uninterp spec fn without_path(url: url::Url) -> url::Url;

/// An address without its query.
pub uninterp spec fn without_query(url: url::Url) -> url::Url;

/// An address without its fragment.
pub uninterp spec fn without_fragment(url: url::Url) -> url::Url;

/// The names and values in the query of an address, decoded.
pub uninterp spec fn url_pairs(url: url::Url) -> Seq<(Seq<char>, Seq<char>)>;

/// An address with further names and values in its query, encoded.
pub uninterp spec fn with_pairs(url: url::Url, pairs: Seq<(Seq<char>, Seq<char>)>) -> url::Url;

/// Names and values, by their views.
pub open spec fn pair_views(pairs: Seq<(String, String)>) -> Seq<(Seq<char>, Seq<char>)> {
    pairs.map_values(|p: (String, String)| (p.0@, p.1@))
}

/// How many bytes a query or a fragment takes together with the sign before it.
pub open spec fn marked_len(part: Option<Seq<char>>) -> nat {
    match part {
        Some(part) => bytes_in(part) + 1,
        None => 0,
    }
}

/// Whether places in an address up to the end of its path can be counted in 32 bits.
pub open spec fn path_is_countable(url: url::Url) -> bool {
    bytes_in(url_text(url)) <= u32::MAX + marked_len(url_query(url)) + marked_len(url_fragment(url))
}

/// How many bytes a byte of a name or a value takes in a query.
pub open spec fn encoded_byte(byte: u8) -> nat {
    if byte == 0x2a || byte == 0x2d || byte == 0x2e || byte == 0x5f || byte == 0x20 || 0x30 <= byte
        <= 0x39 || 0x41 <= byte <= 0x5a || 0x61 <= byte <= 0x7a {
        1
    } else {
        3
    }
}

/// How many bytes some bytes of a name or a value take in a query.
pub open spec fn encoded_len(bytes: Seq<u8>) -> nat
    decreases bytes.len(),
{
    if bytes.len() == 0 {
        0
    } else {
        encoded_len(bytes.drop_last()) + encoded_byte(bytes.last())
    }
}

/// How many bytes names and values take in a query, each with a sign before it.
pub open spec fn room(pairs: Seq<(Seq<char>, Seq<char>)>) -> nat
    decreases pairs.len(),
{
    if pairs.len() == 0 {
        0
    } else {
        room(pairs.drop_last()) + encoded_len(encode_utf8(pairs.last().0)) + encoded_len(
            encode_utf8(pairs.last().1),
        ) + 2
    }
}

/// By how many bytes an address grows when names and values are put into its query.
/// The sign between two pairs is not needed where the query holds nothing yet.
pub open spec fn growth(url: url::Url, pairs: Seq<(Seq<char>, Seq<char>)>) -> int {
    match url_query(url) {
        None => if pairs.len() == 0 {
            1
        } else {
            room(pairs) as int
        },
        Some(query) => if pairs.len() > 0 && query.len() == 0 {
            room(pairs) - 1
        } else {
            room(pairs) as int
        },
    }
}

/// Whether the places that are needed to put names and values into the query of an
/// address can be counted in 32 bits: the end of what stands before a query that is
/// new, and the end of the query before a fragment.
pub open spec fn is_extendable(url: url::Url, pairs: Seq<(Seq<char>, Seq<char>)>) -> bool {
    let end = bytes_in(url_text(url)) - marked_len(url_fragment(url));
    &&& url_query(url) is None ==> end <= u32::MAX
    &&& url_fragment(url) is Some ==> end + growth(url, pairs) <= u32::MAX
}

/// `Url::parse`, with the text of the error.
#[verifier::external_body]
fn parse_url(text: &str) -> (r: Result<url::Url, String>)
    ensures
        match r {
            Ok(url) => parsed_url(text@) == Ok::<url::Url, Seq<char>>(url),
            Err(e) => parsed_url(text@) == Err::<url::Url, Seq<char>>(e@),
        },
{
    url::Url::parse(text).map_err(|e| e.to_string())
}

/// `Url::clone`, which is derived: the same address again.
#[verifier::external_body]
fn copy_url(url: &url::Url) -> (r: url::Url)
    ensures
        r == *url,
{
    url.clone()
}

/// `Url::as_str`: how the address is written.
#[verifier::external_body]
fn text_of(url: &url::Url) -> (r: String)
    ensures
        r@ == url_text(*url),
{
    url.as_str().to_string()
}

/// `Url::path`.
#[verifier::external_body]
fn path_of(url: &url::Url) -> (r: String)
    ensures
        r@ == url_path(*url),
{
    url.path().to_string()
}

/// `Url::query`: what stands behind the question mark, as it is written.
#[verifier::external_body]
fn query_of(url: &url::Url) -> (r: Option<String>)
    ensures
        opt_view(r) == url_query(*url),
{
    url.query().map(|query| query.to_string())
}

/// `Url::fragment`: what stands behind the number sign, as it is written.
#[verifier::external_body]
fn fragment_of(url: &url::Url) -> (r: Option<String>)
    ensures
        opt_view(r) == url_fragment(*url),
{
    url.fragment().map(|fragment| fragment.to_string())
}

/// `Url::set_path` with an empty path. It leaves query and fragment as they are. It
/// does not return when the end of the path cannot be counted in 32 bits; the new
/// path is never longer than the old one.
#[verifier::external_body]
fn clear_path(url: &mut url::Url)
    requires
        path_is_countable(*old(url)),
    ensures
        *final(url) == without_path(*old(url)),
        url_query(*final(url)) == url_query(*old(url)),
        url_fragment(*final(url)) == url_fragment(*old(url)),
{
    url.set_path("");
}

/// `Url::set_query` with nothing. It takes the query away and leaves the fragment as
/// it is.
#[verifier::external_body]
fn clear_query(url: &mut url::Url)
    ensures
        *final(url) == without_query(*old(url)),
        url_query(*final(url)) is None,
        url_fragment(*final(url)) == url_fragment(*old(url)),
{
    url.set_query(None);
}

/// `Url::set_fragment` with nothing. It takes the fragment away and leaves the query
/// as it is.
#[verifier::external_body]
fn clear_fragment(url: &mut url::Url)
    ensures
        *final(url) == without_fragment(*old(url)),
        url_fragment(*final(url)) is None,
        url_query(*final(url)) == url_query(*old(url)),
{
    url.set_fragment(None);
}

/// `Url::query_pairs`, as a list.
#[verifier::external_body]
fn pairs_of(url: &url::Url) -> (r: Vec<(String, String)>)
    ensures
        pair_views(r@) == url_pairs(*url),
{
    url.query_pairs().into_owned().collect()
}

/// `Url::query_pairs_mut` and `extend_pairs`, which appends one pair after another, so
/// that `Url::query_pairs` finds these behind the others. They do not return when a place that they need cannot be counted in 32 bits.
#[verifier::external_body]
fn append_pairs(url: &mut url::Url, pairs: &Vec<(String, String)>)
    requires
        is_extendable(*old(url), pair_views(pairs@)),
    ensures
        *final(url) == with_pairs(*old(url), pair_views(pairs@)),
        url_pairs(*final(url)) == url_pairs(*old(url)) + pair_views(pairs@),
{
    url.query_pairs_mut().extend_pairs(pairs);
}

// ---------------------------------------------------------------------------
// Addresses of servers
// ---------------------------------------------------------------------------

/// What is known of an address: the mathematical model of [`Target`].
pub struct Site {
    pub path: Seq<char>,
    pub bare: Seq<char>,
    pub bare_path: Seq<char>,
    pub root: Seq<char>,
}

/// What is known of an address.
#[derive(Debug, PartialEq)]
pub struct Target {
    /// Its path.
    pub path: String,
    /// The address without query and fragment.
    pub bare: String,
    /// The path of that address.
    pub bare_path: String,
    /// The address without path, query and fragment.
    pub root: String,
}

impl View for Target {
    type V = Site;

    open spec fn view(&self) -> Site {
        Site {
            path: self.path@,
            bare: self.bare@,
            bare_path: self.bare_path@,
            root: self.root@,
        }
    }
}

/// An address without query and fragment.
pub open spec fn bare_url(url: url::Url) -> url::Url {
    without_fragment(without_query(url))
}

/// An address without path, query and fragment.
pub open spec fn root_url(url: url::Url) -> url::Url {
    without_fragment(without_query(without_path(url)))
}

/// The site that an address names.
pub open spec fn site_of(url: url::Url) -> Site {
    Site {
        path: url_path(url),
        bare: url_text(bare_url(url)),
        bare_path: url_path(bare_url(url)),
        root: url_text(root_url(url)),
    }
}

/// Whether a text is how an address without query and fragment is written.
pub open spec fn is_written_bare(text: Seq<char>) -> bool {
    exists|url: url::Url|
        #[trigger] url_text(url) == text && url_query(url) is None && url_fragment(url) is None
}

/// Why something cannot be done with an address.
#[derive(Debug, PartialEq)]
pub enum Trouble {
    /// What is wrong with it.
    Fault(Error),
    /// It is too long for its parts to be counted in 32 bits.
    TooLong,
}

/// Why something cannot be done with an address: the mathematical model of
/// [`Trouble`].
pub enum Snag {
    Fault(Fault),
    TooLong,
}

impl View for Trouble {
    type V = Snag;

    open spec fn view(&self) -> Snag {
        match self {
            Trouble::Fault(e) => Snag::Fault(e@),
            Trouble::TooLong => Snag::TooLong,
        }
    }
}

/// The site that an address names, or what is wrong with it, with the given
/// headline.
pub open spec fn site_in(text: Seq<char>, headline: Seq<char>) -> Result<Site, Snag> {
    match parsed_url(text) {
        Err(e) => Err(Snag::Fault(because(headline, e))),
        Ok(url) => if path_is_countable(url) {
            Ok(site_of(url))
        } else {
            Err(Snag::TooLong)
        },
    }
}

/// The view of a site that may not be known.
pub open spec fn site_view(r: Result<Target, Trouble>) -> Result<Site, Snag> {
    match r {
        Ok(target) => Ok(target@),
        Err(trouble) => Err(trouble@),
    }
}

/// How many bytes a query or a fragment takes together with the sign before it.
fn marked_size(part: &Option<String>) -> (r: u128)
    ensures
        r == marked_len(opt_view(*part)),
        r <= usize::MAX + 1,
{
    match part {
        Some(part) => byte_len(part.as_str()) as u128 + 1,
        None => 0,
    }
}

/// Takes query and fragment away from an address.
fn make_bare(url: &url::Url) -> (r: url::Url)
    ensures
        r == bare_url(*url),
        url_query(r) is None,
        url_fragment(r) is None,
{
    let mut bare = copy_url(url);
    clear_query(&mut bare);
    clear_fragment(&mut bare);
    bare
}

/// Takes path, query and fragment away from an address.
fn make_root(url: &url::Url) -> (r: url::Url)
    requires
        path_is_countable(*url),
    ensures
        r == root_url(*url),
        url_query(r) is None,
        url_fragment(r) is None,
{
    let mut root = copy_url(url);
    clear_path(&mut root);
    clear_query(&mut root);
    clear_fragment(&mut root);
    root
}

/// Reads an address. The headline is that of the error.
pub fn parse_target(text: &str, headline: &str) -> (r: Result<Target, Trouble>)
    ensures
        site_view(r) == site_in(text@, headline@),
        r matches Ok(target) ==> is_written_bare(target.bare@) && is_written_bare(target.root@),
{
    let url = match parse_url(text) {
        Err(e) => return Err(Trouble::Fault(Error::because(headline.to_owned(), e))),
        Ok(url) => url,
    };
    let written = text_of(&url);
    let size = byte_len(written.as_str()) as u128;
    let behind = marked_size(&query_of(&url)) + marked_size(&fragment_of(&url));
    if size > 0xffff_ffff + behind {
        return Err(Trouble::TooLong);
    }
    let bare = make_bare(&url);
    let root = make_root(&url);
    Ok(
        Target {
            path: path_of(&url),
            bare: text_of(&bare),
            bare_path: path_of(&bare),
            root: text_of(&root),
        },
    )
}

/// The complaint about a text that is no address.
pub open spec fn url_complaint(text: Seq<char>) -> Option<Seq<char>> {
    match parsed_url(text) {
        Ok(_) => None,
        Err(e) => Some(e),
    }
}

/// The complaint about a text that is no address.
pub fn url_error(text: &str) -> (r: Option<String>)
    ensures
        opt_view(r) == url_complaint(text@),
{
    match parse_url(text) {
        Ok(_) => None,
        Err(e) => Some(e),
    }
}

/// The path of an address and the names and values in its query, or the complaint
/// about a text that is no address.
pub fn split_query(text: &str) -> (r: Result<(String, Vec<(String, String)>), String>)
    ensures
        match (r, parsed_url(text@)) {
            (Ok((path, pairs)), Ok(url)) => path@ == url_path(url) && pair_views(pairs@)
                == url_pairs(url),
            (Err(e), Err(complaint)) => e@ == complaint,
            _ => false,
        },
{
    match parse_url(text) {
        Ok(url) => Ok((path_of(&url), pairs_of(&url))),
        Err(e) => Err(e),
    }
}

/// An address with further names and values in its query, or why it cannot be had.
pub open spec fn extended_in(
    text: Seq<char>,
    pairs: Seq<(Seq<char>, Seq<char>)>,
    headline: Seq<char>,
) -> Result<Seq<char>, Snag> {
    match parsed_url(text) {
        Err(e) => Err(Snag::Fault(because(headline, e))),
        Ok(url) => if is_extendable(url, pairs) {
            Ok(url_text(with_pairs(url, pairs)))
        } else {
            Err(Snag::TooLong)
        },
    }
}

/// Whether a text is how an address is written whose query ends with some names and
/// values.
pub open spec fn carries(text: Seq<char>, pairs: Seq<(Seq<char>, Seq<char>)>) -> bool {
    exists|url: url::Url| #[trigger] url_text(url) == text && pairs.is_suffix_of(url_pairs(url))
}

proof fn room_grows(pairs: Seq<(Seq<char>, Seq<char>)>, n: int)
    requires
        0 <= n <= pairs.len(),
    ensures
        room(pairs.take(n)) <= room(pairs),
    decreases pairs.len() - n,
{
    if n == pairs.len() {
        assert(pairs.take(n) =~= pairs);
    } else {
        assert(pairs.take(n + 1).drop_last() =~= pairs.take(n));
        room_grows(pairs, n + 1);
    }
}

/// How many bytes a name or a value takes in a query.
fn encoded_size(text: &str) -> (r: u128)
    ensures
        r == encoded_len(encode_utf8(text@)),
        r <= 3 * usize::MAX,
{
    let bytes = text.as_bytes();
    let mut total: u128 = 0;
    let mut i: usize = 0;
    while i < bytes.len()
        invariant
            bytes@ == encode_utf8(text@),
            i <= bytes@.len(),
            total == encoded_len(bytes@.take(i as int)),
            total <= 3 * i,
        decreases bytes@.len() - i,
    {
        assert(bytes@.take(i + 1).drop_last() =~= bytes@.take(i as int));
        let byte = bytes[i];
        let plain = byte == 0x2a || byte == 0x2d || byte == 0x2e || byte == 0x5f || byte == 0x20
            || (0x30 <= byte && byte <= 0x39) || (0x41 <= byte && byte <= 0x5a) || (0x61 <= byte
            && byte <= 0x7a);
        total = total + if plain {
            1
        } else {
            3
        };
        i += 1;
    }
    assert(bytes@.take(i as int) =~= bytes@);
    total
}

/// Whether names and values take no more bytes in a query than there are.
fn have_room(pairs: &Vec<(String, String)>, bytes: u128) -> (r: bool)
    requires
        bytes <= 0xffff_ffff_ffff_ffff_ffff,
    ensures
        r == (room(pair_views(pairs@)) <= bytes),
{
    let ghost all = pair_views(pairs@);
    let mut total: u128 = 0;
    let mut i: usize = 0;
    while i < pairs.len()
        invariant
            all == pair_views(pairs@),
            i <= pairs@.len(),
            bytes <= 0xffff_ffff_ffff_ffff_ffff,
            total == room(all.take(i as int)),
            total <= bytes,
        decreases pairs@.len() - i,
    {
        assert(all.take(i + 1).drop_last() =~= all.take(i as int));
        assert(all.take(i + 1).last() == (pairs@[i as int].0@, pairs@[i as int].1@));
        proof {
            room_grows(all, i + 1);
        }
        total = total + encoded_size(pairs[i].0.as_str()) + encoded_size(pairs[i].1.as_str()) + 2;
        if total > bytes {
            return false;
        }
        i += 1;
    }
    assert(all.take(i as int) =~= all);
    true
}

/// Whether the places that are needed to put names and values into the query of an
/// address can be counted in 32 bits.
fn can_extend(url: &url::Url, pairs: &Vec<(String, String)>) -> (r: bool)
    ensures
        r == is_extendable(*url, pair_views(pairs@)),
{
    let query = query_of(url);
    let fragment = fragment_of(url);
    let size = byte_len(text_of(url).as_str()) as u128;
    let most = 0xffff_ffff + marked_size(&fragment);
    if query.is_none() && size > most {
        return false;
    }
    if fragment.is_none() {
        return true;
    }
    let ghost all = pair_views(pairs@);
    assert(all.len() == pairs@.len());
    match &query {
        None => if pairs.len() == 0 {
            size < most
        } else {
            size <= most && have_room(pairs, most - size)
        },
        Some(query) => {
            if query.as_str().is_empty() && pairs.len() > 0 {
                size <= most + 1 && have_room(pairs, most + 1 - size)
            } else {
                size <= most && have_room(pairs, most - size)
            }
        },
    }
}

/// Puts further names and values into the query of an address. The headline is that
/// of the error.
pub fn extend_query(text: &str, pairs: &Vec<(String, String)>, headline: &str) -> (r: Result<
    String,
    Trouble,
>)
    ensures
        match (r, extended_in(text@, pair_views(pairs@), headline@)) {
            (Ok(url), Ok(extended)) => url@ == extended,
            (Err(trouble), Err(snag)) => trouble@ == snag,
            _ => false,
        },
        r matches Ok(url) ==> carries(url@, pair_views(pairs@)),
{
    let mut url = match parse_url(text) {
        Err(e) => return Err(Trouble::Fault(Error::because(headline.to_owned(), e))),
        Ok(url) => url,
    };
    if can_extend(&url, pairs) {
        append_pairs(&mut url, pairs);
        assert(pair_views(pairs@).is_suffix_of(url_pairs(url)));
        Ok(text_of(&url))
    } else {
        Err(Trouble::TooLong)
    }
}

// ---------------------------------------------------------------------------
// Well-known places
// ---------------------------------------------------------------------------

impl Site {
    /// The address without anything behind its host.
    pub open spec fn origin(self) -> Seq<char> {
        trim_end_char(self.root, '/')
    }

    /// Where metadata of a kind may be found: below the well-known segment with the
    /// path behind it, below the path, and without the path.
    pub open spec fn well_known(self, suffix: Seq<char>) -> Seq<Seq<char>> {
        let path = trim_end_char(self.path, '/');
        let plain = self.origin() + "/.well-known/"@ + suffix;
        if path.len() > 0 {
            seq![plain + path, self.origin() + path + "/.well-known/"@ + suffix, plain]
        } else {
            seq![plain]
        }
    }

    /// The canonical name of the resource: the address without query and fragment,
    /// and without the slash when nothing else is behind the host.
    pub open spec fn canonical(self) -> Seq<char> {
        if self.bare.len() > 0 && self.bare.last() == '/' && self.bare_path == "/"@ {
            trim_end_char(self.bare, '/')
        } else {
            self.bare
        }
    }
}

/// The address without anything behind its host.
pub fn origin(url: &Target) -> (r: String)
    ensures
        r@ == url@.origin(),
{
    trim_end_of(url.root.as_str(), '/')
}

/// Where metadata of a kind may be found.
pub fn well_known(url: &Target, suffix: &str) -> (r: Vec<String>)
    ensures
        views(r@) == url@.well_known(suffix@),
{
    let origin = origin(url);
    let path = trim_end_of(url.path.as_str(), '/');
    let plain = concat3(origin.as_str(), "/.well-known/", suffix);
    let mut out: Vec<String> = Vec::new();
    if !path.as_str().is_empty() {
        let mut first = plain.clone();
        first.append(path.as_str());
        let mut second = concat3(origin.as_str(), path.as_str(), "/.well-known/");
        second.append(suffix);
        out.push(first);
        out.push(second);
    }
    out.push(plain);
    assert(views(out@) =~= url@.well_known(suffix@));
    out
}

/// The canonical name of the resource.
pub fn canonical_resource(url: &Target) -> (r: String)
    ensures
        r@ == url@.canonical(),
{
    let chars = chars_of(url.bare.as_str());
    if chars.len() > 0 && chars[chars.len() - 1] == '/' && same(url.bare_path.as_str(), "/") {
        trim_end_of(url.bare.as_str(), '/')
    } else {
        url.bare.clone()
    }
}

// ---------------------------------------------------------------------------
// Laws
// ---------------------------------------------------------------------------

/// There is always a place to look, and the last one is the place without the path.
pub proof fn the_last_place_has_no_path(site: Site, suffix: Seq<char>)
    ensures
        site.well_known(suffix).len() == 1 || site.well_known(suffix).len() == 3,
        site.well_known(suffix).last() == site.origin() + "/.well-known/"@ + suffix,
{
}

/// Without a path there is one place to look.
pub proof fn no_path_no_variants(site: Site, suffix: Seq<char>)
    requires
        trim_end_char(site.path, '/').len() == 0,
    ensures
        site.well_known(suffix) == seq![site.origin() + "/.well-known/"@ + suffix],
{
}

/// An origin does not end with a slash.
pub proof fn origins_have_no_trailing_slash(site: Site)
    ensures
        site.origin().len() > 0 ==> site.origin().last() != '/',
{
    trimmed_end_stays(site.root, '/');
}

proof fn trimmed_end_stays(s: Seq<char>, c: char)
    ensures
        trim_end_char(s, c).len() > 0 ==> trim_end_char(s, c).last() != c,
    decreases s.len(),
{
    if s.len() > 0 && s.last() == c {
        trimmed_end_stays(s.drop_last(), c);
    }
}

/// A site is known by the path of its address, by the address without query and fragment
/// and the path of that, and by the address without path, query and fragment.
pub proof fn a_site_is_known_by_its_parts(text: Seq<char>, headline: Seq<char>, url: url::Url, e: Seq<char>)
    ensures
        parsed_url(text) == Err::<url::Url, Seq<char>>(e) ==> site_in(text, headline) == Err::<Site, Snag>(
            Snag::Fault(because(headline, e)),
        ) && url_complaint(text) == Some(e),
        parsed_url(text) == Ok::<url::Url, Seq<char>>(url) ==> url_complaint(text) is None,
        parsed_url(text) == Ok::<url::Url, Seq<char>>(url) && bytes_in(url_text(url)) <= u32::MAX
            ==> site_in(text, headline) == Ok::<Site, Snag>(
            (Site {
                path: url_path(url),
                bare: url_text(without_fragment(without_query(url))),
                bare_path: url_path(without_fragment(without_query(url))),
                root: url_text(without_fragment(without_query(without_path(url)))),
            }),
        ),
{
}

/// The origin is the address without what stands behind its host, and without slashes.
pub proof fn an_origin_has_nothing_behind_the_host(site: Site, host: Seq<char>, n: nat)
    requires
        site.root == host + Seq::new(n, |i: int| '/'),
        host.len() > 0 ==> host.last() != '/',
    ensures
        site.origin() == host,
{
    trailing_signs_are_taken(host, '/', n);
}

/// Metadata may be found below the well-known segment with the path behind it, below the
/// path, and without the path, in this order.
pub proof fn well_known_places_come_in_order(site: Site, suffix: Seq<char>, path: Seq<char>, n: nat)
    requires
        site.path == path + Seq::new(n, |i: int| '/'),
        path.len() > 0,
        path.last() != '/',
    ensures
        site.well_known(suffix) == seq![
            site.origin() + "/.well-known/"@ + suffix + path,
            site.origin() + path + "/.well-known/"@ + suffix,
            site.origin() + "/.well-known/"@ + suffix,
        ],
{
    trailing_signs_are_taken(path, '/', n);
}

/// The canonical name of a resource is its address without query and fragment, and
/// without the slash where that is the whole path.
pub proof fn a_resource_is_named_by_its_bare_address(site: Site, start: Seq<char>, n: nat)
    ensures
        site.bare_path != "/"@ ==> site.canonical() == site.bare,
        site.bare.len() > 0 && site.bare.last() != '/' ==> site.canonical() == site.bare,
        site.bare_path == "/"@ && n > 0 && site.bare == start + Seq::new(n, |i: int| '/') && (start.len() > 0
            ==> start.last() != '/') ==> site.canonical() == start,
{
    if n > 0 && site.bare == start + Seq::new(n, |i: int| '/') && (start.len() > 0 ==> start.last()
        != '/') {
        trailing_signs_are_taken(start, '/', n);
        assert(site.bare[site.bare.len() - 1] == '/');
    }
}

/// Names and values are put into the query of any address that is shorter than 4 GiB and
/// has no fragment; a text that is no address is reported.
pub proof fn queries_are_extended(
    text: Seq<char>,
    pairs: Seq<(Seq<char>, Seq<char>)>,
    headline: Seq<char>,
    url: url::Url,
    e: Seq<char>,
)
    ensures
        parsed_url(text) == Err::<url::Url, Seq<char>>(e) ==> extended_in(text, pairs, headline) == Err::<
            Seq<char>,
            Snag,
        >(Snag::Fault(because(headline, e))),
        parsed_url(text) == Ok::<url::Url, Seq<char>>(url) && bytes_in(url_text(url)) <= u32::MAX
            && url_fragment(url) is None ==> extended_in(text, pairs, headline) == Ok::<Seq<char>, Snag>(
            url_text(with_pairs(url, pairs)),
        ),
        parsed_url(text) == Ok::<url::Url, Seq<char>>(url) && bytes_in(url_text(url)) + growth(url, pairs)
            <= u32::MAX && growth(url, pairs) >= 0 ==> extended_in(text, pairs, headline) == Ok::<
            Seq<char>,
            Snag,
        >(url_text(with_pairs(url, pairs))),
{
}

/// An empty address stays empty, and a bare address is one of an address without query
/// and fragment.
pub proof fn bare_addresses_have_no_query(site: Site, text: Seq<char>)
    ensures
        site.bare.len() == 0 ==> site.canonical() == site.bare,
        is_written_bare(text) ==> exists|url: url::Url| #[trigger]
            url_text(url) == text && url_query(url) is None && url_fragment(url) is None,
{
    if site.bare.len() == 0 {
        assert(site.canonical() =~= site.bare);
    }
}

/// Letters, digits and a few marks take one byte in a query, as the space does, and every
/// other byte takes three; pairs take their names and values and two signs each.
pub proof fn queries_grow_by_what_is_encoded(
    bytes: Seq<u8>,
    byte: u8,
    pairs: Seq<(Seq<char>, Seq<char>)>,
    name: Seq<char>,
    value: Seq<char>,
)
    ensures
        encoded_len(seq![]) == 0,
        'a' as int <= byte as int <= 'z' as int || 'A' as int <= byte as int <= 'Z' as int || '0' as int
            <= byte as int <= '9' as int || byte as int == ' ' as int || byte as int == '*' as int
            || byte as int == '-' as int || byte as int == '.' as int || byte as int == '_' as int
            ==> encoded_len(bytes.push(byte)) == encoded_len(bytes) + 1,
        !('a' as int <= byte as int <= 'z' as int || 'A' as int <= byte as int <= 'Z' as int || '0' as int
            <= byte as int <= '9' as int || byte as int == ' ' as int || byte as int == '*' as int
            || byte as int == '-' as int || byte as int == '.' as int || byte as int == '_' as int)
            ==> encoded_len(bytes.push(byte)) == encoded_len(bytes) + 3,
        room(seq![]) == 0,
        room(pairs.push((name, value))) == room(pairs) + encoded_len(encode_utf8(name)) + encoded_len(
            encode_utf8(value),
        ) + 2,
{
    assert(bytes.push(byte).drop_last() =~= bytes);
    assert(pairs.push((name, value)).drop_last() =~= pairs);
}

/// Pairs take as much room in a query that is new as in one that goes on, and one sign
/// less in one that is empty; without pairs only the sign of a new query is added.
pub proof fn a_query_grows_by_its_pairs(url: url::Url, pairs: Seq<(Seq<char>, Seq<char>)>, query: Seq<char>)
    requires
        pairs.len() > 0,
    ensures
        url_query(url) is None ==> growth(url, pairs) == room(pairs),
        url_query(url) == Some(query) && query.len() > 0 ==> growth(url, pairs) == room(pairs),
        url_query(url) == Some(query) && query.len() == 0 ==> growth(url, pairs) == room(pairs) - 1,
        url_query(url) is None ==> growth(url, seq![]) == 1,
        url_query(url) is Some ==> growth(url, seq![]) == 0,
        marked_len(None) == 0 && marked_len(Some(query)) == bytes_in(query) + 1,
{
}

/// A site and what is wrong with an address are seen as they are.
pub proof fn sites_are_seen_whole(target: Target, e: Error)
    ensures
        target@.path == target.path@ && target@.root == target.root@,
        target@.bare == target.bare@ && target@.bare_path == target.bare_path@,
        Trouble::Fault(e)@ == Snag::Fault(e@),
        Trouble::TooLong@ == Snag::TooLong,
{
}

} // verus!
