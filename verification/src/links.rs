//! Classification of the links of a page as internal or external.
//!
//! Parsing and resolution of URLs are done by the `url` crate. This module
//! declares its types, names what its functions return, and counts links by
//! comparing hosts.

use vstd::prelude::*;
use url::ParseError;
use url::Url;

verus! {

/// `url::Url`, a parsed absolute URL.
#[verifier::external_type_specification]
#[verifier::external_body]
pub struct ExUrl(Url);

/// `url::ParseError`, the reason why a string is no absolute URL.
#[verifier::external_type_specification]
#[verifier::external_body]
pub struct ExParseError(ParseError);

/// What `url::Url::parse` makes of `text`.
pub uninterp spec fn parsed_url(text: Seq<char>) -> Result<Url, ParseError>;

/// What `url::Url::join` makes of `reference` against `base`: the resolved
/// URL, or `None` where the reference cannot be resolved.
pub uninterp spec fn joined_url(base: Url, reference: Seq<char>) -> Option<Url>;

/// The host of `url` as `url::Url::host_str` gives it: a domain or an IP
/// address in its serialized form, or `None` for a URL without a host.
pub uninterp spec fn url_host(url: Url) -> Option<Seq<char>>;

/// Calls `url::Url::parse`. The result is named, not described.
#[verifier::external_body]
pub(crate) fn parse_url(text: &str) -> (parsed: Result<Url, ParseError>)
    ensures
        parsed == parsed_url(text@),
{
    Url::parse(text)
}

/// Calls `url::Url::join` and drops the error's detail. The result is named,
/// not described.
#[verifier::external_body]
pub(crate) fn join_url(base: &Url, reference: &str) -> (joined: Option<Url>)
    ensures
        joined == joined_url(*base, reference@),
{
    base.join(reference).ok()
}

/// Calls `url::Url::host_str` and copies what it returns.
#[verifier::external_body]
pub(crate) fn host_of(url: &Url) -> (host: Option<String>)
    ensures
        crate::report::option_view(host) == url_host(*url),
{
    url.host_str().map(|h| h.to_string())
}

/// What becomes of one link.
#[derive(Debug, Clone, Copy, PartialEq, Eq, Structural)]
pub enum LinkKind {
    /// The link resolves to the host of the page.
    Internal,
    /// The link resolves to another host, or to a URL without a host while the
    /// page has one, or the other way round.
    External,
    /// The element has no `href`, or the reference cannot be resolved.
    Skipped,
}

/// The kind of the link `href` on a page at `base`.
pub open spec fn link_kind(base: Url, href: Option<Seq<char>>) -> LinkKind {
    match href {
        None => LinkKind::Skipped,
        Some(reference) => match joined_url(base, reference) {
            None => LinkKind::Skipped,
            Some(target) => if url_host(target) == url_host(base) {
                LinkKind::Internal
            } else {
                LinkKind::External
            },
        },
    }
}

/// How many of `hrefs` are links of kind `kind` on a page at `base`.
pub open spec fn links_of_kind(base: Url, hrefs: Seq<Option<Seq<char>>>, kind: LinkKind) -> nat
    decreases hrefs.len(),
{
    if hrefs.len() == 0 {
        0
    } else {
        links_of_kind(base, hrefs.drop_last(), kind) + if link_kind(base, hrefs.last()) == kind {
            1nat
        } else {
            0nat
        }
    }
}

/// Whether two optional strings are equal.
fn same_host(a: &Option<String>, b: &Option<String>) -> (same: bool)
    ensures
        same == (crate::report::option_view(*a) == crate::report::option_view(*b)),
{
    match a {
        Some(x) => match b {
            Some(y) => *x == *y,
            None => false,
        },
        None => b.is_none(),
    }
}

/// The kind of one link, given the host of the page.
fn classify_link(base: &Url, base_host: &Option<String>, href: &Option<String>) -> (kind:
    LinkKind)
    requires
        crate::report::option_view(*base_host) == url_host(*base),
    ensures
        kind == link_kind(*base, crate::report::option_view(*href)),
{
    match href {
        None => LinkKind::Skipped,
        Some(reference) => match join_url(base, reference.as_str()) {
            None => LinkKind::Skipped,
            Some(target) => {
                let host = host_of(&target);
                if same_host(&host, base_host) {
                    LinkKind::Internal
                } else {
                    LinkKind::External
                }
            },
        },
    }
}

/// The kind of the link `href` on a page at `base`.
pub fn link_kind_of(base: &Url, href: &Option<String>) -> (kind: LinkKind)
    ensures
        kind == link_kind(*base, crate::report::option_view(*href)),
{
    let base_host = host_of(base);
    classify_link(base, &base_host, href)
}

/// Every link is of exactly one kind, so the three counts add up to the
/// number of links.
pub proof fn lemma_kinds_partition(base: Url, hrefs: Seq<Option<Seq<char>>>)
    ensures
        links_of_kind(base, hrefs, LinkKind::Internal) + links_of_kind(
            base,
            hrefs,
            LinkKind::External,
        ) + links_of_kind(base, hrefs, LinkKind::Skipped) == hrefs.len(),
    decreases hrefs.len(),
{
    if hrefs.len() > 0 {
        lemma_kinds_partition(base, hrefs.drop_last());
    }
}

/// The numbers of internal and of external links among `hrefs`, on a page at
/// `base`.
pub fn count_link_kinds(base: &Url, hrefs: &Vec<Option<String>>) -> (counts: (usize, usize))
    ensures
        counts.0 == links_of_kind(*base, crate::dom::option_views(hrefs@), LinkKind::Internal),
        counts.1 == links_of_kind(*base, crate::dom::option_views(hrefs@), LinkKind::External),
        counts.0 + counts.1 <= hrefs@.len(),
{
    let ghost all = crate::dom::option_views(hrefs@);
    let base_host = host_of(base);
    let mut internal: usize = 0;
    let mut external: usize = 0;
    let mut i: usize = 0;
    while i < hrefs.len()
        invariant
            i <= hrefs.len(),
            all == crate::dom::option_views(hrefs@),
            crate::report::option_view(base_host) == url_host(*base),
            internal == links_of_kind(*base, all.take(i as int), LinkKind::Internal),
            external == links_of_kind(*base, all.take(i as int), LinkKind::External),
            internal + external <= i,
        decreases hrefs.len() - i,
    {
        proof {
            assert(all.take(i + 1).drop_last() == all.take(i as int));
            assert(all.take(i + 1).last() == crate::report::option_view(hrefs@[i as int]));
        }
        match classify_link(base, &base_host, &hrefs[i]) {
            LinkKind::Internal => {
                internal = internal + 1;
            },
            LinkKind::External => {
                external = external + 1;
            },
            LinkKind::Skipped => {},
        }
        i = i + 1;
    }
    assert(all.take(hrefs.len() as int) == all);
    (internal, external)
}

/// On a page whose links all resolve, each to a host other than that of the
/// page, no link is internal and every link is external.
pub proof fn lemma_all_links_external(base: Url, hrefs: Seq<Option<Seq<char>>>)
    requires
        forall|i: int|
            0 <= i < hrefs.len() ==> (#[trigger] hrefs[i]) is Some && joined_url(
                base,
                hrefs[i]->Some_0,
            ) is Some && url_host(joined_url(base, hrefs[i]->Some_0)->Some_0) != url_host(base),
    ensures
        links_of_kind(base, hrefs, LinkKind::Internal) == 0,
        links_of_kind(base, hrefs, LinkKind::External) == hrefs.len(),
    decreases hrefs.len(),
{
    if hrefs.len() > 0 {
        let rest = hrefs.drop_last();
        assert forall|i: int| 0 <= i < rest.len() implies (#[trigger] rest[i]) is Some
            && joined_url(base, rest[i]->Some_0) is Some && url_host(
            joined_url(base, rest[i]->Some_0)->Some_0,
        ) != url_host(base) by {
            assert(rest[i] == hrefs[i]);
        }
        lemma_all_links_external(base, rest);
        assert(hrefs.last() == hrefs[hrefs.len() - 1]);
    }
}

} // verus!
