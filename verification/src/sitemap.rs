//! Writing a sitemap as XML.

use vstd::prelude::*;
use crate::report::option_view;
use crate::text::ends_at;
use crate::text::occurrences_in;

verus! {

/// One page of a sitemap.
///
/// `priority` holds the priority as it is to be written: a number with one
/// fractional digit, already formatted.
#[derive(Debug, Clone, PartialEq, Eq)]
pub struct SitemapUrl {
    pub loc: String,
    pub lastmod: Option<String>,
    pub changefreq: Option<String>,
    pub priority: Option<String>,
}

/// What a sitemap entry holds, as plain sequences of characters.
pub ghost struct SitemapUrlView {
    pub loc: Seq<char>,
    pub lastmod: Option<Seq<char>>,
    pub changefreq: Option<Seq<char>>,
    pub priority: Option<Seq<char>>,
}

impl View for SitemapUrl {
    type V = SitemapUrlView;

    open spec fn view(&self) -> SitemapUrlView {
        SitemapUrlView {
            loc: self.loc@,
            lastmod: option_view(self.lastmod),
            changefreq: option_view(self.changefreq),
            priority: option_view(self.priority),
        }
    }
}

/// The views of a list of sitemap entries, in order.
pub open spec fn url_views(urls: Seq<SitemapUrl>) -> Seq<SitemapUrlView> {
    urls.map_values(|url: SitemapUrl| url@)
}

/// A sitemap: a list of pages.
#[derive(Debug, Clone, PartialEq, Eq)]
pub struct Sitemap {
    pub urls: Vec<SitemapUrl>,
}

/// The line of an optional child element: nothing where the value is
/// absent, else the value between `open` and `close`.
pub open spec fn optional_line(open: Seq<char>, value: Option<Seq<char>>, close: Seq<char>) -> Seq<
    char,
> {
    match value {
        Some(text) => open + text + close,
        None => Seq::empty(),
    }
}

/// The `<url>` block of one entry. Values are written as they stand, without
/// escaping.
pub open spec fn url_block(url: SitemapUrlView) -> Seq<char> {
    "  <url>\n"@ + ("    <loc>"@ + url.loc + "</loc>\n"@) + optional_line(
        "    <lastmod>"@,
        url.lastmod,
        "</lastmod>\n"@,
    ) + optional_line("    <changefreq>"@, url.changefreq, "</changefreq>\n"@) + optional_line(
        "    <priority>"@,
        url.priority,
        "</priority>\n"@,
    ) + "  </url>\n"@
}

/// The blocks of all entries, one after the other.
pub open spec fn url_blocks(urls: Seq<SitemapUrlView>) -> Seq<char>
    decreases urls.len(),
{
    if urls.len() == 0 {
        Seq::empty()
    } else {
        url_blocks(urls.drop_last()) + url_block(urls.last())
    }
}

/// What opens a sitemap document: the XML declaration and the opening tag of
/// the set.
pub open spec fn sitemap_head() -> Seq<char> {
    "<?xml version=\"1.0\" encoding=\"UTF-8\"?>\n"@
        + "<urlset xmlns=\"http://www.sitemaps.org/schemas/sitemap/0.9\">\n"@
}

/// The sitemap document of a list of entries. It ends without a newline.
pub open spec fn sitemap_xml(urls: Seq<SitemapUrlView>) -> Seq<char> {
    sitemap_head() + url_blocks(urls) + "</urlset>"@
}

/// Appends the line of an optional child element.
fn push_optional_line(xml: &mut String, open: &str, value: &Option<String>, close: &str)
    ensures
        final(xml)@ == old(xml)@ + optional_line(open@, option_view(*value), close@),
{
    let ghost before = xml@;
    match value {
        Some(text) => {
            xml.append(open);
            xml.append(text.as_str());
            xml.append(close);
            assert(xml@ =~= before + (open@ + text@ + close@));
        },
        None => {
            assert(xml@ =~= before + Seq::<char>::empty());
        },
    }
}

/// Appends the `<url>` block of one entry.
fn push_url_block(xml: &mut String, url: &SitemapUrl)
    ensures
        final(xml)@ == old(xml)@ + url_block(url@),
{
    let ghost before = xml@;
    xml.append("  <url>\n");
    xml.append("    <loc>");
    xml.append(url.loc.as_str());
    xml.append("</loc>\n");
    push_optional_line(xml, "    <lastmod>", &url.lastmod, "</lastmod>\n");
    push_optional_line(xml, "    <changefreq>", &url.changefreq, "</changefreq>\n");
    push_optional_line(xml, "    <priority>", &url.priority, "</priority>\n");
    xml.append("  </url>\n");
    assert(xml@ =~= before + url_block(url@));
}

/// The writer of sitemaps.
#[derive(Debug, Clone, Copy)]
pub struct SitemapGenerator {}

impl SitemapGenerator {
    /// The sitemap document of `urls`.
    pub fn generate_xml(urls: &[SitemapUrl]) -> (xml: String)
        ensures
            xml@ == sitemap_xml(url_views(urls@)),
    {
        let ghost all = url_views(urls@);
        let mut xml = String::from_str("<?xml version=\"1.0\" encoding=\"UTF-8\"?>\n");
        xml.append("<urlset xmlns=\"http://www.sitemaps.org/schemas/sitemap/0.9\">\n");
        assert(xml@ =~= sitemap_head() + url_blocks(all.take(0)));
        let mut i: usize = 0;
        while i < urls.len()
            invariant
                i <= urls.len(),
                all == url_views(urls@),
                xml@ == sitemap_head() + url_blocks(all.take(i as int)),
            decreases urls.len() - i,
        {
            proof {
                assert(all.take(i + 1).drop_last() == all.take(i as int));
                assert(all.take(i + 1).last() == urls@[i as int]@);
            }
            push_url_block(&mut xml, &urls[i]);
            assert(xml@ =~= sitemap_head() + url_blocks(all.take(i + 1)));
            i = i + 1;
        }
        assert(all.take(urls.len() as int) == all);
        xml.append("</urlset>");
        xml
    }
}

/// The opening tag of the address of a page.
pub open spec fn loc_tag() -> Seq<char> {
    "<loc>"@
}

/// Whether `value` holds no `<loc>`.
pub open spec fn is_free_of_loc_tag(value: Seq<char>) -> bool {
    forall|end: int| !ends_at(value, loc_tag(), end)
}

/// Whether no value of `url` holds a `<loc>`.
pub open spec fn holds_no_loc_tag(url: SitemapUrlView) -> bool {
    &&& is_free_of_loc_tag(url.loc)
    &&& url.lastmod matches Some(value) ==> is_free_of_loc_tag(value)
    &&& url.changefreq matches Some(value) ==> is_free_of_loc_tag(value)
    &&& url.priority matches Some(value) ==> is_free_of_loc_tag(value)
}

/// Whether the five characters of `s` before position `end` are `<loc>`.
spec fn is_tag_end(s: Seq<char>, end: int) -> bool {
    5 <= end <= s.len() && s[end - 5] == '<' && s[end - 4] == 'l' && s[end - 3] == 'o' && s[end
        - 2] == 'c' && s[end - 1] == '>'
}

proof fn lemma_tag_end(s: Seq<char>, end: int)
    ensures
        ends_at(s, loc_tag(), end) == is_tag_end(s, end),
{
    reveal_strlit("<loc>");
    let tag = loc_tag();
    if 5 <= end <= s.len() {
        let part = s.subrange(end - 5, end);
        if is_tag_end(s, end) {
            assert(part =~= tag);
        }
        if part == tag {
            assert(part[0] == tag[0]);
            assert(part[1] == tag[1]);
            assert(part[2] == tag[2]);
            assert(part[3] == tag[3]);
            assert(part[4] == tag[4]);
        }
    }
}

/// Whether a `<loc>` could end after the first `k` characters of `piece`,
/// for some text before the piece.
spec fn may_end(piece: Seq<char>, k: int) -> bool {
    piece[k - 1] == '>' && (k < 5 || (piece[k - 5] == '<' && piece[k - 4] == 'l' && piece[k - 3]
        == 'o' && piece[k - 2] == 'c'))
}

/// Whether no `<loc>` can end within the first `k` characters of `piece`,
/// whatever stands before the piece.
spec fn clear_upto(piece: Seq<char>, k: int) -> bool
    decreases k,
{
    k <= 0 || (clear_upto(piece, k - 1) && !may_end(piece, k))
}

proof fn lemma_clear_at(piece: Seq<char>, k: int, j: int)
    requires
        clear_upto(piece, k),
        1 <= j <= k,
    ensures
        !may_end(piece, j),
    decreases k,
{
    if j < k {
        lemma_clear_at(piece, k - 1, j);
    }
}

/// No `<loc>` ends within `piece` when it follows `before`.
proof fn lemma_clear_piece_has_no_end(before: Seq<char>, piece: Seq<char>, limit: int)
    requires
        0 <= limit <= piece.len(),
        clear_upto(piece, limit),
    ensures
        forall|end: int|
            before.len() < end <= before.len() + limit ==> !ends_at(before + piece, loc_tag(), end),
{
    assert forall|end: int| before.len() < end <= before.len() + limit implies !ends_at(
        before + piece,
        loc_tag(),
        end,
    ) by {
        let whole = before + piece;
        let j = end - before.len();
        lemma_tag_end(whole, end);
        lemma_clear_at(piece, limit, j);
        assert(whole[end - 1] == piece[j - 1]);
        if j >= 5 {
            assert(whole[end - 5] == piece[j - 5]);
            assert(whole[end - 4] == piece[j - 4]);
            assert(whole[end - 3] == piece[j - 3]);
            assert(whole[end - 2] == piece[j - 2]);
        }
    }
}

/// Appending a piece within which no `<loc>` can end adds no `<loc>`.
proof fn lemma_clear_piece_adds_none(before: Seq<char>, piece: Seq<char>)
    requires
        clear_upto(piece, piece.len() as int),
    ensures
        occurrences_in(before + piece, loc_tag()) == occurrences_in(before, loc_tag()),
{
    lemma_clear_piece_has_no_end(before, piece, piece.len() as int);
    crate::text::lemma_append_adds_none(before, piece, loc_tag());
}

/// Appending a value that holds no `<loc>` to a text that ends with `>` adds
/// no `<loc>`.
proof fn lemma_value_adds_none(before: Seq<char>, value: Seq<char>)
    requires
        before.len() > 0,
        before.last() == '>',
        is_free_of_loc_tag(value),
    ensures
        occurrences_in(before + value, loc_tag()) == occurrences_in(before, loc_tag()),
{
    assert forall|end: int| before.len() < end <= before.len() + value.len() implies !ends_at(
        before + value,
        loc_tag(),
        end,
    ) by {
        let whole = before + value;
        let j = end - before.len();
        lemma_tag_end(whole, end);
        if j >= 5 {
            lemma_tag_end(value, j);
            assert(!ends_at(value, loc_tag(), j));
            assert(whole[end - 5] == value[j - 5]);
            assert(whole[end - 4] == value[j - 4]);
            assert(whole[end - 3] == value[j - 3]);
            assert(whole[end - 2] == value[j - 2]);
            assert(whole[end - 1] == value[j - 1]);
        } else {
            assert(whole[before.len() - 1] == '>');
        }
    }
    crate::text::lemma_append_adds_none(before, value, loc_tag());
}

/// What is known of the fixed pieces of a sitemap: no `<loc>` can end within
/// them, but at the end of the opening tag of the address; and the opening
/// tags end with `>`.
proof fn lemma_fixed_pieces()
    ensures
        clear_upto("<?xml version=\"1.0\" encoding=\"UTF-8\"?>\n"@, 39),
        "<?xml version=\"1.0\" encoding=\"UTF-8\"?>\n"@.len() == 39,
        clear_upto("<urlset xmlns=\"http://www.sitemaps.org/schemas/sitemap/0.9\">\n"@, 61),
        "<urlset xmlns=\"http://www.sitemaps.org/schemas/sitemap/0.9\">\n"@.len() == 61,
        clear_upto("  <url>\n"@, 8),
        "  <url>\n"@.len() == 8,
        clear_upto("    <loc>"@, 8),
        is_tag_end("    <loc>"@, 9),
        "    <loc>"@.len() == 9,
        clear_upto("</loc>\n"@, 7),
        "</loc>\n"@.len() == 7,
        clear_upto("    <lastmod>"@, 13),
        "    <lastmod>"@.len() == 13,
        "    <lastmod>"@[12] == '>',
        clear_upto("</lastmod>\n"@, 11),
        "</lastmod>\n"@.len() == 11,
        clear_upto("    <changefreq>"@, 16),
        "    <changefreq>"@.len() == 16,
        "    <changefreq>"@[15] == '>',
        clear_upto("</changefreq>\n"@, 14),
        "</changefreq>\n"@.len() == 14,
        clear_upto("    <priority>"@, 14),
        "    <priority>"@.len() == 14,
        "    <priority>"@[13] == '>',
        clear_upto("</priority>\n"@, 12),
        "</priority>\n"@.len() == 12,
        clear_upto("  </url>\n"@, 9),
        "  </url>\n"@.len() == 9,
        clear_upto("</urlset>"@, 9),
        "</urlset>"@.len() == 9,
{
    reveal_with_fuel(clear_upto, 62);
    reveal_strlit("<?xml version=\"1.0\" encoding=\"UTF-8\"?>\n");
    reveal_strlit("<urlset xmlns=\"http://www.sitemaps.org/schemas/sitemap/0.9\">\n");
    reveal_strlit("  <url>\n");
    reveal_strlit("    <loc>");
    reveal_strlit("</loc>\n");
    reveal_strlit("    <lastmod>");
    reveal_strlit("</lastmod>\n");
    reveal_strlit("    <changefreq>");
    reveal_strlit("</changefreq>\n");
    reveal_strlit("    <priority>");
    reveal_strlit("</priority>\n");
    reveal_strlit("  </url>\n");
    reveal_strlit("</urlset>");
}

/// The line of an optional child element adds no `<loc>`.
proof fn lemma_optional_line_adds_none(
    before: Seq<char>,
    open: Seq<char>,
    value: Option<Seq<char>>,
    close: Seq<char>,
)
    requires
        open.len() > 0,
        open.last() == '>',
        clear_upto(open, open.len() as int),
        clear_upto(close, close.len() as int),
        value matches Some(text) ==> is_free_of_loc_tag(text),
    ensures
        occurrences_in(before + optional_line(open, value, close), loc_tag()) == occurrences_in(
            before,
            loc_tag(),
        ),
{
    match value {
        Some(text) => {
            lemma_clear_piece_adds_none(before, open);
            lemma_value_adds_none(before + open, text);
            lemma_clear_piece_adds_none(before + open + text, close);
            assert(before + (open + text + close) =~= before + open + text + close);
        },
        None => {
            assert(before + Seq::<char>::empty() =~= before);
        },
    }
}

/// The block of an entry whose values hold no `<loc>` adds exactly one.
proof fn lemma_block_adds_one(before: Seq<char>, url: SitemapUrlView)
    requires
        holds_no_loc_tag(url),
    ensures
        occurrences_in(before + url_block(url), loc_tag()) == occurrences_in(before, loc_tag())
            + 1,
{
    lemma_fixed_pieces();
    let tag = loc_tag();
    let s1 = before + "  <url>\n"@;
    lemma_clear_piece_adds_none(before, "  <url>\n"@);
    let s2 = s1 + "    <loc>"@;
    assert(occurrences_in(s2, tag) == occurrences_in(s1, tag) + 1) by {
        lemma_clear_piece_has_no_end(s1, "    <loc>"@, 8);
        lemma_tag_end(s2, s2.len() as int);
        assert(s2[s2.len() - 5] == "    <loc>"@[4]);
        assert(s2[s2.len() - 4] == "    <loc>"@[5]);
        assert(s2[s2.len() - 3] == "    <loc>"@[6]);
        assert(s2[s2.len() - 2] == "    <loc>"@[7]);
        assert(s2[s2.len() - 1] == "    <loc>"@[8]);
        crate::text::lemma_append_adds_one(s1, "    <loc>"@, tag);
    }
    let s3 = s2 + url.loc;
    assert(s2.last() == "    <loc>"@[8]);
    lemma_value_adds_none(s2, url.loc);
    let s4 = s3 + "</loc>\n"@;
    lemma_clear_piece_adds_none(s3, "</loc>\n"@);
    let s5 = s4 + optional_line("    <lastmod>"@, url.lastmod, "</lastmod>\n"@);
    lemma_optional_line_adds_none(s4, "    <lastmod>"@, url.lastmod, "</lastmod>\n"@);
    let s6 = s5 + optional_line("    <changefreq>"@, url.changefreq, "</changefreq>\n"@);
    lemma_optional_line_adds_none(s5, "    <changefreq>"@, url.changefreq, "</changefreq>\n"@);
    let s7 = s6 + optional_line("    <priority>"@, url.priority, "</priority>\n"@);
    lemma_optional_line_adds_none(s6, "    <priority>"@, url.priority, "</priority>\n"@);
    let s8 = s7 + "  </url>\n"@;
    lemma_clear_piece_adds_none(s7, "  </url>\n"@);
    assert(before + url_block(url) =~= s8);
}

/// The head of a sitemap followed by the blocks of entries whose values hold
/// no `<loc>` holds one `<loc>` for each entry.
proof fn lemma_blocks_hold_one_each(urls: Seq<SitemapUrlView>)
    requires
        forall|i: int| 0 <= i < urls.len() ==> holds_no_loc_tag(#[trigger] urls[i]),
    ensures
        occurrences_in(sitemap_head() + url_blocks(urls), loc_tag()) == urls.len(),
    decreases urls.len(),
{
    if urls.len() == 0 {
        lemma_fixed_pieces();
        let first = "<?xml version=\"1.0\" encoding=\"UTF-8\"?>\n"@;
        let second = "<urlset xmlns=\"http://www.sitemaps.org/schemas/sitemap/0.9\">\n"@;
        let nothing = Seq::<char>::empty();
        lemma_clear_piece_adds_none(nothing, first);
        lemma_clear_piece_adds_none(nothing + first, second);
        assert(nothing + first + second =~= sitemap_head() + url_blocks(urls));
        assert(occurrences_in(nothing, loc_tag()) == 0);
    } else {
        let rest = urls.drop_last();
        assert forall|i: int| 0 <= i < rest.len() implies holds_no_loc_tag(#[trigger] rest[i]) by {
            assert(rest[i] == urls[i]);
        }
        lemma_blocks_hold_one_each(rest);
        assert(holds_no_loc_tag(urls[urls.len() - 1]));
        lemma_block_adds_one(sitemap_head() + url_blocks(rest), urls.last());
        assert(sitemap_head() + url_blocks(rest) + url_block(urls.last()) =~= sitemap_head()
            + url_blocks(urls));
    }
}

/// A sitemap holds exactly one `<loc>` for each of its entries, provided that
/// no value of an entry holds a `<loc>` itself: values are written as they
/// stand, so one that does would be counted too.
pub proof fn lemma_sitemap_has_one_loc_per_url(urls: Seq<SitemapUrlView>)
    requires
        forall|i: int| 0 <= i < urls.len() ==> holds_no_loc_tag(#[trigger] urls[i]),
    ensures
        occurrences_in(sitemap_xml(urls), loc_tag()) == urls.len(),
{
    lemma_fixed_pieces();
    lemma_blocks_hold_one_each(urls);
    lemma_clear_piece_adds_none(sitemap_head() + url_blocks(urls), "</urlset>"@);
}

} // verus!
