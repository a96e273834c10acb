//! The page analyzer: extraction of each signal from a parsed document, and
//! the assembly of the report.

use vstd::prelude::*;
use vstd::utf8::encode_utf8;
use scraper::Html;
use url::ParseError;
use url::Url;
use crate::dom::attributes_matching;
use crate::dom::element_attributes;
use crate::dom::element_texts;
use crate::dom::option_views;
use crate::dom::parsed_document;
use crate::dom::texts_matching;
use crate::issues::issues_for;
use crate::issues::score_for;
use crate::keywords::count_sum;
use crate::keywords::first_seen;
use crate::keywords::is_tally_of;
use crate::keywords::keyword_tokens;
use crate::links::LinkKind;
use crate::links::links_of_kind;
use crate::links::parsed_url;
use crate::report::KeywordCount;
use crate::report::SeoIssue;
use crate::report::SeoReport;
use crate::report::issue_views;
use crate::report::keyword_words;
use crate::report::option_view;
use crate::report::string_views;
use crate::text::trimmed;

verus! {

/// Why a page could not be analysed.
#[derive(Debug, PartialEq, Eq)]
pub enum AnalysisError {
    /// The address of the page is no absolute URL, so its links cannot be
    /// resolved.
    UrlParse(ParseError),
}

/// Each of `texts` without leading and trailing ASCII whitespace.
pub open spec fn trim_all(texts: Seq<Seq<char>>) -> Seq<Seq<char>> {
    texts.map_values(|text: Seq<char>| trimmed(text))
}

/// The title of a document: the trimmed text of its first `title` element.
pub open spec fn title_of(doc: Html) -> Option<Seq<char>> {
    let texts = texts_matching(doc, "title"@);
    if texts.len() == 0 {
        None
    } else {
        Some(trimmed(texts[0]))
    }
}

/// The meta description of a document: the `content` attribute, as it
/// stands, of the first `meta` element whose `name` is `description`.
pub open spec fn meta_description_of(doc: Html) -> Option<Seq<char>> {
    let contents = attributes_matching(doc, "meta[name='description']"@, "content"@);
    if contents.len() == 0 {
        None
    } else {
        contents[0]
    }
}

/// The trimmed texts of the `h1` elements of a document, in the order in
/// which they are selected.
pub open spec fn h1_tags_of(doc: Html) -> Seq<Seq<char>> {
    trim_all(texts_matching(doc, "h1"@))
}

/// The trimmed texts of the `h2` elements of a document, in the order in
/// which they are selected.
pub open spec fn h2_tags_of(doc: Html) -> Seq<Seq<char>> {
    trim_all(texts_matching(doc, "h2"@))
}

/// The texts, as they stand, of the JSON-LD `script` elements of a document.
pub open spec fn structured_data_of(doc: Html) -> Seq<Seq<char>> {
    texts_matching(doc, "script[type='application/ld+json']"@)
}

/// Whether an `alt` attribute is absent or empty.
pub open spec fn lacks_alt(alt: Option<Seq<char>>) -> bool {
    match alt {
        None => true,
        Some(text) => text.len() == 0,
    }
}

/// How many of `alts` are absent or empty.
pub open spec fn missing_alts(alts: Seq<Option<Seq<char>>>) -> nat
    decreases alts.len(),
{
    if alts.len() == 0 {
        0
    } else {
        missing_alts(alts.drop_last()) + if lacks_alt(alts.last()) {
            1nat
        } else {
            0nat
        }
    }
}

/// The number of `img` elements of a document without alternative text.
pub open spec fn images_without_alt_of(doc: Html) -> nat {
    missing_alts(attributes_matching(doc, "img"@, "alt"@))
}

/// The `href` values of the `a` elements of a document that have one.
pub open spec fn hrefs_of(doc: Html) -> Seq<Option<Seq<char>>> {
    attributes_matching(doc, "a[href]"@, "href"@)
}

/// The size of a page: the number of bytes of its text in UTF-8.
pub open spec fn page_size_of(html: Seq<char>) -> nat {
    encode_utf8(html).len()
}

/// `report` is the report on the page `html`, parsed as `doc`, at the address
/// `url`, which parses as `base`.
pub open spec fn is_report_of(
    report: SeoReport,
    url: Seq<char>,
    base: Url,
    doc: Html,
    html: Seq<char>,
) -> bool {
    &&& report.url@ == url
    &&& option_view(report.title) == title_of(doc)
    &&& option_view(report.meta_description) == meta_description_of(doc)
    &&& string_views(report.h1_tags@) == h1_tags_of(doc)
    &&& string_views(report.h2_tags@) == h2_tags_of(doc)
    &&& is_tally_of(report.keyword_counts@, keyword_tokens(html))
    &&& keyword_words(report.keyword_counts@) == first_seen(keyword_tokens(html))
    &&& count_sum(report.keyword_counts@) == report.keyword_total
    &&& report.keyword_total == keyword_tokens(html).len()
    &&& report.images_without_alt == images_without_alt_of(doc)
    &&& report.internal_links == links_of_kind(base, hrefs_of(doc), LinkKind::Internal)
    &&& report.external_links == links_of_kind(base, hrefs_of(doc), LinkKind::External)
    &&& report.page_size == Some(page_size_of(html) as u64)
    &&& string_views(report.structured_data@) == structured_data_of(doc)
    &&& issue_views(report.issues@) == issues_for(
        title_of(doc),
        meta_description_of(doc),
        h1_tags_of(doc).len(),
        images_without_alt_of(doc),
    )
    &&& report.score == score_for(issue_views(report.issues@))
}

/// Each of `texts`, trimmed.
fn trim_each(texts: &Vec<String>) -> (out: Vec<String>)
    ensures
        string_views(out@) == trim_all(string_views(texts@)),
{
    let mut out: Vec<String> = Vec::new();
    let mut i: usize = 0;
    while i < texts.len()
        invariant
            i <= texts.len(),
            out@.len() == i,
            forall|k: int| 0 <= k < i ==> (#[trigger] out@[k])@ == trimmed(texts@[k]@),
        decreases texts.len() - i,
    {
        out.push(crate::text::trim_ascii(texts[i].as_str()));
        i = i + 1;
    }
    assert(string_views(out@) =~= trim_all(string_views(texts@)));
    out
}

/// The analyzer of pages. It holds no state: each analysis stands alone.
#[derive(Debug, Clone, Copy)]
pub struct SeoAnalyzer {}

impl SeoAnalyzer {
    /// An analyzer.
    pub fn new() -> (analyzer: Self) {
        SeoAnalyzer {  }
    }

    /// The title of the document, if it has one.
    pub fn extract_title(&self, document: &Html) -> (title: Option<String>)
        ensures
            option_view(title) == title_of(*document),
    {
        let texts = element_texts(document, "title");
        if texts.len() == 0 {
            None
        } else {
            assert(string_views(texts@)[0] == texts@[0]@);
            Some(crate::text::trim_ascii(texts[0].as_str()))
        }
    }

    /// The meta description of the document, if it has one.
    pub fn extract_meta_description(&self, document: &Html) -> (description: Option<String>)
        ensures
            option_view(description) == meta_description_of(*document),
    {
        let mut contents = element_attributes(document, "meta[name='description']", "content");
        if contents.len() == 0 {
            None
        } else {
            assert(option_views(contents@)[0] == option_view(contents@[0]));
            contents.swap_remove(0)
        }
    }

    /// The first-level headings of the document.
    pub fn extract_h1_tags(&self, document: &Html) -> (tags: Vec<String>)
        ensures
            string_views(tags@) == h1_tags_of(*document),
    {
        let texts = element_texts(document, "h1");
        trim_each(&texts)
    }

    /// The second-level headings of the document.
    pub fn extract_h2_tags(&self, document: &Html) -> (tags: Vec<String>)
        ensures
            string_views(tags@) == h2_tags_of(*document),
    {
        let texts = element_texts(document, "h2");
        trim_each(&texts)
    }

    /// Each distinct counted word of the page with the number of times it
    /// occurs, and the number of counted words. The density of a word is its
    /// count divided by that number.
    pub fn count_keywords(&self, html_content: &str) -> (result: (
        Vec<KeywordCount>,
        usize,
    ))
        ensures
            is_tally_of(result.0@, keyword_tokens(html_content@)),
            keyword_words(result.0@) == first_seen(keyword_tokens(html_content@)),
            count_sum(result.0@) == result.1,
            result.1 == keyword_tokens(html_content@).len(),
    {
        crate::keywords::count_keywords(html_content)
    }

    /// The number of images without alternative text.
    pub fn count_images_without_alt(&self, document: &Html) -> (count: usize)
        ensures
            count == images_without_alt_of(*document),
    {
        let alts = element_attributes(document, "img", "alt");
        let ghost all = option_views(alts@);
        let mut count: usize = 0;
        let mut i: usize = 0;
        while i < alts.len()
            invariant
                i <= alts.len(),
                all == option_views(alts@),
                count == missing_alts(all.take(i as int)),
                count <= i,
            decreases alts.len() - i,
        {
            proof {
                assert(all.take(i + 1).drop_last() == all.take(i as int));
                assert(all.take(i + 1).last() == option_view(alts@[i as int]));
            }
            let lacking = match &alts[i] {
                None => true,
                Some(text) => text.as_str().is_empty(),
            };
            if lacking {
                count = count + 1;
            }
            i = i + 1;
        }
        assert(all.take(alts.len() as int) == all);
        count
    }

    /// The numbers of internal and of external links of the document, seen
    /// from the address `base_url`. Fails if and only if `base_url` is no
    /// absolute URL.
    pub fn count_links(&self, document: &Html, base_url: &str) -> (counts: Result<
        (usize, usize),
        AnalysisError,
    >)
        ensures
            match parsed_url(base_url@) {
                Ok(base) => counts is Ok && counts->Ok_0.0 == links_of_kind(
                    base,
                    hrefs_of(*document),
                    LinkKind::Internal,
                ) && counts->Ok_0.1 == links_of_kind(base, hrefs_of(*document), LinkKind::External),
                Err(error) => counts == Err::<(usize, usize), AnalysisError>(
                    AnalysisError::UrlParse(error),
                ),
            },
    {
        match crate::links::parse_url(base_url) {
            Ok(base) => {
                let hrefs = element_attributes(document, "a[href]", "href");
                Ok(crate::links::count_link_kinds(&base, &hrefs))
            },
            Err(error) => Err(AnalysisError::UrlParse(error)),
        }
    }

    /// The JSON-LD blocks of the document, as they stand.
    pub fn extract_structured_data(&self, document: &Html) -> (blocks: Vec<String>)
        ensures
            string_views(blocks@) == structured_data_of(*document),
    {
        element_texts(document, "script[type='application/ld+json']")
    }

    /// The issues that the rules find in the signals of `report`, in the
    /// order of the rules.
    pub fn generate_issues(&self, report: &SeoReport) -> (issues: Vec<SeoIssue>)
        ensures
            issue_views(issues@) == issues_for(
                option_view(report.title),
                option_view(report.meta_description),
                report.h1_tags@.len(),
                report.images_without_alt as nat,
            ),
    {
        crate::issues::issues_of_signals(
            &report.title,
            &report.meta_description,
            report.h1_tags.len(),
            report.images_without_alt,
        )
    }

    /// The score that the issues of `report` add up to.
    pub fn calculate_score(&self, report: &SeoReport) -> (score: u32)
        ensures
            score == score_for(issue_views(report.issues@)),
            score <= 100,
    {
        crate::issues::score_of_issues(&report.issues)
    }

    /// Analyses the page `html_content` that was fetched from `url`.
    ///
    /// Fails if and only if `url` is no absolute URL; otherwise the report
    /// holds every signal of the page, the issues that the rules find in
    /// them, and the score.
    pub fn analyze_html(&self, url: &str, html_content: &str) -> (result: Result<
        SeoReport,
        AnalysisError,
    >)
        ensures
            match parsed_url(url@) {
                Ok(base) => result is Ok && is_report_of(
                    result->Ok_0,
                    url@,
                    base,
                    parsed_document(html_content@),
                    html_content@,
                ),
                Err(error) => result == Err::<SeoReport, AnalysisError>(
                    AnalysisError::UrlParse(error),
                ),
            },
    {
        let document = crate::dom::parse_document(html_content);
        let (keyword_counts, keyword_total) = self.count_keywords(html_content);
        let mut report = SeoReport {
            url: String::from_str(url),
            title: self.extract_title(&document),
            meta_description: self.extract_meta_description(&document),
            h1_tags: self.extract_h1_tags(&document),
            h2_tags: self.extract_h2_tags(&document),
            keyword_counts,
            keyword_total,
            images_without_alt: self.count_images_without_alt(&document),
            internal_links: 0,
            external_links: 0,
            page_size: Some(html_content.as_bytes().len() as u64),
            structured_data: self.extract_structured_data(&document),
            issues: Vec::new(),
            score: 0,
        };
        match self.count_links(&document, url) {
            Ok((internal, external)) => {
                report.internal_links = internal;
                report.external_links = external;
            },
            Err(error) => {
                return Err(error);
            },
        }
        report.issues = self.generate_issues(&report);
        report.score = self.calculate_score(&report);
        Ok(report)
    }
}

/// The score of a report lies between zero and one hundred.
pub proof fn lemma_report_score_in_range(
    report: SeoReport,
    url: Seq<char>,
    base: Url,
    doc: Html,
    html: Seq<char>,
)
    requires
        is_report_of(report, url, base, doc, html),
    ensures
        0 <= report.score <= 100,
{
    crate::issues::lemma_score_is_full_less_penalties(issue_views(report.issues@));
}

/// A report has at most four issues, one for each rule.
pub proof fn lemma_report_issues_bounded(
    report: SeoReport,
    url: Seq<char>,
    base: Url,
    doc: Html,
    html: Seq<char>,
)
    requires
        is_report_of(report, url, base, doc, html),
    ensures
        report.issues@.len() <= 4,
{
    crate::issues::lemma_at_most_one_issue_per_rule(
        title_of(doc),
        meta_description_of(doc),
        h1_tags_of(doc).len(),
        images_without_alt_of(doc),
    );
    assert(issue_views(report.issues@).len() == report.issues@.len());
}

/// The report on a page without a `title` element has no title, and its
/// first issue is that of the missing title. A report has that issue exactly
/// if it has no title.
pub proof fn lemma_report_title_rule(
    report: SeoReport,
    url: Seq<char>,
    base: Url,
    doc: Html,
    html: Seq<char>,
)
    requires
        is_report_of(report, url, base, doc, html),
    ensures
        texts_matching(doc, "title"@).len() == 0 ==> report.title is None && issue_views(
            report.issues@,
        )[0] == crate::issues::title_missing(),
        report.title is None <==> issue_views(report.issues@).contains(
            crate::issues::title_missing(),
        ),
{
    crate::issues::lemma_title_missing_iff_reported(
        title_of(doc),
        meta_description_of(doc),
        h1_tags_of(doc).len(),
        images_without_alt_of(doc),
    );
}

/// A report has the issue of the missing first-level heading exactly if it
/// lists no such heading. The report on a page with exactly one `h1` element
/// has no issue about headings, whatever the text of that element.
pub proof fn lemma_report_heading_rule(
    report: SeoReport,
    url: Seq<char>,
    base: Url,
    doc: Html,
    html: Seq<char>,
)
    requires
        is_report_of(report, url, base, doc, html),
    ensures
        report.h1_tags@.len() == 0 <==> issue_views(report.issues@).contains(
            crate::issues::h1_missing(),
        ),
        texts_matching(doc, "h1"@).len() == 1 ==> !issue_views(report.issues@).contains(
            crate::issues::h1_missing(),
        ) && !issue_views(report.issues@).contains(crate::issues::multiple_h1()),
{
    crate::issues::lemma_h1_missing_iff_reported(
        title_of(doc),
        meta_description_of(doc),
        h1_tags_of(doc).len(),
        images_without_alt_of(doc),
    );
    assert(string_views(report.h1_tags@).len() == report.h1_tags@.len());
    if texts_matching(doc, "h1"@).len() == 1 {
        crate::issues::lemma_single_h1_has_no_heading_issue(
            title_of(doc),
            meta_description_of(doc),
            images_without_alt_of(doc),
        );
    }
}

/// The links that a report counts are at most the `a` elements with an
/// `href`. If each of them resolves to a host other than that of the page, the
/// report counts no internal link and counts them all as external.
pub proof fn lemma_report_link_counts(
    report: SeoReport,
    url: Seq<char>,
    base: Url,
    doc: Html,
    html: Seq<char>,
)
    requires
        is_report_of(report, url, base, doc, html),
    ensures
        report.internal_links + report.external_links <= hrefs_of(doc).len(),
        (forall|i: int|
            0 <= i < hrefs_of(doc).len() ==> (#[trigger] hrefs_of(doc)[i]) is Some
                && crate::links::joined_url(base, hrefs_of(doc)[i]->Some_0) is Some
                && crate::links::url_host(
                crate::links::joined_url(base, hrefs_of(doc)[i]->Some_0)->Some_0,
            ) != crate::links::url_host(base)) ==> report.internal_links == 0
            && report.external_links == hrefs_of(doc).len(),
{
    crate::links::lemma_kinds_partition(base, hrefs_of(doc));
    if forall|i: int|
        0 <= i < hrefs_of(doc).len() ==> (#[trigger] hrefs_of(doc)[i]) is Some
            && crate::links::joined_url(base, hrefs_of(doc)[i]->Some_0) is Some
            && crate::links::url_host(
            crate::links::joined_url(base, hrefs_of(doc)[i]->Some_0)->Some_0,
        ) != crate::links::url_host(base) {
        crate::links::lemma_all_links_external(base, hrefs_of(doc));
    }
}

} // verus!
