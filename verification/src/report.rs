//! The value types of an analysis and their mathematical views.

use vstd::prelude::*;

verus! {

/// How much an issue weighs on the score.
#[derive(Debug, Clone, Copy, PartialEq, Eq, Hash, Structural)]
pub enum IssueSeverity {
    Critical,
    Warning,
    Info,
}

/// One finding of the rules, with the advice that goes with it.
#[derive(Debug, Clone, PartialEq, Eq)]
pub struct SeoIssue {
    pub severity: IssueSeverity,
    pub message: String,
    pub recommendation: String,
}

/// What an issue says, as plain sequences of characters.
pub ghost struct IssueView {
    pub severity: IssueSeverity,
    pub message: Seq<char>,
    pub recommendation: Seq<char>,
}

impl View for SeoIssue {
    type V = IssueView;

    open spec fn view(&self) -> IssueView {
        IssueView {
            severity: self.severity,
            message: self.message@,
            recommendation: self.recommendation@,
        }
    }
}

/// The views of a list of issues, in order.
pub open spec fn issue_views(issues: Seq<SeoIssue>) -> Seq<IssueView> {
    issues.map_values(|issue: SeoIssue| issue@)
}

/// The views of a list of strings, in order.
pub open spec fn string_views(strings: Seq<String>) -> Seq<Seq<char>> {
    strings.map_values(|s: String| s@)
}

/// The view of an optional string.
pub open spec fn option_view(s: Option<String>) -> Option<Seq<char>> {
    match s {
        Some(text) => Some(text@),
        None => None,
    }
}

/// A word of the page and how often it occurs among the counted words.
#[derive(Debug, Clone, PartialEq, Eq)]
pub struct KeywordCount {
    pub word: String,
    pub count: usize,
}

/// The words of a list of keyword counts, in order.
pub open spec fn keyword_words(entries: Seq<KeywordCount>) -> Seq<Seq<char>> {
    entries.map_values(|entry: KeywordCount| entry.word@)
}

/// The result of analysing one page.
///
/// `keyword_counts` holds each distinct counted word once, with its number of
/// occurrences; `keyword_total` is the number of counted words. The share of a
/// word is its count divided by the total.
#[derive(Debug, Clone, PartialEq, Eq)]
pub struct SeoReport {
    pub url: String,
    pub title: Option<String>,
    pub meta_description: Option<String>,
    pub h1_tags: Vec<String>,
    pub h2_tags: Vec<String>,
    pub keyword_counts: Vec<KeywordCount>,
    pub keyword_total: usize,
    pub images_without_alt: usize,
    pub internal_links: usize,
    pub external_links: usize,
    pub page_size: Option<u64>,
    pub structured_data: Vec<String>,
    pub issues: Vec<SeoIssue>,
    pub score: u32,
}

} // verus!
