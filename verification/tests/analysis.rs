use scraper::Html;
use seo_analyzer::AnalysisError;
use seo_analyzer::IssueSeverity;
use seo_analyzer::SeoAnalyzer;
use seo_analyzer::SeoIssue;

const PAGE_URL: &str = "https://example.com/";

fn expect(severity: IssueSeverity, message: &str, recommendation: &str) -> SeoIssue {
    SeoIssue {
        severity,
        message: String::from(message),
        recommendation: String::from(recommendation),
    }
}

fn title_missing() -> SeoIssue {
    expect(
        IssueSeverity::Critical,
        "Título ausente",
        "Adicione um título à página usando a tag <title>",
    )
}

fn description_missing() -> SeoIssue {
    expect(
        IssueSeverity::Critical,
        "Meta description ausente",
        "Adicione uma meta description à página",
    )
}

fn h1_missing() -> SeoIssue {
    expect(IssueSeverity::Critical, "Tag H1 ausente", "Adicione pelo menos uma tag H1 à página")
}

#[test]
fn perfect_page_has_no_issue_and_full_score() {
    let html = "<html><head><title>Exactly thirty-five character title.</title><meta name=\"description\" content=\"A compliant description of at least one hundred and twenty characters in length that is also shorter than one hundred sixty.\"></head><body><h1>Only H1</h1><img src=\"a\" alt=\"x\"></body></html>";
    let report = SeoAnalyzer::new().analyze_html(PAGE_URL, html).unwrap();
    assert_eq!(report.issues, Vec::new());
    assert_eq!(report.score, 100);
    assert_eq!(report.url, PAGE_URL);
    assert_eq!(report.title, Some(String::from("Exactly thirty-five character title.")));
    assert_eq!(
        report.meta_description,
        Some(String::from(
            "A compliant description of at least one hundred and twenty characters in length that is also shorter than one hundred sixty."
        ))
    );
    assert_eq!(report.h1_tags, vec![String::from("Only H1")]);
    assert_eq!(report.h2_tags, Vec::<String>::new());
    assert_eq!(report.images_without_alt, 0);
    assert_eq!(report.internal_links, 0);
    assert_eq!(report.external_links, 0);
    assert_eq!(report.page_size, Some(html.len() as u64));
    assert_eq!(report.structured_data, Vec::<String>::new());
}

#[test]
fn page_without_title_description_and_heading() {
    let html = "<html><body><img src=\"a\"></body></html>";
    let report = SeoAnalyzer::new().analyze_html(PAGE_URL, html).unwrap();
    assert_eq!(
        report.issues,
        vec![
            title_missing(),
            description_missing(),
            h1_missing(),
            expect(
                IssueSeverity::Warning,
                "1 imagens sem texto alternativo",
                "Adicione texto alternativo a todas as imagens",
            ),
        ]
    );
    assert_eq!(report.score, 30);
    assert_eq!(report.title, None);
    assert_eq!(report.meta_description, None);
    assert_eq!(report.images_without_alt, 1);
}

#[test]
fn two_first_level_headings_and_a_short_title() {
    let html = "<title>Short</title><h1>A</h1><h1>B</h1>";
    let report = SeoAnalyzer::new().analyze_html(PAGE_URL, html).unwrap();
    assert_eq!(
        report.issues,
        vec![
            expect(
                IssueSeverity::Warning,
                "Título muito curto",
                "O título deve ter pelo menos 30 caracteres",
            ),
            description_missing(),
            expect(IssueSeverity::Warning, "Múltiplas tags H1", "Use apenas uma tag H1 por página"),
        ]
    );
    assert_eq!(report.score, 60);
    assert_eq!(report.h1_tags, vec![String::from("A"), String::from("B")]);
}

#[test]
fn links_are_classified_by_host() {
    let html = "<a href=\"/a\">a</a><a href=\"https://example.com/b\">b</a><a href=\"https://other.com/c\">c</a><a href=\"mailto:x@y\">d</a>";
    let report = SeoAnalyzer::new().analyze_html(PAGE_URL, html).unwrap();
    assert_eq!(report.internal_links, 2);
    assert_eq!(report.external_links, 2);
}

#[test]
fn address_that_is_no_url_is_an_error() {
    let html = "<title>t</title><a href=\"/a\">a</a>";
    let result = SeoAnalyzer::new().analyze_html("not a url", html);
    assert!(matches!(result, Err(AnalysisError::UrlParse(_))));
    let doc = Html::parse_document(html);
    let counts = SeoAnalyzer::new().count_links(&doc, "/relative/only");
    assert_eq!(
        counts,
        Err(AnalysisError::UrlParse(url::ParseError::RelativeUrlWithoutBase))
    );
}

#[test]
fn page_without_title_always_reports_it_first() {
    let pages = [
        "",
        "<h1>x</h1>",
        "<html><head><meta name=\"description\" content=\"d\"></head><body><p>t</p></body></html>",
        "<body><h1>a</h1><h1>b</h1><img src=x></body>",
    ];
    for html in pages {
        let report = SeoAnalyzer::new().analyze_html(PAGE_URL, html).unwrap();
        assert_eq!(report.title, None);
        assert_eq!(report.issues[0], title_missing());
        assert!(report.score <= 100);
        assert!(report.issues.len() <= 4);
    }
}

#[test]
fn page_with_one_heading_has_no_heading_issue() {
    let pages = ["<h1>One</h1>", "<title>t</title><h1> spaced </h1><h2>x</h2>", "<h1>é</h1><img>"];
    for html in pages {
        let report = SeoAnalyzer::new().analyze_html(PAGE_URL, html).unwrap();
        assert_eq!(report.h1_tags.len(), 1);
        for issue in report.issues.iter() {
            assert_ne!(issue.message, "Tag H1 ausente");
            assert_ne!(issue.message, "Múltiplas tags H1");
        }
    }
}

#[test]
fn report_with_heading_lacks_the_missing_heading_issue() {
    let with = SeoAnalyzer::new().analyze_html(PAGE_URL, "<h1>x</h1>").unwrap();
    assert!(!with.issues.contains(&h1_missing()));
    let without = SeoAnalyzer::new().analyze_html(PAGE_URL, "<h2>x</h2>").unwrap();
    assert!(without.h1_tags.is_empty());
    assert!(without.issues.contains(&h1_missing()));
}

#[test]
fn title_is_the_trimmed_text_of_the_first_title() {
    let analyzer = SeoAnalyzer::new();
    let doc = Html::parse_document("<title>  First \n</title><body><svg><title>Second</title></svg>");
    assert_eq!(analyzer.extract_title(&doc), Some(String::from("First")));
    let doc = Html::parse_document("<title></title>");
    assert_eq!(analyzer.extract_title(&doc), Some(String::new()));
    let doc = Html::parse_document("<p>no title</p>");
    assert_eq!(analyzer.extract_title(&doc), None);
}

#[test]
fn meta_description_is_taken_as_it_stands() {
    let analyzer = SeoAnalyzer::new();
    let doc = Html::parse_document(
        "<meta name=\"description\" content=\"  padded  \"><meta name=\"description\" content=\"second\">",
    );
    assert_eq!(analyzer.extract_meta_description(&doc), Some(String::from("  padded  ")));
    // The name is compared as it is written: another case is another name.
    let doc = Html::parse_document("<meta name=\"Description\" content=\"x\">");
    assert_eq!(analyzer.extract_meta_description(&doc), None);
    // A first matching element without content gives nothing.
    let doc = Html::parse_document(
        "<meta name=\"description\"><meta name=\"description\" content=\"late\">",
    );
    assert_eq!(analyzer.extract_meta_description(&doc), None);
    let doc = Html::parse_document("<meta name=\"keywords\" content=\"x\">");
    assert_eq!(analyzer.extract_meta_description(&doc), None);
}

#[test]
fn headings_are_trimmed_and_in_document_order() {
    let analyzer = SeoAnalyzer::new();
    let doc = Html::parse_document(
        "<h1> One </h1><h2>\tA\n</h2><div><h1>Two <b>bold</b></h1><h2>B</h2></div><h3>no</h3>",
    );
    assert_eq!(analyzer.extract_h1_tags(&doc), vec![String::from("One"), String::from("Two bold")]);
    assert_eq!(analyzer.extract_h2_tags(&doc), vec![String::from("A"), String::from("B")]);
}

#[test]
fn images_count_when_alt_is_absent_or_empty() {
    let analyzer = SeoAnalyzer::new();
    let doc = Html::parse_document(
        "<img src=a><img src=b alt=\"\"><img src=c alt=\" \"><img src=d alt=\"text\"><img alt>",
    );
    assert_eq!(analyzer.count_images_without_alt(&doc), 3);
    let doc = Html::parse_document("<p>none</p>");
    assert_eq!(analyzer.count_images_without_alt(&doc), 0);
}

#[test]
fn structured_data_is_kept_as_it_stands() {
    let analyzer = SeoAnalyzer::new();
    let doc = Html::parse_document(
        "<script type=\"application/ld+json\"> {\"a\": 1} </script><script>var x;</script><script type=\"application/ld+json\">not json</script>",
    );
    assert_eq!(
        analyzer.extract_structured_data(&doc),
        vec![String::from(" {\"a\": 1} "), String::from("not json")]
    );
}

#[test]
fn page_size_is_the_number_of_bytes() {
    let html = "<title>é</title>";
    let report = SeoAnalyzer::new().analyze_html(PAGE_URL, html).unwrap();
    assert_eq!(report.page_size, Some(17));
}

#[test]
fn report_carries_keyword_counts_of_the_raw_text() {
    let report = SeoAnalyzer::new().analyze_html(PAGE_URL, "<title>Alpha</title>").unwrap();
    // The markup counts too: the tag name occurs twice.
    let mut words: Vec<(String, usize)> =
        report.keyword_counts.iter().map(|k| (k.word.clone(), k.count)).collect();
    words.sort();
    assert_eq!(words, vec![(String::from("titlealphatitle"), 1)]);
    assert_eq!(report.keyword_total, 1);
}
