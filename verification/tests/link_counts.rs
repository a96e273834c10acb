use scraper::Html;
use seo_analyzer::links::count_link_kinds;
use seo_analyzer::links::link_kind_of;
use seo_analyzer::links::LinkKind;
use seo_analyzer::SeoAnalyzer;
use url::Url;

fn kind_of(base: &str, href: Option<&str>) -> LinkKind {
    let base = Url::parse(base).unwrap();
    link_kind_of(&base, &href.map(|h| h.to_string()))
}

#[test]
fn relative_and_same_host_links_are_internal() {
    assert_eq!(kind_of("https://example.com/", Some("/a")), LinkKind::Internal);
    assert_eq!(kind_of("https://example.com/x/y", Some("../z")), LinkKind::Internal);
    assert_eq!(kind_of("https://example.com/", Some("https://example.com/b")), LinkKind::Internal);
    assert_eq!(kind_of("https://example.com/", Some("http://example.com:8080/b")), LinkKind::Internal);
    assert_eq!(kind_of("https://example.com/", Some("#top")), LinkKind::Internal);
    assert_eq!(kind_of("https://example.com/", Some("")), LinkKind::Internal);
}

#[test]
fn other_hosts_are_external() {
    assert_eq!(kind_of("https://example.com/", Some("https://other.com/c")), LinkKind::External);
    assert_eq!(kind_of("https://example.com/", Some("//cdn.example.com/x")), LinkKind::External);
    // No folding of a leading www.
    assert_eq!(kind_of("https://example.com/", Some("https://www.example.com/")), LinkKind::External);
}

#[test]
fn link_without_host_is_external_on_a_page_with_host() {
    assert_eq!(kind_of("https://example.com/", Some("mailto:x@y")), LinkKind::External);
    assert_eq!(kind_of("https://example.com/", Some("javascript:void(0)")), LinkKind::External);
}

#[test]
fn unresolvable_or_absent_reference_is_skipped() {
    assert_eq!(kind_of("https://example.com/", None), LinkKind::Skipped);
    assert_eq!(kind_of("https://example.com/", Some("https://exa mple.com/")), LinkKind::Skipped);
    assert_eq!(kind_of("mailto:x@y", Some("/relative")), LinkKind::Skipped);
}

#[test]
fn host_comparison_keeps_what_the_parser_made_of_the_host() {
    // The parser lowers the case of a domain, so these are the same host.
    assert_eq!(kind_of("https://example.com/", Some("https://EXAMPLE.com/")), LinkKind::Internal);
}

#[test]
fn counts_add_up_to_at_most_the_number_of_links() {
    let base = Url::parse("https://example.com/").unwrap();
    let hrefs = vec![
        Some(String::from("/a")),
        None,
        Some(String::from("https://other.com/")),
        Some(String::from("https://exa mple.com/")),
        Some(String::from("b")),
        Some(String::from("mailto:x@y")),
    ];
    let (internal, external) = count_link_kinds(&base, &hrefs);
    assert_eq!(internal, 2);
    assert_eq!(external, 2);
    assert!(internal + external <= hrefs.len());
    assert_eq!(count_link_kinds(&base, &Vec::new()), (0, 0));
}

#[test]
fn page_whose_links_all_leave_has_no_internal_link() {
    let doc = Html::parse_document(
        "<a href=\"https://a.org/\">1</a><a href=\"https://b.org/x\">2</a><a href=\"mailto:x@y\">3</a><a>no href</a>",
    );
    let counts = SeoAnalyzer::new().count_links(&doc, "https://example.com/").unwrap();
    assert_eq!(counts, (0, 3));
}

#[test]
fn anchors_without_href_are_not_links() {
    let doc = Html::parse_document("<a name=\"x\">1</a><a href=\"/y\">2</a>");
    let counts = SeoAnalyzer::new().count_links(&doc, "https://example.com/").unwrap();
    assert_eq!(counts, (1, 0));
}
