use seo_analyzer::SitemapGenerator;
use seo_analyzer::SitemapUrl;

fn entry(
    loc: &str,
    lastmod: Option<&str>,
    changefreq: Option<&str>,
    priority: Option<f32>,
) -> SitemapUrl {
    SitemapUrl {
        loc: String::from(loc),
        lastmod: lastmod.map(String::from),
        changefreq: changefreq.map(String::from),
        priority: priority.map(|p| format!("{:.1}", p)),
    }
}

fn count_of(text: &str, pattern: &str) -> usize {
    let mut count = 0;
    let mut at = 0;
    while at + pattern.len() <= text.len() {
        if text.is_char_boundary(at) && text[at..].starts_with(pattern) {
            count += 1;
        }
        at += 1;
    }
    count
}

#[test]
fn sitemap_generation() {
    let urls = vec![
        entry("https://a/", Some("2024-01-01"), None, Some(0.5)),
        entry("https://b/", None, None, None),
    ];
    let xml = SitemapGenerator::generate_xml(&urls);
    let lines: Vec<&str> = xml.split('\n').collect();
    assert!(lines.contains(&"    <loc>https://a/</loc>"));
    assert!(lines.contains(&"    <lastmod>2024-01-01</lastmod>"));
    assert!(lines.contains(&"    <priority>0.5</priority>"));
    assert!(!xml.contains("<changefreq>"));
    assert_eq!(
        xml,
        "<?xml version=\"1.0\" encoding=\"UTF-8\"?>\n<urlset xmlns=\"http://www.sitemaps.org/schemas/sitemap/0.9\">\n  <url>\n    <loc>https://a/</loc>\n    <lastmod>2024-01-01</lastmod>\n    <priority>0.5</priority>\n  </url>\n  <url>\n    <loc>https://b/</loc>\n  </url>\n</urlset>"
    );
}

#[test]
fn sitemap_of_no_url_is_an_empty_set() {
    let xml = SitemapGenerator::generate_xml(&[]);
    assert_eq!(
        xml,
        "<?xml version=\"1.0\" encoding=\"UTF-8\"?>\n<urlset xmlns=\"http://www.sitemaps.org/schemas/sitemap/0.9\">\n</urlset>"
    );
    assert_eq!(count_of(&xml, "<loc>"), 0);
}

#[test]
fn sitemap_writes_every_child_in_order() {
    let urls = vec![entry("https://a/x", Some("2024-02-03"), Some("weekly"), Some(1.0))];
    let xml = SitemapGenerator::generate_xml(&urls);
    assert_eq!(
        xml,
        "<?xml version=\"1.0\" encoding=\"UTF-8\"?>\n<urlset xmlns=\"http://www.sitemaps.org/schemas/sitemap/0.9\">\n  <url>\n    <loc>https://a/x</loc>\n    <lastmod>2024-02-03</lastmod>\n    <changefreq>weekly</changefreq>\n    <priority>1.0</priority>\n  </url>\n</urlset>"
    );
    assert!(!xml.ends_with('\n'));
}

#[test]
fn sitemap_has_one_loc_for_each_url() {
    for n in 0..12usize {
        let mut urls = Vec::new();
        for i in 0..n {
            let lastmod = if i % 2 == 0 { Some("2024-01-01") } else { None };
            let changefreq = if i % 3 == 0 { Some("daily") } else { None };
            let priority = if i % 4 == 0 { Some(0.25 * (i % 5) as f32) } else { None };
            urls.push(entry(&format!("https://example.com/{}", i), lastmod, changefreq, priority));
        }
        let xml = SitemapGenerator::generate_xml(&urls);
        assert_eq!(count_of(&xml, "<loc>"), n);
        assert_eq!(count_of(&xml, "</loc>"), n);
        assert_eq!(count_of(&xml, "  <url>\n"), n);
    }
}

#[test]
fn sitemap_values_are_not_escaped() {
    let urls = vec![entry("https://a/?x=1&y=<2>", None, Some("a&b"), None)];
    let xml = SitemapGenerator::generate_xml(&urls);
    assert!(xml.contains("    <loc>https://a/?x=1&y=<2></loc>\n"));
    assert!(xml.contains("    <changefreq>a&b</changefreq>\n"));
    // A value that holds the tag itself is counted along with the real one.
    let urls = vec![entry("<loc>", None, None, None)];
    let xml = SitemapGenerator::generate_xml(&urls);
    assert_eq!(count_of(&xml, "<loc>"), 2);
}
