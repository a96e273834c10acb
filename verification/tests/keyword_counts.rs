use seo_analyzer::keywords::count_keywords;
use seo_analyzer::keywords::split_keywords;
use seo_analyzer::keywords::tally;
use seo_analyzer::KeywordCount;
use seo_analyzer::SeoAnalyzer;

fn sorted(entries: &[KeywordCount]) -> Vec<(String, usize)> {
    let mut pairs: Vec<(String, usize)> =
        entries.iter().map(|k| (k.word.clone(), k.count)).collect();
    pairs.sort();
    pairs
}

fn strings(words: &[&str]) -> Vec<String> {
    words.iter().map(|w| w.to_string()).collect()
}

#[test]
fn keyword_density_on_tiny_input() {
    let (entries, total) = count_keywords("alpha beta alpha gamma");
    assert_eq!(total, 4);
    assert_eq!(
        sorted(&entries),
        vec![(String::from("alpha"), 2), (String::from("beta"), 1), (String::from("gamma"), 1)]
    );
    for entry in entries.iter() {
        let density = (entry.count as f32 / total as f32) * 100.0;
        let expected = if entry.word == "alpha" { 50.0 } else { 25.0 };
        assert_eq!(density, expected);
    }
}

#[test]
fn keyword_densities_sum_to_one_hundred() {
    let pages = [
        "alpha beta alpha gamma",
        "<html><head><title>Some page about pages</title></head><body>three words here, three words there and seven more words</body></html>",
        "one1 two2 three3 four4 five5 six6 seven7 one1 two2 one1",
    ];
    for html in pages {
        let (entries, total) = SeoAnalyzer::new().count_keywords(html);
        assert!(total > 0);
        let counted: usize = entries.iter().map(|k| k.count).sum();
        assert_eq!(counted, total);
        let sum: f32 = entries.iter().map(|k| (k.count as f32 / total as f32) * 100.0).sum();
        assert!((sum - 100.0).abs() < 1e-3);
    }
}

#[test]
fn page_without_counted_word_has_no_keyword() {
    assert_eq!(count_keywords(""), (Vec::new(), 0));
    assert_eq!(count_keywords("a bc def"), (Vec::new(), 0));
    assert_eq!(count_keywords("  \n\t "), (Vec::new(), 0));
    assert_eq!(count_keywords("<> !? ..."), (Vec::new(), 0));
}

#[test]
fn words_are_split_at_whitespace_after_dropping_other_characters() {
    assert_eq!(split_keywords("don't stop-me now!"), strings(&["dont", "stopme"]));
    assert_eq!(split_keywords("<title>Page</title>"), strings(&["titlepagetitle"]));
    assert_eq!(split_keywords("<p class=\"lead\">Text here</p>"), strings(&["classleadtext", "herep"]));
    assert_eq!(split_keywords("word\u{2003}other\u{A0}third"), strings(&["word", "other", "third"]));
    assert_eq!(split_keywords("tabs\tand\nlines\r\nhere"), strings(&["tabs", "lines", "here"]));
}

#[test]
fn words_of_up_to_three_characters_are_left_out() {
    assert_eq!(split_keywords("a ab abc abcd abcde"), strings(&["abcd", "abcde"]));
    // Three characters of two bytes each are still three characters.
    assert_eq!(split_keywords("ééé éééé"), strings(&["éééé"]));
    // Punctuation does not lengthen a word.
    assert_eq!(split_keywords("a.b.c a.b.c.d"), strings(&["abcd"]));
}

#[test]
fn counted_words_are_put_in_lower_case() {
    assert_eq!(split_keywords("Alpha ALPHA alpha ÉCOLE"), strings(&["alpha", "alpha", "alpha", "école"]));
    let (entries, total) = count_keywords("Alpha ALPHA alpha");
    assert_eq!(total, 3);
    assert_eq!(sorted(&entries), vec![(String::from("alpha"), 3)]);
}

#[test]
fn tally_holds_each_word_once_with_its_count() {
    let tokens = strings(&["beta", "alpha", "beta", "gamma", "beta", "alpha"]);
    let entries = tally(&tokens);
    assert_eq!(
        sorted(&entries),
        vec![(String::from("alpha"), 2), (String::from("beta"), 3), (String::from("gamma"), 1)]
    );
    assert_eq!(tally(&Vec::new()), Vec::new());
}

#[test]
fn tally_lists_words_in_the_order_of_their_first_occurrence() {
    let tokens = strings(&["beta", "alpha", "beta", "gamma", "beta", "alpha"]);
    let words: Vec<String> = tally(&tokens).into_iter().map(|k| k.word).collect();
    assert_eq!(words, strings(&["beta", "alpha", "gamma"]));
    let (entries, _) = count_keywords("gamma alpha gamma beta alpha");
    let words: Vec<String> = entries.into_iter().map(|k| k.word).collect();
    assert_eq!(words, strings(&["gamma", "alpha", "beta"]));
}
