use st_narrative::sources::social::{
    count_relevant, digest_headlines, digest_page, find_headlines, headlines, holds_keyword,
    is_relevant_title, selectors, sort_titles,
};
use st_narrative::text::{comes_before, contains, decimal, join, trim};

fn strings(items: &[&str]) -> Vec<String> {
    items.iter().map(|s| s.to_string()).collect()
}

fn chars(s: &str) -> Vec<char> {
    s.chars().collect()
}

#[test]
fn numbers_are_written_in_decimal() {
    for n in [0u64, 1, 9, 10, 11, 99, 100, 101, 12345, 1_000_000, u64::MAX] {
        assert_eq!(decimal(n), n.to_string());
    }
}

#[test]
fn parts_are_joined_with_the_separator_between() {
    assert_eq!(join(&strings(&[]), "; "), "");
    assert_eq!(join(&strings(&["a"]), "; "), "a");
    assert_eq!(join(&strings(&["a", "b", "c"]), "; "), "a; b; c");
    assert_eq!(join(&strings(&["", ""]), "-"), "-");
}

#[test]
fn trim_agrees_with_the_standard_library() {
    for text in ["", "  a b  ", "\n\tx\r\n", "\u{a0}é\u{3000}", "   ", "plain"] {
        assert_eq!(trim(text), text.trim());
    }
}

#[test]
fn contains_agrees_with_the_standard_library() {
    for text in ["", "solana", "the sol token", "consolation", "web 3", "WEB3"] {
        for word in ["sol", "web3", "token", ""] {
            assert_eq!(contains(&chars(text), &chars(word)), text.contains(word), "{:?} {:?}", text, word);
        }
    }
}

#[test]
fn the_order_of_texts_is_the_order_of_strings() {
    let texts = ["", "a", "A", "ab", "abc", "abd", "b", "é", "z", "zz", "Z", "日本", "a b", "a-b", "😀", "\u{ffff}"];
    for a in texts {
        for b in texts {
            assert_eq!(comes_before(&chars(a), &chars(b)), a < b, "{:?} {:?}", a, b);
        }
    }
}

#[test]
fn selectors_come_most_specific_first() {
    assert_eq!(
        selectors(),
        vec![
            "article h2 a",
            "article h3 a",
            ".post-title a",
            "h2.entry-title a",
            "a[class*='title']",
            "h2 a",
            "h3 a",
        ]
    );
}

#[test]
fn headlines_are_trimmed_and_long_enough() {
    let texts = strings(&["  Solana news  ", "short", "  tiny ", "\n\tValidators\n", "", "123456", "ééé"]);
    assert_eq!(headlines(&texts), strings(&["Solana news", "Validators", "123456", "ééé"]));
}

#[test]
fn titles_are_sorted_and_listed_once() {
    let titles = strings(&["pear", "apple", "fig", "apple", "Zebra", "pear", "fig", "apple pie"]);
    let mut expected = titles.clone();
    expected.sort();
    expected.dedup();
    assert_eq!(sort_titles(&titles), expected);
    assert_eq!(sort_titles(&titles), strings(&["Zebra", "apple", "apple pie", "fig", "pear"]));
    assert!(sort_titles(&Vec::new()).is_empty());
}

#[test]
fn keywords_are_found_inside_words_and_whatever_the_case() {
    assert!(holds_keyword("solana validators"));
    assert!(holds_keyword("a consolation prize"));
    assert!(holds_keyword("nfts"));
    assert!(!holds_keyword("rust release notes"));
    assert!(!holds_keyword("SOLANA"));
    assert!(is_relevant_title("SOLANA"));
    assert!(is_relevant_title("New Staking Rewards"));
    assert!(is_relevant_title("Web3 is here"));
    assert!(!is_relevant_title("Rust release notes"));
    assert_eq!(
        count_relevant(&strings(&["DeFi summer", "Cooking", "Blockchain basics", "Gardening"])),
        2
    );
}

#[test]
fn a_page_without_titles_gives_no_digest() {
    assert!(digest_headlines("Helius", &Vec::new()).is_none());
    assert!(digest_page("Helius", "<html><body><p>nothing here</p></body></html>").is_none());
    assert!(digest_page("Helius", "").is_none());
}

#[test]
fn a_digest_counts_and_quotes_the_titles() {
    let found = strings(&["Staking guide", "About us now", "Staking guide", "Token launch"]);
    let d = digest_headlines("Helius", &found).unwrap();
    assert_eq!(d.category, "Blog: Helius");
    assert_eq!(d.title, "Helius: 3 recent articles (2 Solana-related)");
    assert_eq!(d.description, "Recent topics: About us now; Staking guide; Token launch");
    assert_eq!(d.total_articles, 3);
    assert_eq!(d.solana_relevant, 2);
}

#[test]
fn a_digest_quotes_ten_titles_at_most() {
    let found: Vec<String> = (0..12).map(|n| format!("Article {:02}", n)).collect();
    let d = digest_headlines("B", &found).unwrap();
    assert_eq!(d.total_articles, 12);
    assert_eq!(d.solana_relevant, 0);
    assert_eq!(d.title, "B: 12 recent articles (0 Solana-related)");
    assert_eq!(
        d.description,
        "Recent topics: Article 00; Article 01; Article 02; Article 03; Article 04; Article 05; Article 06; Article 07; Article 08; Article 09"
    );
}

#[test]
fn titles_are_taken_from_the_first_selector_that_finds_any() {
    let page = "<html><body>\
        <article><h3><a href=\"/a\">  Solana validators explained </a></h3></article>\
        <article><h3><a href=\"/b\">Tiny</a></h3></article>\
        <h2><a href=\"/c\">An unrelated heading</a></h2>\
        <article><h3><a href=\"/d\">Token <b>extensions</b> arrive</a></h3></article>\
        </body></html>";
    assert_eq!(
        find_headlines(page),
        strings(&["Solana validators explained", "Token extensions arrive"])
    );
    let d = digest_page("Chain Blog", page).unwrap();
    assert_eq!(d.category, "Blog: Chain Blog");
    assert_eq!(d.title, "Chain Blog: 2 recent articles (2 Solana-related)");
    assert_eq!(
        d.description,
        "Recent topics: Solana validators explained; Token extensions arrive"
    );
}

#[test]
fn a_later_selector_is_tried_when_the_earlier_find_nothing_long_enough() {
    let page = "<html><body>\
        <article><h2><a href=\"/a\">Tiny</a></h2></article>\
        <h3><a href=\"/b\">Weekly ecosystem report</a></h3>\
        <h3><a href=\"/c\">Another weekly report</a></h3>\
        </body></html>";
    assert_eq!(
        find_headlines(page),
        strings(&["Weekly ecosystem report", "Another weekly report"])
    );
    let d = digest_page("W", page).unwrap();
    assert_eq!(d.total_articles, 2);
    assert_eq!(d.solana_relevant, 0);
    assert_eq!(d.description, "Recent topics: Another weekly report; Weekly ecosystem report");
}

#[test]
fn links_with_a_title_class_are_found() {
    let page = "<div><a class=\"card-title big\" href=\"/x\">Crypto markets today</a></div>";
    assert_eq!(find_headlines(page), strings(&["Crypto markets today"]));
}
