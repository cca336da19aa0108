use animedl::anikuro::{pick_best_match, url_encode, SearchItem, TitleObj};
use animedl::html::{decode_entities, strip_tags};
use animedl::matching::{levenshtein, norm, pick_best_quality, rank_quality};

fn item(id: i64, english: Option<&str>, romaji: Option<&str>) -> SearchItem {
    SearchItem {
        anilist_id: Some(id),
        title: Some(TitleObj {
            romaji: romaji.map(|s| s.to_string()),
            english: english.map(|s| s.to_string()),
            native: None,
            user_preferred: None,
        }),
    }
}

#[test]
fn edit_distance_counts_characters() {
    assert_eq!(levenshtein("kitten", "sitting"), 3);
    assert_eq!(levenshtein("", "abc"), 3);
    assert_eq!(levenshtein("été", "ete"), 2);
    assert_eq!(levenshtein("same", "same"), 0);
}

#[test]
fn titles_are_normalised_to_words() {
    let n: String = norm("  Hello,   World!! ").into_iter().collect();
    assert_eq!(n, "hello world");
    let n: String = norm("Re:Zero — Kara").into_iter().collect();
    assert_eq!(n, "rezero kara");
}

#[test]
fn query_strings_are_percent_encoded() {
    assert_eq!(url_encode("a b/é~"), "a%20b%2F%C3%A9~");
    assert_eq!(url_encode("One-Piece_1.0"), "One-Piece_1.0");
}

#[test]
fn the_closest_title_is_chosen_within_the_threshold() {
    let items = vec![item(1, Some("Bleach"), None), item(2, None, Some("Naruto"))];
    assert_eq!(pick_best_match(&items, "Naruto", &Vec::new()), Some(1));
    let far = vec![item(1, Some("Completely Different Show"), None)];
    assert_eq!(pick_best_match(&far, "Naruto", &Vec::new()), None);
    assert_eq!(pick_best_match(&items, "  ", &Vec::new()), None);
    let alts = vec!["Bleach".to_string()];
    assert_eq!(pick_best_match(&vec![item(1, Some("Bleach"), None)], "Zzzzzzzzzzzzz", &alts), Some(0));
    let t = TitleObj {
        romaji: Some("R".to_string()),
        english: Some("E".to_string()),
        native: Some(String::new()),
        user_preferred: Some("U".to_string()),
    };
    assert_eq!(t.all_titles(), vec!["E".to_string(), "R".to_string(), "U".to_string()]);
}

#[test]
fn the_best_quality_is_the_last_of_the_highest_rank() {
    let q = |xs: &[Option<&str>]| xs.iter().map(|o| o.map(|s| s.to_string())).collect::<Vec<Option<String>>>();
    assert_eq!(rank_quality(&Some("1080p".to_string()), false), 100);
    assert_eq!(rank_quality(&Some("auto".to_string()), false), 90);
    assert_eq!(rank_quality(&Some("144pp".to_string()), false), 144);
    assert_eq!(rank_quality(&Some("backup".to_string()), true), 30);
    assert_eq!(rank_quality(&Some("backup".to_string()), false), 50);
    assert_eq!(rank_quality(&None, false), 50);
    assert_eq!(pick_best_quality(&q(&[Some("720p"), Some("1080p"), Some("480p")]), false), Some(1));
    assert_eq!(pick_best_quality(&q(&[None, Some("weird")]), false), Some(1));
    assert_eq!(pick_best_quality(&q(&[]), false), None);
}

#[test]
fn html_entities_and_tags() {
    assert_eq!(decode_entities("Tom &amp; Jerry &#39;s &#x41; &eacute;"), "Tom & Jerry 's A é");
    assert_eq!(decode_entities("&unknown; &"), "&unknown; &");
    assert_eq!(strip_tags("<p>Hello <b>world</b></p>"), "Hello world");
}
