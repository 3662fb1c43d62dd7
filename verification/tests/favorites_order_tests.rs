use image_engine::favorites::{FavoriteImage, FavoritesConfig};

fn entry(path: &str, tags: &[&str], added_at: i64) -> FavoriteImage {
    FavoriteImage {
        path: path.to_string(),
        tags: tags.iter().map(|t| t.to_string()).collect(),
        added_at,
    }
}

#[test]
fn test_get_all_sorted_newest_first() {
    let config = FavoritesConfig {
        favorites: vec![
            entry("/a.png", &["x"], 5),
            entry("/b.png", &["y"], 9),
            entry("/c.png", &["z"], 1),
        ],
    };
    let all = config.get_all();
    assert_eq!(all.len(), 3);
    assert_eq!(all[0].path, "/b.png");
    assert_eq!(all[1].path, "/a.png");
    assert_eq!(all[2].path, "/c.png");
}

#[test]
fn test_search_sorted_newest_first() {
    let config = FavoritesConfig {
        favorites: vec![
            entry("/a.png", &["nature"], 5),
            entry("/b.png", &["city"], 9),
            entry("/c.png", &["nature"], 7),
        ],
    };
    let hits = config.search_by_tags(&["nature".to_string()]);
    assert_eq!(hits.len(), 2);
    assert_eq!(hits[0].path, "/c.png");
    assert_eq!(hits[1].path, "/a.png");
}

#[test]
fn test_search_is_case_insensitive_substring() {
    let config = FavoritesConfig {
        favorites: vec![
            entry("/a.png", &["Nature Shots"], 1),
            entry("/b.png", &["city"], 2),
        ],
    };
    // search folds case on both sides and matches substrings
    let hits = config.search_by_tags(&["NATURE".to_string()]);
    assert_eq!(hits.len(), 1);
    assert_eq!(hits[0].path, "/a.png");
}

#[test]
fn test_get_all_tags_sorted_unique() {
    let config = FavoritesConfig {
        favorites: vec![
            entry("/a.png", &["b", "a"], 1),
            entry("/b.png", &["c", "a"], 2),
        ],
    };
    let tags = config.get_all_tags();
    assert_eq!(tags, vec!["a".to_string(), "b".to_string(), "c".to_string()]);
}
