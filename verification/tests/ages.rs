use tv_graph::graph::build_graph;
use tv_graph::tv_graph_analyzing::age_rating_sort;
use tv_graph::tv_show::TvShow;

fn show(title: &str, age: &str, netflix: bool, hulu: bool, prime_video: bool, disney: bool) -> TvShow {
    TvShow {
        title: title.to_string(),
        age: age.to_string(),
        netflix,
        hulu,
        prime_video,
        disney,
    }
}

#[test]
fn test_age_rating_sort() {
    let graph = build_graph(&Vec::new());
    let tv_shows: Vec<TvShow> = vec![
        show("Avatar: The Last Airbender", "7+", false, true, true, false),
        show("The Boys", "18+", false, false, true, false),
    ];
    let result = age_rating_sort(&graph, tv_shows);
    assert_eq!(result.len(), 2);
    assert_eq!(result.contains_key("Children"), true);
    assert_eq!(result.contains_key("Adult"), true);
    assert_eq!(result.get("Children").unwrap().len(), 1);
    assert_eq!(result.get("Adult").unwrap().len(), 1);
    assert_eq!(result.get("Children").unwrap()[0].title, "Avatar: The Last Airbender");
    assert_eq!(result.get("Adult").unwrap()[0].title, "The Boys");
    assert_eq!(result.get("Children").unwrap()[0].age, "7+");
    assert_eq!(result.get("Adult").unwrap()[0].age, "18+");
    assert_eq!(result.get("Children").unwrap()[0].hulu, true);
    assert_eq!(result.get("Adult").unwrap()[0].prime_video, true);
}

#[test]
fn lookup_table_is_verbatim() {
    let graph = build_graph(&Vec::new());
    let ratings = [
        ("all", "All"),
        ("7+", "Children"),
        ("7", "Children"),
        ("TV-G", "Children"),
        ("TV-Y", "Children"),
        ("TV-Y7", "Children"),
        ("TV-Y7-FV", "Children"),
        ("13+", "Teen"),
        ("13", "Teen"),
        ("TV-PG", "Teen"),
        ("16+", "Mature"),
        ("16", "Mature"),
        ("TV-14", "Mature"),
        ("18+", "Adult"),
        ("18", "Adult"),
        ("TV-MA", "Adult"),
    ];
    for (raw, category) in ratings {
        let shows = vec![show("S", raw, true, false, false, false)];
        let result = age_rating_sort(&graph, shows);
        assert_eq!(result.len(), 1);
        assert!(result.contains_key(category), "{} should land in {}", raw, category);
        assert_eq!(result.get(category).unwrap().len(), 1);
    }
}

#[test]
fn unmapped_ratings_land_in_unknown() {
    let graph = build_graph(&Vec::new());
    // The lookup is case-sensitive and verbatim: near misses stay unknown.
    let shows = vec![
        show("A", "PG-13", true, false, false, false),
        show("B", "ALL", false, true, false, false),
        show("C", "", false, false, true, false),
        show("D", "tv-ma", false, false, false, true),
    ];
    let result = age_rating_sort(&graph, shows);
    assert_eq!(result.len(), 1);
    assert!(result.contains_key("Unknown"));
    let unknown = result.get("Unknown").unwrap();
    assert_eq!(unknown.len(), 4);
    assert_eq!(unknown[0].title, "A");
    assert_eq!(unknown[1].title, "B");
    assert_eq!(unknown[2].title, "C");
    assert_eq!(unknown[3].title, "D");
}

#[test]
fn empty_categories_are_absent() {
    let graph = build_graph(&Vec::new());
    let result = age_rating_sort(&graph, Vec::new());
    assert_eq!(result.len(), 0);
    for name in ["All", "Children", "Teen", "Mature", "Adult", "Unknown"] {
        assert!(!result.contains_key(name));
        assert!(result.get(name).is_none());
    }
    assert!(result.get("Something else").is_none());
}

#[test]
fn categories_keep_input_order() {
    let graph = build_graph(&Vec::new());
    let shows = vec![
        show("First", "TV-14", true, false, false, false),
        show("Second", "7+", false, true, false, false),
        show("Third", "16+", false, false, true, false),
        show("Fourth", "16", false, false, false, true),
    ];
    let result = age_rating_sort(&graph, shows);
    assert_eq!(result.len(), 2);
    let mature = result.get("Mature").unwrap();
    assert_eq!(mature.len(), 3);
    assert_eq!(mature[0].title, "First");
    assert_eq!(mature[1].title, "Third");
    assert_eq!(mature[2].title, "Fourth");
    assert_eq!(result.get("Children").unwrap()[0].title, "Second");
}
