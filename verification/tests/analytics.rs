use petgraph::graph::NodeIndex;
use tv_graph::graph::build_graph;
use tv_graph::tv_graph_analyzing::{
    calculate_degree_centrality, calculate_degree_distribution, calculate_exclusive_content,
    calculate_platform_overlap, platform_counts,
};
use tv_graph::tv_show::TvShow;

fn show(title: &str, age: &str, netflix: bool, hulu: bool, prime_video: bool, disney: bool) -> TvShow {
    TvShow {
        title: title.to_string(),
        age: age.to_string(),
        netflix,
        hulu,
        prime_video,
        disney,
    }
}

#[test]
fn test_build_graph() {
    let tv_shows = vec![
        show("Stranger Things", "TV-14", true, false, false, false),
        show("Breaking Bad", "TV-MA", false, true, true, false),
        show("The Mandalorian", "TV-14", false, false, false, true),
    ];

    let graph = build_graph(&tv_shows);

    // The four platform nodes come first, then one node per show.
    assert_eq!(graph.node_count(), 7);
    assert_eq!(graph.edge_count(), 4);

    let node_labels: Vec<_> = graph.node_indices().map(|i| &graph[i]).collect();
    assert_eq!(
        node_labels,
        [
            "Netflix",
            "Hulu",
            "Prime Video",
            "Disney+",
            "Stranger Things",
            "Breaking Bad",
            "The Mandalorian"
        ]
    );

    assert!(graph.find_edge(NodeIndex::new(4), NodeIndex::new(0)).is_some());
    assert!(graph.find_edge(NodeIndex::new(5), NodeIndex::new(1)).is_some());
    assert!(graph.find_edge(NodeIndex::new(5), NodeIndex::new(2)).is_some());
    assert!(graph.find_edge(NodeIndex::new(6), NodeIndex::new(3)).is_some());
    assert!(graph.find_edge(NodeIndex::new(4), NodeIndex::new(1)).is_none());
}

#[test]
fn test_calculate_degree_centrality() {
    let tv_shows = vec![
        show("Stranger Things", "16+", true, false, false, false),
        show("The Handmaid's Tale", "18+", false, true, false, false),
        show("The Marvelous Mrs. Maisel", "16+", false, false, true, false),
        show("WandaVision", "7+", false, false, false, true),
    ];
    let graph = build_graph(&tv_shows);
    let degrees = calculate_degree_centrality(&graph);
    assert_eq!(degrees[0], 1);
    assert_eq!(degrees[1], 1);
    assert_eq!(degrees[2], 1);
    assert_eq!(degrees[3], 1);
}

#[test]
fn test_calculate_degree_distribution() {
    let tv_shows = vec![
        show("The Crown", "18+", true, false, false, false),
        show("Community", "13+", false, true, true, false),
        show("Parks and Recreation", "13+", true, false, true, false),
        show("The Mandalorian", "7+", false, false, false, true),
    ];
    let graph = build_graph(&tv_shows);

    let degree_distribution = calculate_degree_distribution(&graph, &tv_shows);
    assert_eq!(degree_distribution[0], 0); // no show without a platform
    assert_eq!(degree_distribution[1], 2); // "The Crown" and "The Mandalorian"
    assert_eq!(degree_distribution[2], 2); // "Community" and "Parks and Recreation"
    assert_eq!(degree_distribution.len(), 3); // dense up to the largest degree, 2
}

#[test]
fn test_calculate_exclusive_content() {
    let mut tv_shows = Vec::new();
    tv_shows.push(TvShow::new("The Office", true, true, false, false));
    tv_shows.push(TvShow::new("Parks and Recreation", false, true, true, false));
    tv_shows.push(TvShow::new("Brooklyn Nine-Nine", true, false, false, true));
    tv_shows.push(TvShow::new("The Mandalorian", false, false, true, true));
    tv_shows.push(TvShow::new("Stranger Things", true, false, true, false));
    tv_shows.push(TvShow::new("The Boys", false, true, true, false));
    tv_shows.push(TvShow::new("Jack Ryan", false, false, true, false));
    tv_shows.push(TvShow::new("WandaVision", false, false, false, true));

    let graph = build_graph(&tv_shows);
    let exclusive_counts = calculate_exclusive_content(&graph, &tv_shows);

    // Only "Jack Ryan" (Prime Video) and "WandaVision" (Disney+) sit on a
    // single platform: 1 of 8 shows each, truncated to 12 percent.
    assert_eq!(exclusive_counts[0], 0);
    assert_eq!(exclusive_counts[1], 0);
    assert_eq!(exclusive_counts[2], 12);
    assert_eq!(exclusive_counts[3], 12);
}

#[test]
fn test_calculate_platform_overlap() {
    let mut tv_shows = Vec::new();
    for i in 0..10u32 {
        tv_shows.push(TvShow::new(
            &format!("TV Show {}", i),
            i % 2 == 0,
            i % 3 == 0,
            i % 4 == 0,
            i % 5 == 0,
        ));
    }
    let graph = build_graph(&tv_shows);

    let overlap_counts = calculate_platform_overlap(&graph);

    assert_eq!(overlap_counts[0][1], 2); // shows 0 and 6
    assert_eq!(overlap_counts[0][2], 3); // shows 0, 4 and 8
    assert_eq!(overlap_counts[0][3], 1); // show 0
    assert_eq!(overlap_counts[1][2], 1); // show 0
    assert_eq!(overlap_counts[1][3], 1); // show 0
    assert_eq!(overlap_counts[2][3], 1); // show 0
    for i in 0..4 {
        assert_eq!(overlap_counts[i][i], 0);
        for j in 0..4 {
            assert_eq!(overlap_counts[i][j], overlap_counts[j][i]);
        }
    }
}

#[test]
fn two_show_scenario() {
    // One show on Netflix alone, one on Netflix and Prime Video.
    let tv_shows = vec![
        show("A", "all", true, false, false, false),
        show("B", "all", true, false, true, false),
    ];
    let graph = build_graph(&tv_shows);

    let degrees = calculate_degree_centrality(&graph);
    assert_eq!(degrees, vec![2, 0, 1, 0]);

    let distribution = calculate_degree_distribution(&graph, &tv_shows);
    assert_eq!(distribution, vec![0, 1, 1]);

    let exclusive = calculate_exclusive_content(&graph, &tv_shows);
    assert_eq!(exclusive[0], 50); // one of the two Netflix shows is exclusive
    assert_eq!(exclusive[2], 0); // the Prime Video show is on Netflix too

    let overlap = calculate_platform_overlap(&graph);
    assert_eq!(overlap[0][2], 1);
}

#[test]
fn empty_catalogue() {
    let tv_shows: Vec<TvShow> = Vec::new();
    let graph = build_graph(&tv_shows);

    assert_eq!(graph.node_count(), 4);
    assert_eq!(graph.edge_count(), 0);

    assert_eq!(calculate_degree_centrality(&graph), vec![0, 0, 0, 0]);
    assert_eq!(calculate_degree_distribution(&graph, &tv_shows), Vec::<usize>::new());
    assert_eq!(calculate_exclusive_content(&graph, &tv_shows), vec![0, 0, 0, 0]);
    let overlap = calculate_platform_overlap(&graph);
    for i in 0..4 {
        for j in 0..4 {
            assert_eq!(overlap[i][j], 0);
        }
    }
}

#[test]
fn exclusive_percent_truncates() {
    // One of three shows is exclusive to Netflix: 33 percent, not 34.
    let tv_shows = vec![
        show("A", "all", true, false, false, false),
        show("B", "all", true, true, false, false),
        show("C", "all", false, true, false, false),
    ];
    let graph = build_graph(&tv_shows);
    let exclusive = calculate_exclusive_content(&graph, &tv_shows);
    assert_eq!(exclusive[0], 33);
    assert_eq!(exclusive[1], 33); // "C" is exclusive to Hulu
    assert_eq!(exclusive[2], 0);
    assert_eq!(exclusive[3], 0);
}

#[test]
fn centrality_sums_to_edge_count() {
    let tv_shows = vec![
        show("A", "all", true, true, true, true),
        show("B", "7+", false, true, false, true),
        show("C", "18+", false, false, false, false),
    ];
    let graph = build_graph(&tv_shows);
    let degrees = calculate_degree_centrality(&graph);
    let total: usize = degrees.iter().sum();
    assert_eq!(total, graph.edge_count());
    assert_eq!(total, 6);
}

#[test]
fn distribution_counts_every_show() {
    let tv_shows = vec![
        show("A", "all", true, true, true, true),
        show("B", "7+", false, true, false, true),
        show("C", "18+", false, false, false, false),
        show("D", "16+", false, false, true, false),
    ];
    let graph = build_graph(&tv_shows);
    let distribution = calculate_degree_distribution(&graph, &tv_shows);
    assert_eq!(distribution, vec![1, 1, 1, 0, 1]);
    let counted: usize = distribution.iter().sum();
    assert_eq!(counted, tv_shows.len());
}

#[test]
fn platform_counts_match_flags() {
    let tv_shows = vec![
        show("A", "all", true, true, false, false),
        show("B", "7+", true, false, true, false),
        show("C", "18+", true, false, false, false),
    ];
    let counts = platform_counts(&tv_shows);
    assert_eq!(counts, vec![3, 1, 1, 0]);
}

#[test]
fn new_show_has_empty_age() {
    let s = TvShow::new("Dark", true, false, true, false);
    assert_eq!(s.title, "Dark");
    assert_eq!(s.age, "");
    assert!(s.netflix);
    assert!(!s.hulu);
    assert!(s.prime_video);
    assert!(!s.disney);
}
