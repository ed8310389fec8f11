//! Analytics over a catalogue of TV shows and the four streaming platforms
//! that may carry them: Netflix, Hulu, Prime Video and Disney+.
//!
//! The catalogue is turned into an undirected bipartite graph whose first
//! four nodes are the platforms and whose remaining nodes are the shows, one
//! edge per true availability flag. Five read-only queries are computed over
//! that graph: per-platform degree centrality, the degree histogram of the
//! shows, per-platform exclusive-content percentages, pairwise platform
//! overlap counts, and a grouping of the shows by age-rating category.

pub mod graph_model;
pub mod graph;
pub mod petgraph_link;
pub mod tv_graph_analyzing;
pub mod tv_show;
