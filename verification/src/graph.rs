//! Building the show/platform graph.
//!
//! The four platform nodes come first, in their fixed order, so they occupy
//! node indices 0 to 3; one node per show follows in input order, so show
//! `k` sits at node index `4 + k`; then one edge per set flag, show by show,
//! platform by platform.

use vstd::prelude::*;
use vstd::string::StringExecFns;
use crate::graph_model::{
    built_edges, built_nodes, lemma_built_edges_len, lemma_total_flags_le, platform_labels,
    show_edges,
};
use crate::petgraph_link::{add_edge, add_node, graph_edges, graph_nodes, new_graph, PlatformGraph};
use crate::tv_show::{show_degree, total_flags, TvShow};

verus! {

/// Builds the undirected bipartite graph of `tv_shows`: the four platform
/// nodes first, one show node per input record after them, and one edge per
/// set availability flag. An empty input yields the four platform nodes and
/// no edges. The length bound keeps the node and edge counts inside
/// petgraph's `u32` index type.
pub fn build_graph(tv_shows: &Vec<TvShow>) -> (g: PlatformGraph)
    requires
        4 * tv_shows@.len() + 4 < 0xFFFF_FFFF,
    ensures
        graph_nodes(g) == built_nodes(tv_shows@),
        graph_edges(g) == built_edges(tv_shows@),
        graph_nodes(g).len() == 4 + tv_shows@.len(),
        graph_edges(g).len() == total_flags(tv_shows@),
{
    let mut g = new_graph();
    add_node(&mut g, String::from_str("Netflix"));
    add_node(&mut g, String::from_str("Hulu"));
    add_node(&mut g, String::from_str("Prime Video"));
    add_node(&mut g, String::from_str("Disney+"));
    proof {
        assert(graph_nodes(g) =~= platform_labels());
    }

    let mut i: usize = 0;
    while i < tv_shows.len()
        invariant
            i <= tv_shows@.len(),
            4 * tv_shows@.len() + 4 < 0xFFFF_FFFF,
            graph_nodes(g) =~= platform_labels() + tv_shows@.take(i as int).map_values(
                |s: TvShow| s.title@,
            ),
            graph_edges(g) == Seq::<(int, int)>::empty(),
        decreases tv_shows@.len() - i,
    {
        add_node(&mut g, tv_shows[i].title.clone());
        proof {
            assert(tv_shows@.take(i as int + 1) =~= tv_shows@.take(i as int).push(tv_shows@[i as int]));
            assert(tv_shows@.take(i as int + 1).map_values(|s: TvShow| s.title@) =~= tv_shows@.take(
                i as int,
            ).map_values(|s: TvShow| s.title@).push(tv_shows@[i as int].title@));
        }
        i = i + 1;
    }
    proof {
        assert(tv_shows@.take(tv_shows@.len() as int) =~= tv_shows@);
        assert(graph_nodes(g) =~= built_nodes(tv_shows@));
    }

    let mut k: usize = 0;
    while k < tv_shows.len()
        invariant
            k <= tv_shows@.len(),
            4 * tv_shows@.len() + 4 < 0xFFFF_FFFF,
            graph_nodes(g) == built_nodes(tv_shows@),
            graph_nodes(g).len() == 4 + tv_shows@.len(),
            graph_edges(g) =~= built_edges(tv_shows@.take(k as int)),
        decreases tv_shows@.len() - k,
    {
        proof {
            lemma_built_edges_len(tv_shows@.take(k as int));
            lemma_total_flags_le(tv_shows@.take(k as int));
        }
        let ghost edges_before = graph_edges(g);
        let show_node: usize = 4 + k;
        if tv_shows[k].netflix {
            add_edge(&mut g, show_node, 0, true);
        }
        if tv_shows[k].hulu {
            add_edge(&mut g, show_node, 1, true);
        }
        if tv_shows[k].prime_video {
            add_edge(&mut g, show_node, 2, true);
        }
        if tv_shows[k].disney {
            add_edge(&mut g, show_node, 3, true);
        }
        proof {
            assert(graph_edges(g) =~= edges_before + show_edges(
                tv_shows@[k as int],
                4 + k as int,
            ));
            assert(tv_shows@.take(k as int + 1).drop_last() =~= tv_shows@.take(k as int));
            assert(tv_shows@.take(k as int + 1).last() == tv_shows@[k as int]);
            assert(built_edges(tv_shows@.take(k as int + 1)) == built_edges(tv_shows@.take(k as int))
                + show_edges(tv_shows@[k as int], 4 + k as int));
        }
        k = k + 1;
    }
    proof {
        assert(tv_shows@.take(tv_shows@.len() as int) =~= tv_shows@);
        lemma_built_edges_len(tv_shows@);
    }
    g
}

} // verus!
