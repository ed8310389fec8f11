//! The mathematical model of the show/platform graph.
//!
//! A graph is modelled by its node labels, a `Seq<Seq<char>>` in node-index
//! order, and its edges, a `Seq<(int, int)>` of endpoint pairs in insertion
//! order. The spec functions here say what the built graph looks like for a
//! given show list and define degrees, adjacency and the counts that the
//! analytics queries return.

use vstd::prelude::*;
use vstd::multiset::Multiset;
use crate::tv_show::{flag_count, flag_of, show_degree, total_flags, TvShow};

verus! {

/// The labels of the four platform nodes, in their fixed order.
pub open spec fn platform_labels() -> Seq<Seq<char>> {
    seq!["Netflix"@, "Hulu"@, "Prime Video"@, "Disney+"@]
}

/// The edges contributed by one show whose node index is `v`: one edge
/// `(v, p)` per set platform flag, in platform order.
pub open spec fn show_edges(s: TvShow, v: int) -> Seq<(int, int)> {
    (if s.netflix {
        seq![(v, 0int)]
    } else {
        Seq::empty()
    }) + (if s.hulu {
        seq![(v, 1int)]
    } else {
        Seq::empty()
    }) + (if s.prime_video {
        seq![(v, 2int)]
    } else {
        Seq::empty()
    }) + (if s.disney {
        seq![(v, 3int)]
    } else {
        Seq::empty()
    })
}

/// The edge sequence of the graph built from `shows`: the edges of show `k`
/// attach at node `4 + k` and come in show order.
pub open spec fn built_edges(shows: Seq<TvShow>) -> Seq<(int, int)>
    decreases shows.len(),
{
    if shows.len() == 0 {
        Seq::empty()
    } else {
        built_edges(shows.drop_last()) + show_edges(shows.last(), 4 + shows.len() - 1)
    }
}

/// The node labels of the graph built from `shows`: the four platforms
/// followed by the show titles in input order.
pub open spec fn built_nodes(shows: Seq<TvShow>) -> Seq<Seq<char>> {
    platform_labels() + shows.map_values(|s: TvShow| s.title@)
}

/// The number of edges incident to node `a` (a self-loop counts once).
pub open spec fn degree_in(edges: Seq<(int, int)>, a: int) -> int
    decreases edges.len(),
{
    if edges.len() == 0 {
        0
    } else {
        degree_in(edges.drop_last(), a) + if edges.last().0 == a || edges.last().1 == a {
            1int
        } else {
            0
        }
    }
}

/// The number of edges whose endpoints are `a` and `b`.
pub open spec fn edges_between(edges: Seq<(int, int)>, a: int, b: int) -> int
    decreases edges.len(),
{
    if edges.len() == 0 {
        0
    } else {
        edges_between(edges.drop_last(), a, b) + if (edges.last().0 == a && edges.last().1 == b)
            || (edges.last().0 == b && edges.last().1 == a) {
            1int
        } else {
            0
        }
    }
}

/// Whether some edge joins `a` and `b`.
pub open spec fn connected(edges: Seq<(int, int)>, a: int, b: int) -> bool {
    edges_between(edges, a, b) > 0
}

/// The multiset of neighbours of `a`: for every edge incident to `a`, the
/// other endpoint (the node itself for a self-loop).
pub open spec fn neighbors_of(edges: Seq<(int, int)>, a: int) -> Multiset<int>
    decreases edges.len(),
{
    if edges.len() == 0 {
        Multiset::empty()
    } else {
        let rest = neighbors_of(edges.drop_last(), a);
        let e = edges.last();
        if e.0 == a {
            rest.insert(e.1)
        } else if e.1 == a {
            rest.insert(e.0)
        } else {
            rest
        }
    }
}

/// A show node is exclusive to platform `p` when its only edge goes to `p`.
pub open spec fn is_exclusive(edges: Seq<(int, int)>, v: int, p: int) -> bool {
    degree_in(edges, v) == 1 && connected(edges, v, p)
}

/// How many of the nodes `4 .. hi` are exclusive to platform `p`.
pub open spec fn exclusive_count(edges: Seq<(int, int)>, hi: int, p: int) -> int
    decreases hi,
{
    if hi <= 4 {
        0
    } else {
        exclusive_count(edges, hi - 1, p) + if is_exclusive(edges, hi - 1, p) {
            1int
        } else {
            0
        }
    }
}

/// How many of the nodes `4 .. hi` are joined to both `i` and `j`.
pub open spec fn common_count(edges: Seq<(int, int)>, hi: int, i: int, j: int) -> int
    decreases hi,
{
    if hi <= 4 {
        0
    } else {
        common_count(edges, hi - 1, i, j) + if connected(edges, hi - 1, i) && connected(
            edges,
            hi - 1,
            j,
        ) {
            1int
        } else {
            0
        }
    }
}

/// The neighbour multiset of `a` holds one entry per incident edge.
pub proof fn lemma_neighbors_len(edges: Seq<(int, int)>, a: int)
    ensures
        neighbors_of(edges, a).len() == degree_in(edges, a),
    decreases edges.len(),
{
    if edges.len() > 0 {
        lemma_neighbors_len(edges.drop_last(), a);
    }
}

/// The neighbour multiset of `a` holds `b` as often as there are edges
/// between `a` and `b`.
pub proof fn lemma_neighbors_count(edges: Seq<(int, int)>, a: int, b: int)
    ensures
        neighbors_of(edges, a).count(b) == edges_between(edges, a, b),
    decreases edges.len(),
{
    if edges.len() > 0 {
        lemma_neighbors_count(edges.drop_last(), a, b);
    }
}

/// The overlap count is symmetric in the two platforms.
pub proof fn lemma_common_symmetric(edges: Seq<(int, int)>, hi: int, i: int, j: int)
    ensures
        common_count(edges, hi, i, j) == common_count(edges, hi, j, i),
    decreases hi,
{
    if hi > 4 {
        lemma_common_symmetric(edges, hi - 1, i, j);
    }
}

/// Degrees are additive over concatenation of edge sequences.
pub proof fn lemma_degree_concat(e1: Seq<(int, int)>, e2: Seq<(int, int)>, a: int)
    ensures
        degree_in(e1 + e2, a) == degree_in(e1, a) + degree_in(e2, a),
    decreases e2.len(),
{
    if e2.len() == 0 {
        assert(e1 + e2 =~= e1);
    } else {
        lemma_degree_concat(e1, e2.drop_last(), a);
        assert((e1 + e2).drop_last() =~= e1 + e2.drop_last());
        assert((e1 + e2).last() == e2.last());
    }
}

/// `edges_between` is additive over concatenation of edge sequences.
pub proof fn lemma_between_concat(e1: Seq<(int, int)>, e2: Seq<(int, int)>, a: int, b: int)
    ensures
        edges_between(e1 + e2, a, b) == edges_between(e1, a, b) + edges_between(e2, a, b),
    decreases e2.len(),
{
    if e2.len() == 0 {
        assert(e1 + e2 =~= e1);
    } else {
        lemma_between_concat(e1, e2.drop_last(), a, b);
        assert((e1 + e2).drop_last() =~= e1 + e2.drop_last());
        assert((e1 + e2).last() == e2.last());
    }
}

proof fn lemma_degree_single(x: (int, int), a: int)
    ensures
        degree_in(seq![x], a) == if x.0 == a || x.1 == a {
            1int
        } else {
            0
        },
{
    assert(seq![x].drop_last() =~= Seq::<(int, int)>::empty());
    assert(degree_in(Seq::<(int, int)>::empty(), a) == 0);
}

proof fn lemma_between_single(x: (int, int), a: int, b: int)
    ensures
        edges_between(seq![x], a, b) == if (x.0 == a && x.1 == b) || (x.0 == b && x.1 == a) {
            1int
        } else {
            0
        },
{
    assert(seq![x].drop_last() =~= Seq::<(int, int)>::empty());
    assert(edges_between(Seq::<(int, int)>::empty(), a, b) == 0);
}

/// The edges of one show contribute its whole flag count to the degree of
/// its own node, one to the degree of each flagged platform, and nothing to
/// any other node.
proof fn lemma_show_edges_degree(s: TvShow, v: int, a: int)
    requires
        v >= 4,
    ensures
        degree_in(show_edges(s, v), a) == if a == v {
            show_degree(s)
        } else if 0 <= a < 4 && flag_of(s, a) {
            1int
        } else {
            0
        },
{
    let e0 = if s.netflix {
        seq![(v, 0int)]
    } else {
        Seq::<(int, int)>::empty()
    };
    let e1 = if s.hulu {
        seq![(v, 1int)]
    } else {
        Seq::<(int, int)>::empty()
    };
    let e2 = if s.prime_video {
        seq![(v, 2int)]
    } else {
        Seq::<(int, int)>::empty()
    };
    let e3 = if s.disney {
        seq![(v, 3int)]
    } else {
        Seq::<(int, int)>::empty()
    };
    lemma_degree_concat(e0 + e1 + e2, e3, a);
    lemma_degree_concat(e0 + e1, e2, a);
    lemma_degree_concat(e0, e1, a);
    lemma_degree_single((v, 0int), a);
    lemma_degree_single((v, 1int), a);
    lemma_degree_single((v, 2int), a);
    lemma_degree_single((v, 3int), a);
    assert(degree_in(Seq::<(int, int)>::empty(), a) == 0);
}

/// The edges of one show put exactly one edge between its node and each
/// flagged platform, and none anywhere else.
proof fn lemma_show_edges_between(s: TvShow, v: int, a: int, b: int)
    requires
        v >= 4,
        a >= 4,
        0 <= b < 4,
    ensures
        edges_between(show_edges(s, v), a, b) == if v == a && flag_of(s, b) {
            1int
        } else {
            0
        },
{
    let e0 = if s.netflix {
        seq![(v, 0int)]
    } else {
        Seq::<(int, int)>::empty()
    };
    let e1 = if s.hulu {
        seq![(v, 1int)]
    } else {
        Seq::<(int, int)>::empty()
    };
    let e2 = if s.prime_video {
        seq![(v, 2int)]
    } else {
        Seq::<(int, int)>::empty()
    };
    let e3 = if s.disney {
        seq![(v, 3int)]
    } else {
        Seq::<(int, int)>::empty()
    };
    lemma_between_concat(e0 + e1 + e2, e3, a, b);
    lemma_between_concat(e0 + e1, e2, a, b);
    lemma_between_concat(e0, e1, a, b);
    lemma_between_single((v, 0int), a, b);
    lemma_between_single((v, 1int), a, b);
    lemma_between_single((v, 2int), a, b);
    lemma_between_single((v, 3int), a, b);
    assert(edges_between(Seq::<(int, int)>::empty(), a, b) == 0);
}

/// Every show contributes at most four edges.
pub proof fn lemma_total_flags_le(shows: Seq<TvShow>)
    ensures
        0 <= total_flags(shows) <= 4 * shows.len(),
    decreases shows.len(),
{
    if shows.len() > 0 {
        lemma_total_flags_le(shows.drop_last());
    }
}

/// The built graph has one edge per set flag.
pub proof fn lemma_built_edges_len(shows: Seq<TvShow>)
    ensures
        built_edges(shows).len() == total_flags(shows),
    decreases shows.len(),
{
    if shows.len() > 0 {
        lemma_built_edges_len(shows.drop_last());
    }
}

/// A node index beyond the built graph's nodes touches no edge.
proof fn lemma_built_degree_absent(shows: Seq<TvShow>, a: int)
    requires
        a >= 4 + shows.len(),
    ensures
        degree_in(built_edges(shows), a) == 0,
    decreases shows.len(),
{
    if shows.len() > 0 {
        lemma_built_degree_absent(shows.drop_last(), a);
        lemma_degree_concat(
            built_edges(shows.drop_last()),
            show_edges(shows.last(), 4 + shows.len() - 1),
            a,
        );
        lemma_show_edges_degree(shows.last(), 4 + shows.len() - 1, a);
    }
}

/// In the built graph, the degree of platform `p` is the number of shows
/// carrying `p`'s flag: degree centrality counts the platform's catalogue.
pub proof fn lemma_built_degree_platform(shows: Seq<TvShow>, p: int)
    requires
        0 <= p < 4,
    ensures
        degree_in(built_edges(shows), p) == flag_count(shows, p),
    decreases shows.len(),
{
    if shows.len() > 0 {
        lemma_built_degree_platform(shows.drop_last(), p);
        lemma_degree_concat(
            built_edges(shows.drop_last()),
            show_edges(shows.last(), 4 + shows.len() - 1),
            p,
        );
        lemma_show_edges_degree(shows.last(), 4 + shows.len() - 1, p);
    }
}

/// In the built graph, the degree of show `k`'s node is the number of its
/// set flags; in particular it never exceeds four.
pub proof fn lemma_built_degree_show(shows: Seq<TvShow>, k: int)
    requires
        0 <= k < shows.len(),
    ensures
        degree_in(built_edges(shows), 4 + k) == show_degree(shows[k]),
        0 <= degree_in(built_edges(shows), 4 + k) <= 4,
    decreases shows.len(),
{
    lemma_degree_concat(
        built_edges(shows.drop_last()),
        show_edges(shows.last(), 4 + shows.len() - 1),
        4 + k,
    );
    lemma_show_edges_degree(shows.last(), 4 + shows.len() - 1, 4 + k);
    if k == shows.len() - 1 {
        lemma_built_degree_absent(shows.drop_last(), 4 + k);
    } else {
        lemma_built_degree_show(shows.drop_last(), k);
    }
}

/// No edge of the built graph joins a platform to a node beyond the shows.
proof fn lemma_built_between_absent(shows: Seq<TvShow>, a: int, b: int)
    requires
        a >= 4 + shows.len(),
        0 <= b < 4,
    ensures
        edges_between(built_edges(shows), a, b) == 0,
    decreases shows.len(),
{
    if shows.len() > 0 {
        lemma_built_between_absent(shows.drop_last(), a, b);
        lemma_between_concat(
            built_edges(shows.drop_last()),
            show_edges(shows.last(), 4 + shows.len() - 1),
            a,
            b,
        );
        lemma_show_edges_between(shows.last(), 4 + shows.len() - 1, a, b);
    }
}

/// In the built graph, show `k`'s node and platform `p` are joined by one
/// edge when the show carries `p`'s flag and by none otherwise.
pub proof fn lemma_built_connected(shows: Seq<TvShow>, k: int, p: int)
    requires
        0 <= k < shows.len(),
        0 <= p < 4,
    ensures
        edges_between(built_edges(shows), 4 + k, p) == if flag_of(shows[k], p) {
            1int
        } else {
            0
        },
        connected(built_edges(shows), 4 + k, p) == flag_of(shows[k], p),
    decreases shows.len(),
{
    lemma_between_concat(
        built_edges(shows.drop_last()),
        show_edges(shows.last(), 4 + shows.len() - 1),
        4 + k,
        p,
    );
    lemma_show_edges_between(shows.last(), 4 + shows.len() - 1, 4 + k, p);
    if k == shows.len() - 1 {
        lemma_built_between_absent(shows.drop_last(), 4 + k, p);
    } else {
        lemma_built_connected(shows.drop_last(), k, p);
    }
}

/// In the built graph a show's node is exclusive to platform `p` exactly
/// when `p`'s flag is the show's only set flag.
pub proof fn lemma_exclusive_meaning(shows: Seq<TvShow>, k: int, p: int)
    requires
        0 <= k < shows.len(),
        0 <= p < 4,
    ensures
        is_exclusive(built_edges(shows), 4 + k, p) == (show_degree(shows[k]) == 1 && flag_of(
            shows[k],
            p,
        )),
{
    lemma_built_degree_show(shows, k);
    lemma_built_connected(shows, k, p);
}

/// How many shows have exactly one set flag, and it is platform `p`'s.
pub open spec fn exclusive_flag_count(shows: Seq<TvShow>, p: int) -> int
    decreases shows.len(),
{
    if shows.len() == 0 {
        0
    } else {
        exclusive_flag_count(shows.drop_last(), p) + if show_degree(shows.last()) == 1 && flag_of(
            shows.last(),
            p,
        ) {
            1int
        } else {
            0
        }
    }
}

proof fn lemma_exclusive_flags_upto(shows: Seq<TvShow>, m: int, p: int)
    requires
        0 <= m <= shows.len(),
        0 <= p < 4,
    ensures
        exclusive_count(built_edges(shows), 4 + m, p) == exclusive_flag_count(shows.take(m), p),
    decreases m,
{
    if m > 0 {
        lemma_exclusive_flags_upto(shows, m - 1, p);
        lemma_exclusive_meaning(shows, m - 1, p);
        assert(shows.take(m).drop_last() =~= shows.take(m - 1));
        assert(shows.take(m).last() == shows[m - 1]);
    }
}

/// In the built graph, the number of show nodes exclusive to platform `p`
/// is the number of shows whose only set flag is `p`'s.
pub proof fn lemma_exclusive_count_flags(shows: Seq<TvShow>, p: int)
    requires
        0 <= p < 4,
    ensures
        exclusive_count(built_edges(shows), 4 + shows.len() as int, p) == exclusive_flag_count(
            shows,
            p,
        ),
{
    lemma_exclusive_flags_upto(shows, shows.len() as int, p);
    assert(shows.take(shows.len() as int) =~= shows);
}

/// The four platform degrees of the built graph sum to its edge count:
/// every edge has exactly one platform endpoint.
pub proof fn lemma_degree_centrality_sum(shows: Seq<TvShow>)
    ensures
        degree_in(built_edges(shows), 0) + degree_in(built_edges(shows), 1) + degree_in(
            built_edges(shows),
            2,
        ) + degree_in(built_edges(shows), 3) == built_edges(shows).len(),
{
    lemma_built_degree_platform(shows, 0);
    lemma_built_degree_platform(shows, 1);
    lemma_built_degree_platform(shows, 2);
    lemma_built_degree_platform(shows, 3);
    crate::tv_show::lemma_total_flags_split(shows);
    lemma_built_edges_len(shows);
}

/// How many shows carry both platform flags `i` and `j`.
pub open spec fn and_count(shows: Seq<TvShow>, i: int, j: int) -> int
    decreases shows.len(),
{
    if shows.len() == 0 {
        0
    } else {
        and_count(shows.drop_last(), i, j) + if flag_of(shows.last(), i) && flag_of(
            shows.last(),
            j,
        ) {
            1int
        } else {
            0
        }
    }
}

proof fn lemma_common_flags(shows: Seq<TvShow>, m: int, i: int, j: int)
    requires
        0 <= m <= shows.len(),
        0 <= i < 4,
        0 <= j < 4,
    ensures
        common_count(built_edges(shows), 4 + m, i, j) == and_count(shows.take(m), i, j),
    decreases m,
{
    if m > 0 {
        lemma_common_flags(shows, m - 1, i, j);
        lemma_built_connected(shows, m - 1, i);
        lemma_built_connected(shows, m - 1, j);
        assert(shows.take(m).drop_last() =~= shows.take(m - 1));
        assert(shows.take(m).last() == shows[m - 1]);
    }
}

proof fn lemma_and_count_le(shows: Seq<TvShow>, i: int, j: int)
    ensures
        and_count(shows, i, j) <= flag_count(shows, i),
        and_count(shows, i, j) <= flag_count(shows, j),
    decreases shows.len(),
{
    if shows.len() > 0 {
        lemma_and_count_le(shows.drop_last(), i, j);
    }
}

/// The overlap of two platforms in the built graph never exceeds either
/// platform's degree centrality: a shared show is on both platforms.
pub proof fn lemma_overlap_le_degree(shows: Seq<TvShow>, i: int, j: int)
    requires
        0 <= i < 4,
        0 <= j < 4,
    ensures
        common_count(built_edges(shows), 4 + shows.len() as int, i, j) <= degree_in(
            built_edges(shows),
            i,
        ),
        common_count(built_edges(shows), 4 + shows.len() as int, i, j) <= degree_in(
            built_edges(shows),
            j,
        ),
{
    lemma_common_flags(shows, shows.len() as int, i, j);
    assert(shows.take(shows.len() as int) =~= shows);
    lemma_and_count_le(shows, i, j);
    lemma_built_degree_platform(shows, i);
    lemma_built_degree_platform(shows, j);
}

} // verus!
