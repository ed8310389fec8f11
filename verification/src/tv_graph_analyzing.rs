//! The five read-only analytics queries over the built graph: per-platform
//! degree centrality, the degree histogram of the show nodes, per-platform
//! exclusive-content percentages, pairwise platform overlap, and the
//! grouping of shows by age-rating category.

use vstd::prelude::*;
use vstd::arithmetic::div_mod::{lemma_div_by_multiple, lemma_div_is_ordered};
use vstd::seq_lib::group_to_multiset_ensures;
use vstd::string::StringExecFns;
use crate::graph_model::{
    built_edges, common_count, connected, degree_in, edges_between, exclusive_count, is_exclusive,
    lemma_common_symmetric, lemma_neighbors_count, lemma_neighbors_len, neighbors_of,
};
use crate::petgraph_link::{graph_edges, graph_nodes, neighbors_vec, node_count, PlatformGraph};
use crate::tv_show::{flag_count, flag_of, TvShow};

verus! {

/// The degrees of the first `n` show nodes (nodes `4 .. 4 + n`).
pub open spec fn show_degrees(edges: Seq<(int, int)>, n: int) -> Seq<int> {
    Seq::new(n as nat, |i: int| degree_in(edges, 4 + i))
}

/// How many entries of `degs` equal `d`.
pub open spec fn count_eq(degs: Seq<int>, d: int) -> int
    decreases degs.len(),
{
    if degs.len() == 0 {
        0
    } else {
        count_eq(degs.drop_last(), d) + if degs.last() == d {
            1int
        } else {
            0
        }
    }
}

proof fn lemma_count_eq_bounds(degs: Seq<int>, d: int)
    ensures
        0 <= count_eq(degs, d) <= degs.len(),
    decreases degs.len(),
{
    if degs.len() > 0 {
        lemma_count_eq_bounds(degs.drop_last(), d);
    }
}

proof fn lemma_count_eq_absent(degs: Seq<int>, d: int)
    requires
        forall|j: int| 0 <= j < degs.len() ==> degs[j] != d,
    ensures
        count_eq(degs, d) == 0,
    decreases degs.len(),
{
    if degs.len() > 0 {
        lemma_count_eq_absent(degs.drop_last(), d);
    }
}

/// Whether `x` occurs in `v`.
fn vec_contains(v: &Vec<usize>, x: usize) -> (r: bool)
    ensures
        r == v@.contains(x),
{
    let mut i: usize = 0;
    while i < v.len()
        invariant
            i <= v@.len(),
            forall|j: int| 0 <= j < i ==> v@[j] != x,
        decreases v@.len() - i,
    {
        if v[i] == x {
            return true;
        }
        i = i + 1;
    }
    false
}

/// The degree of node `v`: the length of its neighbour list.
fn node_degree(g: &PlatformGraph, v: usize) -> (d: usize)
    requires
        v < graph_nodes(*g).len(),
    ensures
        d == degree_in(graph_edges(*g), v as int),
{
    let nv = neighbors_vec(g, v);
    proof {
        broadcast use group_to_multiset_ensures;

        lemma_neighbors_len(graph_edges(*g), v as int);
        assert(nv@.map_values(|x: usize| x as int).len() == nv@.len());
    }
    nv.len()
}

/// Whether nodes `v` and `p` are joined by an edge.
fn node_connected(g: &PlatformGraph, v: usize, p: usize) -> (r: bool)
    requires
        v < graph_nodes(*g).len(),
    ensures
        r == connected(graph_edges(*g), v as int, p as int),
{
    let nv = neighbors_vec(g, v);
    let found = vec_contains(&nv, p);
    proof {
        broadcast use group_to_multiset_ensures;

        lemma_neighbors_count(graph_edges(*g), v as int, p as int);
        let sm = nv@.map_values(|x: usize| x as int);
        if found {
            let j = choose|j: int| 0 <= j < nv@.len() && nv@[j] == p;
            assert(sm[j] == p as int);
            assert(sm.contains(p as int));
        } else {
            assert(forall|j: int| 0 <= j < sm.len() ==> sm[j] != p as int) by {
                assert(forall|j: int| 0 <= j < nv@.len() ==> nv@[j] != p);
            }
            assert(!sm.contains(p as int));
        }
    }
    found
}

/// The degree centrality of each platform: for each of the four platform
/// nodes, in their fixed order, the number of edges incident to it. On the
/// built graph this is the number of shows carried by the platform.
pub fn calculate_degree_centrality(graph: &PlatformGraph) -> (degrees: Vec<usize>)
    requires
        graph_nodes(*graph).len() >= 4,
    ensures
        degrees@.len() == 4,
        forall|p: int| 0 <= p < 4 ==> degrees@[p] == degree_in(graph_edges(*graph), p),
{
    let mut degrees: Vec<usize> = Vec::new();
    let mut p: usize = 0;
    while p < 4
        invariant
            p <= 4,
            graph_nodes(*graph).len() >= 4,
            degrees@.len() == p,
            forall|q: int| 0 <= q < p ==> degrees@[q] == degree_in(graph_edges(*graph), q),
        decreases 4 - p,
    {
        let d = node_degree(graph, p);
        degrees.push(d);
        p = p + 1;
    }
    degrees
}

/// The degree histogram of the show nodes: entry `d` counts the shows of
/// degree `d`. The histogram is dense up to the largest observed degree and
/// stops there: its last entry is never zero, and with no shows at all it is
/// empty.
pub fn calculate_degree_distribution(graph: &PlatformGraph, tv_shows: &Vec<TvShow>) -> (hist: Vec<
    usize,
>)
    requires
        graph_nodes(*graph).len() == 4 + tv_shows@.len(),
    ensures
        forall|d: int|
            0 <= d < hist@.len() ==> hist@[d] == count_eq(
                show_degrees(graph_edges(*graph), tv_shows@.len() as int),
                d,
            ),
        forall|i: int|
            0 <= i < tv_shows@.len() ==> show_degrees(graph_edges(*graph), tv_shows@.len() as int)[i]
                < hist@.len(),
        hist@.len() > 0 ==> hist@[hist@.len() - 1] > 0,
        tv_shows@.len() == 0 ==> hist@.len() == 0,
{
    let ghost edges = graph_edges(*graph);
    let ghost n = tv_shows@.len() as int;
    let total = node_count(graph);
    let mut hist: Vec<usize> = Vec::new();
    let mut i: usize = 0;
    while i < tv_shows.len()
        invariant
            i <= tv_shows@.len(),
            total == graph_nodes(*graph).len(),
            graph_nodes(*graph).len() == 4 + tv_shows@.len(),
            edges == graph_edges(*graph),
            forall|d: int|
                0 <= d < hist@.len() ==> hist@[d] == count_eq(show_degrees(edges, i as int), d),
            forall|j: int| 0 <= j < i ==> show_degrees(edges, i as int)[j] < hist@.len(),
            hist@.len() > 0 ==> hist@[hist@.len() - 1] > 0,
            i == 0 ==> hist@.len() == 0,
        decreases tv_shows@.len() - i,
    {
        let ghost old_hist = hist@;
        let ghost prefix = show_degrees(edges, i as int);
        let d = node_degree(graph, 4 + i);
        proof {
            lemma_count_eq_bounds(prefix, d as int);
        }
        while hist.len() <= d
            invariant
                hist@.len() >= old_hist.len(),
                old_hist.len() <= d ==> hist@.len() <= d + 1,
                old_hist.len() > d ==> hist@.len() == old_hist.len(),
                forall|e: int| 0 <= e < old_hist.len() ==> hist@[e] == old_hist[e],
                forall|e: int| old_hist.len() <= e < hist@.len() ==> hist@[e] == 0,
            decreases d + 1 - hist@.len(),
        {
            hist.push(0);
        }
        proof {
            let next = show_degrees(edges, i as int + 1);
            assert(next.drop_last() =~= prefix);
            assert(next.last() == d as int);
            assert forall|e: int| 0 <= e < hist@.len() implies hist@[e] == count_eq(prefix, e) by {
                if e < old_hist.len() {
                    assert(hist@[e] == old_hist[e]);
                } else {
                    assert(hist@[e] == 0);
                    assert forall|j: int| 0 <= j < prefix.len() implies prefix[j] != e by {
                        assert(show_degrees(edges, i as int)[j] < old_hist.len());
                    }
                    lemma_count_eq_absent(prefix, e);
                }
            }
            assert forall|e: int| 0 <= e < hist@.len() implies count_eq(next, e) == count_eq(
                prefix,
                e,
            ) + (if e == d as int {
                1int
            } else {
                0int
            }) by {
                assert(count_eq(next, e) == count_eq(next.drop_last(), e) + (if next.last() == e {
                    1int
                } else {
                    0int
                }));
            }
            lemma_count_eq_bounds(prefix, d as int);
        }
        let cur = hist[d];
        hist.set(d, cur + 1);
        proof {
            let next = show_degrees(edges, i as int + 1);
            assert forall|j: int| 0 <= j < i + 1 implies next[j] < hist@.len() by {
                if j < i {
                    assert(next[j] == degree_in(edges, 4 + j));
                    assert(show_degrees(edges, i as int)[j] == degree_in(edges, 4 + j));
                } else {
                    assert(next[j] == d as int);
                }
            }
            assert(hist@[hist@.len() - 1] > 0) by {
                if d < hist@.len() - 1 {
                    assert(hist@[hist@.len() - 1] == old_hist[old_hist.len() - 1]);
                }
            }
        }
        i = i + 1;
    }
    proof {
        assert(show_degrees(edges, n) =~= show_degrees(edges, i as int));
    }
    hist
}

/// The exclusive-content percentage of platform `p` over `n` shows: the
/// share of shows whose only edge goes to `p`, as a whole-number percentage,
/// truncated, and 0 when there are no shows at all.
pub open spec fn exclusive_percent(edges: Seq<(int, int)>, n: int, p: int) -> int {
    if n == 0 {
        0
    } else {
        exclusive_count(edges, 4 + n, p) * 100 / n
    }
}

/// The percentage of shows exclusive to each platform, in the fixed
/// platform order: a show counts for platform `p` when its single edge goes
/// to `p`, and the count is turned into a truncated whole-number percentage
/// of all shows. With no shows every entry is 0.
pub fn calculate_exclusive_content(graph: &PlatformGraph, tv_shows: &Vec<TvShow>) -> (percents:
    Vec<u32>)
    requires
        graph_nodes(*graph).len() == 4 + tv_shows@.len(),
    ensures
        percents@.len() == 4,
        forall|p: int|
            0 <= p < 4 ==> percents@[p] == exclusive_percent(
                graph_edges(*graph),
                tv_shows@.len() as int,
                p,
            ),
        forall|p: int| 0 <= p < 4 ==> percents@[p] <= 100,
{
    let ghost edges = graph_edges(*graph);
    let total = node_count(graph);
    let n = tv_shows.len();
    let mut percents: Vec<u32> = Vec::new();
    let mut p: usize = 0;
    while p < 4
        invariant
            p <= 4,
            n == tv_shows@.len(),
            total == graph_nodes(*graph).len(),
            graph_nodes(*graph).len() == 4 + tv_shows@.len(),
            edges == graph_edges(*graph),
            percents@.len() == p,
            forall|q: int|
                0 <= q < p ==> percents@[q] == exclusive_percent(edges, n as int, q),
            forall|q: int| 0 <= q < p ==> percents@[q] <= 100,
        decreases 4 - p,
    {
        let mut count: usize = 0;
        let mut s: usize = 0;
        while s < n
            invariant
                s <= n,
                n == tv_shows@.len(),
                total == graph_nodes(*graph).len(),
                graph_nodes(*graph).len() == 4 + tv_shows@.len(),
                edges == graph_edges(*graph),
                count <= s,
                count == exclusive_count(edges, 4 + s as int, p as int),
            decreases n - s,
        {
            let d = node_degree(graph, 4 + s);
            if d == 1 && node_connected(graph, 4 + s, p) {
                count = count + 1;
            }
            s = s + 1;
        }
        let pc: u32 = if n == 0 {
            0
        } else {
            proof {
                assert((count as int) * 100 <= (n as int) * 100);
                lemma_div_is_ordered((count as int) * 100, (n as int) * 100, n as int);
                lemma_div_by_multiple(100, n as int);
            }
            ((count as u128) * 100 / (n as u128)) as u32
        };
        percents.push(pc);
        p = p + 1;
    }
    percents
}

/// The number of show nodes joined to both platform `i` and platform `j`.
fn common_neighbors(graph: &PlatformGraph, i: usize, j: usize) -> (c: usize)
    requires
        graph_nodes(*graph).len() >= 4,
        i < 4,
        j < 4,
    ensures
        c == common_count(
            graph_edges(*graph),
            graph_nodes(*graph).len() as int,
            i as int,
            j as int,
        ),
{
    let total = node_count(graph);
    let mut c: usize = 0;
    let mut s: usize = 4;
    while s < total
        invariant
            4 <= s <= total,
            total == graph_nodes(*graph).len(),
            i < 4,
            j < 4,
            c <= s - 4,
            c == common_count(graph_edges(*graph), s as int, i as int, j as int),
        decreases total - s,
    {
        if node_connected(graph, s, i) && node_connected(graph, s, j) {
            c = c + 1;
        }
        s = s + 1;
    }
    c
}

/// The pairwise content overlap of the platforms: a symmetric 4-by-4 matrix
/// whose entry `(i, j)`, for distinct platforms, counts the shows joined to
/// both `i` and `j`; the diagonal is fixed to zero, overlap of a platform
/// with itself not being meaningful.
pub fn calculate_platform_overlap(graph: &PlatformGraph) -> (overlap: Vec<Vec<usize>>)
    requires
        graph_nodes(*graph).len() >= 4,
    ensures
        overlap@.len() == 4,
        forall|i: int| 0 <= i < 4 ==> overlap@[i]@.len() == 4,
        forall|i: int| 0 <= i < 4 ==> overlap@[i]@[i] == 0,
        forall|i: int, j: int|
            0 <= i < 4 && 0 <= j < 4 && i != j ==> overlap@[i]@[j] == common_count(
                graph_edges(*graph),
                graph_nodes(*graph).len() as int,
                i,
                j,
            ),
        forall|i: int, j: int| 0 <= i < 4 && 0 <= j < 4 ==> overlap@[i]@[j] == overlap@[j]@[i],
{
    let ghost edges = graph_edges(*graph);
    let ghost total = graph_nodes(*graph).len() as int;
    let c01 = common_neighbors(graph, 0, 1);
    let c02 = common_neighbors(graph, 0, 2);
    let c03 = common_neighbors(graph, 0, 3);
    let c12 = common_neighbors(graph, 1, 2);
    let c13 = common_neighbors(graph, 1, 3);
    let c23 = common_neighbors(graph, 2, 3);
    proof {
        lemma_common_symmetric(edges, total, 0, 1);
        lemma_common_symmetric(edges, total, 0, 2);
        lemma_common_symmetric(edges, total, 0, 3);
        lemma_common_symmetric(edges, total, 1, 2);
        lemma_common_symmetric(edges, total, 1, 3);
        lemma_common_symmetric(edges, total, 2, 3);
    }
    let mut overlap: Vec<Vec<usize>> = Vec::new();
    overlap.push(vec![0, c01, c02, c03]);
    overlap.push(vec![c01, 0, c12, c13]);
    overlap.push(vec![c02, c12, 0, c23]);
    overlap.push(vec![c03, c13, c23, 0]);
    overlap
}

/// The six age-rating categories.
#[derive(Clone, Copy, Debug, PartialEq, Eq, Structural)]
pub enum AgeCategory {
    All,
    Children,
    Teen,
    Mature,
    Adult,
    Unknown,
}

/// The fixed, case-sensitive lookup from the raw age-rating string to its
/// category; anything not in the table is `Unknown`.
pub open spec fn category_of(age: Seq<char>) -> AgeCategory {
    if age == "all"@ {
        AgeCategory::All
    } else if age == "7+"@ || age == "7"@ || age == "TV-G"@ || age == "TV-Y"@ || age == "TV-Y7"@
        || age == "TV-Y7-FV"@ {
        AgeCategory::Children
    } else if age == "13+"@ || age == "13"@ || age == "TV-PG"@ {
        AgeCategory::Teen
    } else if age == "16+"@ || age == "16"@ || age == "TV-14"@ {
        AgeCategory::Mature
    } else if age == "18+"@ || age == "18"@ || age == "TV-MA"@ {
        AgeCategory::Adult
    } else {
        AgeCategory::Unknown
    }
}

/// The shows of `shows` falling into category `c`, in input order.
pub open spec fn in_category(shows: Seq<TvShow>, c: AgeCategory) -> Seq<TvShow>
    decreases shows.len(),
{
    if shows.len() == 0 {
        Seq::empty()
    } else {
        in_category(shows.drop_last(), c) + if category_of(shows.last().age@) == c {
            seq![shows.last()]
        } else {
            Seq::empty()
        }
    }
}

/// Whether the two string slices hold the same characters.
fn str_eq(a: &str, b: &str) -> (r: bool)
    ensures
        r == (a@ == b@),
{
    let left = String::from_str(a);
    let right = String::from_str(b);
    left == right
}

/// The category of one raw age-rating string, by the fixed lookup table.
fn classify_age(age: &String) -> (c: AgeCategory)
    ensures
        c == category_of(age@),
{
    let a = age.as_str();
    if str_eq(a, "all") {
        AgeCategory::All
    } else if str_eq(a, "7+") || str_eq(a, "7") || str_eq(a, "TV-G") || str_eq(a, "TV-Y") || str_eq(
        a,
        "TV-Y7",
    ) || str_eq(a, "TV-Y7-FV") {
        AgeCategory::Children
    } else if str_eq(a, "13+") || str_eq(a, "13") || str_eq(a, "TV-PG") {
        AgeCategory::Teen
    } else if str_eq(a, "16+") || str_eq(a, "16") || str_eq(a, "TV-14") {
        AgeCategory::Mature
    } else if str_eq(a, "18+") || str_eq(a, "18") || str_eq(a, "TV-MA") {
        AgeCategory::Adult
    } else {
        AgeCategory::Unknown
    }
}

/// The shows grouped by age-rating category. A category counts as present
/// only while it holds at least one show; within a category the shows keep
/// their relative input order.
pub struct AgeGroups {
    pub all: Vec<TvShow>,
    pub children: Vec<TvShow>,
    pub teen: Vec<TvShow>,
    pub mature: Vec<TvShow>,
    pub adult: Vec<TvShow>,
    pub unknown: Vec<TvShow>,
}

/// The category, if any, that a category-name string denotes.
pub open spec fn category_named(name: Seq<char>) -> Option<AgeCategory> {
    if name == "All"@ {
        Some(AgeCategory::All)
    } else if name == "Children"@ {
        Some(AgeCategory::Children)
    } else if name == "Teen"@ {
        Some(AgeCategory::Teen)
    } else if name == "Mature"@ {
        Some(AgeCategory::Mature)
    } else if name == "Adult"@ {
        Some(AgeCategory::Adult)
    } else if name == "Unknown"@ {
        Some(AgeCategory::Unknown)
    } else {
        None
    }
}

impl AgeGroups {
    /// The group of one category.
    pub open spec fn group_seq(self, c: AgeCategory) -> Seq<TvShow> {
        match c {
            AgeCategory::All => self.all@,
            AgeCategory::Children => self.children@,
            AgeCategory::Teen => self.teen@,
            AgeCategory::Mature => self.mature@,
            AgeCategory::Adult => self.adult@,
            AgeCategory::Unknown => self.unknown@,
        }
    }

    /// Whether the name denotes a category with at least one show.
    pub open spec fn spec_contains_key(self, name: Seq<char>) -> bool {
        match category_named(name) {
            Some(c) => self.group_seq(c).len() > 0,
            None => false,
        }
    }

    /// The number of categories holding at least one show.
    pub open spec fn spec_len(self) -> int {
        (if self.all@.len() > 0 {
            1int
        } else {
            0
        }) + (if self.children@.len() > 0 {
            1int
        } else {
            0
        }) + (if self.teen@.len() > 0 {
            1int
        } else {
            0
        }) + (if self.mature@.len() > 0 {
            1int
        } else {
            0
        }) + (if self.adult@.len() > 0 {
            1int
        } else {
            0
        }) + (if self.unknown@.len() > 0 {
            1int
        } else {
            0
        })
    }

    /// How many categories hold at least one show.
    pub fn len(&self) -> (n: usize)
        ensures
            n == self.spec_len(),
    {
        let mut n: usize = 0;
        if self.all.len() > 0 {
            n = n + 1;
        }
        if self.children.len() > 0 {
            n = n + 1;
        }
        if self.teen.len() > 0 {
            n = n + 1;
        }
        if self.mature.len() > 0 {
            n = n + 1;
        }
        if self.adult.len() > 0 {
            n = n + 1;
        }
        if self.unknown.len() > 0 {
            n = n + 1;
        }
        n
    }

    /// Whether `name` denotes a category with at least one show.
    pub fn contains_key(&self, name: &str) -> (r: bool)
        ensures
            r == self.spec_contains_key(name@),
    {
        match self.get(name) {
            Some(_) => true,
            None => false,
        }
    }

    /// The group named `name`, or `None` when the name denotes no category
    /// or the category holds no show.
    pub fn get(&self, name: &str) -> (r: Option<&Vec<TvShow>>)
        ensures
            (r is Some) == self.spec_contains_key(name@),
            r matches Some(v) ==> (category_named(name@) matches Some(c) && v@ == self.group_seq(
                c,
            )),
    {
        let found: Option<&Vec<TvShow>> = if str_eq(name, "All") {
            Some(&self.all)
        } else if str_eq(name, "Children") {
            Some(&self.children)
        } else if str_eq(name, "Teen") {
            Some(&self.teen)
        } else if str_eq(name, "Mature") {
            Some(&self.mature)
        } else if str_eq(name, "Adult") {
            Some(&self.adult)
        } else if str_eq(name, "Unknown") {
            Some(&self.unknown)
        } else {
            None
        };
        match found {
            Some(v) => if v.len() > 0 {
                Some(v)
            } else {
                None
            },
            None => None,
        }
    }
}

/// Groups the shows by age-rating category, by the fixed lookup table, each
/// category keeping the input order of its shows. The graph parameter is
/// kept for interface symmetry with the other queries and is not consulted.
pub fn age_rating_sort(_graph: &PlatformGraph, tv_shows: Vec<TvShow>) -> (groups: AgeGroups)
    ensures
        groups.all@ == in_category(tv_shows@, AgeCategory::All),
        groups.children@ == in_category(tv_shows@, AgeCategory::Children),
        groups.teen@ == in_category(tv_shows@, AgeCategory::Teen),
        groups.mature@ == in_category(tv_shows@, AgeCategory::Mature),
        groups.adult@ == in_category(tv_shows@, AgeCategory::Adult),
        groups.unknown@ == in_category(tv_shows@, AgeCategory::Unknown),
{
    let ghost orig = tv_shows@;
    let mut rest = tv_shows;
    let mut groups = AgeGroups {
        all: Vec::new(),
        children: Vec::new(),
        teen: Vec::new(),
        mature: Vec::new(),
        adult: Vec::new(),
        unknown: Vec::new(),
    };
    while rest.len() > 0
        invariant
            rest@.len() <= orig.len(),
            rest@ =~= orig.skip(orig.len() - rest@.len()),
            groups.all@ =~= in_category(orig.take(orig.len() - rest@.len()), AgeCategory::All),
            groups.children@ =~= in_category(
                orig.take(orig.len() - rest@.len()),
                AgeCategory::Children,
            ),
            groups.teen@ =~= in_category(orig.take(orig.len() - rest@.len()), AgeCategory::Teen),
            groups.mature@ =~= in_category(
                orig.take(orig.len() - rest@.len()),
                AgeCategory::Mature,
            ),
            groups.adult@ =~= in_category(orig.take(orig.len() - rest@.len()), AgeCategory::Adult),
            groups.unknown@ =~= in_category(
                orig.take(orig.len() - rest@.len()),
                AgeCategory::Unknown,
            ),
        decreases rest@.len(),
    {
        let ghost k = orig.len() - rest@.len();
        let show = rest.remove(0);
        proof {
            assert(show == orig[k as int]);
            assert(rest@ =~= orig.skip(k as int + 1));
            assert(orig.take(k as int + 1).drop_last() =~= orig.take(k as int));
            assert(orig.take(k as int + 1).last() == orig[k as int]);
        }
        let c = classify_age(&show.age);
        match c {
            AgeCategory::All => groups.all.push(show),
            AgeCategory::Children => groups.children.push(show),
            AgeCategory::Teen => groups.teen.push(show),
            AgeCategory::Mature => groups.mature.push(show),
            AgeCategory::Adult => groups.adult.push(show),
            AgeCategory::Unknown => groups.unknown.push(show),
        }
    }
    proof {
        assert(orig.take(orig.len() - rest@.len()) =~= orig);
    }
    groups
}

/// The number of shows carried by each platform, in the fixed platform
/// order, read off the availability flags alone.
pub fn platform_counts(shows: &Vec<TvShow>) -> (counts: Vec<usize>)
    ensures
        counts@.len() == 4,
        forall|p: int| 0 <= p < 4 ==> counts@[p] == flag_count(shows@, p),
{
    let mut c0: usize = 0;
    let mut c1: usize = 0;
    let mut c2: usize = 0;
    let mut c3: usize = 0;
    let mut i: usize = 0;
    while i < shows.len()
        invariant
            i <= shows@.len(),
            c0 == flag_count(shows@.take(i as int), 0),
            c1 == flag_count(shows@.take(i as int), 1),
            c2 == flag_count(shows@.take(i as int), 2),
            c3 == flag_count(shows@.take(i as int), 3),
            c0 <= i && c1 <= i && c2 <= i && c3 <= i,
        decreases shows@.len() - i,
    {
        proof {
            assert(shows@.take(i as int + 1).drop_last() =~= shows@.take(i as int));
            assert(shows@.take(i as int + 1).last() == shows@[i as int]);
        }
        if shows[i].netflix {
            c0 = c0 + 1;
        }
        if shows[i].hulu {
            c1 = c1 + 1;
        }
        if shows[i].prime_video {
            c2 = c2 + 1;
        }
        if shows[i].disney {
            c3 = c3 + 1;
        }
        i = i + 1;
    }
    proof {
        assert(shows@.take(shows@.len() as int) =~= shows@);
    }
    vec![c0, c1, c2, c3]
}

/// The sum of the histogram entries `0 .. hi`.
pub open spec fn hist_sum(degs: Seq<int>, hi: int) -> int
    decreases hi,
{
    if hi <= 0 {
        0
    } else {
        hist_sum(degs, hi - 1) + count_eq(degs, hi - 1)
    }
}

proof fn lemma_hist_sum_empty(hi: int)
    ensures
        hist_sum(Seq::<int>::empty(), hi) == 0,
    decreases hi,
{
    if hi > 0 {
        lemma_hist_sum_empty(hi - 1);
    }
}

proof fn lemma_count_eq_push(degs: Seq<int>, x: int, d: int)
    ensures
        count_eq(degs.push(x), d) == count_eq(degs, d) + if x == d {
            1int
        } else {
            0
        },
{
    assert(degs.push(x).drop_last() =~= degs);
    assert(degs.push(x).last() == x);
}

proof fn lemma_hist_sum_push(degs: Seq<int>, x: int, hi: int)
    ensures
        hist_sum(degs.push(x), hi) == hist_sum(degs, hi) + if 0 <= x < hi {
            1int
        } else {
            0
        },
    decreases hi,
{
    if hi > 0 {
        lemma_hist_sum_push(degs, x, hi - 1);
        lemma_count_eq_push(degs, x, hi - 1);
    }
}

/// The histogram entries sum to the number of shows once the histogram
/// covers every observed degree: each show lands in exactly one entry.
pub proof fn lemma_histogram_total(degs: Seq<int>, hi: int)
    requires
        forall|j: int| 0 <= j < degs.len() ==> 0 <= #[trigger] degs[j] < hi,
    ensures
        hist_sum(degs, hi) == degs.len(),
    decreases degs.len(),
{
    if degs.len() == 0 {
        lemma_hist_sum_empty(hi);
        assert(degs =~= Seq::<int>::empty());
    } else {
        let dl = degs.drop_last();
        lemma_histogram_total(dl, hi);
        lemma_hist_sum_push(dl, degs.last(), hi);
        assert(dl.push(degs.last()) =~= degs);
    }
}

/// The six category groups partition the input: their lengths sum to the
/// number of shows, every show falling into exactly one category.
pub proof fn lemma_age_partition(shows: Seq<TvShow>)
    ensures
        in_category(shows, AgeCategory::All).len() + in_category(shows, AgeCategory::Children).len()
            + in_category(shows, AgeCategory::Teen).len() + in_category(
            shows,
            AgeCategory::Mature,
        ).len() + in_category(shows, AgeCategory::Adult).len() + in_category(
            shows,
            AgeCategory::Unknown,
        ).len() == shows.len(),
    decreases shows.len(),
{
    if shows.len() > 0 {
        lemma_age_partition(shows.drop_last());
    }
}

/// A category's group holds exactly the input shows whose raw rating the
/// lookup table sends to that category.
pub proof fn lemma_category_membership(shows: Seq<TvShow>, c: AgeCategory, s: TvShow)
    ensures
        in_category(shows, c).contains(s) ==> (category_of(s.age@) == c && shows.contains(s)),
        (shows.contains(s) && category_of(s.age@) == c) ==> in_category(shows, c).contains(s),
    decreases shows.len(),
{
    if shows.len() > 0 {
        let dl = shows.drop_last();
        lemma_category_membership(dl, c, s);
        if in_category(shows, c).contains(s) {
            let idx = choose|i: int|
                0 <= i < in_category(shows, c).len() && in_category(shows, c)[i] == s;
            if idx < in_category(dl, c).len() {
                assert(in_category(dl, c)[idx] == s);
                assert(in_category(dl, c).contains(s));
                let j = choose|j: int| 0 <= j < dl.len() && dl[j] == s;
                assert(shows[j] == s);
            } else {
                assert(s == shows.last());
                assert(shows[shows.len() - 1] == s);
            }
        }
        if shows.contains(s) && category_of(s.age@) == c {
            let j = choose|j: int| 0 <= j < shows.len() && shows[j] == s;
            if j < shows.len() - 1 {
                assert(dl[j] == s);
                assert(dl.contains(s));
                let idx = choose|i: int|
                    0 <= i < in_category(dl, c).len() && in_category(dl, c)[i] == s;
                assert(in_category(shows, c)[idx] == s);
                assert(in_category(shows, c).contains(s));
            } else {
                assert(s == shows.last());
                assert(in_category(shows, c)[in_category(shows, c).len() - 1] == s);
                assert(in_category(shows, c).contains(s));
            }
        }
    }
}

} // verus!
