use vstd::prelude::*;

use unicode_segmentation::UnicodeSegmentation;

verus! {

/// The extended grapheme clusters of a string, in order.
pub uninterp spec fn graphemes_of(s: Seq<char>) -> Seq<Seq<char>>;

/// Relies on `UnicodeSegmentation::graphemes(s, true)`: the extended grapheme
/// clusters of `s`, each one returned as its characters.
#[verifier::external_body]
fn grapheme_clusters(s: &str) -> (r: Vec<Vec<char>>)
    ensures
        r@.map_values(|g: Vec<char>| g@) == graphemes_of(s@),
{
    UnicodeSegmentation::graphemes(s, true).map(|g| g.chars().collect()).collect()
}

/// The characters of the clusters `gs`, in order.
pub open spec fn joined(gs: Seq<Seq<char>>) -> Seq<char>
    decreases gs.len(),
{
    if gs.len() == 0 {
        Seq::empty()
    } else {
        joined(gs.drop_last()) + gs.last()
    }
}

pub open spec fn min_nat(a: int, b: int) -> nat {
    if a < b {
        a as nat
    } else {
        b as nat
    }
}

/// The first `max` clusters of `gs` (all of them if fewer), joined.
pub open spec fn truncated(gs: Seq<Seq<char>>, max: int) -> Seq<char> {
    joined(gs.take(min_nat(gs.len() as int, max) as int))
}

/// Joins the first `max` of the clusters `clusters`.
pub fn take_clusters(clusters: &Vec<Vec<char>>, max: usize) -> (r: Vec<char>)
    ensures
        r@ == truncated(clusters@.map_values(|g: Vec<char>| g@), max as int),
{
    let ghost gs = clusters@.map_values(|g: Vec<char>| g@);
    let n = if clusters.len() < max {
        clusters.len()
    } else {
        max
    };
    let mut r: Vec<char> = Vec::new();
    let mut k: usize = 0;
    while k < n
        invariant
            n <= clusters.len(),
            n == min_nat(gs.len() as int, max as int),
            gs == clusters@.map_values(|g: Vec<char>| g@),
            k <= n,
            r@ == joined(gs.take(k as int)),
        decreases n - k,
    {
        let g = &clusters[k];
        let mut j: usize = 0;
        let ghost r0 = r@;
        while j < g.len()
            invariant
                j <= g.len(),
                r@ == r0 + g@.take(j as int),
            decreases g.len() - j,
        {
            r.push(g[j]);
            j = j + 1;
            assert(r@ =~= r0 + g@.take(j as int));
        }
        assert(gs.take(k + 1).drop_last() =~= gs.take(k as int));
        assert(g@.take(g.len() as int) =~= g@);
        k = k + 1;
    }
    r
}

/// The text of `s` cut after its first `max` grapheme clusters.
pub fn truncate_graphemes(s: &str, max: usize) -> (r: Vec<char>)
    ensures
        r@ == truncated(graphemes_of(s@), max as int),
{
    let clusters = grapheme_clusters(s);
    take_clusters(&clusters, max)
}

} // verus!
