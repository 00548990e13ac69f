//! Work on a line already divided into grapheme clusters: joining a range of
//! them, drawing a range of them, and putting in or taking out one.

use vstd::prelude::*;
use vstd::seq_lib::lemma_flatten_concat;
use vstd::string::*;

verus! {

/// The texts of a list of clusters.
pub open spec fn texts(gs: Seq<String>) -> Seq<Seq<char>> {
    gs.map_values(|g: String| g@)
}

/// The clusters of `gs`, joined into one text: the inverse of segmentation.
pub open spec fn joined(gs: Seq<Seq<char>>) -> Seq<char> {
    gs.flatten()
}

/// How a cluster is drawn: a tab as one space, anything else as it is.
pub open spec fn shown(g: Seq<char>) -> Seq<char> {
    if g == seq!['\t'] {
        seq![' ']
    } else {
        g
    }
}

/// The clusters of `gs` at positions `[start, end)` drawn one after another.
/// An `end` past the last cluster stops at the last cluster, and a `start` at
/// or past `end` draws nothing.
pub open spec fn rendered(gs: Seq<Seq<char>>, start: int, end: int) -> Seq<char> {
    let e = if end < gs.len() {
        end
    } else {
        gs.len() as int
    };
    let s = if start < e {
        start
    } else {
        e
    };
    joined(gs.subrange(s, e).map_values(|g: Seq<char>| shown(g)))
}

/// Joining non-empty clusters gives at least one character per cluster.
pub proof fn lemma_joined_len(gs: Seq<Seq<char>>)
    requires
        forall|i: int| 0 <= i < gs.len() ==> (#[trigger] gs[i]).len() > 0,
    ensures
        gs.len() <= joined(gs).len(),
    decreases gs.len(),
{
    if gs.len() > 0 {
        let rest = gs.drop_first();
        assert forall|i: int| 0 <= i < rest.len() implies (#[trigger] rest[i]).len() > 0 by {
            assert(rest[i] == gs[i + 1]);
        }
        lemma_joined_len(rest);
        assert(gs[0].len() > 0);
    }
}

/// Joining the clusters before `i`, then the one at `i`, then those after it
/// gives the same text as joining them all.
pub proof fn lemma_joined_split(gs: Seq<Seq<char>>, i: int)
    requires
        0 <= i < gs.len(),
    ensures
        joined(gs) == joined(gs.take(i)) + gs[i] + joined(gs.skip(i + 1)),
{
    assert(gs =~= gs.take(i) + (seq![gs[i]] + gs.skip(i + 1)));
    lemma_flatten_concat(gs.take(i), seq![gs[i]] + gs.skip(i + 1));
    lemma_flatten_concat(seq![gs[i]], gs.skip(i + 1));
    seq![gs[i]].lemma_flatten_singleton();
    assert(joined(gs) =~= joined(gs.take(i)) + gs[i] + joined(gs.skip(i + 1)));
}

/// The text of clusters `[from, to)` of `gs`.
pub fn join_clusters(gs: &Vec<String>, from: usize, to: usize) -> (r: String)
    requires
        from <= to <= gs.len(),
    ensures
        r@ == joined(texts(gs@).subrange(from as int, to as int)),
{
    let ghost views = texts(gs@);
    let mut result = String::new();
    let mut i: usize = from;
    while i < to
        invariant
            from <= i <= to <= gs.len(),
            views == texts(gs@),
            result@ == joined(views.subrange(from as int, i as int)),
        decreases to - i,
    {
        result.append(gs[i].as_str());
        proof {
            assert(views.subrange(from as int, i + 1) =~= views.subrange(from as int, i as int).push(
                views[i as int],
            ));
            views.subrange(from as int, i as int).lemma_flatten_push(views[i as int]);
        }
        i += 1;
    }
    result
}

/// The clusters of `gs` at positions `[start, end)`, each tab drawn as a
/// space; positions past the last cluster are left out.
pub fn render_clusters(gs: &Vec<String>, start: usize, end: usize) -> (r: String)
    ensures
        r@ == rendered(texts(gs@), start as int, end as int),
{
    let end = if end < gs.len() {
        end
    } else {
        gs.len()
    };
    let start = if start < end {
        start
    } else {
        end
    };
    let ghost views = texts(gs@);
    let tab = "\t".to_string();
    proof {
        reveal_strlit("\t");
        reveal_strlit(" ");
        assert(" "@ =~= seq![' ']);
    }
    let mut result = String::new();
    let mut i: usize = start;
    while i < end
        invariant
            start <= i <= end <= gs.len(),
            views == texts(gs@),
            tab@ == seq!['\t'],
            " "@ == seq![' '],
            result@ == joined(
                views.subrange(start as int, i as int).map_values(|g: Seq<char>| shown(g)),
            ),
        decreases end - i,
    {
        let ghost before = result@;
        if gs[i] == tab {
            result.append(" ");
        } else {
            result.append(gs[i].as_str());
        }
        proof {
            let drawn = views.subrange(start as int, i as int).map_values(|g: Seq<char>| shown(g));
            assert(views[i as int] == gs@[i as int]@);
            assert(result@ == before + shown(views[i as int]));
            assert(views.subrange(start as int, i + 1).map_values(|g: Seq<char>| shown(g))
                =~= drawn.push(shown(views[i as int])));
            drawn.lemma_flatten_push(shown(views[i as int]));
        }
        i += 1;
    }
    result
}

/// The text of `gs` with `c` put in front of the cluster at position `at`
/// (at the end where `at` is the number of clusters).
pub fn insert_into_clusters(gs: &Vec<String>, at: usize, c: char) -> (r: String)
    requires
        at <= gs.len(),
    ensures
        r@ == joined(texts(gs@).take(at as int)) + seq![c] + joined(texts(gs@).skip(at as int)),
{
    let mut result = join_clusters(gs, 0, at);
    crate::segment::push_char(&mut result, c);
    let remainder = join_clusters(gs, at, gs.len());
    result.append(remainder.as_str());
    proof {
        let views = texts(gs@);
        assert(views.subrange(0, at as int) =~= views.take(at as int));
        assert(views.subrange(at as int, views.len() as int) =~= views.skip(at as int));
    }
    result
}

/// The text of `gs` without the cluster at position `at`.
pub fn delete_from_clusters(gs: &Vec<String>, at: usize) -> (r: String)
    requires
        at < gs.len(),
    ensures
        r@ == joined(texts(gs@).take(at as int)) + joined(texts(gs@).skip(at + 1)),
        r@ == joined(texts(gs@).remove(at as int)),
{
    let mut result = join_clusters(gs, 0, at);
    let remainder = join_clusters(gs, at + 1, gs.len());
    result.append(remainder.as_str());
    proof {
        let views = texts(gs@);
        assert(views.subrange(0, at as int) =~= views.take(at as int));
        assert(views.subrange(at + 1, views.len() as int) =~= views.skip(at + 1));
        assert(views.remove(at as int) =~= views.take(at as int) + views.skip(at + 1));
        lemma_flatten_concat(views.take(at as int), views.skip(at + 1));
    }
    result
}

} // verus!
