//! Properties that relate the operations of `Row` to one another.

use crate::clusters::{joined, lemma_joined_split, rendered, shown};
use crate::row::{deleted, inserted, Row};
use crate::segment::graphemes_of;
use vstd::prelude::*;
use vstd::seq_lib::lemma_flatten_concat;

verus! {

/// Deleting the cluster at a position inside the line leaves the text of the
/// other clusters, in order: the text loses exactly that cluster's characters.
pub proof fn lemma_delete_removes_cluster(line: Row, i: int)
    requires
        line.wf(),
        0 <= i < line.clusters().len(),
    ensures
        deleted(line@, i) == joined(line.clusters().remove(i)),
        deleted(line@, i).len() == line@.len() - line.clusters()[i].len(),
        deleted(line@, i).len() < line@.len(),
{
    let gs = line.clusters();
    line.lemma_segmentation();
    lemma_joined_split(gs, i);
    assert(gs.remove(i) =~= gs.take(i) + gs.skip(i + 1));
    lemma_flatten_concat(gs.take(i), gs.skip(i + 1));
}

/// Where the clusters left after deleting position `i` are segmented as
/// themselves (they do not join into one another), the line has one cluster
/// fewer, and each cluster after `i` has moved one position down.
pub proof fn lemma_delete_shortens_by_one(line: Row, i: int)
    requires
        line.wf(),
        0 <= i < line.clusters().len(),
        graphemes_of(joined(line.clusters().remove(i))) == line.clusters().remove(i),
    ensures
        graphemes_of(deleted(line@, i)).len() == line.clusters().len() - 1,
        forall|j: int|
            i <= j < line.clusters().len() - 1 ==> #[trigger] graphemes_of(deleted(line@, i))[j]
                == line.clusters()[j + 1],
{
    lemma_delete_removes_cluster(line, i);
}

/// Inserting `c` at position `i` and then deleting position `i` gives back the
/// text, wherever `c` stands as a cluster of its own at `i` with the clusters
/// before it unchanged (a combining mark, say, would instead join the cluster
/// before it).
pub proof fn lemma_insert_then_delete(before: Row, i: int, c: char, after: Row)
    requires
        before.wf(),
        after.wf(),
        0 <= i <= before.clusters().len(),
        after@ == inserted(before@, i, c),
        i < after.clusters().len(),
        after.clusters().take(i) == before.clusters().take(i),
        after.clusters()[i] == seq![c],
    ensures
        deleted(after@, i) == before@,
{
    let gs = before.clusters();
    let hs = after.clusters();
    before.lemma_segmentation();
    after.lemma_segmentation();
    lemma_joined_split(hs, i);
    if i == gs.len() {
        assert(gs.take(i) =~= gs);
        assert(joined(hs.skip(i + 1)).len() == 0);
        assert(joined(hs.skip(i + 1)) =~= Seq::<char>::empty());
    } else {
        let x = joined(gs.take(i));
        let y = joined(hs.skip(i + 1));
        let z = joined(gs.skip(i));
        let whole = x + seq![c] + y;
        assert(whole == x + seq![c] + z);
        assert(whole.subrange(x.len() as int + 1, whole.len() as int) =~= y);
        assert((x + seq![c] + z).subrange(x.len() as int + 1, whole.len() as int) =~= z);
        assert(gs =~= gs.take(i) + gs.skip(i));
        lemma_flatten_concat(gs.take(i), gs.skip(i));
    }
    assert(deleted(after@, i) =~= before@);
}

/// Rendering from the first cluster to the length draws every cluster, each
/// tab as a space; a line without tab clusters comes out as its text.
pub proof fn lemma_render_whole(line: Row)
    requires
        line.wf(),
    ensures
        rendered(line.clusters(), 0, line.clusters().len() as int) == joined(
            line.clusters().map_values(|g: Seq<char>| shown(g)),
        ),
        (forall|j: int| 0 <= j < line.clusters().len() ==> #[trigger] line.clusters()[j] != seq!['\t'])
            ==> rendered(line.clusters(), 0, line.clusters().len() as int) == line@,
{
    let gs = line.clusters();
    line.lemma_segmentation();
    assert(gs.subrange(0, gs.len() as int) =~= gs);
    if forall|j: int| 0 <= j < gs.len() ==> #[trigger] gs[j] != seq!['\t'] {
        assert(gs.map_values(|g: Seq<char>| shown(g)) =~= gs);
    }
}

/// A range whose end is not past its start renders as nothing.
pub proof fn lemma_render_inverted(line: Row, start: int, end: int)
    requires
        0 <= end <= start,
    ensures
        rendered(line.clusters(), start, end) == Seq::<char>::empty(),
{
    let gs = line.clusters();
    let e = if end < gs.len() { end } else { gs.len() as int };
    assert(gs.subrange(e, e).map_values(|g: Seq<char>| shown(g)) =~= Seq::<Seq<char>>::empty());
}

/// Appending `b` and then `c` leaves the same text as appending `b` and `c`
/// joined.
pub proof fn lemma_append_associative(a: Row, b: Row, c: Row)
    ensures
        (a@ + b@) + c@ == a@ + (b@ + c@),
{
    assert((a@ + b@) + c@ =~= a@ + (b@ + c@));
}

} // verus!
