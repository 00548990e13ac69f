//! `Row`: one line of text with a cached count of its grapheme clusters.

use crate::clusters::{
    delete_from_clusters, insert_into_clusters, joined, lemma_joined_len, render_clusters, rendered,
    texts,
};
use crate::segment::{graphemes, graphemes_of, push_char};
use vstd::prelude::*;

verus! {

/// One editable line of text. Positions and lengths count extended grapheme
/// clusters, not bytes or code points.
pub struct Row {
    content: String,
    grapheme_count: usize,
}

impl View for Row {
    type V = Seq<char>;

    closed spec fn view(&self) -> Seq<char> {
        self.content@
    }
}

/// `s` with `c` put in front of the cluster at position `at`, or at the end
/// where `at` is past the last cluster.
pub open spec fn inserted(s: Seq<char>, at: int, c: char) -> Seq<char> {
    let gs = graphemes_of(s);
    if at >= gs.len() {
        s.push(c)
    } else {
        joined(gs.take(at)) + seq![c] + joined(gs.skip(at))
    }
}

/// `s` without the cluster at position `at`, or `s` itself where there is no
/// such cluster.
pub open spec fn deleted(s: Seq<char>, at: int) -> Seq<char> {
    let gs = graphemes_of(s);
    if at >= gs.len() {
        s
    } else {
        joined(gs.take(at)) + joined(gs.skip(at + 1))
    }
}

impl Row {
    /// The line's grapheme clusters, in order.
    pub open spec fn clusters(&self) -> Seq<Seq<char>> {
        graphemes_of(self@)
    }

    /// The count is that of the clusters, which make up the content and are
    /// none of them empty.
    pub closed spec fn wf(&self) -> bool {
        &&& self.grapheme_count == graphemes_of(self.content@).len()
        &&& joined(graphemes_of(self.content@)) == self.content@
        &&& forall|i: int|
            0 <= i < graphemes_of(self.content@).len() ==> (#[trigger] graphemes_of(
                self.content@,
            )[i]).len() > 0
    }

    /// The clusters of a well-formed line make up its text, none of them is
    /// empty, and there are no more of them than characters.
    pub proof fn lemma_segmentation(&self)
        requires
            self.wf(),
        ensures
            joined(self.clusters()) == self@,
            forall|i: int| 0 <= i < self.clusters().len() ==> (#[trigger] self.clusters()[i]).len() > 0,
            self.clusters().len() <= self@.len(),
    {
        lemma_joined_len(self.clusters());
    }

    /// Recounts the clusters of the content.
    fn update_len(&mut self)
        ensures
            final(self).wf(),
            final(self)@ == old(self)@,
    {
        let gs = graphemes(self.content.as_str());
        self.grapheme_count = gs.len();
        proof {
            let v = texts(gs@);
            assert forall|i: int| 0 <= i < v.len() implies #[trigger] v[i].len() > 0 by {
                assert(v[i] == gs@[i]@);
            }
        }
    }

    /// A line holding exactly `s`.
    pub fn from_text(s: &str) -> (r: Row)
        ensures
            r.wf(),
            r@ == s@,
    {
        let mut row = Row { content: s.to_string(), grapheme_count: 0 };
        row.update_len();
        row
    }

    /// The text of clusters `[start, end)`, each tab drawn as a space, for
    /// showing a horizontally scrolled part of the line.
    pub fn render(&self, start: usize, end: usize) -> (r: String)
        ensures
            r@ == rendered(self.clusters(), start as int, end as int),
    {
        let gs = graphemes(self.content.as_str());
        render_clusters(&gs, start, end)
    }

    /// Puts `c` in front of the cluster at position `at`, or at the end where
    /// `at` is past the last cluster.
    pub fn insert(&mut self, at: usize, c: char)
        requires
            old(self).wf(),
        ensures
            final(self).wf(),
            final(self)@ == inserted(old(self)@, at as int, c),
    {
        if at >= self.grapheme_count {
            push_char(&mut self.content, c);
        } else {
            let gs = graphemes(self.content.as_str());
            self.content = insert_into_clusters(&gs, at, c);
        }
        self.update_len();
    }

    /// Removes the cluster at position `at`; does nothing where there is none.
    pub fn delete(&mut self, at: usize)
        requires
            old(self).wf(),
        ensures
            final(self).wf(),
            final(self)@ == deleted(old(self)@, at as int),
            at >= old(self).clusters().len() ==> final(self)@ == old(self)@,
            at >= old(self).clusters().len()
                ==> final(self).clusters().len() == old(self).clusters().len(),
    {
        if at < self.grapheme_count {
            let gs = graphemes(self.content.as_str());
            self.content = delete_from_clusters(&gs, at);
        }
        self.update_len();
    }

    /// Adds the text of `other` at the end of this line; `other` is left as it
    /// is.
    pub fn append(&mut self, other: &Row)
        ensures
            final(self).wf(),
            final(self)@ == old(self)@ + other@,
    {
        self.content.append(other.content.as_str());
        self.update_len();
    }

    /// Whether the line holds no text; for a well-formed line, whether it has
    /// no clusters.
    pub fn is_empty(&self) -> (r: bool)
        ensures
            r == (self@.len() == 0),
            self.wf() ==> (r == (self.clusters().len() == 0)),
    {
        proof {
            if self.wf() && self.clusters().len() > 0 {
                let gs = self.clusters();
                assert(gs[0].len() > 0);
                assert(joined(gs) == gs.first() + joined(gs.drop_first()));
            }
        }
        self.content.as_str().is_empty()
    }

    /// The number of grapheme clusters in the line.
    pub fn len(&self) -> (r: usize)
        requires
            self.wf(),
        ensures
            r == self.clusters().len(),
    {
        self.grapheme_count
    }
}

impl Default for Row {
    /// An empty line.
    fn default() -> (r: Row)
        ensures
            r.wf(),
            r@ == Seq::<char>::empty(),
    {
        let mut row = Row { content: String::new(), grapheme_count: 0 };
        row.update_len();
        row
    }
}

} // verus!
