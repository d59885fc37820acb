use crate::cluster::{
    classes, first_cluster_len, is_cluster_edge, last_cluster_start, last_local_break,
    lemma_cluster_step, lemma_first_cluster_bounds, lemma_last_cluster_start_bounds,
    lemma_last_local_break,
};
use crate::encoding::{
    byte_pos, char_index, is_char_start, lemma_byte_pos_increases, lemma_byte_pos_prefix,
    lemma_byte_pos_skip, lemma_char_index, lemma_encode_take, substring,
};
use crate::logic::{first_boundary, first_boundary_offset, last_local_boundary};
use crate::walk::{backward_clusters, ends_from, forward_clusters, starts_from};
use vstd::prelude::*;

verus! {

/// A forward iterator over the end offsets of the clusters of a string.
///
/// The offsets count bytes of the string.
#[derive(Clone, Copy)]
pub struct EgcIndices<'a> {
    text: &'a str,
    offset: usize,
}

impl<'a> EgcIndices<'a> {
    /// The text that is walked over.
    pub closed spec fn text(&self) -> Seq<char> {
        self.text@
    }

    /// The byte offset up to which the text has been read.
    pub closed spec fn offset(&self) -> int {
        self.offset as int
    }

    /// The offset is the start of a character, or the end of the text.
    pub open spec fn wf(&self) -> bool {
        is_char_start(self.text(), self.offset())
    }

    /// The number of characters that have been read.
    pub open spec fn cursor(&self) -> int {
        char_index(self.text(), self.offset())
    }

    /// The characters that have not been read.
    pub open spec fn remaining(&self) -> Seq<char> {
        self.text().skip(self.cursor())
    }

    /// What the cursor and the offset of a well-formed iterator are to each
    /// other.
    pub proof fn lemma_cursor(&self)
        requires
            self.wf(),
        ensures
            0 <= self.cursor() <= self.text().len(),
            self.offset() == byte_pos(self.text(), self.cursor()),
            self.remaining().len() == self.text().len() - self.cursor(),
            self.offset() <= byte_pos(self.text(), self.text().len() as int),
            self.remaining().len() == 0 <==> self.offset() == byte_pos(
                self.text(),
                self.text().len() as int,
            ),
    {
        lemma_byte_pos_increases(self.text(), self.cursor(), self.text().len() as int);
    }

    /// Moves to the end of the next cluster and returns its offset, or
    /// returns `None` at the end of the text.
    pub fn next(&mut self) -> (r: Option<usize>)
        requires
            old(self).wf(),
        ensures
            final(self).wf(),
            final(self).text() == old(self).text(),
            old(self).remaining().len() == 0 ==> {
                &&& r is None
                &&& final(self).offset() == old(self).offset()
            },
            old(self).remaining().len() > 0 ==> {
                &&& r == Some(final(self).offset() as usize)
                &&& final(self).offset() == old(self).offset() + first_boundary_offset(
                    old(self).remaining(),
                )
                &&& final(self).cursor() == old(self).cursor() + first_cluster_len(
                    classes(old(self).remaining()),
                )
                &&& old(self).offset() < final(self).offset() <= byte_pos(
                    old(self).text(),
                    old(self).text().len() as int,
                )
            },
    {
        let ghost t = self.text@;
        let ghost k = self.cursor();
        let ghost len = t.len() as int;
        proof {
            self.lemma_cursor();
            lemma_encode_take(t, len);
            assert(t.take(len) =~= t);
        }
        let end: usize = self.text.as_bytes().len();
        if self.offset == end {
            return None;
        }
        let rest = substring(self.text, self.offset, end, Ghost(k), Ghost(len));
        assert(rest@ =~= self.remaining());
        let n = first_boundary(rest);
        proof {
            let m = first_cluster_len(classes(rest@));
            lemma_first_cluster_bounds(classes(rest@));
            lemma_byte_pos_skip(t, k, m);
            lemma_byte_pos_increases(t, k + m, len);
            lemma_char_index(t, k + m);
        }
        self.offset += n;
        Some(self.offset)
    }

    /// Walks to the end of the text and returns the offsets of the walk.
    pub fn collect(self) -> (v: Vec<usize>)
        requires
            self.wf(),
        ensures
            v@.len() == ends_from(classes(self.text()), self.cursor()).len(),
            forall|i: int|
                0 <= i < v@.len() ==> v@[i] as int == byte_pos(
                    self.text(),
                    ends_from(classes(self.text()), self.cursor())[i],
                ),
    {
        let ghost t = self.text();
        let ghost ps = classes(t);
        let ghost all = ends_from(ps, self.cursor());
        let ghost mut done: Seq<int> = Seq::empty();
        let mut it = self;
        let mut v: Vec<usize> = Vec::new();
        assert(all =~= done + ends_from(ps, it.cursor()));
        loop
            invariant
                it.wf(),
                it.text() == t,
                t == self.text(),
                ps == classes(t),
                all == ends_from(ps, self.cursor()),
                all == done + ends_from(ps, it.cursor()),
                v@.len() == done.len(),
                forall|i: int| 0 <= i < done.len() ==> v@[i] as int == byte_pos(t, done[i]),
            decreases t.len() - it.cursor(),
        {
            let ghost k = it.cursor();
            proof {
                assert(classes(t.skip(k)) =~= ps.skip(k));
            }
            match it.next() {
                Some(end) => {
                    proof {
                        assert(done.push(it.cursor()) + ends_from(ps, it.cursor()) =~= done
                            + ends_from(ps, k));
                        done = done.push(it.cursor());
                    }
                    v.push(end);
                },
                None => {
                    assert(all =~= done);
                    return v;
                },
            }
        }
    }

    /// Returns a backward iterator over what is left of the text.
    ///
    /// It is another type of iterator: it returns the offsets at which the
    /// clusters start, not those at which they end, and it counts them from
    /// where this iterator stands.
    pub fn rev(self) -> (r: EgcRevIndices<'a>)
        requires
            self.wf(),
        ensures
            r.wf(),
            r.text() == self.remaining(),
            r.cursor() == self.remaining().len(),
            r.before() == self.remaining(),
            r.deferred().len() == 0,
    {
        let ghost t = self.text@;
        let ghost k = self.cursor();
        let ghost len = t.len() as int;
        proof {
            lemma_encode_take(t, len);
            assert(t.take(len) =~= t);
        }
        let end: usize = self.text.as_bytes().len();
        let rest = substring(self.text, self.offset, end, Ghost(k), Ghost(len));
        assert(rest@ =~= self.remaining());
        proof {
            lemma_encode_take(rest@, rest@.len() as int);
            assert(rest@.take(rest@.len() as int) =~= rest@);
            lemma_char_index(rest@, rest@.len() as int);
        }
        EgcRevIndices { text: rest, offset: rest.as_bytes().len(), stack: Vec::new() }
    }
}

/// A forward iterator over the clusters of a string, returned as sub-slices.
#[derive(Clone, Copy)]
pub struct EgcSlices<'a> {
    inner: EgcIndices<'a>,
}

impl<'a> EgcSlices<'a> {
    /// The iterator over the offsets that cuts the slices.
    pub closed spec fn indices(&self) -> EgcIndices<'a> {
        self.inner
    }

    /// The offset is the start of a character, or the end of the text.
    pub open spec fn wf(&self) -> bool {
        self.indices().wf()
    }

    /// The text that is walked over.
    pub open spec fn text(&self) -> Seq<char> {
        self.indices().text()
    }

    /// The number of characters that have been read.
    pub open spec fn cursor(&self) -> int {
        self.indices().cursor()
    }

    /// The characters that have not been read.
    pub open spec fn remaining(&self) -> Seq<char> {
        self.indices().remaining()
    }

    /// Returns the next cluster, or `None` at the end of the text.
    pub fn next(&mut self) -> (r: Option<&'a str>)
        requires
            old(self).wf(),
        ensures
            final(self).wf(),
            final(self).text() == old(self).text(),
            old(self).remaining().len() == 0 ==> {
                &&& r is None
                &&& final(self).cursor() == old(self).cursor()
            },
            old(self).remaining().len() > 0 ==> {
                &&& r is Some
                &&& r->0@ == old(self).remaining().take(
                    first_cluster_len(classes(old(self).remaining())),
                )
                &&& final(self).cursor() == old(self).cursor() + first_cluster_len(
                    classes(old(self).remaining()),
                )
            },
    {
        let start = self.inner.offset;
        let ghost j = self.inner.cursor();
        match self.inner.next() {
            Some(i) => {
                let ghost k = self.inner.cursor();
                let piece = substring(self.inner.text, start, i, Ghost(j), Ghost(k));
                assert(piece@ =~= old(self).remaining().take(k - j));
                Some(piece)
            },
            None => None,
        }
    }

    /// Walks to the end of the text and returns the clusters of the walk.
    pub fn collect(self) -> (v: Vec<&'a str>)
        requires
            self.wf(),
        ensures
            v@.len() == forward_clusters(self.remaining()).len(),
            forall|i: int| 0 <= i < v@.len() ==> v@[i]@ == forward_clusters(self.remaining())[i],
    {
        let ghost t = self.text();
        let ghost all = forward_clusters(self.remaining());
        let ghost mut done: Seq<Seq<char>> = Seq::empty();
        let mut it = self;
        let mut v: Vec<&'a str> = Vec::new();
        assert(all =~= done + forward_clusters(it.remaining()));
        loop
            invariant
                it.wf(),
                it.text() == t,
                all == forward_clusters(self.remaining()),
                all == done + forward_clusters(it.remaining()),
                v@.len() == done.len(),
                forall|i: int| 0 <= i < done.len() ==> v@[i]@ == done[i],
            decreases it.remaining().len(),
        {
            let ghost k = it.cursor();
            let ghost rem = it.remaining();
            proof {
                lemma_first_cluster_bounds(classes(rem));
            }
            match it.next() {
                Some(piece) => {
                    proof {
                        assert(it.remaining() =~= rem.skip(it.cursor() - k));
                        assert(done.push(piece@) + forward_clusters(it.remaining()) =~= done
                            + forward_clusters(rem));
                        done = done.push(piece@);
                    }
                    v.push(piece);
                },
                None => {
                    assert(all =~= done);
                    return v;
                },
            }
        }
    }

    /// Returns a backward iterator over the clusters that are left.
    pub fn rev(self) -> (r: EgcRevSlices<'a>)
        requires
            self.wf(),
        ensures
            r.wf(),
            r.text() == self.remaining(),
            r.cursor() == self.remaining().len(),
            r.before() == self.remaining(),
    {
        EgcRevSlices { inner: self.inner.rev() }
    }
}

/// Are the deferred offsets the starts of the last clusters of the first `k`
/// characters? The last offset is where the last of these clusters begins,
/// and each other offset is where the cluster before the one above it
/// begins, so the offsets rise and leave no boundary out.
pub open spec fn deferred_ok(t: Seq<char>, stack: Seq<usize>, k: int) -> bool
    decreases stack.len(),
{
    stack.len() > 0 ==> {
        &&& 0 < k
        &&& is_char_start(t, stack.last() as int)
        &&& char_index(t, stack.last() as int) == last_cluster_start(classes(t.take(k)))
        &&& deferred_ok(t, stack.drop_last(), char_index(t, stack.last() as int))
    }
}

/// A backward iterator over the start offsets of the clusters of a string.
///
/// Going backward is not as straightforward as going forward:
///
/// - A first pass goes backward and looks only for a local boundary, one
///   that the two characters around it decide.
/// - If the pass went over a pair that needs its context, a second pass goes
///   forward from the local boundary to find the boundaries in between.
/// - The boundaries found on the way are kept in the iterator and handed out
///   later, so that no stretch of the text is walked forward twice.
#[derive(Clone)]
pub struct EgcRevIndices<'a> {
    text: &'a str,
    offset: usize,
    // Boundaries that a forward pass has found before `offset`, the last on top.
    stack: Vec<usize>,
}

impl<'a> EgcRevIndices<'a> {
    /// The text that is walked over.
    pub closed spec fn text(&self) -> Seq<char> {
        self.text@
    }

    /// The byte offset down to which the text has been read.
    pub closed spec fn offset(&self) -> int {
        self.offset as int
    }

    /// The deferred boundaries, the next one to hand out last.
    pub closed spec fn deferred(&self) -> Seq<usize> {
        self.stack@
    }

    /// The number of characters that have not been read.
    pub open spec fn cursor(&self) -> int {
        char_index(self.text(), self.offset())
    }

    /// The characters that have not been read.
    pub open spec fn before(&self) -> Seq<char> {
        self.text().take(self.cursor())
    }

    /// The offset is the start of a character or the end of the text, and the
    /// deferred boundaries are the cluster starts just below it.
    pub open spec fn wf(&self) -> bool {
        &&& is_char_start(self.text(), self.offset())
        &&& deferred_ok(self.text(), self.deferred(), self.cursor())
    }

    /// What the cursor and the offset of a well-formed iterator are to each
    /// other.
    pub proof fn lemma_cursor(&self)
        requires
            self.wf(),
        ensures
            0 <= self.cursor() <= self.text().len(),
            self.offset() == byte_pos(self.text(), self.cursor()),
            self.cursor() == 0 <==> self.offset() == 0,
    {
        lemma_byte_pos_increases(self.text(), 0, self.cursor());
    }

    /// Moves to the start of the cluster before the offset and returns its
    /// offset, or returns `None` at the start of the text.
    pub fn next(&mut self) -> (r: Option<usize>)
        requires
            old(self).wf(),
        ensures
            final(self).wf(),
            final(self).text() == old(self).text(),
            old(self).offset() == 0 ==> r is None && final(self).offset() == 0,
            old(self).offset() > 0 ==> {
                &&& r == Some(final(self).offset() as usize)
                &&& final(self).cursor() == last_cluster_start(classes(old(self).before()))
                &&& final(self).offset() == byte_pos(old(self).text(), final(self).cursor())
                &&& final(self).offset() < old(self).offset()
            },
            // a deferred boundary is handed out before the text is read again
            old(self).deferred().len() > 0 ==> {
                &&& r == Some(old(self).deferred().last())
                &&& final(self).deferred() == old(self).deferred().drop_last()
            },
            // what a forward pass finds on its way is deferred, from the last
            // local boundary on
            old(self).deferred().len() == 0 && old(self).offset() > 0 ==> {
                let ps = classes(old(self).before());
                let c = last_local_break(ps);
                &&& final(self).deferred().len() == 0 <==> final(self).cursor() == c
                &&& final(self).deferred().len() > 0 ==> final(self).deferred()[0] == byte_pos(
                    old(self).text(),
                    c,
                )
            },
    {
        let ghost t = self.text@;
        let ghost k = self.cursor();
        let ghost target = last_cluster_start(classes(t.take(k)));
        proof {
            lemma_last_cluster_start_bounds(classes(t.take(k)));
            if k > 0 {
                lemma_byte_pos_increases(t, target, k);
            }
        }
        if self.offset == 0 {
            return None;
        }
        if let Some(i) = self.stack.pop() {
            self.offset = i;
            return Some(i);
        }
        let rest = substring(self.text, 0, self.offset, Ghost(0), Ghost(k));
        let ghost q = rest@;
        let ghost qs = classes(q);
        assert(q =~= t.take(k));
        let (c, maybe_skipped) = last_local_boundary(rest);
        proof {
            lemma_last_local_break(qs);
            lemma_byte_pos_prefix(q, t, last_local_break(qs));
            lemma_char_index(t, last_local_break(qs));
            lemma_char_index(q, last_local_break(qs));
        }
        let mut i = c;
        if !maybe_skipped {
            self.offset = i;
            return Some(i);
        }
        let mut it = EgcIndices { text: rest, offset: i };
        loop
            invariant
                t == old(self).text(),
                k == old(self).cursor(),
                old(self).offset() == byte_pos(t, k),
                0 < k <= t.len(),
                byte_pos(t, last_cluster_start(classes(t.take(k)))) < byte_pos(t, k),
                q == t.take(k),
                qs == classes(q),
                self.text@ == t,
                self.offset == byte_pos(t, k),
                it.wf(),
                it.text() == q,
                it.offset() == i,
                0 <= it.cursor() < k,
                is_cluster_edge(qs, it.cursor()),
                deferred_ok(t, self.stack@, it.cursor()),
                old(self).deferred().len() == 0,
                last_local_break(qs) <= it.cursor(),
                self.stack@.len() == 0 <==> it.cursor() == last_local_break(qs),
                self.stack@.len() > 0 ==> self.stack@[0] == byte_pos(t, last_local_break(qs)),
            decreases k - it.cursor(),
        {
            let ghost ci = it.cursor();
            proof {
                lemma_cluster_step(qs, ci);
                assert(classes(q.skip(ci)) =~= qs.skip(ci));
                lemma_byte_pos_prefix(q, t, ci);
                lemma_char_index(t, ci);
            }
            match it.next() {
                Some(end) => {
                    let ghost e = it.cursor();
                    proof {
                        lemma_byte_pos_prefix(q, t, e);
                        lemma_byte_pos_increases(t, e, k);
                        assert(classes(t.take(e)) =~= qs.take(e));
                    }
                    if end == self.offset {
                        proof {
                            assert(qs.take(k) =~= qs);
                        }
                        self.offset = i;
                        return Some(i);
                    } else {
                        let ghost below = self.stack@;
                        self.stack.push(i);
                        assert(self.stack@.drop_last() =~= below);
                    }
                    i = end;
                },
                None => {
                    return vstd::pervasive::unreached();
                },
            }
        }
    }

    /// Walks to the start of the text and returns the offsets of the walk.
    pub fn collect(self) -> (v: Vec<usize>)
        requires
            self.wf(),
        ensures
            v@.len() == starts_from(classes(self.text()), self.cursor()).len(),
            forall|i: int|
                0 <= i < v@.len() ==> v@[i] as int == byte_pos(
                    self.text(),
                    starts_from(classes(self.text()), self.cursor())[i],
                ),
    {
        let ghost t = self.text();
        let ghost ps = classes(t);
        let ghost all = starts_from(ps, self.cursor());
        let ghost mut done: Seq<int> = Seq::empty();
        let mut it = self;
        let mut v: Vec<usize> = Vec::new();
        assert(all =~= done + starts_from(ps, it.cursor()));
        loop
            invariant
                it.wf(),
                it.text() == t,
                t == self.text(),
                ps == classes(t),
                all == starts_from(ps, self.cursor()),
                all == done + starts_from(ps, it.cursor()),
                v@.len() == done.len(),
                forall|i: int| 0 <= i < done.len() ==> v@[i] as int == byte_pos(t, done[i]),
            decreases it.cursor(),
        {
            let ghost k = it.cursor();
            proof {
                it.lemma_cursor();
                assert(classes(t.take(k)) =~= ps.take(k));
                lemma_last_cluster_start_bounds(ps.take(k));
            }
            match it.next() {
                Some(start) => {
                    proof {
                        assert(done.push(it.cursor()) + starts_from(ps, it.cursor()) =~= done
                            + starts_from(ps, k));
                        done = done.push(it.cursor());
                    }
                    v.push(start);
                },
                None => {
                    assert(all =~= done);
                    return v;
                },
            }
        }
    }
}

/// A backward iterator over the clusters of a string, returned as sub-slices.
#[derive(Clone)]
pub struct EgcRevSlices<'a> {
    inner: EgcRevIndices<'a>,
}

impl<'a> EgcRevSlices<'a> {
    /// The iterator over the offsets that cuts the slices.
    pub closed spec fn indices(&self) -> EgcRevIndices<'a> {
        self.inner
    }

    /// The iterator over the offsets is well formed.
    pub open spec fn wf(&self) -> bool {
        self.indices().wf()
    }

    /// The text that is walked over.
    pub open spec fn text(&self) -> Seq<char> {
        self.indices().text()
    }

    /// The number of characters that have not been read.
    pub open spec fn cursor(&self) -> int {
        self.indices().cursor()
    }

    /// The characters that have not been read.
    pub open spec fn before(&self) -> Seq<char> {
        self.indices().before()
    }

    /// Returns the cluster before the offset, or `None` at the start of the
    /// text.
    pub fn next(&mut self) -> (r: Option<&'a str>)
        requires
            old(self).wf(),
        ensures
            final(self).wf(),
            final(self).text() == old(self).text(),
            old(self).cursor() == 0 ==> r is None && final(self).cursor() == 0,
            old(self).cursor() > 0 ==> {
                &&& r is Some
                &&& r->0@ == old(self).before().skip(
                    last_cluster_start(classes(old(self).before())),
                )
                &&& final(self).cursor() == last_cluster_start(classes(old(self).before()))
            },
    {
        let end = self.inner.offset;
        let ghost k = self.inner.cursor();
        proof {
            self.inner.lemma_cursor();
        }
        match self.inner.next() {
            Some(i) => {
                let ghost j = self.inner.cursor();
                proof {
                    lemma_last_cluster_start_bounds(classes(old(self).before()));
                }
                let piece = substring(self.inner.text, i, end, Ghost(j), Ghost(k));
                assert(piece@ =~= old(self).before().skip(j));
                Some(piece)
            },
            None => None,
        }
    }

    /// Walks to the start of the text and returns the clusters of the walk,
    /// the last cluster of the text first.
    pub fn collect(self) -> (v: Vec<&'a str>)
        requires
            self.wf(),
        ensures
            v@.len() == backward_clusters(self.before()).len(),
            forall|i: int| 0 <= i < v@.len() ==> v@[i]@ == backward_clusters(self.before())[i],
    {
        let ghost t = self.text();
        let ghost all = backward_clusters(self.before());
        let ghost mut done: Seq<Seq<char>> = Seq::empty();
        let mut it = self;
        let mut v: Vec<&'a str> = Vec::new();
        assert(all =~= done + backward_clusters(it.before()));
        loop
            invariant
                it.wf(),
                it.text() == t,
                all == backward_clusters(self.before()),
                all == done + backward_clusters(it.before()),
                v@.len() == done.len(),
                forall|i: int| 0 <= i < done.len() ==> v@[i]@ == done[i],
            decreases it.cursor(),
        {
            let ghost k = it.cursor();
            let ghost pre = it.before();
            proof {
                lemma_last_cluster_start_bounds(classes(pre));
            }
            match it.next() {
                Some(piece) => {
                    proof {
                        assert(it.before() =~= pre.take(it.cursor()));
                        assert(done.push(piece@) + backward_clusters(it.before()) =~= done
                            + backward_clusters(pre));
                        done = done.push(piece@);
                    }
                    v.push(piece);
                },
                None => {
                    assert(all =~= done);
                    return v;
                },
            }
        }
    }
}

/// Adds the walks over clusters to `str`.
pub trait Egc {
    /// Returns an iterator over the offsets at which the clusters of the
    /// string end.
    fn egc_indices(&self) -> EgcIndices<'_>;

    /// Returns an iterator over the clusters of the string, as sub-slices.
    fn egcs(&self) -> EgcSlices<'_>;
}

impl Egc for str {
    fn egc_indices(&self) -> (r: EgcIndices<'_>)
        ensures
            r.wf(),
            r.text() == self@,
            r.cursor() == 0,
            r.offset() == 0,
            r.remaining() == self@,
    {
        proof {
            lemma_char_index(self@, 0);
            assert(self@.skip(0) =~= self@);
        }
        EgcIndices { text: self, offset: 0 }
    }

    fn egcs(&self) -> (r: EgcSlices<'_>)
        ensures
            r.wf(),
            r.text() == self@,
            r.cursor() == 0,
            r.remaining() == self@,
    {
        EgcSlices { inner: self.egc_indices() }
    }
}

} // verus!
