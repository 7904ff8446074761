use vstd::prelude::*;
use std::collections::VecDeque;

verus! {

/// The newest `n` rows of a history kept newest-first.
pub open spec fn keep_newest<R>(rows: Seq<R>, n: nat) -> Seq<R> {
    if rows.len() > n {
        rows.take(n as int)
    } else {
        rows
    }
}

/// Scrolling waterfall history: rows of pixels, newest first, at most
/// `max_rows` of them, all of the current width. `T` is the display texture
/// built from the rows, dropped whenever the width changes.
pub struct WaterfallState<C, T> {
    texture: Option<T>,
    history: VecDeque<Vec<C>>,
    width: usize,
    max_rows: usize,
    dirty: bool,
}

impl<C, T> WaterfallState<C, T> {
    /// Rows of pixels, newest first.
    pub closed spec fn rows(self) -> Seq<Seq<C>> {
        self.history@.map_values(|r: Vec<C>| r@)
    }

    pub closed spec fn width_spec(self) -> nat {
        self.width as nat
    }

    pub closed spec fn max_rows_spec(self) -> nat {
        self.max_rows as nat
    }

    pub closed spec fn dirty_spec(self) -> bool {
        self.dirty
    }

    pub closed spec fn texture_spec(self) -> Option<T> {
        self.texture
    }

    /// At most `max_rows` rows, each as wide as the current width.
    pub closed spec fn wf(self) -> bool {
        &&& self.history@.len() <= self.max_rows
        &&& forall|i: int| 0 <= i < self.history@.len() ==> #[trigger] self.history@[i]@.len() == self.width
    }

    pub proof fn lemma_wf_rows(self)
        requires
            self.wf(),
        ensures
            self.rows().len() <= self.max_rows_spec(),
            forall|i: int| 0 <= i < self.rows().len() ==> #[trigger] self.rows()[i].len() == self.width_spec(),
    {
    }

    /// An empty waterfall keeping at most `max_rows` rows.
    pub fn new(max_rows: usize) -> (res: Self)
        ensures
            res.wf(),
            res.rows() == Seq::<Seq<C>>::empty(),
            res.width_spec() == 0,
            res.max_rows_spec() == max_rows,
            res.dirty_spec(),
            res.texture_spec() is None,
    {
        let res = WaterfallState { texture: None, history: VecDeque::new(), width: 0, max_rows, dirty: true };
        assert(res.rows() =~= Seq::<Seq<C>>::empty());
        res
    }

    /// Pushes a new row of pixels (one per spectrum bin) as the newest row.
    /// An empty row is ignored; a row of another width first clears the
    /// history and drops the texture; the oldest rows beyond `max_rows` go.
    pub fn push_row(&mut self, row: Vec<C>)
        requires
            old(self).wf(),
        ensures
            final(self).wf(),
            final(self).max_rows_spec() == old(self).max_rows_spec(),
            row@.len() == 0 ==> *final(self) == *old(self),
            final(self).rows().len() <= final(self).max_rows_spec(),
            row@.len() > 0 && old(self).max_rows_spec() > 0 ==> final(self).rows()[0] == row@,
            row@.len() > 0 ==> {
                let base = if old(self).width_spec() == row@.len() {
                    old(self).rows()
                } else {
                    Seq::<Seq<C>>::empty()
                };
                &&& final(self).width_spec() == row@.len()
                &&& final(self).rows() == keep_newest(seq![row@] + base, old(self).max_rows_spec())
                &&& final(self).dirty_spec()
                &&& final(self).texture_spec() == if old(self).width_spec() == row@.len() {
                    old(self).texture_spec()
                } else {
                    None
                }
            },
    {
        let w = row.len();
        if w == 0 {
            return;
        }
        let ghost old_rows = self.rows();
        if w != self.width {
            self.width = w;
            self.history.clear();
            self.texture = None;
            assert(self.rows() =~= Seq::<Seq<C>>::empty());
        }
        let ghost base = self.rows();
        assert(base == if old(self).width == w { old(self).rows() } else { Seq::<Seq<C>>::empty() });
        assert(self.texture == if old(self).width == w { old(self).texture } else { None });
        assert(base.len() <= self.max_rows) by {
            assert(base.len() == self.history@.len());
        }
        let ghost row_view = row@;
        let ghost tex = self.texture;
        self.history.push_front(row);
        assert(self.rows() =~= seq![row_view] + base);
        while self.history.len() > self.max_rows
            invariant
                self.max_rows == old(self).max_rows,
                self.width == w,
                self.texture == tex,
                self.history@.len() <= self.max_rows + 1,
                self.history@.len() >= 0,
                forall|i: int| 0 <= i < self.history@.len() ==> #[trigger] self.history@[i]@.len() == self.width,
                self.rows() == keep_newest(seq![row_view] + base, (self.history@.len()) as nat),
                self.history@.len() > self.max_rows ==> self.history@.len() == (seq![row_view] + base).len(),
                self.history@.len() <= (seq![row_view] + base).len(),
                base.len() <= self.max_rows,
                self.history@.len() == (seq![row_view] + base).len() || self.history@.len() == self.max_rows,
            decreases self.history@.len(),
        {
            let ghost before = self.rows();
            self.history.pop_back();
            assert(self.rows() =~= before.take(before.len() - 1));
        }
        self.dirty = true;
        proof {
            self.lemma_wf_rows();
        }
        assert(self.rows() =~= keep_newest(seq![row_view] + base, self.max_rows as nat));
    }

    /// Number of rows held.
    pub fn len(&self) -> (res: usize)
        ensures
            res == self.rows().len(),
    {
        self.history.len()
    }

    pub fn width(&self) -> (res: usize)
        ensures
            res == self.width_spec(),
    {
        self.width
    }

    pub fn is_dirty(&self) -> (res: bool)
        ensures
            res == self.dirty_spec(),
    {
        self.dirty
    }

    /// Records that the texture now shows the current rows.
    pub fn mark_drawn(&mut self)
        ensures
            final(self).rows() == old(self).rows(),
            final(self).width_spec() == old(self).width_spec(),
            final(self).max_rows_spec() == old(self).max_rows_spec(),
            final(self).texture_spec() == old(self).texture_spec(),
            !final(self).dirty_spec(),
            old(self).wf() ==> final(self).wf(),
    {
        self.dirty = false;
    }

    /// The row at `i` (0 is the newest).
    pub fn row(&self, i: usize) -> (res: &Vec<C>)
        requires
            i < self.rows().len(),
        ensures
            res@ == self.rows()[i as int],
    {
        &self.history[i]
    }

    pub fn texture(&self) -> (res: &Option<T>)
        ensures
            *res == self.texture_spec(),
    {
        &self.texture
    }

    /// Installs a texture built from the current rows.
    pub fn set_texture(&mut self, texture: T)
        ensures
            final(self).rows() == old(self).rows(),
            final(self).width_spec() == old(self).width_spec(),
            final(self).max_rows_spec() == old(self).max_rows_spec(),
            final(self).dirty_spec() == old(self).dirty_spec(),
            final(self).texture_spec() == Some(texture),
            old(self).wf() ==> final(self).wf(),
    {
        self.texture = Some(texture);
    }
}

} // verus!
