//! The rectangular field: a flat row-major buffer of panels with
//! position-relative addressing and the backtrack-reconstruction pass.

use vstd::prelude::*;

use crate::panel::Exits;
use crate::panel::Panel;
use crate::panel::panel_wf;

verus! {

/// A field, stored on the heap as a row-major flattened array.
///
/// The panel at `(x, y)` lives at index `y * width + x`. The dimensions are
/// fixed at construction; a zero-dimension field is valid and empty.
#[derive(Debug)]
pub struct Field {
    data: Vec<Panel>,
    width: usize,
    height: usize,
}

/// A position `(x, y)` within a `w`-wide grid lies at this row-major index.
pub open spec fn row_major_index(w: int, x: int, y: int) -> int {
    y * w + x
}

/// In-bounds positions map to row-major indices inside the buffer.
pub proof fn lemma_row_major_bound(w: int, h: int, x: int, y: int)
    by (nonlinear_arith)
    requires
        0 <= x < w,
        0 <= y < h,
    ensures
        0 <= row_major_index(w, x, y) < w * h,
        0 <= row_major_index(w, x, y) < h * w,
{
}

/// Distinct in-bounds positions map to distinct row-major indices.
pub proof fn lemma_row_major_distinct(w: int, x1: int, y1: int, x2: int, y2: int)
    by (nonlinear_arith)
    requires
        0 <= x1 < w,
        0 <= x2 < w,
        0 <= y1,
        0 <= y2,
        !(x1 == x2 && y1 == y2),
    ensures
        row_major_index(w, x1, y1) != row_major_index(w, x2, y2),
{
}

impl View for Field {
    type V = Seq<Panel>;

    closed spec fn view(&self) -> Seq<Panel> {
        self.data@
    }
}

impl Field {
    /// The field's width, as seen by specifications.
    pub closed spec fn spec_width(&self) -> usize {
        self.width
    }

    /// The field's height, as seen by specifications.
    pub closed spec fn spec_height(&self) -> usize {
        self.height
    }

    /// The buffer holds exactly `width * height` panels, all with their exit
    /// masks confined to four bits.
    pub open spec fn wf(&self) -> bool {
        &&& self@.len() == self.spec_width() * self.spec_height()
        &&& forall|i: int| 0 <= i < self@.len() ==> panel_wf(#[trigger] self@[i])
    }

    /// The panel this field holds at position `(x, y)`.
    pub open spec fn spec_at(&self, x: int, y: int) -> Panel {
        self@[row_major_index(self.spec_width() as int, x, y)]
    }

    /// Creates a new, empty field.
    pub fn new() -> (r: Field)
        ensures
            r.spec_width() == 0usize,
            r.spec_height() == 0usize,
            r@.len() == 0,
            r.wf(),
    {
        Field { data: Vec::new(), width: 0, height: 0 }
    }

    /// Creates a new field from a row-major vector.
    pub fn new_vec(data: Vec<Panel>, width: usize, height: usize) -> (r: Field)
        requires
            data@.len() == width * height,
            forall|i: int| 0 <= i < data@.len() ==> panel_wf(#[trigger] data@[i]),
        ensures
            r@ == data@,
            r.spec_width() == width,
            r.spec_height() == height,
            r.wf(),
    {
        Field { data, width, height }
    }

    /// Creates a new field from row-major nested rows.
    ///
    /// The height is the number of rows and the width the length of the
    /// first row; every row must have that same length.
    pub fn new_iter(rows: Vec<Vec<Panel>>) -> (r: Field)
        requires
            forall|y: int| 0 <= y < rows@.len() ==> (#[trigger] rows@[y])@.len() == rows@[0]@.len(),
            forall|y: int, x: int|
                0 <= y < rows@.len() && 0 <= x < rows@[y]@.len() ==> panel_wf(
                    #[trigger] rows@[y]@[x],
                ),
        ensures
            r.spec_height() == rows@.len(),
            rows@.len() == 0 ==> r.spec_width() == 0usize,
            rows@.len() > 0 ==> r.spec_width() == rows@[0]@.len(),
            r.wf(),
            forall|y: int, x: int|
                0 <= y < rows@.len() && 0 <= x < rows@[y]@.len() ==> r.spec_at(x, y) == rows@[y]@[x],
    {
        Field::new_slice(&rows)
    }

    /// Creates a new field from borrowed row-major nested rows.
    ///
    /// Every row must have the same length as the first.
    pub fn new_slice(rows: &Vec<Vec<Panel>>) -> (r: Field)
        requires
            forall|y: int| 0 <= y < rows@.len() ==> (#[trigger] rows@[y])@.len() == rows@[0]@.len(),
            forall|y: int, x: int|
                0 <= y < rows@.len() && 0 <= x < rows@[y]@.len() ==> panel_wf(
                    #[trigger] rows@[y]@[x],
                ),
        ensures
            r.spec_height() == rows@.len(),
            rows@.len() == 0 ==> r.spec_width() == 0usize,
            rows@.len() > 0 ==> r.spec_width() == rows@[0]@.len(),
            r.wf(),
            forall|y: int, x: int|
                0 <= y < rows@.len() && 0 <= x < rows@[y]@.len() ==> r.spec_at(x, y) == rows@[y]@[x],
    {
        let height = rows.len();
        if height == 0 {
            return Field::new();
        }
        let width = rows[0].len();
        let mut data: Vec<Panel> = Vec::new();
        proof {
            assert(0 * (width as int) == 0) by (nonlinear_arith);
        }
        for y in 0..height
            invariant
                height == rows@.len(),
                width == rows@[0]@.len(),
                forall|yy: int| 0 <= yy < rows@.len() ==> (#[trigger] rows@[yy])@.len() == width,
                forall|yy: int, xx: int|
                    0 <= yy < rows@.len() && 0 <= xx < width ==> panel_wf(#[trigger] rows@[yy]@[xx]),
                data@.len() == y * width,
                forall|yy: int, xx: int|
                    0 <= yy < y && 0 <= xx < width ==> data@[row_major_index(width as int, xx, yy)]
                        == rows@[yy]@[xx],
        {
            let row = &rows[y];
            for x in 0..width
                invariant
                    height == rows@.len(),
                    width == rows@[0]@.len(),
                    y < height,
                    row@ == rows@[y as int]@,
                    forall|yy: int| 0 <= yy < rows@.len() ==> (#[trigger] rows@[yy])@.len() == width,
                    forall|yy: int, xx: int|
                        0 <= yy < rows@.len() && 0 <= xx < width ==> panel_wf(
                            #[trigger] rows@[yy]@[xx],
                        ),
                    data@.len() == y * width + x,
                    forall|yy: int, xx: int|
                        0 <= yy < y && 0 <= xx < width ==> data@[row_major_index(width as int, xx, yy)]
                            == rows@[yy]@[xx],
                    forall|xx: int|
                        0 <= xx < x ==> data@[row_major_index(width as int, xx, y as int)]
                            == rows@[y as int]@[xx],
            {
                data.push(row[x]);
                proof {
                    assert forall|yy: int, xx: int|
                        0 <= yy < y && 0 <= xx < width implies data@[row_major_index(
                        width as int,
                        xx,
                        yy,
                    )] == rows@[yy]@[xx] by {
                        lemma_row_major_bound(width as int, y as int, xx, yy);
                    }
                }
            }
            proof {
                assert((y as int + 1) * (width as int) == y as int * (width as int) + width as int)
                    by (nonlinear_arith);
            }
        }
        proof {
            assert((height as int) * (width as int) == (width as int) * (height as int))
                by (nonlinear_arith);
            assert forall|i: int| 0 <= i < data@.len() implies panel_wf(#[trigger] data@[i]) by {
                if width > 0 {
                    lemma_row_major_decompose(width as int, height as int, i);
                } else {
                    assert((height as int) * 0 == 0) by (nonlinear_arith);
                }
            }
        }
        Field { data, width, height }
    }

    /// All panels of the field, row-major.
    pub fn panels(&self) -> (r: &Vec<Panel>)
        ensures
            r@ == self@,
    {
        &self.data
    }

    /// Gets the width of a field.
    pub fn width(&self) -> (r: usize)
        ensures
            r == self.spec_width(),
    {
        self.width
    }

    /// Gets the height of a field.
    pub fn height(&self) -> (r: usize)
        ensures
            r == self.spec_height(),
    {
        self.height
    }

    /// Indexes the field immutably.
    pub fn get<'a>(&'a self, x: usize, y: usize) -> (r: PanelRef<'a>)
        requires
            self.wf(),
            x < self.spec_width(),
            y < self.spec_height(),
        ensures
            r.spec_field() == *self,
            r.spec_x() == x,
            r.spec_y() == y,
            r.wf(),
    {
        PanelRef::new(self, x, y)
    }

    /// Gets all of the positions on the field, row-major.
    pub fn iter(&self) -> (r: Vec<(usize, usize)>)
        requires
            self.wf(),
        ensures
            r@.len() == self.spec_width() * self.spec_height(),
            forall|x: int, y: int|
                0 <= x < self.spec_width() && 0 <= y < self.spec_height() ==> r@[
                    #[trigger] row_major_index(self.spec_width() as int, x, y)] == (
                x as usize,
                y as usize,
            ),
    {
        let width = self.width;
        let height = self.height;
        let mut out: Vec<(usize, usize)> = Vec::new();
        proof {
            assert(0 * (width as int) == 0) by (nonlinear_arith);
        }
        for y in 0..height
            invariant
                out@.len() == y * width,
                forall|xx: int, yy: int|
                    0 <= xx < width && 0 <= yy < y ==> out@[
                        #[trigger] row_major_index(width as int, xx, yy)] == (
                    xx as usize,
                    yy as usize,
                ),
        {
            for x in 0..width
                invariant
                    y < height,
                    out@.len() == y * width + x,
                    forall|xx: int, yy: int|
                        0 <= xx < width && 0 <= yy < y ==> out@[
                            #[trigger] row_major_index(width as int, xx, yy)] == (
                        xx as usize,
                        yy as usize,
                    ),
                    forall|xx: int|
                        0 <= xx < x ==> out@[#[trigger] row_major_index(width as int, xx, y as int)]
                            == (xx as usize, y as usize),
            {
                out.push((x, y));
                proof {
                    assert forall|xx: int, yy: int| 0 <= xx < width && 0 <= yy < y implies out@[
                        #[trigger] row_major_index(width as int, xx, yy)] == (
                        xx as usize,
                        yy as usize,
                    ) by {
                        lemma_row_major_bound(width as int, y as int, xx, yy);
                    }
                }
            }
            proof {
                assert((y as int + 1) * (width as int) == y as int * (width as int) + width as int)
                    by (nonlinear_arith);
            }
        }
        proof {
            assert((height as int) * (width as int) == (width as int) * (height as int))
                by (nonlinear_arith);
        }
        out
    }

    /// Gets all of the panels in the row at `y`, west to east.
    pub fn row_iter(&self, y: usize) -> (r: Vec<Panel>)
        requires
            self.wf(),
            y < self.spec_height(),
        ensures
            r@.len() == self.spec_width(),
            forall|x: int|
                0 <= x < self.spec_width() ==> #[trigger] r@[x] == self.spec_at(x, y as int),
    {
        let width = self.width;
        let n: usize = self.data.len();
        let mut out: Vec<Panel> = Vec::new();
        for x in 0..width
            invariant
                y < self.spec_height(),
                width == self.spec_width(),
                n == self@.len(),
                self.wf(),
                out@.len() == x,
                forall|xx: int| 0 <= xx < x ==> #[trigger] out@[xx] == self.spec_at(xx, y as int),
        {
            proof {
                lemma_row_major_bound(width as int, self.spec_height() as int, x as int, y as int);
            }
            let i: usize = y * width + x;
            out.push(self.data[i]);
        }
        out
    }

    /// Gets all of the rows in a field, north to south.
    pub fn rows_iter(&self) -> (r: Vec<Vec<Panel>>)
        requires
            self.wf(),
        ensures
            r@.len() == self.spec_height(),
            forall|y: int| 0 <= y < self.spec_height() ==> (#[trigger] r@[y])@.len()
                == self.spec_width(),
            forall|y: int, x: int|
                0 <= y < self.spec_height() && 0 <= x < self.spec_width() ==> r@[y]@[x]
                    == #[trigger] self.spec_at(x, y),
    {
        let height = self.height;
        let mut out: Vec<Vec<Panel>> = Vec::new();
        for y in 0..height
            invariant
                height == self.spec_height(),
                self.wf(),
                out@.len() == y,
                forall|yy: int| 0 <= yy < y ==> (#[trigger] out@[yy])@.len() == self.spec_width(),
                forall|yy: int, xx: int|
                    0 <= yy < y && 0 <= xx < self.spec_width() ==> out@[yy]@[xx]
                        == #[trigger] self.spec_at(xx, yy),
        {
            out.push(self.row_iter(y));
        }
        out
    }

    /// Gets all of the panels in the column at `x`, north to south.
    pub fn column_iter(&self, x: usize) -> (r: Vec<Panel>)
        requires
            self.wf(),
            x < self.spec_width(),
        ensures
            r@.len() == self.spec_height(),
            forall|y: int|
                0 <= y < self.spec_height() ==> #[trigger] r@[y] == self.spec_at(x as int, y),
    {
        let height = self.height;
        let n: usize = self.data.len();
        let mut out: Vec<Panel> = Vec::new();
        for y in 0..height
            invariant
                x < self.spec_width(),
                height == self.spec_height(),
                n == self@.len(),
                self.wf(),
                out@.len() == y,
                forall|yy: int| 0 <= yy < y ==> #[trigger] out@[yy] == self.spec_at(x as int, yy),
        {
            proof {
                lemma_row_major_bound(
                    self.spec_width() as int,
                    height as int,
                    x as int,
                    y as int,
                );
            }
            let i: usize = y * self.width + x;
            out.push(self.data[i]);
        }
        out
    }

    /// Gets all of the columns in a field, west to east.
    pub fn columns_iter(&self) -> (r: Vec<Vec<Panel>>)
        requires
            self.wf(),
        ensures
            r@.len() == self.spec_width(),
            forall|x: int| 0 <= x < self.spec_width() ==> (#[trigger] r@[x])@.len()
                == self.spec_height(),
            forall|x: int, y: int|
                0 <= x < self.spec_width() && 0 <= y < self.spec_height() ==> r@[x]@[y]
                    == #[trigger] self.spec_at(x, y),
    {
        let width = self.width;
        let mut out: Vec<Vec<Panel>> = Vec::new();
        for x in 0..width
            invariant
                width == self.spec_width(),
                self.wf(),
                out@.len() == x,
                forall|xx: int| 0 <= xx < x ==> (#[trigger] out@[xx])@.len() == self.spec_height(),
                forall|xx: int, yy: int|
                    0 <= xx < x && 0 <= yy < self.spec_height() ==> out@[xx]@[yy]
                        == #[trigger] self.spec_at(xx, yy),
        {
            out.push(self.column_iter(x));
        }
        out
    }

    /// Rebuilds backtrack exits, using the normal exits as a reference.
    ///
    /// For every panel and every direction in which that panel has a forward
    /// exit, the neighbour it exits into receives the opposite direction in
    /// its backtrack exits; all backtrack bits not derived this way are
    /// cleared. Re-running the pass after any edit of the forward exits
    /// yields a fully consistent result.
    pub fn build_backtrack(&mut self)
        requires
            old(self).wf(),
        ensures
            final(self).wf(),
            final(self).spec_width() == old(self).spec_width(),
            final(self).spec_height() == old(self).spec_height(),
            spec_backtrack_rebuilt(
                old(self)@,
                final(self)@,
                old(self).spec_width() as int,
                old(self).spec_height() as int,
            ),
    {
        let width = self.width;
        let height = self.height;
        let ghost orig: Seq<Panel> = self.data@;
        let ghost w = width as int;
        let ghost h = height as int;
        for y in 0..height
            invariant
                self.width == width,
                self.height == height,
                w == width as int,
                h == height as int,
                self.wf(),
                orig.len() == w * h,
                self.data@.len() == orig.len(),
                forall|i: int| 0 <= i < orig.len() ==> panel_wf(#[trigger] orig[i]),
                forall|i: int|
                    0 <= i < orig.len() ==> (#[trigger] self.data@[i]).kind == orig[i].kind
                        && self.data@[i].exits == orig[i].exits,
                forall|xx: int, yy: int|
                    0 <= xx < w && 0 <= yy < y ==> self.data@[row_major_index(w, xx, yy)]
                        .exits_backtrack@ == #[trigger] spec_backtrack_mask(orig, w, h, xx, yy),
        {
            for x in 0..width
                invariant
                    self.width == width,
                    self.height == height,
                    w == width as int,
                    h == height as int,
                    y < height,
                    self.wf(),
                    orig.len() == w * h,
                    self.data@.len() == orig.len(),
                    forall|i: int| 0 <= i < orig.len() ==> panel_wf(#[trigger] orig[i]),
                    forall|i: int|
                        0 <= i < orig.len() ==> (#[trigger] self.data@[i]).kind == orig[i].kind
                            && self.data@[i].exits == orig[i].exits,
                    forall|xx: int, yy: int|
                        0 <= xx < w && 0 <= yy < y ==> self.data@[row_major_index(w, xx, yy)]
                            .exits_backtrack@ == #[trigger] spec_backtrack_mask(orig, w, h, xx, yy),
                    forall|xx: int|
                        0 <= xx < x ==> self.data@[row_major_index(w, xx, y as int)]
                            .exits_backtrack@ == #[trigger] spec_backtrack_mask(
                            orig,
                            w,
                            h,
                            xx,
                            y as int,
                        ),
            {
                let n: usize = self.data.len();
                let mut mask: u8 = 0;
                // west backtrack exit: the western neighbour exits east
                if x > 0 {
                    proof {
                        lemma_row_major_bound(w, h, x as int - 1, y as int);
                    }
                    let i: usize = y * width + (x - 1);
                    if self.data[i].exits.has(Exits::east()) {
                        mask = mask + 0b0001;
                    }
                }
                // north backtrack exit: the northern neighbour exits south
                if y + 1 < height {
                    proof {
                        lemma_row_major_bound(w, h, x as int, y as int + 1);
                    }
                    let i: usize = (y + 1) * width + x;
                    if self.data[i].exits.has(Exits::south()) {
                        mask = mask + 0b0010;
                    }
                }
                // east backtrack exit: the eastern neighbour exits west
                if x + 1 < width {
                    proof {
                        lemma_row_major_bound(w, h, x as int + 1, y as int);
                    }
                    let i: usize = y * width + (x + 1);
                    if self.data[i].exits.has(Exits::west()) {
                        mask = mask + 0b0100;
                    }
                }
                // south backtrack exit: the southern neighbour exits north
                if y > 0 {
                    proof {
                        lemma_row_major_bound(w, h, x as int, y as int - 1);
                    }
                    let i: usize = (y - 1) * width + x;
                    if self.data[i].exits.has(Exits::north()) {
                        mask = mask + 0b1000;
                    }
                }
                proof {
                    assert(mask == spec_backtrack_mask(orig, w, h, x as int, y as int));
                    lemma_row_major_bound(w, h, x as int, y as int);
                }
                let i: usize = y * width + x;
                let mut p = self.data[i];
                p.exits_backtrack = Exits::from_bits(mask);
                self.data.set(i, p);
                proof {
                    assert forall|xx: int, yy: int| 0 <= xx < w && 0 <= yy < y implies self.data@[
                        row_major_index(w, xx, yy)].exits_backtrack@ == #[trigger] spec_backtrack_mask(
                        orig,
                        w,
                        h,
                        xx,
                        yy,
                    ) by {
                        lemma_row_major_bound(w, h, xx, yy);
                        lemma_row_major_distinct(w, xx, yy, x as int, y as int);
                    }
                    assert forall|xx: int| 0 <= xx < x + 1 implies self.data@[row_major_index(
                        w,
                        xx,
                        y as int,
                    )].exits_backtrack@ == #[trigger] spec_backtrack_mask(orig, w, h, xx, y as int)
                        by {
                        lemma_row_major_bound(w, h, xx, y as int);
                        if xx < x {
                            lemma_row_major_distinct(w, xx, y as int, x as int, y as int);
                        }
                    }
                }
            }
        }
        proof {
            assert forall|xx: int, yy: int| 0 <= xx < w && 0 <= yy < h implies self.data@[
                row_major_index(w, xx, yy)].exits_backtrack@ == #[trigger] spec_backtrack_mask(
                orig,
                w,
                h,
                xx,
                yy,
            ) by {
            }
        }
    }

    /// Indexes the field mutably, as a reference to the panel at `(x, y)`.
    pub fn get_mut<'a>(&'a mut self, x: usize, y: usize) -> (r: &'a mut Panel)
        requires
            old(self).wf(),
            x < old(self).spec_width(),
            y < old(self).spec_height(),
        ensures
            *r == old(self).spec_at(x as int, y as int),
            final(self)@ == old(self)@.update(
                row_major_index(old(self).spec_width() as int, x as int, y as int),
                *final(r),
            ),
            final(self).spec_width() == old(self).spec_width(),
            final(self).spec_height() == old(self).spec_height(),
    {
        let n: usize = self.data.len();
        proof {
            lemma_row_major_bound(
                self.spec_width() as int,
                self.spec_height() as int,
                x as int,
                y as int,
            );
        }
        let i: usize = y * self.width + x;
        &mut self.data[i]
    }
}

/// The backtrack mask derived for position `(x, y)` of a grid: one bit per
/// direction, set exactly when the neighbour in that direction has a forward
/// exit pointing back at `(x, y)`.
///
/// Bit values follow [`Exits`]: 1 west, 2 north, 4 east, 8 south; a west
/// backtrack exit comes from the western neighbour's east exit, and so on.
/// Neighbours beyond the grid edge contribute nothing.
pub open spec fn spec_backtrack_mask(data: Seq<Panel>, w: int, h: int, x: int, y: int) -> u8 {
    ((if x > 0 && data[row_major_index(w, x - 1, y)].exits@ & 0b0100 != 0 {
        0b0001int
    } else {
        0int
    }) + (if y + 1 < h && data[row_major_index(w, x, y + 1)].exits@ & 0b1000 != 0 {
        0b0010int
    } else {
        0int
    }) + (if x + 1 < w && data[row_major_index(w, x + 1, y)].exits@ & 0b0001 != 0 {
        0b0100int
    } else {
        0int
    }) + (if y > 0 && data[row_major_index(w, x, y - 1)].exits@ & 0b0010 != 0 {
        0b1000int
    } else {
        0int
    })) as u8
}

/// `new_data` is `old_data` with every panel's backtrack exits rebuilt from
/// its neighbours' forward exits; kinds and forward exits are kept.
pub open spec fn spec_backtrack_rebuilt(
    old_data: Seq<Panel>,
    new_data: Seq<Panel>,
    w: int,
    h: int,
) -> bool {
    &&& new_data.len() == old_data.len()
    &&& forall|i: int|
        0 <= i < new_data.len() ==> (#[trigger] new_data[i]).kind == old_data[i].kind
            && new_data[i].exits == old_data[i].exits
    &&& forall|x: int, y: int|
        0 <= x < w && 0 <= y < h ==> new_data[row_major_index(w, x, y)].exits_backtrack@
            == #[trigger] spec_backtrack_mask(old_data, w, h, x, y)
}

/// Rebuilding the backtrack exits twice gives the same field as rebuilding
/// them once: the pass reads only the forward exits, which it never changes.
pub proof fn lemma_backtrack_idempotent(
    d0: Seq<Panel>,
    d1: Seq<Panel>,
    d2: Seq<Panel>,
    w: int,
    h: int,
)
    requires
        0 <= w,
        0 <= h,
        d0.len() == w * h,
        spec_backtrack_rebuilt(d0, d1, w, h),
        spec_backtrack_rebuilt(d1, d2, w, h),
    ensures
        d2 == d1,
{
    assert forall|x: int, y: int| 0 <= x < w && 0 <= y < h implies #[trigger] spec_backtrack_mask(
        d1,
        w,
        h,
        x,
        y,
    ) == spec_backtrack_mask(d0, w, h, x, y) by {
        if x > 0 {
            lemma_row_major_bound(w, h, x - 1, y);
        }
        if y + 1 < h {
            lemma_row_major_bound(w, h, x, y + 1);
        }
        if x + 1 < w {
            lemma_row_major_bound(w, h, x + 1, y);
        }
        if y > 0 {
            lemma_row_major_bound(w, h, x, y - 1);
        }
    }
    assert forall|i: int| 0 <= i < d1.len() implies d2[i] == d1[i] by {
        assert(w == 0 ==> w * h == 0) by (nonlinear_arith);
        lemma_row_major_decompose(w, h, i);
        let x = i % w;
        let y = i / w;
        assert(d1[i].exits_backtrack@ == spec_backtrack_mask(d0, w, h, x, y));
        assert(d2[i].exits_backtrack@ == spec_backtrack_mask(d1, w, h, x, y));
        crate::panel::lemma_exits_view_injective(d2[i].exits_backtrack, d1[i].exits_backtrack);
        crate::panel::lemma_exits_view_injective(d2[i].exits, d1[i].exits);
    }
    assert(d2 =~= d1);
}

/// A row-major index decomposes into an in-bounds position.
pub proof fn lemma_row_major_decompose(w: int, h: int, i: int)
    by (nonlinear_arith)
    requires
        w > 0,
        0 <= i < w * h,
    ensures
        0 <= i % w < w,
        0 <= i / w < h,
        i == row_major_index(w, i % w, i / w),
{
}

/// Used to refer to a panel on a field.
#[derive(Debug)]
pub struct PanelRef<'a> {
    field: &'a Field,
    x: usize,
    y: usize,
}

impl<'a> PanelRef<'a> {
    /// The field this reference points into.
    pub closed spec fn spec_field(&self) -> Field {
        *self.field
    }

    /// The x coordinate this reference points at.
    pub closed spec fn spec_x(&self) -> usize {
        self.x
    }

    /// The y coordinate this reference points at.
    pub closed spec fn spec_y(&self) -> usize {
        self.y
    }

    /// The reference points inside a well-formed field.
    pub open spec fn wf(&self) -> bool {
        &&& self.spec_field().wf()
        &&& self.spec_x() < self.spec_field().spec_width()
        &&& self.spec_y() < self.spec_field().spec_height()
    }

    /// Creates a new `PanelRef`.
    ///
    /// You shouldn't call this directly; use [`Field::get`] instead.
    pub fn new(field: &'a Field, x: usize, y: usize) -> (r: PanelRef<'a>)
        requires
            field.wf(),
            x < field.spec_width(),
            y < field.spec_height(),
        ensures
            r.spec_field() == *field,
            r.spec_x() == x,
            r.spec_y() == y,
            r.wf(),
    {
        PanelRef { field, x, y }
    }

    /// Offsets a `PanelRef` by a certain vector, returning `Err(self)` if it
    /// would index out of bounds.
    pub fn offset(self, x_offset: i64, y_offset: i64) -> (r: Result<PanelRef<'a>, PanelRef<'a>>)
        requires
            self.wf(),
        ensures
            match r {
                Ok(p) => {
                    &&& 0 <= self.spec_x() + x_offset < self.spec_field().spec_width()
                    &&& 0 <= self.spec_y() + y_offset < self.spec_field().spec_height()
                    &&& p.spec_field() == self.spec_field()
                    &&& p.spec_x() == self.spec_x() + x_offset
                    &&& p.spec_y() == self.spec_y() + y_offset
                    &&& p.wf()
                },
                Err(p) => {
                    &&& !(0 <= self.spec_x() + x_offset < self.spec_field().spec_width()
                        && 0 <= self.spec_y() + y_offset < self.spec_field().spec_height())
                    &&& p == self
                },
            },
    {
        let PanelRef { field, x, y } = self;
        match offset_common(field, x, y, x_offset, y_offset) {
            Some((nx, ny)) => Ok(PanelRef { field, x: nx, y: ny }),
            None => Err(PanelRef { field, x, y }),
        }
    }

    /// The panel this reference points at.
    pub fn panel(&self) -> (r: Panel)
        requires
            self.wf(),
        ensures
            r == self.spec_field().spec_at(self.spec_x() as int, self.spec_y() as int),
    {
        let n: usize = self.field.data.len();
        proof {
            lemma_row_major_bound(
                self.field.spec_width() as int,
                self.field.spec_height() as int,
                self.x as int,
                self.y as int,
            );
        }
        let i: usize = self.y * self.field.width + self.x;
        self.field.data[i]
    }
}

/// A bounds-checked position for mutating a panel of a field.
///
/// A mutable handle cannot carry the field itself, so each operation takes
/// the field it addresses; the position is validated against that field.
#[derive(Debug)]
pub struct PanelMut {
    x: usize,
    y: usize,
}

impl PanelMut {
    /// The x coordinate this position points at.
    pub closed spec fn spec_x(&self) -> usize {
        self.x
    }

    /// The y coordinate this position points at.
    pub closed spec fn spec_y(&self) -> usize {
        self.y
    }

    /// The position lies inside the given field.
    pub open spec fn wf_for(&self, field: Field) -> bool {
        &&& self.spec_x() < field.spec_width()
        &&& self.spec_y() < field.spec_height()
    }

    /// Creates a new `PanelMut`.
    ///
    /// You shouldn't call this directly; use [`Field::get_mut`] for direct
    /// panel access, or this together with [`PanelMut::offset`] to walk.
    pub fn new(field: &Field, x: usize, y: usize) -> (r: PanelMut)
        requires
            field.wf(),
            x < field.spec_width(),
            y < field.spec_height(),
        ensures
            r.spec_x() == x,
            r.spec_y() == y,
            r.wf_for(*field),
    {
        PanelMut { x, y }
    }

    /// Offsets a `PanelMut` by a certain vector, returning `Err(self)` if it
    /// would index out of bounds.
    pub fn offset(self, field: &Field, x_offset: i64, y_offset: i64) -> (r: Result<
        PanelMut,
        PanelMut,
    >)
        requires
            field.wf(),
            self.wf_for(*field),
        ensures
            match r {
                Ok(p) => {
                    &&& 0 <= self.spec_x() + x_offset < field.spec_width()
                    &&& 0 <= self.spec_y() + y_offset < field.spec_height()
                    &&& p.spec_x() == self.spec_x() + x_offset
                    &&& p.spec_y() == self.spec_y() + y_offset
                    &&& p.wf_for(*field)
                },
                Err(p) => {
                    &&& !(0 <= self.spec_x() + x_offset < field.spec_width()
                        && 0 <= self.spec_y() + y_offset < field.spec_height())
                    &&& p == self
                },
            },
    {
        let PanelMut { x, y } = self;
        match offset_common(field, x, y, x_offset, y_offset) {
            Some((nx, ny)) => Ok(PanelMut { x: nx, y: ny }),
            None => Err(PanelMut { x, y }),
        }
    }

    /// Reads the panel at this position.
    pub fn read(&self, field: &Field) -> (r: Panel)
        requires
            field.wf(),
            self.wf_for(*field),
        ensures
            r == field.spec_at(self.spec_x() as int, self.spec_y() as int),
    {
        let p = field.get(self.x, self.y);
        p.panel()
    }

    /// Writes the panel at this position.
    pub fn write(&self, field: &mut Field, p: Panel)
        requires
            old(field).wf(),
            self.wf_for(*old(field)),
            panel_wf(p),
        ensures
            final(field)@ == old(field)@.update(
                row_major_index(old(field).spec_width() as int, self.spec_x() as int, self.spec_y() as int),
                p,
            ),
            final(field).spec_width() == old(field).spec_width(),
            final(field).spec_height() == old(field).spec_height(),
            final(field).wf(),
    {
        let n: usize = field.data.len();
        proof {
            lemma_row_major_bound(
                field.spec_width() as int,
                field.spec_height() as int,
                self.x as int,
                self.y as int,
            );
        }
        let i: usize = self.y * field.width + self.x;
        field.data.set(i, p);
    }
}

/// Applies a signed offset to a position, yielding the new position if it
/// stays inside the field and `None` otherwise.
fn offset_common(field: &Field, x: usize, y: usize, xo: i64, yo: i64) -> (r: Option<(usize, usize)>)
    requires
        x < field.spec_width(),
        y < field.spec_height(),
    ensures
        match r {
            Some((nx, ny)) => {
                &&& 0 <= x + xo < field.spec_width()
                &&& 0 <= y + yo < field.spec_height()
                &&& nx == x + xo
                &&& ny == y + yo
            },
            None => !(0 <= x + xo < field.spec_width() && 0 <= y + yo < field.spec_height()),
        },
{
    let nx: i128 = x as i128 + xo as i128;
    let ny: i128 = y as i128 + yo as i128;
    if nx >= 0 && ny >= 0 && nx < field.width as i128 && ny < field.height as i128 {
        Some((nx as usize, ny as usize))
    } else {
        None
    }
}

} // verus!
