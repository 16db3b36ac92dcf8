use vstd::prelude::*;

verus! {

/// Mathematical view of a framebuffer: its shape together with the
/// pixel grid as a flat sequence in row-major order.
#[verifier::ext_equal]
pub ghost struct FbAbs {
    pub width: nat,
    pub height: nat,
    pub grid: Seq<bool>,
}

/// The shape is non-degenerate, the grid holds one cell per pixel, and
/// the cell count fits the machine's address width.
pub open spec fn fb_wf(fb: FbAbs) -> bool {
    &&& fb.width >= 1
    &&& fb.height >= 1
    &&& fb.grid.len() == fb.width * fb.height
    &&& fb.width * fb.height <= usize::MAX
}

/// A monochrome pixel grid of fixed shape, stored as a flat vector in
/// row-major order.  The shape is fixed at construction and never
/// changes; the grid is only ever written cell by cell or cleared to
/// all-false.
pub struct FrameBuffer {
    width: usize,
    height: usize,
    cells: Vec<bool>,
}

impl View for FrameBuffer {
    type V = FbAbs;

    closed spec fn view(&self) -> FbAbs {
        FbAbs { width: self.width as nat, height: self.height as nat, grid: self.cells@ }
    }
}

impl FrameBuffer {
    pub open spec fn wf(self) -> bool {
        fb_wf(self@)
    }

    /// An all-false grid of the given shape.
    pub fn new(width: usize, height: usize) -> (fb: Self)
        requires
            1 <= width,
            1 <= height,
            width * height <= usize::MAX,
        ensures
            fb.wf(),
            fb@.width == width,
            fb@.height == height,
            forall|k: int| 0 <= k < fb@.grid.len() ==> !fb@.grid[k],
    {
        let size = width * height;
        let mut cells: Vec<bool> = Vec::new();
        while cells.len() < size
            invariant
                cells@.len() <= size,
                forall|k: int| 0 <= k < cells@.len() ==> !cells@[k],
            decreases size - cells@.len(),
        {
            cells.push(false);
        }
        FrameBuffer { width, height, cells }
    }

    pub fn width(&self) -> (w: usize)
        ensures
            w == self@.width,
    {
        self.width
    }

    pub fn height(&self) -> (h: usize)
        ensures
            h == self@.height,
    {
        self.height
    }

    /// Read the cell at a flat row-major index.
    pub fn get(&self, index: usize) -> (b: bool)
        requires
            index < self@.grid.len(),
        ensures
            b == self@.grid[index as int],
    {
        self.cells[index]
    }

    /// Overwrite the cell at a flat row-major index.
    pub fn set(&mut self, index: usize, val: bool)
        requires
            index < old(self)@.grid.len(),
        ensures
            final(self)@ == (FbAbs { grid: old(self)@.grid.update(index as int, val), ..old(self)@ }),
    {
        self.cells[index] = val;
    }

    /// XOR-compose one sprite bit into the cell at `index`.  Returns
    /// true exactly when a lit pixel is turned off (a collision).
    pub fn set_display_pixel(&mut self, index: usize, val: bool) -> (collision: bool)
        requires
            index < old(self)@.grid.len(),
        ensures
            final(self)@ == (FbAbs {
                grid: old(self)@.grid.update(
                    index as int,
                    old(self)@.grid[index as int] != val,
                ),
                ..old(self)@
            }),
            collision == (old(self)@.grid[index as int] && val),
    {
        let px_old = self.cells[index];
        let px_new = px_old ^ val;
        self.cells[index] = px_new;
        px_old && !px_new
    }

    /// The pixel contents as a freshly allocated row-major vector, for
    /// handing to a display sink.
    pub fn as_vec(&self) -> (v: Vec<bool>)
        ensures
            v@ == self@.grid,
    {
        let mut v: Vec<bool> = Vec::new();
        let len = self.cells.len();
        while v.len() < len
            invariant
                len == self.cells@.len(),
                v@.len() <= len,
                forall|k: int| 0 <= k < v@.len() ==> v@[k] == self.cells@[k],
            decreases len - v@.len(),
        {
            v.push(self.cells[v.len()]);
        }
        proof {
            assert(v@ =~= self@.grid);
        }
        v
    }

    /// Reset every cell to false; the shape stays as it is.
    pub fn clear(&mut self)
        ensures
            final(self)@.width == old(self)@.width,
            final(self)@.height == old(self)@.height,
            final(self)@.grid.len() == old(self)@.grid.len(),
            forall|k: int| 0 <= k < final(self)@.grid.len() ==> !final(self)@.grid[k],
    {
        let size = self.cells.len();
        let mut index: usize = 0;
        while index < size
            invariant
                size == self.cells@.len(),
                index <= size,
                self.width == old(self).width,
                self.height == old(self).height,
                forall|k: int| 0 <= k < index ==> !self.cells@[k],
            decreases size - index,
        {
            self.cells[index] = false;
            index += 1;
        }
    }
}

} // verus!
