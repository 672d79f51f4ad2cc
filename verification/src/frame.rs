//! A colour plane and a depth plane without locks, for one thread.
use vstd::prelude::*;
use crate::scalar::Scalar;
use crate::primitives::float3::Float3;

verus! {

/// `width` by `height` colours and depths, stored row by row from the top.
#[derive(Clone, Debug)]
pub struct Frame {
    pub width: u32,
    pub height: u32,
    pub color: Vec<Float3>,
    pub depth: Vec<Scalar>,
}

/// The colour of the cell `(x, y)` of the test pattern: red grows from left
/// to right, green from top to bottom.
pub open spec fn gradient(x: int, y: int, width: int, height: int) -> Float3 {
    Float3::new(
        Scalar::from_index_spec(x).div(Scalar::from_index_spec(width - 1)),
        Scalar::from_index_spec(y).div(Scalar::from_index_spec(height - 1)),
        Scalar::zero(),
    )
}

impl Frame {
    /// Whether both planes hold one value for each cell.
    pub open spec fn wf(&self) -> bool {
        &&& self.color@.len() == self.width * self.height
        &&& self.depth@.len() == self.width * self.height
    }

    /// A frame of black cells at infinite depth.
    pub fn new(width: u32, height: u32) -> (r: Frame)
        requires
            width * height <= u32::MAX,
        ensures
            r.wf(),
            r.width == width,
            r.height == height,
            forall|i: int| 0 <= i < width * height ==> r.color@[i] == Float3::zero(),
            forall|i: int| 0 <= i < width * height ==> r.depth@[i] == Scalar::infinity(),
    {
        let count: usize = (width * height) as usize;
        let mut color: Vec<Float3> = Vec::new();
        let mut depth: Vec<Scalar> = Vec::new();
        let mut i: usize = 0;
        while i < count
            invariant
                i <= count,
                color@.len() == i,
                depth@.len() == i,
                forall|j: int| 0 <= j < i ==> color@[j] == Float3::zero(),
                forall|j: int| 0 <= j < i ==> depth@[j] == Scalar::infinity(),
            decreases count - i,
        {
            color.push(Float3::zero());
            depth.push(Scalar::infinity());
            i += 1;
        }
        Frame { width, height, color, depth }
    }

    /// A frame that holds the test pattern of [`gradient`], at infinite
    /// depth.
    pub fn test_frame(width: u32, height: u32) -> (r: Frame)
        requires
            width * height <= u32::MAX,
        ensures
            r.wf(),
            r.width == width,
            r.height == height,
            forall|x: int, y: int|
                0 <= x < width && 0 <= y < height ==> #[trigger] r.color@[y * width + x]
                    == gradient(x, y, width as int, height as int),
            forall|i: int| 0 <= i < width * height ==> r.depth@[i] == Scalar::infinity(),
    {
        let mut frame = Frame::new(width, height);
        let w: usize = width as usize;
        let h: usize = height as usize;
        let mut y: usize = 0;
        while y < h
            invariant
                w == width,
                h == height,
                w * h <= u32::MAX,
                y <= h,
                frame.wf(),
                frame.width == width,
                frame.height == height,
                forall|i: int| 0 <= i < w * h ==> frame.depth@[i] == Scalar::infinity(),
                forall|x: int, v: int|
                    0 <= x < w && 0 <= v < y ==> #[trigger] frame.color@[v * w + x] == gradient(
                        x,
                        v,
                        w as int,
                        h as int,
                    ),
            decreases h - y,
        {
            let mut x: usize = 0;
            while x < w
                invariant
                    w == width,
                    h == height,
                    w * h <= u32::MAX,
                    y < h,
                    x <= w,
                    frame.wf(),
                    frame.width == width,
                    frame.height == height,
                    forall|i: int| 0 <= i < w * h ==> frame.depth@[i] == Scalar::infinity(),
                    forall|u: int, v: int|
                        0 <= u < w && 0 <= v < y ==> #[trigger] frame.color@[v * w + u]
                            == gradient(u, v, w as int, h as int),
                    forall|u: int|
                        0 <= u < x ==> #[trigger] frame.color@[y * w + u] == gradient(
                            u,
                            y as int,
                            w as int,
                            h as int,
                        ),
                decreases w - x,
            {
                proof {
                    crate::grid::lemma_row_major_bound(y as int, x as int, w as int, h as int);
                }
                let ghost before = frame.color@;
                let idx: usize = y * w + x;
                let r = Scalar::from_index(x).div(Scalar::from_index(w - 1));
                let g = Scalar::from_index(y).div(Scalar::from_index(h - 1));
                frame.color[idx] = Float3::new(r, g, Scalar::zero());
                proof {
                    assert forall|u: int, v: int| 0 <= u < w && 0 <= v < y implies #[trigger] frame.color@[v
                        * w + u] == gradient(u, v, w as int, h as int) by {
                        crate::grid::lemma_row_major(v, u, w as int);
                        crate::grid::lemma_row_major(y as int, x as int, w as int);
                        crate::grid::lemma_row_major_bound(v, u, w as int, h as int);
                        assert(v * w + u != y * w + x);
                        assert(before[v * w + u] == gradient(u, v, w as int, h as int));
                    }
                    assert forall|u: int| 0 <= u < x + 1 implies #[trigger] frame.color@[y * w + u]
                        == gradient(u, y as int, w as int, h as int) by {
                        if u < x {
                            assert(before[y * w + u] == gradient(u, y as int, w as int, h as int));
                        }
                    }
                }
                x += 1;
            }
            y += 1;
        }
        frame
    }

    /// Makes every cell blank: `bg` at infinite depth.
    pub fn clear(&mut self, bg: Float3)
        ensures
            final(self).width == old(self).width,
            final(self).height == old(self).height,
            final(self).color@.len() == old(self).color@.len(),
            final(self).depth@.len() == old(self).depth@.len(),
            forall|i: int| 0 <= i < final(self).color@.len() ==> final(self).color@[i] == bg,
            forall|i: int|
                0 <= i < final(self).depth@.len() ==> final(self).depth@[i] == Scalar::infinity(),
    {
        let colors: usize = self.color.len();
        let mut i: usize = 0;
        while i < colors
            invariant
                i <= colors,
                colors == self.color@.len(),
                self.color@.len() == old(self).color@.len(),
                self.depth@ == old(self).depth@,
                self.width == old(self).width,
                self.height == old(self).height,
                forall|j: int| 0 <= j < i ==> self.color@[j] == bg,
            decreases colors - i,
        {
            self.color[i] = bg;
            i += 1;
        }
        let depths: usize = self.depth.len();
        let mut k: usize = 0;
        while k < depths
            invariant
                k <= depths,
                depths == self.depth@.len(),
                self.depth@.len() == old(self).depth@.len(),
                self.color@.len() == old(self).color@.len(),
                self.width == old(self).width,
                self.height == old(self).height,
                forall|j: int| 0 <= j < self.color@.len() ==> self.color@[j] == bg,
                forall|j: int| 0 <= j < k ==> self.depth@[j] == Scalar::infinity(),
            decreases depths - k,
        {
            self.depth[k] = Scalar::infinity();
            k += 1;
        }
    }
}

} // verus!
