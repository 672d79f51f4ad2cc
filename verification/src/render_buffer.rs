//! The grid of pixels that a frame is drawn into.
//!
//! Every pixel sits behind a lock of its own, so that triangles drawn from
//! several threads never contend unless they touch the same pixel.  The
//! locks are taken only while a drawing call shares the buffer among its
//! threads; the call holds the buffer exclusively for that time.
use vstd::prelude::*;
use crate::scalar::Scalar;
use crate::primitives::float3::{channel_byte, Float3};

verus! {

/// The lock type of `parking_lot`, generic over the raw lock.
#[verifier::external_type_specification]
#[verifier::external_body]
#[verifier::reject_recursive_types(R)]
#[verifier::reject_recursive_types(T)]
pub struct ExMutex<R, T: ?Sized>(parking_lot::lock_api::Mutex<R, T>);

/// The raw lock of `parking_lot`.
#[verifier::external_type_specification]
#[verifier::external_body]
pub struct ExRawMutex(parking_lot::RawMutex);

/// A pixel held under its lock: `parking_lot::MutexGuard` on one cell.
/// The guard's own type is bounded by a trait of `lock_api`, which keeps it
/// from being declared, so it is kept in this opaque struct.
#[verifier::external_body]
pub struct PixelGuard<'a> {
    guard: parking_lot::MutexGuard<'a, (Float3, Scalar)>,
}

/// The colour and depth that a held pixel holds.  Only the holder of the
/// guard can change them, so they are a property of the guard.
pub uninterp spec fn held(guard: PixelGuard<'_>) -> (Float3, Scalar);

/// The colour and depth that a cell holds.
///
/// A cell of a buffer is written in two ways only: under an exclusive
/// borrow of the buffer, which changes the cell as a value, and by the
/// threads of a drawing call, which borrows the buffer exclusively for as
/// long as they run and says what it leaves behind.  So while a buffer is
/// borrowed shared, what its cells hold stands still, and is a property of
/// the cell.
pub uninterp spec fn content(cell: parking_lot::Mutex<(Float3, Scalar)>) -> (Float3, Scalar);

/// The cells of a buffer of `WIDTH` by `HEIGHT` pixels while several
/// threads draw into it: a shared borrow of `parking_lot` locks, taken from
/// an exclusive borrow of the buffer.  Nothing is known of what a cell
/// holds until its lock is held.
#[verifier::external_body]
pub struct SharedPixels<'a, const WIDTH: usize, const HEIGHT: usize> {
    pub(crate) cells: &'a [parking_lot::Mutex<(Float3, Scalar)>],
}

/// `parking_lot::Mutex::new`: a fresh, unlocked cell that holds `value`.
#[verifier::external_body]
pub(crate) fn new_pixel(value: (Float3, Scalar)) -> (r: parking_lot::Mutex<(Float3, Scalar)>)
    ensures
        content(r) == value,
{
    parking_lot::Mutex::new(value)
}

/// `parking_lot::Mutex::lock` and `Deref` of the guard, on a cell of a
/// buffer that is borrowed shared: a copy of what the cell holds.
#[verifier::external_body]
pub(crate) fn peek_pixel(cell: &parking_lot::Mutex<(Float3, Scalar)>) -> (r: (Float3, Scalar))
    ensures
        r == content(*cell),
{
    *cell.lock()
}

/// `parking_lot::Mutex::get_mut`: replaces what a cell holds, through an
/// exclusive borrow, for which no lock needs to be taken.
#[verifier::external_body]
pub(crate) fn set_pixel(cell: &mut parking_lot::Mutex<(Float3, Scalar)>, value: (Float3, Scalar))
    ensures
        content(*final(cell)) == value,
{
    *cell.get_mut() = value;
}

/// `parking_lot::Mutex::lock` on the cell `index` of the cells that the
/// threads of a drawing call share: waits for the cell and returns its
/// guard.  Nothing is claimed of what the cell holds at that moment.
#[verifier::external_body]
pub(crate) fn lock_pixel<'a, const WIDTH: usize, const HEIGHT: usize>(
    shared: &SharedPixels<'a, WIDTH, HEIGHT>,
    index: usize,
) -> (r: PixelGuard<'a>)
    requires
        index < WIDTH * HEIGHT,
{
    PixelGuard { guard: shared.cells[index].lock() }
}

/// `Deref` of the guard: the value that the held cell holds.
#[verifier::external_body]
pub(crate) fn read_pixel(guard: &PixelGuard<'_>) -> (r: (Float3, Scalar))
    ensures
        r == held(*guard),
{
    *guard.guard
}

/// `DerefMut` of the guard: replaces the value that the held cell holds.
#[verifier::external_body]
pub(crate) fn write_pixel(guard: &mut PixelGuard<'_>, value: (Float3, Scalar))
    ensures
        held(*final(guard)) == value,
{
    *guard.guard = value;
}

/// What a pixel holds after a fragment of the given colour and depth has
/// been offered to it: the fragment where it is strictly nearer, else what
/// the pixel held.
pub open spec fn offer(current: (Float3, Scalar), color: Float3, depth: Scalar) -> (Float3, Scalar) {
    if depth.raw < current.1.raw {
        (color, depth)
    } else {
        current
    }
}

/// Two fragments of different depths leave the same pixel behind in either
/// order: the nearer of the two where it is nearer than what was there.
pub proof fn lemma_offer_order(
    current: (Float3, Scalar),
    color_a: Float3,
    depth_a: Scalar,
    color_b: Float3,
    depth_b: Scalar,
)
    requires
        depth_a != depth_b,
    ensures
        offer(offer(current, color_a, depth_a), color_b, depth_b) == offer(
            offer(current, color_b, depth_b),
            color_a,
            depth_a,
        ),
{
}

/// Two fragments, in whatever order and of whatever depths, leave behind
/// what the pixel held or one of the two, never a mixture.
pub proof fn lemma_offer_never_mixes(
    current: (Float3, Scalar),
    color_a: Float3,
    depth_a: Scalar,
    color_b: Float3,
    depth_b: Scalar,
)
    ensures
        ({
            let after = offer(offer(current, color_a, depth_a), color_b, depth_b);
            after == current || after == (color_a, depth_a) || after == (color_b, depth_b)
        }),
{
}

/// A pixel that nothing has been drawn on: the background colour at an
/// infinite depth.
pub open spec fn blank(background: Float3) -> (Float3, Scalar) {
    (background, Scalar::infinity())
}

/// `WIDTH` by `HEIGHT` pixels, stored row by row from the top, each a
/// colour and a depth behind its own lock.
///
/// The functions of this crate write a pixel only through an exclusive
/// borrow of the buffer.  Code that locks a cell of `pixels` by itself and
/// writes through the guard steps outside what their contracts describe.
pub struct RenderBuffer<const WIDTH: usize, const HEIGHT: usize> {
    pub pixels: Vec<parking_lot::Mutex<(Float3, Scalar)>>,
}

impl<const WIDTH: usize, const HEIGHT: usize> RenderBuffer<WIDTH, HEIGHT> {
    /// Whether the buffer holds one pixel for each cell of the viewport.
    pub open spec fn wf(&self) -> bool {
        self.pixels@.len() == WIDTH * HEIGHT
    }

    /// The colour and depth that the pixel `index` holds.
    pub open spec fn pixel(&self, index: int) -> (Float3, Scalar) {
        content(self.pixels@[index])
    }

    /// Whether every pixel holds the given background at infinite depth.
    pub open spec fn all_blank(&self, background: Float3) -> bool {
        forall|i: int| 0 <= i < self.pixels@.len() ==> #[trigger] self.pixel(i) == blank(background)
    }

    /// The colour of the test frame at the time `t`: the red
    /// `(50·t mod 255) / 255`.
    pub open spec fn test_color(t: Scalar) -> Float3 {
        Float3::new(
            t.mul(Scalar::from_int_spec(50)).rem(Scalar::from_int_spec(255)).div(
                Scalar::from_int_spec(255),
            ),
            Scalar::zero(),
            Scalar::zero(),
        )
    }

    fn filled(color: Float3) -> (r: Self)
        requires
            WIDTH * HEIGHT <= usize::MAX,
        ensures
            r.wf(),
            r.all_blank(color),
    {
        let count: usize = WIDTH * HEIGHT;
        let mut pixels: Vec<parking_lot::Mutex<(Float3, Scalar)>> = Vec::new();
        let mut i: usize = 0;
        while i < count
            invariant
                i <= count,
                pixels@.len() == i,
                forall|j: int| 0 <= j < i ==> content(#[trigger] pixels@[j]) == blank(color),
            decreases count - i,
        {
            pixels.push(new_pixel((color, Scalar::infinity())));
            i += 1;
        }
        RenderBuffer { pixels }
    }

    /// A buffer of black pixels at infinite depth.
    pub fn new() -> (r: Self)
        requires
            WIDTH * HEIGHT <= usize::MAX,
        ensures
            r.wf(),
            r.all_blank(Float3::zero()),
    {
        Self::filled(Float3::zero())
    }

    /// A buffer filled with the red `(50·t mod 255) / 255`, at infinite
    /// depth.
    pub fn test_frame(t: Scalar) -> (r: Self)
        requires
            WIDTH * HEIGHT <= usize::MAX,
        ensures
            r.wf(),
            r.all_blank(Self::test_color(t)),
    {
        let red = t.mul(Scalar::from_int(50)).rem(Scalar::from_int(255)).div(Scalar::from_int(255));
        Self::filled(Float3::new(red, Scalar::zero(), Scalar::zero()))
    }

    /// What the pixel `index` holds.
    pub fn read(&self, index: usize) -> (r: (Float3, Scalar))
        requires
            index < self.pixels@.len(),
        ensures
            r == self.pixel(index as int),
    {
        peek_pixel(&self.pixels[index])
    }

    /// Replaces what the pixel `index` holds and leaves every other pixel
    /// as it is.
    pub fn write(&mut self, index: usize, value: (Float3, Scalar))
        requires
            index < old(self).pixels@.len(),
        ensures
            final(self).pixels@.len() == old(self).pixels@.len(),
            final(self).pixel(index as int) == value,
            forall|j: int|
                0 <= j < old(self).pixels@.len() && j != index ==> #[trigger] final(self).pixel(j)
                    == old(self).pixel(j),
    {
        set_pixel(&mut self.pixels[index], value);
    }

    /// Writes the colours as bytes, four for each pixel: red, green, blue
    /// and an opaque alpha.  Pixel `i` goes to the bytes `4·i` to `4·i + 3`;
    /// bytes after the last full group of four stay as they are.
    pub fn to_rgba_buffer(&self, buffer: &mut [u8])
        requires
            old(buffer)@.len() / 4 <= self.pixels@.len(),
        ensures
            final(buffer)@.len() == old(buffer)@.len(),
            forall|i: int|
                #![trigger self.pixel(i)]
                0 <= i < old(buffer)@.len() / 4 ==> {
                    &&& final(buffer)@[4 * i] == channel_byte(self.pixel(i).0.x)
                    &&& final(buffer)@[4 * i + 1] == channel_byte(self.pixel(i).0.y)
                    &&& final(buffer)@[4 * i + 2] == channel_byte(self.pixel(i).0.z)
                    &&& final(buffer)@[4 * i + 3] == 255
                },
            forall|k: int|
                (old(buffer)@.len() / 4) * 4 <= k < old(buffer)@.len() ==> final(buffer)@[k] == old(
                    buffer,
                )@[k],
    {
        let groups: usize = buffer.len() / 4;
        let mut i: usize = 0;
        while i < groups
            invariant
                groups == old(buffer)@.len() / 4,
                4 * groups <= old(buffer)@.len() <= usize::MAX,
                groups <= self.pixels@.len(),
                i <= groups,
                buffer@.len() == old(buffer)@.len(),
                forall|j: int|
                    #![trigger self.pixel(j)]
                    0 <= j < i ==> {
                        &&& buffer@[4 * j] == channel_byte(self.pixel(j).0.x)
                        &&& buffer@[4 * j + 1] == channel_byte(self.pixel(j).0.y)
                        &&& buffer@[4 * j + 2] == channel_byte(self.pixel(j).0.z)
                        &&& buffer@[4 * j + 3] == 255
                    },
                forall|k: int| 4 * i <= k < buffer@.len() ==> buffer@[k] == old(buffer)@[k],
            decreases groups - i,
        {
            let ghost before = buffer@;
            let (r, g, b, a) = self.read(i).0.to_rgba_bytes();
            buffer[4 * i] = r;
            buffer[4 * i + 1] = g;
            buffer[4 * i + 2] = b;
            buffer[4 * i + 3] = a;
            proof {
                assert forall|j: int| #![trigger self.pixel(j)] 0 <= j < i + 1 implies {
                    &&& buffer@[4 * j] == channel_byte(self.pixel(j).0.x)
                    &&& buffer@[4 * j + 1] == channel_byte(self.pixel(j).0.y)
                    &&& buffer@[4 * j + 2] == channel_byte(self.pixel(j).0.z)
                    &&& buffer@[4 * j + 3] == 255
                } by {
                    if j < i {
                        assert(buffer@[4 * j] == before[4 * j]);
                        assert(buffer@[4 * j + 1] == before[4 * j + 1]);
                        assert(buffer@[4 * j + 2] == before[4 * j + 2]);
                        assert(buffer@[4 * j + 3] == before[4 * j + 3]);
                    }
                }
            }
            i += 1;
        }
    }

    /// Makes every pixel blank: `bg` at infinite depth.
    pub fn clear(&mut self, bg: Float3)
        ensures
            final(self).pixels@.len() == old(self).pixels@.len(),
            final(self).all_blank(bg),
    {
        let count: usize = self.pixels.len();
        let mut i: usize = 0;
        while i < count
            invariant
                i <= count,
                count == self.pixels@.len(),
                self.pixels@.len() == old(self).pixels@.len(),
                forall|j: int| 0 <= j < i ==> #[trigger] self.pixel(j) == blank(bg),
            decreases count - i,
        {
            self.write(i, (bg, Scalar::infinity()));
            i += 1;
        }
    }
}

impl<const WIDTH: usize, const HEIGHT: usize> Default for RenderBuffer<WIDTH, HEIGHT> {
    /// A buffer of black pixels at infinite depth; an empty buffer where
    /// the number of pixels does not fit the machine's word.
    fn default() -> (r: Self)
        ensures
            WIDTH * HEIGHT <= usize::MAX ==> r.wf(),
            r.all_blank(Float3::zero()),
    {
        match WIDTH.checked_mul(HEIGHT) {
            Some(_) => Self::filled(Float3::zero()),
            None => RenderBuffer { pixels: Vec::new() },
        }
    }
}

} // verus!
