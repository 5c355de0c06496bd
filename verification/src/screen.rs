use vstd::prelude::*;

use crate::color::ColorCode;
use volatile::Volatile;

verus! {

/// Rows of the character grid.
pub const BUFFER_HEIGHT: usize = 25;

/// Columns of the character grid.
pub const BUFFER_WIDTH: usize = 80;

/// One character cell as the hardware stores it: a glyph byte followed by
/// a packed color byte, with no padding.
#[derive(Clone, Copy, Debug, PartialEq, Eq, Structural)]
pub struct ScreenChar {
    pub ascii_character: u8,
    pub color_code: ColorCode,
}

#[verifier::external_type_specification]
#[verifier::external_body]
#[verifier::reject_recursive_types(T)]
pub struct ExVolatile<T: Copy>(Volatile<T>);

/// What a volatile cell currently holds.
pub uninterp spec fn vol_contents(cell: Volatile<ScreenChar>) -> ScreenChar;

/// Relies on `volatile::Volatile::new`: wraps the given value, which later
/// volatile reads return.  It never panics.
#[verifier::external_body]
fn vol_new(value: ScreenChar) -> (r: Volatile<ScreenChar>)
    ensures
        vol_contents(r) == value,
    no_unwind
{
    Volatile::new(value)
}

/// Relies on `volatile::Volatile::read`: a volatile load returning the
/// held value.  It never panics.
#[verifier::external_body]
fn vol_read(cell: &Volatile<ScreenChar>) -> (r: ScreenChar)
    ensures
        r == vol_contents(*cell),
    no_unwind
{
    cell.read()
}

/// Relies on `volatile::Volatile::write`: a volatile store of the given
/// value, which the compiler may not elide or reorder away.  It never
/// panics.
#[verifier::external_body]
fn vol_write(cell: &mut Volatile<ScreenChar>, value: ScreenChar)
    ensures
        vol_contents(*final(cell)) == value,
    no_unwind
{
    cell.write(value)
}

/// A grid in which every cell holds the given value.
pub open spec fn filled_grid(fill: ScreenChar) -> Seq<Seq<ScreenChar>> {
    Seq::new(BUFFER_HEIGHT as nat, |r: int| Seq::new(BUFFER_WIDTH as nat, |c: int| fill))
}

/// The character grid: `BUFFER_HEIGHT` rows of `BUFFER_WIDTH` volatile
/// cells.  The hardware consumes the cells asynchronously, so every store
/// is a volatile write that the compiler must keep.
pub struct ScreenBuffer {
    chars: Vec<Vec<Volatile<ScreenChar>>>,
}

impl View for ScreenBuffer {
    type V = Seq<Seq<ScreenChar>>;

    closed spec fn view(&self) -> Seq<Seq<ScreenChar>> {
        self.chars@.map(
            |r: int, row: Vec<Volatile<ScreenChar>>|
                row@.map(|c: int, cell: Volatile<ScreenChar>| vol_contents(cell)),
        )
    }
}

impl ScreenBuffer {
    /// The grid has the right shape: the constructor establishes this and
    /// every method keeps it.
    pub closed spec fn wf(&self) -> bool {
        &&& self.chars@.len() == BUFFER_HEIGHT
        &&& forall|r: int|
            0 <= r < BUFFER_HEIGHT ==> (#[trigger] self.chars@[r])@.len() == BUFFER_WIDTH
    }

    /// The grid always has exactly `BUFFER_HEIGHT` rows of `BUFFER_WIDTH`
    /// cells.
    pub proof fn lemma_dims(&self)
        requires
            self.wf(),
        ensures
            self@.len() == BUFFER_HEIGHT,
            forall|r: int|
                0 <= r < BUFFER_HEIGHT ==> (#[trigger] self@[r]).len() == BUFFER_WIDTH,
    {
    }

    /// A fresh grid with every cell holding the given value.
    pub fn new(fill: ScreenChar) -> (r: ScreenBuffer)
        ensures
            r.wf(),
            r@ == filled_grid(fill),
    {
        let mut chars: Vec<Vec<Volatile<ScreenChar>>> = Vec::new();
        while chars.len() < BUFFER_HEIGHT
            invariant
                chars@.len() <= BUFFER_HEIGHT,
                forall|r: int|
                    0 <= r < chars@.len() ==> (#[trigger] chars@[r])@.len() == BUFFER_WIDTH,
                forall|r: int, c: int|
                    0 <= r < chars@.len() && 0 <= c < BUFFER_WIDTH
                        ==> vol_contents(#[trigger] chars@[r]@[c]) == fill,
            decreases BUFFER_HEIGHT - chars.len(),
        {
            let mut row: Vec<Volatile<ScreenChar>> = Vec::new();
            while row.len() < BUFFER_WIDTH
                invariant
                    row@.len() <= BUFFER_WIDTH,
                    forall|c: int|
                        0 <= c < row@.len() ==> vol_contents(#[trigger] row@[c]) == fill,
                decreases BUFFER_WIDTH - row.len(),
            {
                row.push(vol_new(fill));
            }
            chars.push(row);
        }
        let r = ScreenBuffer { chars };
        proof {
            assert forall|i: int| 0 <= i < BUFFER_HEIGHT implies r@[i] =~= filled_grid(
                fill,
            )[i] by {};
            assert(r@ =~~= filled_grid(fill));
        }
        r
    }

    /// The cell last written at the given coordinate.
    pub fn read(&self, row: usize, col: usize) -> (r: ScreenChar)
        requires
            self.wf(),
            row < BUFFER_HEIGHT,
            col < BUFFER_WIDTH,
        ensures
            r == self@[row as int][col as int],
    {
        vol_read(&self.chars[row][col])
    }

    /// Overwrites one cell; the store is volatile, so the hardware sees
    /// it exactly once, in program order.
    pub fn write(&mut self, row: usize, col: usize, value: ScreenChar)
        requires
            old(self).wf(),
            row < BUFFER_HEIGHT,
            col < BUFFER_WIDTH,
        ensures
            final(self).wf(),
            final(self)@ == old(self)@.update(
                row as int,
                old(self)@[row as int].update(col as int, value),
            ),
        no_unwind
    {
        let ghost g0 = self@;
        vol_write(&mut self.chars[row][col], value);
        proof {
            assert forall|r2: int|
                0 <= r2 < BUFFER_HEIGHT && r2 != row implies self@[r2] =~= g0[r2] by {};
            assert(self@[row as int] =~= g0[row as int].update(col as int, value));
            assert(self@ =~~= g0.update(row as int, g0[row as int].update(col as int, value)));
        }
    }
}

} // verus!
