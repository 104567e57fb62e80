//! The shape of a tensor, in at most four dimensions.
use vstd::prelude::*;
use crate::text::{decimal, push_decimal, push_text};

verus! {

/// The most dimensions a tensor can have.
pub const MAX_DIMENSIONS: usize = 4;

/// The extents of a tensor, fastest-varying first: width, height, channel,
/// batch. Slots past the last dimension hold zero, which no extent can be.
#[derive(Debug, PartialEq, Eq, Clone, Copy)]
pub struct TensorDimensions(pub [u64; 4]);

impl Default for TensorDimensions {
    /// No dimensions: every slot is zero.
    fn default() -> (dimensions: TensorDimensions)
        ensures
            dimensions.slots() == seq![0u64, 0u64, 0u64, 0u64],
    {
        let slots = [0, 0, 0, 0];
        assert(slots@ =~= seq![0u64, 0u64, 0u64, 0u64]);
        TensorDimensions(slots)
    }
}

/// A shape with more than four dimensions was given.
#[derive(Debug, PartialEq, Eq, Clone, Copy, Structural)]
pub struct TooManyDimensions {
    /// How many dimensions the shape had.
    pub count: usize,
}

/// The extent that a slowest-first shape puts in slot `slot` of the
/// fastest-first form: the shape read from its end, then zeros.
pub open spec fn reversed_slot(shape: Seq<u64>, slot: int) -> u64 {
    if 0 <= slot < shape.len() {
        shape[shape.len() - 1 - slot]
    } else {
        0
    }
}

impl TensorDimensions {
    /// The four slots as a sequence.
    pub open spec fn slots(self) -> Seq<u64> {
        self.0@
    }

    /// The index of the first zero slot, or 4 where no slot is zero.
    pub open spec fn spec_count(self) -> nat {
        if self.0[0] == 0 {
            0
        } else if self.0[1] == 0 {
            1
        } else if self.0[2] == 0 {
            2
        } else if self.0[3] == 0 {
            3
        } else {
            4
        }
    }

    /// The number of scalars: the product of the extents before the first
    /// zero slot, and 0 where the first slot is zero.
    pub open spec fn spec_total(self) -> nat {
        if self.spec_count() == 0 {
            0
        } else if self.spec_count() == 1 {
            self.0[0] as nat
        } else if self.spec_count() == 2 {
            self.0[0] as nat * self.0[1] as nat
        } else if self.spec_count() == 3 {
            self.0[0] as nat * self.0[1] as nat * self.0[2] as nat
        } else {
            self.0[0] as nat * self.0[1] as nat * self.0[2] as nat * self.0[3] as nat
        }
    }

    /// The product of the first `count` slots, for a `count` from 1 to 4.
    pub open spec fn partial_total(self, count: nat) -> nat {
        if count <= 1 {
            self.0[0] as nat
        } else if count == 2 {
            self.0[0] as nat * self.0[1] as nat
        } else if count == 3 {
            self.0[0] as nat * self.0[1] as nat * self.0[2] as nat
        } else {
            self.0[0] as nat * self.0[1] as nat * self.0[2] as nat * self.0[3] as nat
        }
    }

    /// Whether every slot after the first zero slot is zero too.
    pub open spec fn well_formed(self) -> bool {
        forall|slot: int| self.spec_count() <= slot < 4 ==> self.0[slot] == 0
    }

    /// The fastest-first form of a slowest-first shape of at most four
    /// dimensions.
    pub open spec fn spec_from_width_last(shape: Seq<u64>) -> TensorDimensions {
        TensorDimensions(
            [
                reversed_slot(shape, 0),
                reversed_slot(shape, 1),
                reversed_slot(shape, 2),
                reversed_slot(shape, 3),
            ],
        )
    }

    /// The slowest-first shape: the extents before the first zero slot, last
    /// one first.
    pub open spec fn spec_to_width_last(self) -> Seq<u64> {
        Seq::new(self.spec_count(), |index: int| self.0[self.spec_count() - 1 - index])
    }

    /// Turns a slowest-first shape into the fastest-first form. A shape of
    /// more than four dimensions is refused.
    pub fn from_width_last(source: &[u64]) -> (result: Result<Self, TooManyDimensions>)
        ensures
            source@.len() <= 4 ==> result == Ok::<Self, TooManyDimensions>(
                Self::spec_from_width_last(source@),
            ),
            source@.len() > 4 ==> result == Err::<Self, TooManyDimensions>(
                TooManyDimensions { count: source.len() },
            ),
    {
        let count = source.len();
        if count > MAX_DIMENSIONS {
            return Err(TooManyDimensions { count });
        }
        let first = if count > 0 {
            source[count - 1]
        } else {
            0
        };
        let second = if count > 1 {
            source[count - 2]
        } else {
            0
        };
        let third = if count > 2 {
            source[count - 3]
        } else {
            0
        };
        let fourth = if count > 3 {
            source[count - 4]
        } else {
            0
        };
        let slots = [first, second, third, fourth];
        assert(slots@ =~= Self::spec_from_width_last(source@).0@);
        Ok(TensorDimensions(slots))
    }

    /// Gives the slowest-first shape back: the dimensions in use, last one
    /// first.
    pub fn to_width_last(&self) -> (shape: Vec<u64>)
        ensures
            shape@ == self.spec_to_width_last(),
    {
        let count = self.count();
        let mut shape: Vec<u64> = Vec::new();
        let mut index: usize = 0;
        while index < count
            invariant
                index <= count == self.spec_count() <= 4,
                shape@.len() == index,
                forall|k: int| 0 <= k < index ==> shape@[k] == self.0[count - 1 - k],
            decreases count - index,
        {
            shape.push(self.0[count - 1 - index]);
            index = index + 1;
        }
        assert(shape@ =~= self.spec_to_width_last());
        shape
    }

    /// The dimensions in use as text: `[]`, `[3]`, `[3, 2]`.
    pub open spec fn spec_to_text(self) -> Seq<char> {
        let count = self.spec_count();
        let first = if count >= 1 {
            decimal(self.0[0] as nat)
        } else {
            Seq::empty()
        };
        let second = if count >= 2 {
            ", "@ + decimal(self.0[1] as nat)
        } else {
            Seq::empty()
        };
        let third = if count >= 3 {
            ", "@ + decimal(self.0[2] as nat)
        } else {
            Seq::empty()
        };
        let fourth = if count >= 4 {
            ", "@ + decimal(self.0[3] as nat)
        } else {
            Seq::empty()
        };
        "["@ + first + second + third + fourth + "]"@
    }

    /// Writes the dimensions in use as text, in brackets and with commas
    /// between them.
    pub fn to_text(&self) -> (text: String)
        ensures
            text@ == self.spec_to_text(),
    {
        let count = self.count();
        let mut text = String::new();
        push_text(&mut text, "[");
        let ghost first = Seq::<char>::empty();
        let ghost second = Seq::<char>::empty();
        let ghost third = Seq::<char>::empty();
        let ghost fourth = Seq::<char>::empty();
        if count >= 1 {
            push_decimal(&mut text, self.0[0]);
            proof {
                first = decimal(self.0[0] as nat);
            }
        }
        if count >= 2 {
            push_text(&mut text, ", ");
            push_decimal(&mut text, self.0[1]);
            proof {
                second = ", "@ + decimal(self.0[1] as nat);
            }
        }
        if count >= 3 {
            push_text(&mut text, ", ");
            push_decimal(&mut text, self.0[2]);
            proof {
                third = ", "@ + decimal(self.0[2] as nat);
            }
        }
        if count >= 4 {
            push_text(&mut text, ", ");
            push_decimal(&mut text, self.0[3]);
            proof {
                fourth = ", "@ + decimal(self.0[3] as nat);
            }
        }
        push_text(&mut text, "]");
        assert(text@ =~= "["@ + first + second + third + fourth + "]"@);
        text
    }

    /// The number of dimensions in use.
    pub fn count(&self) -> (count: usize)
        ensures
            count == self.spec_count(),
            count <= 4,
    {
        if self.0[0] == 0 {
            0
        } else if self.0[1] == 0 {
            1
        } else if self.0[2] == 0 {
            2
        } else if self.0[3] == 0 {
            3
        } else {
            4
        }
    }

    /// The number of scalars in the tensor, where that number fits.
    pub fn checked_total(&self) -> (total: Option<u64>)
        ensures
            self.spec_total() <= u64::MAX ==> total == Some(self.spec_total() as u64),
            self.spec_total() > u64::MAX ==> total.is_none(),
    {
        let count = self.count();
        if count == 0 {
            return Some(0);
        }
        let mut value: u64 = self.0[0];
        let mut index: usize = 1;
        while index < count
            invariant
                1 <= index <= count == self.spec_count() <= 4,
                value == self.partial_total(index as nat),
            decreases count - index,
        {
            proof {
                lemma_partial_total_grows(*self, (index + 1) as nat, count as nat);
            }
            match value.checked_mul(self.0[index as usize]) {
                Some(next) => {
                    value = next;
                },
                None => {
                    return None;
                },
            }
            index = index + 1;
        }
        Some(value)
    }

    /// The number of scalars in the tensor.
    ///
    /// A shape whose number of scalars does not fit in 64 bits is left out;
    /// `checked_total` takes every shape.
    pub fn total(&self) -> (total: u64)
        requires
            self.spec_total() <= u64::MAX,
        ensures
            total == self.spec_total(),
    {
        match self.checked_total() {
            Some(total) => total,
            None => 0,
        }
    }
}

/// Among the dimensions in use, the product over more slots is no smaller.
pub proof fn lemma_partial_total_grows(dims: TensorDimensions, fewer: nat, more: nat)
    requires
        1 <= fewer <= more <= dims.spec_count(),
    ensures
        0 < dims.partial_total(fewer) <= dims.partial_total(more),
        dims.partial_total(dims.spec_count()) == dims.spec_total(),
        fewer < 4 ==> dims.partial_total(fewer + 1) == dims.partial_total(fewer) * dims.0[fewer as int],
    decreases more - fewer,
{
    let a = dims.0[0] as nat;
    let b = dims.0[1] as nat;
    let c = dims.0[2] as nat;
    let d = dims.0[3] as nat;
    if more >= 2 {
        assert(a * b >= a && a * b > 0) by (nonlinear_arith)
            requires
                a > 0,
                b > 0,
        ;
    }
    if more >= 3 {
        assert(a * b * c >= a * b && a * b * c > 0) by (nonlinear_arith)
            requires
                a * b > 0,
                c > 0,
        ;
    }
    if more >= 4 {
        assert(a * b * c * d >= a * b * c && a * b * c * d > 0) by (nonlinear_arith)
            requires
                a * b * c > 0,
                d > 0,
        ;
    }
}

/// A shape of at most four nonzero extents survives the trip to the
/// fastest-first form and back, and its fastest-first form is well formed
/// with as many dimensions and as many scalars as the shape.
pub proof fn lemma_width_last_roundtrip(shape: Seq<u64>)
    requires
        shape.len() <= 4,
        forall|index: int| 0 <= index < shape.len() ==> shape[index] != 0,
    ensures
        TensorDimensions::spec_from_width_last(shape).well_formed(),
        TensorDimensions::spec_from_width_last(shape).spec_count() == shape.len(),
        TensorDimensions::spec_from_width_last(shape).spec_to_width_last() == shape,
{
    let dims = TensorDimensions::spec_from_width_last(shape);
    assert(dims.spec_to_width_last() =~= shape);
}

/// Well-formed dimensions survive the trip to the slowest-first shape and
/// back, zero padding included.
pub proof fn lemma_width_first_roundtrip(dims: TensorDimensions)
    requires
        dims.well_formed(),
    ensures
        dims.spec_to_width_last().len() == dims.spec_count(),
        forall|index: int|
            0 <= index < dims.spec_count() ==> dims.spec_to_width_last()[index] != 0,
        TensorDimensions::spec_from_width_last(dims.spec_to_width_last()) == dims,
{
    let back = TensorDimensions::spec_from_width_last(dims.spec_to_width_last());
    assert(back.slots() =~= dims.slots());
    lemma_dimensions_equal(back, dims);
}

/// Dimensions with the same slots are the same dimensions.
pub proof fn lemma_dimensions_equal(left: TensorDimensions, right: TensorDimensions)
    requires
        left.slots() == right.slots(),
    ensures
        left == right,
{
    assert(left.0 =~= right.0);
}

} // verus!
