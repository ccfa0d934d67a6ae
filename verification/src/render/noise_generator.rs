use crate::utils::random::random_in_range;
use vstd::prelude::*;

verus! {

/// What a mask is to a contract: its size and one weight for each pixel,
/// rows from the top, pixels from the left.
pub struct MaskView {
    pub width: nat,
    pub height: nat,
    pub values: Seq<u8>,
}

impl MaskView {
    /// There is exactly one weight for every pixel.
    pub open spec fn wf(self) -> bool {
        self.values.len() == self.width * self.height
    }

    /// The pixel `(x, y)` lies on the mask.
    pub open spec fn contains(self, x: int, y: int) -> bool {
        0 <= x < self.width && 0 <= y < self.height
    }

    /// The weight at pixel `(x, y)`.
    pub open spec fn value(self, x: int, y: int) -> u8 {
        self.values[y * self.width + x]
    }
}

/// A burn mask: for each pixel the weight, from 0 to 255, with which the
/// canvas is darkened there.
#[derive(Debug)]
pub struct BurnMask {
    pub width: u32,
    pub height: u32,
    pub values: Vec<u8>,
}

impl View for BurnMask {
    type V = MaskView;

    open spec fn view(&self) -> MaskView {
        MaskView { width: self.width as nat, height: self.height as nat, values: self.values@ }
    }
}

impl Clone for BurnMask {
    fn clone(&self) -> (copy: Self)
        ensures
            copy@ == self@,
    {
        BurnMask { width: self.width, height: self.height, values: self.values.clone() }
    }
}

impl BurnMask {
    /// The buffer holds exactly the mask's weights.
    pub open spec fn wf(&self) -> bool {
        self@.wf()
    }

    /// Whether the buffer holds exactly one weight for every pixel.
    pub fn is_well_formed(&self) -> (ok: bool)
        ensures
            ok == self.wf(),
    {
        assert(self.width as int * self.height as int <= 0xFFFF_FFFF * 0xFFFF_FFFF)
            by (nonlinear_arith)
            requires
                0 <= self.width <= 0xFFFF_FFFF,
                0 <= self.height <= 0xFFFF_FFFF,
        ;
        self.values.len() as u128 == (self.width as u128) * (self.height as u128)
    }

    /// The mask of the given size over `values`, if there is exactly one
    /// weight for every pixel.
    pub fn from_raw(width: u32, height: u32, values: Vec<u8>) -> (mask: Option<Self>)
        ensures
            mask is Some <==> values@.len() == width as int * height as int,
            mask is Some ==> mask->0@ == (MaskView {
                width: width as nat,
                height: height as nat,
                values: values@,
            }),
    {
        let candidate = BurnMask { width, height, values };
        if candidate.is_well_formed() {
            Some(candidate)
        } else {
            None
        }
    }

    /// A mask with the same weight everywhere.
    pub fn uniform(width: u32, height: u32, weight: u8) -> (mask: Self)
        requires
            width as int * height as int <= usize::MAX,
        ensures
            mask.wf(),
            mask.width == width,
            mask.height == height,
            forall|i: int| 0 <= i < mask.values@.len() ==> mask.values@[i] == weight,
    {
        let count: usize = (width as usize) * (height as usize);
        let mut values: Vec<u8> = Vec::new();
        let mut i: usize = 0;
        while i < count
            invariant
                i <= count,
                values@.len() == i,
                forall|k: int| 0 <= k < values@.len() ==> values@[k] == weight,
            decreases count - i,
        {
            values.push(weight);
            i += 1;
        }
        BurnMask { width, height, values }
    }
}

/// A field of noise without structure: each weight is drawn afresh, none
/// above `intensity`.
pub fn random_noise(width: u32, height: u32, intensity: u8) -> (mask: BurnMask)
    requires
        width as int * height as int <= usize::MAX,
    ensures
        mask.wf(),
        mask.width == width,
        mask.height == height,
        forall|i: int| 0 <= i < mask.values@.len() ==> mask.values@[i] <= intensity,
{
    let count: usize = (width as usize) * (height as usize);
    let mut values: Vec<u8> = Vec::new();
    let mut i: usize = 0;
    while i < count
        invariant
            i <= count,
            values@.len() == i,
            forall|k: int| 0 <= k < values@.len() ==> values@[k] <= intensity,
        decreases count - i,
    {
        let value = random_in_range(0, intensity as u32);
        values.push(value as u8);
        i += 1;
    }
    BurnMask { width, height, values }
}

} // verus!
