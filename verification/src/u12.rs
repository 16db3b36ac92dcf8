use vstd::prelude::*;

verus! {

/// A 12-bit memory address: an integer in `[0, 0xFFF]`.
///
/// Construction from an out-of-range value is excluded by contract, and
/// address arithmetic is either checked (`checked_add`) or wraps within
/// the 12-bit range (`wrapping_add`, `wrapping_sub`); it never widens
/// silently.
#[derive(Clone, Copy, Debug, PartialEq, Eq, Structural)]
pub struct U12 {
    value: usize,
}

impl View for U12 {
    type V = nat;

    closed spec fn view(&self) -> nat {
        self.value as nat
    }
}

/// The address holding `n`, for specification purposes; the
/// mathematical counterpart of `U12::from_usize`.
pub closed spec fn u12_from(n: nat) -> U12 {
    U12 { value: n as usize }
}

/// `u12_from` holds exactly the value it was given, for values in the
/// 12-bit range.
pub proof fn lemma_u12_from(n: nat)
    requires
        n <= 0xFFF,
    ensures
        u12_from(n)@ == n,
{
}

/// Addresses with the same value are the same address.
pub proof fn lemma_u12_view_injective(a: U12, b: U12)
    requires
        a@ == b@,
    ensures
        a == b,
{
}

impl U12 {
    /// A well-formed address fits in 12 bits.
    pub open spec fn wf(self) -> bool {
        self@ <= 0xFFF
    }

    pub fn from_usize(x: usize) -> (r: Self)
        requires
            x <= 0xFFF,
        ensures
            r@ == x,
    {
        U12 { value: x }
    }

    pub fn to_usize(self) -> (r: usize)
        ensures
            r == self@,
    {
        self.value
    }

    pub fn checked_add(self, rhs: Self) -> (r: Option<Self>)
        requires
            self.wf(),
            rhs.wf(),
        ensures
            match r {
                Some(sum) => self@ + rhs@ <= 0xFFF && sum@ == self@ + rhs@,
                None => self@ + rhs@ > 0xFFF,
            },
    {
        let result = self.value + rhs.value;
        if result <= 0xFFF {
            Some(U12 { value: result })
        } else {
            None
        }
    }

    /// Addition modulo 0x1000: arithmetic that would leave the 12-bit
    /// range wraps around rather than failing, a deliberate, documented
    /// choice for program-counter stepping.
    pub fn wrapping_add(self, rhs: Self) -> (r: Self)
        requires
            self.wf(),
            rhs.wf(),
        ensures
            r@ == (self@ + rhs@) % 0x1000,
    {
        U12 { value: (self.value + rhs.value) % 0x1000 }
    }

    /// Subtraction modulo 0x1000, the inverse of `wrapping_add`.
    pub fn wrapping_sub(self, rhs: Self) -> (r: Self)
        requires
            self.wf(),
            rhs.wf(),
        ensures
            r@ == (self@ + 0x1000 - rhs@) % 0x1000,
    {
        U12 { value: (self.value + 0x1000 - rhs.value) % 0x1000 }
    }
}

} // verus!
