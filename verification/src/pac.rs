//! The values that the peripheral access crate fixes for this library.

use vstd::prelude::*;

verus! {

/// The code of the `Pll1Q` variant of the FDCAN kernel clock selection
/// (`RCC_D2CCIP1R.FDCANSEL`), as the `stm32h7` crate defines it.
///
/// Calls `u8::from(stm32h7::stm32h757cm4::rcc::d2ccip1r::FDCANSEL::Pll1Q)`.
/// The crate declares the variant as `Pll1Q = 1` and its `From` impl returns
/// the discriminant, so the contract claims that the result is 1.
#[verifier::external_body]
pub(crate) fn fdcansel_pll1_q() -> (code: u8)
    ensures
        code == 1,
{
    u8::from(stm32h7::stm32h757cm4::rcc::d2ccip1r::FDCANSEL::Pll1Q)
}

} // verus!
