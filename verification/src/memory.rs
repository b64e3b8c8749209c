//! User memory that an enclave asks for.
use crate::error::ErrorKind;
use vstd::arithmetic::div_mod::{lemma_fundamental_div_mod, lemma_mod_bound};
use vstd::arithmetic::mul::lemma_mul_inequality;
use vstd::arithmetic::power2::is_pow2;
use vstd::layout::valid_layout;
use vstd::prelude::*;

verus! {

/// `std::alloc::Layout::from_size_align`: there is a layout of this size and alignment
/// exactly if the alignment is a power of two and the size, rounded up to a multiple of the
/// alignment, does not exceed `isize::MAX`.
#[verifier::external_body]
fn layout_exists(size: usize, align: usize) -> (exists_layout: bool)
    ensures
        exists_layout == valid_layout(size, align),
{
    std::alloc::Layout::from_size_align(size, align).is_ok()
}

/// What is answered to a request for memory before the allocator is asked. No memory at all
/// cannot be asked for.
pub open spec fn alloc_answer(size: usize, alignment: usize) -> Result<(), ErrorKind> {
    if valid_layout(size, alignment) && size != 0 {
        Ok(())
    } else {
        Err(ErrorKind::InvalidInput)
    }
}

/// What is answered to a request to free memory, and whether there is any to hand back to the
/// allocator.
pub open spec fn free_answer(size: usize, alignment: usize) -> Result<bool, ErrorKind> {
    if valid_layout(size, alignment) {
        Ok(size != 0)
    } else {
        Err(ErrorKind::InvalidInput)
    }
}

/// Memory that could be asked for can be handed back, and only such memory ever is.
pub proof fn law_alloc_and_free_agree(size: usize, alignment: usize)
    ensures
        alloc_answer(size, alignment) is Ok <==> free_answer(size, alignment) == Ok::<
            bool,
            ErrorKind,
        >(true),
{
}

/// Memory can be asked for, and handed back, with every alignment that is a power of two and every
/// size that, rounded up to the alignment, does not exceed `isize::MAX`. Only that there is none of
/// it makes a difference: no memory cannot be asked for, and need not be handed back.
pub proof fn law_what_can_be_asked_for(size: usize, alignment: usize)
    ensures
        ({
            let rounded = ((size + alignment - 1) / (alignment as int)) * alignment;
            let fits = is_pow2(alignment as int) && rounded <= isize::MAX;
            &&& fits && size > 0 ==> alloc_answer(size, alignment) == Ok::<(), ErrorKind>(())
            &&& !fits || size == 0 ==> alloc_answer(size, alignment) == Err::<(), ErrorKind>(
                ErrorKind::InvalidInput,
            )
            &&& fits ==> free_answer(size, alignment) == Ok::<bool, ErrorKind>(size > 0)
            &&& !fits ==> free_answer(size, alignment) == Err::<bool, ErrorKind>(
                ErrorKind::InvalidInput,
            )
        }),
{
    if is_pow2(alignment as int) {
        reveal(is_pow2);
        let al = alignment as int;
        let top = isize::MAX as int;
        let up = size + al - 1;
        let q = up / al;
        let m = top / al;
        lemma_fundamental_div_mod(up, al);
        lemma_fundamental_div_mod(top, al);
        lemma_mod_bound(up, al);
        lemma_mod_bound(top, al);
        assert(q * al == al * q && m * al == al * m) by (nonlinear_arith);
        if q <= m {
            lemma_mul_inequality(q, m, al);
        } else {
            lemma_mul_inequality(m + 1, q, al);
            assert((m + 1) * al == m * al + al) by (nonlinear_arith);
        }
    }
}

/// Whether memory of this size and alignment can be asked for.
pub fn alloc_request(size: usize, alignment: usize) -> (request: Result<(), ErrorKind>)
    ensures
        request == alloc_answer(size, alignment),
        request is Ok <==> valid_layout(size, alignment) && size != 0,
        request is Err ==> request == Err::<(), ErrorKind>(ErrorKind::InvalidInput),
{
    if !layout_exists(size, alignment) {
        return Err(ErrorKind::InvalidInput);
    }
    if size == 0 {
        return Err(ErrorKind::InvalidInput);
    }
    Ok(())
}

/// What the enclave is told once the allocator has answered with `address`, which is 0 if
/// there is no memory left.
pub fn alloc_result(address: usize) -> (result: Result<usize, ErrorKind>)
    ensures
        result == (if address == 0 {
            Err::<usize, ErrorKind>(ErrorKind::Other)
        } else {
            Ok::<usize, ErrorKind>(address)
        }),
{
    if address == 0 {
        Err(ErrorKind::Other)
    } else {
        Ok(address)
    }
}

/// Whether there is memory to hand back to the allocator: not if its size is 0.
pub fn free_request(size: usize, alignment: usize) -> (request: Result<bool, ErrorKind>)
    ensures
        request == free_answer(size, alignment),
        valid_layout(size, alignment) ==> request == Ok::<bool, ErrorKind>(size != 0),
        !valid_layout(size, alignment) ==> request == Err::<bool, ErrorKind>(
            ErrorKind::InvalidInput,
        ),
{
    if !layout_exists(size, alignment) {
        return Err(ErrorKind::InvalidInput);
    }
    Ok(size != 0)
}

} // verus!
