//! Thread control structures (TCSs): the places at which an enclave is entered.
use vstd::prelude::*;

verus! {

/// The address of a TCS.
#[derive(Copy, Clone, Debug, Hash, Eq, PartialEq, Ord, PartialOrd)]
pub struct TcsAddress(pub usize);

/// A TCS that has been loaded. `T` is the handle through which it is entered.
#[derive(Debug)]
pub struct ErasedTcs<T> {
    /// The handle.
    pub tcs: T,
    /// Where the TCS is.
    pub address: TcsAddress,
}

impl<T> ErasedTcs<T> {
    /// Where the TCS is.
    pub fn address(&self) -> (address: TcsAddress)
        ensures
            address == self.address,
    {
        self.address
    }
}

/// A TCS that no thread has entered. Whoever owns it is the receiver of the
/// events on the queue of that TCS.
#[derive(Debug)]
pub struct StoppedTcs<T> {
    /// The handle.
    pub tcs: T,
    /// Where the TCS is.
    pub address: TcsAddress,
}

/// The TCSs `s`, not entered yet.
pub open spec fn stopped<T>(s: Seq<ErasedTcs<T>>) -> Seq<StoppedTcs<T>> {
    s.map_values(|t: ErasedTcs<T>| StoppedTcs { tcs: t.tcs, address: t.address })
}

/// The addresses of `s`.
pub open spec fn addresses<T>(s: Seq<ErasedTcs<T>>) -> Seq<TcsAddress> {
    s.map_values(|t: ErasedTcs<T>| t.address)
}

/// A TCS that has been loaded is the same one when it is not entered yet: its handle and its address
/// stay, and so does the order of several.
pub proof fn law_stopped_tcs_is_the_loaded_one<T>(s: Seq<ErasedTcs<T>>, i: int)
    requires
        0 <= i < s.len(),
    ensures
        stopped(s).len() == s.len(),
        stopped(s)[i].tcs == s[i].tcs,
        stopped(s)[i].address == s[i].address,
        addresses(s).len() == s.len(),
        addresses(s)[i] == s[i].address,
{
}

/// Whether some address stands in `s` before position `i` that is the one at `i`.
pub open spec fn repeats(s: Seq<TcsAddress>, i: int) -> bool {
    exists|k: int| 0 <= k < i && #[trigger] s[k] == s[i]
}

/// The first address that occurs a second time. No two TCSs of an enclave can be
/// at one address.
pub fn first_duplicate(s: &Vec<TcsAddress>) -> (dup: Option<TcsAddress>)
    ensures
        dup is None <==> s@.no_duplicates(),
        dup matches Some(a) ==> exists|i: int|
            {
                &&& 0 <= i < s@.len()
                &&& #[trigger] s@[i] == a
                &&& repeats(s@, i)
                &&& forall|j: int| 0 <= j < i ==> !repeats(s@, j)
            },
        dup matches Some(a) ==> exists|i: int|
            {
                &&& 0 <= i < s@.len()
                &&& #[trigger] s@[i] == a
                &&& s@.take(i).contains(a)
                &&& s@.take(i).no_duplicates()
            },
{
    let n: usize = s.len();
    let mut i: usize = 0;
    while i < n
        invariant
            n == s@.len(),
            i <= n,
            forall|j: int| 0 <= j < i ==> !repeats(s@, j),
        decreases n - i,
    {
        let mut k: usize = 0;
        while k < i
            invariant
                n == s@.len(),
                k <= i < n,
                forall|l: int| 0 <= l < k ==> s@[l] != s@[i as int],
                forall|j: int| 0 <= j < i ==> !repeats(s@, j),
            decreases i - k,
        {
            if s[k].0 == s[i].0 {
                assert(s@[k as int] == s@[i as int]);
                assert(repeats(s@, i as int));
                proof {
                    let front = s@.take(i as int);
                    assert(front[k as int] == s@[i as int]);
                    assert forall|a: int, b: int| 0 <= a < b < front.len() implies front[a]
                        != front[b] by {
                        assert(front[a] == s@[a] && front[b] == s@[b]);
                        assert(!repeats(s@, b));
                    }
                    assert(front.no_duplicates());
                }
                return Some(s[i]);
            }
            k = k + 1;
        }
        i = i + 1;
    }
    assert(s@.no_duplicates()) by {
        assert forall|a: int, b: int| 0 <= a < b < s@.len() implies s@[a] != s@[b] by {
            assert(!repeats(s@, b));
        }
    }
    None
}

} // verus!
