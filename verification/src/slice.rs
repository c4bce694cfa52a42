//! A new mapping read as a sequence of elements.

use vstd::prelude::*;
use vstd::arithmetic::div_mod::{lemma_div_multiples_vanish, lemma_fundamental_div_mod_converse};
use vstd::arithmetic::mul::lemma_mul_is_commutative;
use crate::region::{
    mapped, mmap, MappedRegion, MappingError, RegionView, ReleaseOutcome, UnmapRequest,
};
use crate::text::unmap_failure;

verus! {

/// How many whole elements of `element_size` bytes fit into `byte_length`
/// bytes.
pub open spec fn element_count(byte_length: nat, element_size: nat) -> nat
    recommends
        element_size > 0,
{
    byte_length / element_size
}

/// The mathematical content of a [`SliceView`].
pub struct SliceModel {
    /// The mapping behind the elements.
    pub region: RegionView,
    /// Size of one element in bytes.
    pub element_size: nat,
    /// Number of elements in the sequence that starts at the region's address.
    pub elements: nat,
}

impl SliceModel {
    /// The mapping is live, and the elements are the whole elements that lie
    /// in it: none reaches beyond its last byte.
    pub open spec fn wf(self) -> bool {
        &&& self.region.is_live()
        &&& self.element_size > 0
        &&& self.elements == element_count(self.region.length, self.element_size)
    }
}

/// A live mapping that is read as a sequence of elements for a while and
/// unmapped afterwards.
///
/// The view owns its mapping. It offers the address and the element count to
/// read by, and it ends in one way only: by unmapping.
#[derive(Debug)]
pub struct SliceView {
    region: MappedRegion,
    element_size: usize,
    elements: usize,
}

impl View for SliceView {
    type V = SliceModel;

    closed spec fn view(&self) -> SliceModel {
        SliceModel {
            region: self.region@,
            element_size: self.element_size as nat,
            elements: self.elements as nat,
        }
    }
}

/// The number of whole elements in a range of bytes: no element reaches beyond
/// the range, and what is left behind the last one is less than an element.
pub fn slice_len(byte_length: usize, element_size: usize) -> (elements: usize)
    requires
        element_size > 0,
    ensures
        elements == element_count(byte_length as nat, element_size as nat),
        elements * element_size <= byte_length < (elements + 1) * element_size,
{
    proof {
        lemma_whole_elements_fit(byte_length as nat, element_size as nat);
    }
    byte_length / element_size
}

/// Takes the answer of the operating system to the request for a new mapping
/// of `size` bytes that is to be read as elements of `element_size` bytes.
///
/// `returned` is what the system call handed back, as an integer, and
/// `diagnostic` the platform's description of its last error. Any answer but
/// the failure value gives the view: the new region and the number of whole
/// elements in it. The failure value gives the error; it is final for the
/// view, and the elements are never read.
pub fn mmap_as_slice(size: usize, element_size: usize, returned: usize, diagnostic: &str) -> (result:
    Result<SliceView, MappingError>)
    requires
        size > 0,
        element_size > 0,
    ensures
        match mapped(size as nat, returned as nat) {
            Some(region) => result is Ok && result->Ok_0@ == (SliceModel {
                region,
                element_size: element_size as nat,
                elements: element_count(size as nat, element_size as nat),
            }),
            None => result is Err && result->Err_0@ == diagnostic@,
        },
{
    match mmap(size, returned, diagnostic) {
        Ok(region) => {
            let elements = slice_len(region.len(), element_size);
            Ok(SliceView { region, element_size, elements })
        },
        Err(error) => Err(error),
    }
}

impl SliceView {
    #[verifier::type_invariant]
    spec fn inv(&self) -> bool {
        self@.wf()
    }

    /// Address of the first element.
    pub fn address(&self) -> (address: usize)
        ensures
            address == self@.region.address,
    {
        self.region.address()
    }

    /// Number of elements that may be read, all of them within the mapping.
    pub fn elements(&self) -> (elements: usize)
        ensures
            elements == self@.elements,
            self@.wf(),
            elements * self@.element_size <= self@.region.length,
    {
        proof {
            use_type_invariant(self);
            lemma_whole_elements_fit(self@.region.length, self@.element_size);
        }
        self.elements
    }

    /// Size of one element in bytes.
    pub fn element_size(&self) -> (element_size: usize)
        ensures
            element_size == self@.element_size,
            element_size > 0,
    {
        proof {
            use_type_invariant(self);
        }
        self.element_size
    }

    /// The mapping behind the elements.
    pub fn region(&self) -> (region: &MappedRegion)
        ensures
            region@ == self@.region,
            region@.is_live(),
    {
        proof {
            use_type_invariant(self);
        }
        &self.region
    }

    /// The request that ends the view: to unmap the whole of its mapping.
    /// There always is one, however the reading went.
    pub fn unmap_request(&self) -> (request: UnmapRequest)
        ensures
            Some(request) == self@.region.unmap_request(),
    {
        proof {
            use_type_invariant(self);
        }
        UnmapRequest { address: self.region.address(), length: self.region.len() }
    }

    /// Ends the view with the answer of the operating system to its unmap
    /// request, as [`MappedRegion::release`] does for a region: a negative
    /// code is fatal and gives the message to stop with, any other code means
    /// that the mapping is gone.
    pub fn finish(self, code: i32, diagnostic: &str) -> (outcome: ReleaseOutcome)
        ensures
            match outcome {
                ReleaseOutcome::Released => code >= 0,
                ReleaseOutcome::Fatal(message) => code < 0 && message@ == unmap_failure(
                    self@.region.address,
                    self@.region.length,
                    diagnostic@,
                ),
            },
    {
        proof {
            use_type_invariant(&self);
        }
        let mut region = self.region;
        region.release(code, diagnostic)
    }
}

/// The elements counted by [`element_count`] lie within the bytes, and fewer
/// bytes than one element are left over.
pub proof fn lemma_whole_elements_fit(byte_length: nat, element_size: nat)
    by (nonlinear_arith)
    requires
        element_size > 0,
    ensures
        element_count(byte_length, element_size) * element_size <= byte_length,
        byte_length < (element_count(byte_length, element_size) + 1) * element_size,
{
}

/// A range of `k` elements' worth of bytes holds exactly `k` elements, and
/// with one byte less it holds `k - 1`.
pub proof fn lemma_element_count_of_multiples(k: nat, element_size: nat)
    requires
        element_size > 0,
    ensures
        element_count(k * element_size, element_size) == k,
        k > 0 ==> element_count((k * element_size - 1) as nat, element_size) == k - 1,
{
    lemma_mul_is_commutative(k as int, element_size as int);
    lemma_div_multiples_vanish(k as int, element_size as int);
    if k > 0 {
        assert(k * element_size - 1 == (k - 1) * element_size + (element_size - 1))
            by (nonlinear_arith);
        lemma_fundamental_div_mod_converse(
            k * element_size - 1,
            element_size as int,
            k - 1,
            element_size - 1,
        );
    }
}

} // verus!
