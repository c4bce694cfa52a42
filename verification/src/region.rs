//! A mapped region and the steps of its life.

use vstd::prelude::*;
use crate::protection::Protection;
use crate::sys::map_failed;
use crate::text::{
    push_decimal, push_hexadecimal, region_text, unmap_failure, unmap_failure_message,
};

verus! {

/// What is asked of the operating system to create a mapping.
#[derive(Clone, Copy, Debug, PartialEq, Eq, Structural)]
pub struct MapRequest {
    /// Where the mapping should be placed; zero leaves the choice to the
    /// operating system.
    pub hint: usize,
    /// Size of the mapping in bytes.
    pub length: usize,
    /// Access protection that the mapping starts with.
    pub protection: Protection,
    /// The mapping has no file behind it.
    pub anonymous: bool,
    /// The mapping is not shared with other processes.
    pub private: bool,
}

/// What is asked of the operating system to change the protection of a
/// region: always the whole of its range.
#[derive(Clone, Copy, Debug, PartialEq, Eq, Structural)]
pub struct ProtectRequest {
    /// Address of the first byte of the range.
    pub address: usize,
    /// Size of the range in bytes.
    pub length: usize,
    /// Access protection that the range should have.
    pub protection: Protection,
}

/// What is asked of the operating system to give a mapping back: always the
/// whole of its range.
#[derive(Clone, Copy, Debug, PartialEq, Eq, Structural)]
pub struct UnmapRequest {
    /// Address of the first byte of the range.
    pub address: usize,
    /// Size of the range in bytes.
    pub length: usize,
}

/// The mathematical content of a [`MappedRegion`].
pub struct RegionView {
    /// Address of the first byte, or zero once released.
    pub address: nat,
    /// Size in bytes, or zero once released.
    pub length: nat,
    /// Access protection in force.
    pub protection: Protection,
}

impl RegionView {
    /// The region stands for a mapping that the operating system still holds.
    pub open spec fn is_live(self) -> bool {
        self.length > 0
    }

    /// The region has been given back: nothing is left of the mapping but
    /// the record of its last protection.
    pub open spec fn is_released(self) -> bool {
        self.length == 0 && self.address == 0
    }

    /// A region is either live or released, never in between.
    pub open spec fn wf(self) -> bool {
        self.is_live() || self.is_released()
    }

    /// The same region under another protection.
    pub open spec fn protected(self, protection: Protection) -> RegionView {
        RegionView { address: self.address, length: self.length, protection }
    }

    /// The region after its mapping was given back.
    pub open spec fn released(self) -> RegionView {
        RegionView { address: 0, length: 0, protection: self.protection }
    }

    /// The region after the operating system answered `code` to a request to
    /// put it under `protection`: a live region takes the new protection
    /// unless the code is negative, and nothing else ever changes.
    pub open spec fn after_protect(self, protection: Protection, code: int) -> RegionView {
        if self.is_live() && code >= 0 {
            self.protected(protection)
        } else {
            self
        }
    }

    /// The region after the operating system answered `code` to the request
    /// to unmap it: a live region is released unless the code is negative,
    /// and nothing else ever changes.
    pub open spec fn after_unmap(self, code: int) -> RegionView {
        if self.is_live() && code >= 0 {
            self.released()
        } else {
            self
        }
    }

    /// The request that changes the protection of this region, if one may be
    /// made: a released region asks for nothing.
    pub open spec fn protect_request(self, protection: Protection) -> Option<ProtectRequest> {
        if self.is_live() {
            Some(
                ProtectRequest {
                    address: self.address as usize,
                    length: self.length as usize,
                    protection,
                },
            )
        } else {
            None
        }
    }

    /// The request that gives this region back, if one may be made: a
    /// released region asks for nothing.
    pub open spec fn unmap_request(self) -> Option<UnmapRequest> {
        if self.is_live() {
            Some(UnmapRequest { address: self.address as usize, length: self.length as usize })
        } else {
            None
        }
    }
}

/// The answer of the mapping call that stands for a failure: the largest
/// address.
pub open spec fn map_failed_value() -> nat {
    usize::MAX as nat
}

/// The region that comes of the answer `returned` to the request for `size`
/// bytes, if any does: every answer but the failure value is the address of a
/// new mapping of that size, readable only.
pub open spec fn mapped(size: nat, returned: nat) -> Option<RegionView> {
    if returned == map_failed_value() {
        None
    } else {
        Some(
            RegionView {
                address: returned,
                length: size,
                protection: Protection { read: true, write: false, execute: false },
            },
        )
    }
}

/// Exclusive owner of one anonymous mapping.
///
/// The value cannot be copied; it is created by [`mmap`], changed only by the
/// methods below, and ends in the released state.
#[derive(Debug)]
pub struct MappedRegion {
    addr: usize,
    len: usize,
    prot: Protection,
}

impl View for MappedRegion {
    type V = RegionView;

    closed spec fn view(&self) -> RegionView {
        RegionView { address: self.addr as nat, length: self.len as nat, protection: self.prot }
    }
}

/// The operating system refused to create a mapping.
#[derive(Debug, PartialEq, Eq)]
pub struct MappingError {
    diagnostic: String,
}

impl View for MappingError {
    type V = Seq<char>;

    /// The platform's description of the failure.
    closed spec fn view(&self) -> Seq<char> {
        self.diagnostic@
    }
}

impl MappingError {
    /// An error that carries `diagnostic`.
    pub fn new(diagnostic: &str) -> (e: MappingError)
        ensures
            e@ == diagnostic@,
    {
        MappingError { diagnostic: diagnostic.to_owned() }
    }

    /// The platform's description of the failure.
    pub fn diagnostic(&self) -> (d: &str)
        ensures
            d@ == self@,
    {
        self.diagnostic.as_str()
    }
}

/// The operating system refused to change the protection of a region.
#[derive(Debug, PartialEq, Eq)]
pub struct ProtectionError {
    diagnostic: String,
}

impl View for ProtectionError {
    type V = Seq<char>;

    /// The platform's description of the failure.
    closed spec fn view(&self) -> Seq<char> {
        self.diagnostic@
    }
}

impl ProtectionError {
    /// An error that carries `diagnostic`.
    pub fn new(diagnostic: &str) -> (e: ProtectionError)
        ensures
            e@ == diagnostic@,
    {
        ProtectionError { diagnostic: diagnostic.to_owned() }
    }

    /// The platform's description of the failure.
    pub fn diagnostic(&self) -> (d: &str)
        ensures
            d@ == self@,
    {
        self.diagnostic.as_str()
    }
}

/// How an attempt to give a mapping back ended.
#[derive(Debug, PartialEq, Eq)]
pub enum ReleaseOutcome {
    /// The mapping is gone and the region is released.
    Released,
    /// The operating system refused to unmap. The address or the length is
    /// corrupt, or the range was unmapped before; the process must not go on
    /// and has to stop with this message.
    Fatal(String),
}

impl MappedRegion {
    #[verifier::type_invariant]
    spec fn inv(&self) -> bool {
        self@.wf()
    }

    /// Address of the first byte of the mapping; zero once released.
    pub fn address(&self) -> (address: usize)
        ensures
            address == self@.address,
            self@.wf(),
    {
        proof {
            use_type_invariant(self);
        }
        self.addr
    }

    /// Size of the mapping in bytes; zero once released.
    pub fn len(&self) -> (length: usize)
        ensures
            length == self@.length,
            self@.wf(),
    {
        proof {
            use_type_invariant(self);
        }
        self.len
    }

    /// The protection set by the last successful change, or read-only if
    /// there was none.
    pub fn protection(&self) -> (protection: Protection)
        ensures
            protection == self@.protection,
    {
        self.prot
    }

    /// Whether the region still stands for a mapping.
    pub fn is_live(&self) -> (live: bool)
        ensures
            live == self@.is_live(),
            !live ==> self@.is_released(),
    {
        proof {
            use_type_invariant(self);
        }
        self.len > 0
    }

    /// The request to put the whole range under `protection`, or nothing if
    /// the region was released.
    pub fn protect_request(&self, protection: Protection) -> (request: Option<ProtectRequest>)
        ensures
            request == self@.protect_request(protection),
    {
        if self.len > 0 {
            Some(ProtectRequest { address: self.addr, length: self.len, protection })
        } else {
            None
        }
    }

    /// Takes the answer of the operating system to a request to put the
    /// region under `protection`.
    ///
    /// `code` is what the system call returned and `diagnostic` the platform's
    /// description of its last error. A negative code is a refusal: the region
    /// stays as it was, live and under its earlier protection, and the error
    /// carries the diagnostic. Any other code records the new protection.
    pub fn protect(&mut self, protection: Protection, code: i32, diagnostic: &str) -> (result:
        Result<(), ProtectionError>)
        requires
            old(self)@.is_live(),
        ensures
            final(self)@ == old(self)@.after_protect(protection, code as int),
            match result {
                Ok(_) => code >= 0,
                Err(error) => code < 0 && error@ == diagnostic@,
            },
    {
        if code < 0 {
            Err(ProtectionError::new(diagnostic))
        } else {
            self.prot = protection;
            Ok(())
        }
    }

    /// The request to unmap the whole range, or nothing if the region was
    /// released.
    pub fn unmap_request(&self) -> (request: Option<UnmapRequest>)
        ensures
            request == self@.unmap_request(),
    {
        if self.len > 0 {
            Some(UnmapRequest { address: self.addr, length: self.len })
        } else {
            None
        }
    }

    /// Takes the answer of the operating system to the request to unmap the
    /// region.
    ///
    /// `code` is what the system call returned and `diagnostic` the platform's
    /// description of its last error. A negative code is a refusal, which is
    /// fatal: the region is left as it was and the outcome carries the message
    /// to stop the process with, naming the address, the length and the
    /// diagnostic. Any other code releases the region.
    pub fn release(&mut self, code: i32, diagnostic: &str) -> (outcome: ReleaseOutcome)
        requires
            old(self)@.is_live(),
        ensures
            final(self)@ == old(self)@.after_unmap(code as int),
            match outcome {
                ReleaseOutcome::Released => code >= 0,
                ReleaseOutcome::Fatal(message) => code < 0 && message@ == unmap_failure(
                    old(self)@.address,
                    old(self)@.length,
                    diagnostic@,
                ),
            },
    {
        if code < 0 {
            ReleaseOutcome::Fatal(unmap_failure_message(self.addr, self.len, diagnostic))
        } else {
            self.addr = 0;
            self.len = 0;
            ReleaseOutcome::Released
        }
    }

    /// The region as text: its address and its length between braces.
    pub fn to_string(&self) -> (text: String)
        ensures
            text@ == region_text(self@.address, self@.length),
    {
        let mut text = String::new();
        text.append("MappedRegion{");
        push_hexadecimal(&mut text, self.addr);
        text.append(", ");
        push_decimal(&mut text, self.len);
        text.append("}");
        text
    }
}

/// The request that creates a mapping of `size` bytes: anonymous, private,
/// readable only, placed where the operating system likes.
pub fn map_request(size: usize) -> (request: MapRequest)
    requires
        size > 0,
    ensures
        request == (MapRequest {
            hint: 0,
            length: size,
            protection: Protection { read: true, write: false, execute: false },
            anonymous: true,
            private: true,
        }),
{
    MapRequest {
        hint: 0,
        length: size,
        protection: Protection::read_only(),
        anonymous: true,
        private: true,
    }
}

/// Takes the answer of the operating system to the request for `size` bytes.
///
/// `returned` is what the system call handed back, as an integer, and
/// `diagnostic` the platform's description of its last error. Any answer but
/// the failure value is the address of a new mapping, which the region then
/// owns: `size` bytes, readable only. The failure value yields the error with
/// the diagnostic, and no region.
pub fn mmap(size: usize, returned: usize, diagnostic: &str) -> (result: Result<
    MappedRegion,
    MappingError,
>)
    requires
        size > 0,
    ensures
        match mapped(size as nat, returned as nat) {
            Some(region) => result is Ok && result->Ok_0@ == region,
            None => result is Err && result->Err_0@ == diagnostic@,
        },
{
    if returned == map_failed() {
        Err(MappingError::new(diagnostic))
    } else {
        Ok(MappedRegion { addr: returned, len: size, prot: Protection::read_only() })
    }
}

} // verus!
