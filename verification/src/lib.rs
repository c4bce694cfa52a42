//! Lifecycle of anonymous, private memory mappings.
//!
//! A mapping is requested from the operating system, may have its access
//! protection changed, may be viewed as a typed slice, and is released exactly
//! once. This crate holds the rules of that lifecycle: what is asked of the
//! operating system at each step and what each of its answers means for the
//! region. The system calls themselves are made by the caller, who hands their
//! results back as plain integers.

pub mod lifecycle;
pub mod protection;
pub mod region;
pub mod slice;
mod sys;
pub mod text;

pub use protection::Protection;
pub use region::{
    map_request, mmap, MapRequest, MappedRegion, MappingError, ProtectRequest, ProtectionError,
    RegionView, ReleaseOutcome, UnmapRequest,
};
pub use slice::{mmap_as_slice, slice_len, SliceModel, SliceView};
