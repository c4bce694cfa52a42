//! The life of a region as a sequence of events, and what holds of every such
//! sequence.

use vstd::prelude::*;
use crate::protection::Protection;
use crate::region::{map_failed_value, mapped, RegionView};

verus! {

/// One thing that happens to a region.
pub enum Event {
    /// The region passes to another owner.
    Transfer,
    /// A change to `protection` is asked for, and the operating system answers
    /// with `code`.
    Protect { protection: Protection, code: int },
    /// The owner lets go of the region: the unmap is asked for, and the
    /// operating system answers with `code`.
    Unmap { code: int },
}

/// Where the process stands with a region.
pub enum Course {
    /// The process runs and holds the region as given.
    Running(RegionView),
    /// The process was stopped, because the operating system refused to unmap
    /// the region.
    Stopped,
}

/// Whether the event makes a request of the operating system to unmap: it is
/// an unmap of a live region in a running process.
pub open spec fn asks_unmap(course: Course, event: Event) -> bool {
    &&& course matches Course::Running(region)
    &&& region.is_live()
    &&& event is Unmap
}

/// Whether the event sets the protection of the region: it is a change of a
/// live region in a running process that the operating system carries out.
pub open spec fn sets_protection(course: Course, event: Event) -> bool {
    &&& course matches Course::Running(region)
    &&& region.is_live()
    &&& event matches Event::Protect { code, .. }
    &&& code >= 0
}

/// The course after one event. A refused unmap of a live region stops the
/// process, and nothing happens in a stopped process.
pub open spec fn step(course: Course, event: Event) -> Course {
    match course {
        Course::Stopped => Course::Stopped,
        Course::Running(region) => match event {
            Event::Transfer => course,
            Event::Protect { protection, code } => Course::Running(
                region.after_protect(protection, code),
            ),
            Event::Unmap { code } => if region.is_live() && code < 0 {
                Course::Stopped
            } else {
                Course::Running(region.after_unmap(code))
            },
        },
    }
}

/// The course of a process that starts with the region and meets the events
/// in order.
pub open spec fn run(region: RegionView, events: Seq<Event>) -> Course
    decreases events.len(),
{
    if events.len() == 0 {
        Course::Running(region)
    } else {
        step(run(region, events.drop_last()), events.last())
    }
}

/// How many of the events made an unmap request.
pub open spec fn unmap_requests(region: RegionView, events: Seq<Event>) -> nat
    decreases events.len(),
{
    if events.len() == 0 {
        0
    } else {
        unmap_requests(region, events.drop_last()) + if asks_unmap(
            run(region, events.drop_last()),
            events.last(),
        ) {
            1nat
        } else {
            0nat
        }
    }
}

/// The protection asked for by the last of the events that set one, or that
/// of the region at the start if none did.
pub open spec fn latest_protection(region: RegionView, events: Seq<Event>) -> Protection
    decreases events.len(),
{
    if events.len() == 0 {
        region.protection
    } else if sets_protection(run(region, events.drop_last()), events.last()) {
        events.last()->protection
    } else {
        latest_protection(region, events.drop_last())
    }
}

/// Every answer of the operating system but the failure value gives a live
/// region of the size asked for, at the address answered and readable only.
pub proof fn lemma_mapping_has_requested_length(size: nat, returned: nat)
    requires
        size > 0,
        returned != map_failed_value(),
    ensures
        mapped(size, returned) is Some,
        mapped(size, returned)->0.is_live(),
        mapped(size, returned)->0.length == size,
        mapped(size, returned)->0.address == returned,
        mapped(size, returned)->0.protection == (Protection {
            read: true,
            write: false,
            execute: false,
        }),
{
}

/// Whatever happens to a region, and however often it changes hands, at most
/// one unmap request is ever made for it. A region that starts live has had
/// its one request exactly when it is released or the process was stopped, and
/// none exactly when it is still live; as long as it is live, it is at the
/// address and of the length that it started with.
pub proof fn lemma_unmapped_at_most_once(region: RegionView, events: Seq<Event>)
    requires
        region.wf(),
    ensures
        unmap_requests(region, events) <= 1,
        match run(region, events) {
            Course::Stopped => region.is_live() && unmap_requests(region, events) == 1,
            Course::Running(now) => if now.is_live() {
                &&& region.is_live()
                &&& unmap_requests(region, events) == 0
                &&& now.address == region.address
                &&& now.length == region.length
            } else {
                &&& now.is_released()
                &&& region.is_live() ==> unmap_requests(region, events) == 1
                &&& region.is_released() ==> unmap_requests(region, events) == 0
            },
        },
    decreases events.len(),
{
    if events.len() > 0 {
        lemma_unmapped_at_most_once(region, events.drop_last());
    }
}

/// A released region is inert: no request can be made for it, and no event
/// changes it, asks for an unmap or stops the process.
pub proof fn lemma_released_is_inert(region: RegionView, events: Seq<Event>)
    requires
        region.is_released(),
    ensures
        forall|protection: Protection| region.protect_request(protection) is None,
        region.unmap_request() is None,
        run(region, events) == Course::Running(region),
        unmap_requests(region, events) == 0,
    decreases events.len(),
{
    if events.len() > 0 {
        lemma_released_is_inert(region, events.drop_last());
    }
}

/// Once the region was released, or the process stopped, whatever follows
/// changes nothing and asks for no further unmap.
pub proof fn lemma_release_is_final(region: RegionView, before: Seq<Event>, after: Seq<Event>)
    requires
        region.wf(),
        run(region, before) matches Course::Running(now) ==> now.is_released(),
    ensures
        run(region, before + after) == run(region, before),
        unmap_requests(region, before + after) == unmap_requests(region, before),
    decreases after.len(),
{
    if after.len() == 0 {
    } else {
        lemma_release_is_final(region, before, after.drop_last());
        assert((before + after).drop_last() =~= before + after.drop_last());
    }
}

/// A change of protection that the operating system carries out on a live
/// region is what the region shows afterwards; a refused change leaves the
/// region as it was. Either way the region stays live, at the same address
/// and of the same length.
pub proof fn lemma_protection_round_trip(region: RegionView, protection: Protection, code: int)
    requires
        region.is_live(),
    ensures
        code >= 0 ==> region.after_protect(protection, code).protection == protection,
        code < 0 ==> region.after_protect(protection, code) == region,
        region.after_protect(protection, code).is_live(),
        region.after_protect(protection, code).address == region.address,
        region.after_protect(protection, code).length == region.length,
{
}

/// As long as the process runs, the region shows the protection of the last
/// change that was carried out, or the one it started with if there was none.
pub proof fn lemma_protection_is_latest(region: RegionView, events: Seq<Event>)
    ensures
        run(region, events) matches Course::Running(now) ==> now.protection == latest_protection(
            region,
            events,
        ),
    decreases events.len(),
{
    if events.len() > 0 {
        lemma_protection_is_latest(region, events.drop_last());
    }
}

} // verus!
