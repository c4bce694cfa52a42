use mmap::{
    map_request, mmap, mmap_as_slice, MapRequest, MappedRegion, MappingError, ProtectRequest,
    Protection, ProtectionError, ReleaseOutcome, UnmapRequest,
};

const ADDRESS: usize = 0x7f00_0000_1000;

fn failed() -> usize {
    libc::MAP_FAILED as usize
}

fn protection_of(bits: libc::c_int) -> Protection {
    Protection {
        read: bits & libc::PROT_READ != 0,
        write: bits & libc::PROT_WRITE != 0,
        execute: bits & libc::PROT_EXEC != 0,
    }
}

fn live(size: usize) -> MappedRegion {
    match mmap(size, ADDRESS, "") {
        Ok(region) => region,
        Err(error) => panic!("no region: {}", error.diagnostic()),
    }
}

/// Reads a new mapping of `size` bytes as bytes, as a process does whose
/// operating system maps at `ADDRESS` and unmaps without complaint. The bytes
/// of a new anonymous mapping are zero.
fn read_bytes<U>(size: usize, body: impl FnOnce(&[u8]) -> U) -> U {
    let memory = vec![0u8; size];
    match mmap_as_slice(size, std::mem::size_of::<u8>(), ADDRESS, "") {
        Ok(view) => {
            assert_eq!(view.address(), ADDRESS);
            let result = body(&memory[..view.elements()]);
            assert_eq!(
                view.unmap_request(),
                UnmapRequest { address: ADDRESS, length: size }
            );
            assert_eq!(view.finish(0, ""), ReleaseOutcome::Released);
            result
        }
        Err(s) => panic!("{}", s.diagnostic()),
    }
}

#[test]
fn test_all() {
    match mmap(4096, ADDRESS, "") {
        Ok(mut r) => {
            println!("ok: {}", r.to_string());
            match r.protect(protection_of(libc::PROT_READ | libc::PROT_EXEC), 0, "") {
                Ok(()) => {
                    println!("Protected!");
                }
                Err(_) => {
                    println!("Mapping failed!");
                }
            }
            assert_eq!(r.protection(), protection_of(libc::PROT_READ | libc::PROT_EXEC));
            assert_eq!(r.release(0, ""), ReleaseOutcome::Released);
        }
        Err(s) => {
            println!("err: {}", s.diagnostic());
        }
    }

    read_bytes(4096, |v: &[u8]| {
        println!("v[0] = {}", v[0]);
    });

    println!("exiting");
}

#[test]
fn map_request_is_anonymous_private_and_read_only() {
    assert_eq!(
        map_request(4096),
        MapRequest {
            hint: 0,
            length: 4096,
            protection: Protection { read: true, write: false, execute: false },
            anonymous: true,
            private: true,
        }
    );
    assert_eq!(map_request(1).length, 1);
    assert_eq!(map_request(usize::MAX).length, usize::MAX);
}

#[test]
fn mapping_4096_bytes_gives_a_read_only_region_of_that_length() {
    let region = live(4096);
    assert!(region.is_live());
    assert_eq!(region.len(), 4096);
    assert_eq!(region.address(), ADDRESS);
    assert_eq!(region.protection(), Protection::read_only());
    assert_eq!(region.protection(), protection_of(libc::PROT_READ));
}

#[test]
fn every_positive_size_is_reported_back() {
    for size in [1usize, 2, 4095, 4096, 4097, 1 << 30, usize::MAX] {
        let region = live(size);
        assert_eq!(region.len(), size);
        assert!(region.is_live());
    }
}

#[test]
fn every_answer_but_the_failure_value_is_an_address() {
    for returned in [0usize, 1, 4096, ADDRESS, usize::MAX - 1] {
        match mmap(4096, returned, "unused") {
            Ok(region) => assert_eq!(region.address(), returned),
            Err(error) => panic!("answer {:#x} taken for a failure: {}", returned, error.diagnostic()),
        }
    }
    assert!(mmap(4096, usize::MAX, "refused").is_err());
    assert_eq!(failed(), usize::MAX);
}

#[test]
fn mapping_failure_gives_the_diagnostic_and_no_region() {
    let result = mmap(usize::MAX, failed(), "Cannot allocate memory (os error 12)");
    match result {
        Ok(region) => panic!("a region came of a failure: {}", region.to_string()),
        Err(error) => {
            assert!(!error.diagnostic().is_empty());
            assert_eq!(error.diagnostic(), "Cannot allocate memory (os error 12)");
            assert_eq!(error, MappingError::new("Cannot allocate memory (os error 12)"));
        }
    }
}

#[test]
fn changing_protection_to_read_execute_is_recorded() {
    let mut region = live(4096);
    let wanted = Protection::read_only().union(Protection::execute_only());
    assert_eq!(wanted, Protection { read: true, write: false, execute: true });
    assert_eq!(
        region.protect_request(wanted),
        Some(ProtectRequest { address: ADDRESS, length: 4096, protection: wanted })
    );
    assert_eq!(region.protect(wanted, 0, ""), Ok(()));
    assert_eq!(region.protection(), wanted);
    assert_eq!(region.len(), 4096);
    assert_eq!(region.address(), ADDRESS);
    assert!(region.is_live());
}

#[test]
fn protection_reads_back_as_it_was_set() {
    let mut region = live(8192);
    for bits in 0..8 {
        let wanted = Protection { read: bits & 1 != 0, write: bits & 2 != 0, execute: bits & 4 != 0 };
        assert_eq!(region.protect(wanted, 0, ""), Ok(()));
        assert_eq!(region.protection(), wanted);
    }
    assert_eq!(region.protect(Protection::none(), 7, ""), Ok(()));
    assert_eq!(region.protection(), Protection::none());
}

#[test]
fn refused_protection_change_leaves_the_region_as_it_was() {
    let mut region = live(4096);
    let read_write = Protection::read_only().union(Protection::write_only());
    assert_eq!(region.protect(read_write, 0, ""), Ok(()));
    let refused = region.protect(Protection::execute_only(), -1, "Permission denied (os error 13)");
    assert_eq!(refused, Err(ProtectionError::new("Permission denied (os error 13)")));
    match refused {
        Err(error) => assert_eq!(error.diagnostic(), "Permission denied (os error 13)"),
        Ok(()) => panic!("a refusal was taken for success"),
    }
    assert!(region.is_live());
    assert_eq!(region.protection(), read_write);
    assert_eq!(region.len(), 4096);
    assert_eq!(region.address(), ADDRESS);
    assert_eq!(region.protect(Protection::none(), i32::MIN, "x"), Err(ProtectionError::new("x")));
    assert_eq!(region.protection(), read_write);
}

#[test]
fn release_unmaps_the_whole_range_and_ends_the_region() {
    let mut region = live(4096);
    assert_eq!(region.unmap_request(), Some(UnmapRequest { address: ADDRESS, length: 4096 }));
    assert_eq!(region.release(0, ""), ReleaseOutcome::Released);
    assert!(!region.is_live());
    assert_eq!(region.len(), 0);
    assert_eq!(region.address(), 0);
    assert_eq!(region.protection(), Protection::read_only());
}

#[test]
fn released_region_is_inert() {
    let mut region = live(4096);
    assert_eq!(region.release(0, ""), ReleaseOutcome::Released);
    assert_eq!(region.unmap_request(), None);
    for bits in 0..8 {
        let wanted = Protection { read: bits & 1 != 0, write: bits & 2 != 0, execute: bits & 4 != 0 };
        assert_eq!(region.protect_request(wanted), None);
    }
    assert_eq!(region.to_string(), "MappedRegion{0x0, 0}");
}

#[test]
fn region_is_released_once_however_often_it_changes_hands() {
    let region = live(4096);
    let second_owner = region;
    let boxed = Box::new(second_owner);
    let mut last_owner = *boxed;
    assert_eq!(last_owner.unmap_request(), Some(UnmapRequest { address: ADDRESS, length: 4096 }));
    let mut unmaps = 0;
    for _ in 0..3 {
        if let Some(request) = last_owner.unmap_request() {
            assert_eq!(request, UnmapRequest { address: ADDRESS, length: 4096 });
            assert_eq!(last_owner.release(0, ""), ReleaseOutcome::Released);
            unmaps += 1;
        }
    }
    assert_eq!(unmaps, 1);
}

#[test]
fn refused_unmap_is_fatal_and_names_address_and_length() {
    let mut region = live(4096);
    let outcome = region.release(-1, "Invalid argument (os error 22)");
    assert_eq!(
        outcome,
        ReleaseOutcome::Fatal(String::from(
            "munmap(0x7f0000001000, 4096): Invalid argument (os error 22)"
        ))
    );
    assert!(region.is_live());
    assert_eq!(region.len(), 4096);
    assert_eq!(region.address(), ADDRESS);
}

#[test]
fn region_is_shown_with_address_and_length() {
    assert_eq!(live(4096).to_string(), "MappedRegion{0x7f0000001000, 4096}");
    match mmap(1, 0, "") {
        Ok(region) => assert_eq!(region.to_string(), "MappedRegion{0x0, 1}"),
        Err(error) => panic!("{}", error.diagnostic()),
    }
}

#[test]
fn union_of_protections_allows_what_either_allows() {
    let read = Protection::read_only();
    let write = Protection::write_only();
    let execute = Protection::execute_only();
    let none = Protection::none();
    assert_eq!(none, Protection { read: false, write: false, execute: false });
    assert_eq!(read, Protection { read: true, write: false, execute: false });
    assert_eq!(write, Protection { read: false, write: true, execute: false });
    assert_eq!(execute, Protection { read: false, write: false, execute: true });
    assert_eq!(read.union(write), Protection { read: true, write: true, execute: false });
    assert_eq!(read.union(write), write.union(read));
    assert_eq!(read.union(write).union(execute), Protection { read: true, write: true, execute: true });
    assert_eq!(read.union(read), read);
    assert_eq!(execute.union(none), execute);
    assert_eq!(read.union(execute), protection_of(libc::PROT_READ | libc::PROT_EXEC));
}
