//! Reference-counted snapshot sharing: acquire/release pairs interleaved
//! with refreshes, retirement only at zero references, and the searcher
//! manager on top.

use searchcore::reference_manager::{ReferenceManagerBase, SearcherFactory, SearcherManager};
use searchcore::errors::Error;

#[test]
fn acquire_release_and_refresh_lifecycle() {
    let mut m: ReferenceManagerBase<u32> = ReferenceManagerBase::new(100);
    let h0 = m.acquire().unwrap();
    assert_eq!(*m.get(h0), 100);
    assert_eq!(m.ref_count(h0), 2);
    assert!(m.maybe_refresh(Some(200)).unwrap());
    // the old snapshot stays valid for its holder after the swap
    assert!(!m.is_retired(h0));
    assert_eq!(*m.get(h0), 100);
    let h1 = m.acquire().unwrap();
    assert_eq!(*m.get(h1), 200);
    m.release(h0);
    assert!(m.is_retired(h0));
    m.release(h1);
    assert!(!m.is_retired(h1)); // the manager still holds its own reference
    m.close();
    assert!(m.is_retired(h1));
}

#[test]
fn refresh_without_newer_snapshot_is_a_no_op() {
    let mut m: ReferenceManagerBase<u32> = ReferenceManagerBase::new(7);
    assert!(!m.maybe_refresh(None).unwrap());
    let h = m.acquire().unwrap();
    assert_eq!(*m.get(h), 7);
    m.release(h);
    m.close();
}

#[test]
fn closed_manager_refuses_operations() {
    let mut m: ReferenceManagerBase<u32> = ReferenceManagerBase::new(1);
    m.close();
    assert!(matches!(m.acquire(), Err(Error::AlreadyClosed(_))));
    assert!(matches!(m.maybe_refresh(Some(2)), Err(Error::AlreadyClosed(_))));
}

#[test]
fn stress_interleaved_acquires_releases_and_refreshes() {
    // pseudo-random interleavings; a snapshot is never retired while some
    // acquirer still holds it, and after all releases every snapshot's
    // count is zero
    let mut m: ReferenceManagerBase<u64> = ReferenceManagerBase::new(0);
    let mut held: Vec<usize> = Vec::new();
    let mut state: u64 = 0x853c_49e6_748f_ea9b;
    let mut version: u64 = 0;
    let mut entries: usize = 1;
    for _ in 0..2000 {
        state = state.wrapping_mul(6364136223846793005).wrapping_add(1442695040888963407);
        match (state >> 30) % 3 {
            0 => {
                let h = m.acquire().unwrap();
                assert!(!m.is_retired(h));
                held.push(h);
            },
            1 => {
                if let Some(pos) = held.pop() {
                    m.release(pos);
                }
            },
            _ => {
                version += 1;
                let refreshed = if (state >> 50) & 1 == 1 {
                    Some(version)
                } else {
                    None
                };
                if m.maybe_refresh(refreshed).unwrap() {
                    entries += 1;
                }
            },
        }
        // every held handle stays un-retired
        for h in &held {
            assert!(!m.is_retired(*h));
            assert!(m.ref_count(*h) > 0);
        }
    }
    for h in held.drain(..) {
        m.release(h);
    }
    m.close();
    // after all acquirers released and the manager closed, every snapshot
    // was retired with a zero count
    for h in 0..entries {
        assert_eq!(m.ref_count(h), 0);
        assert!(m.is_retired(h));
    }
}

struct DoublingFactory;

impl SearcherFactory<u32, u64> for DoublingFactory {
    fn new_searcher(&self, reader: u32) -> Result<u64, Error> {
        Ok(reader as u64 * 2)
    }
}

#[test]
fn searcher_manager_close_releases_the_final_reference() {
    let mut m: SearcherManager<u64, DoublingFactory> =
        SearcherManager::new(1u32, DoublingFactory).unwrap();
    let h = m.acquire().unwrap();
    assert_eq!(m.manager_base.ref_count(h), 2);
    m.close();
    // close gave back the manager's own reference; ours remains
    assert_eq!(m.manager_base.ref_count(h), 1);
    assert!(!m.manager_base.is_retired(h));
    m.release(h);
    assert!(m.manager_base.is_retired(h));
}

#[test]
fn searcher_manager_wraps_refreshed_readers() {
    let mut m: SearcherManager<u64, DoublingFactory> =
        SearcherManager::new(21u32, DoublingFactory).unwrap();
    let h = m.acquire().unwrap();
    assert_eq!(*m.manager_base.get(h), 42);
    assert!(!m.refresh_if_needed::<u32>(None).unwrap());
    assert!(m.refresh_if_needed(Some(50u32)).unwrap());
    let h2 = m.acquire().unwrap();
    assert_eq!(*m.manager_base.get(h2), 100);
    m.release(h);
    m.release(h2);
    m.close();
}

struct FailingFactory;

impl SearcherFactory<u32, u64> for FailingFactory {
    fn new_searcher(&self, _reader: u32) -> Result<u64, Error> {
        Err(Error::IllegalArgument(String::from("cannot build a searcher")))
    }
}

#[test]
fn factory_failure_propagates_to_the_initiator() {
    let r: Result<SearcherManager<u64, FailingFactory>, Error> =
        SearcherManager::new(5u32, FailingFactory);
    assert!(r.is_err());
    // a failed refresh reports the failure and leaves the previous
    // searcher current
    let mut m: SearcherManager<u64, DoublingFactory> =
        SearcherManager::new(5u32, DoublingFactory).unwrap();
    let before = m.acquire().unwrap();
    assert_eq!(*m.manager_base.get(before), 10);
    assert!(m.refresh_if_needed(Some(6u32)).unwrap());
    let after = m.acquire().unwrap();
    assert_eq!(*m.manager_base.get(after), 12);
    m.release(before);
    m.release(after);
    m.close();
}
