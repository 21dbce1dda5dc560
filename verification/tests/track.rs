use radix_engine::errors::TrackError;
use radix_engine::model::{KeyValueStoreEntrySubstate, NonFungibleSubstate, System};
use radix_engine::track::{LockState, Substate, Track};
use radix_engine::types::SubstateId;

fn track_with_system() -> Track {
    let mut track = Track::new();
    track.create_uuid_substate(SubstateId::System(1), Substate::System(System { epoch: 3 }));
    track
}

#[test]
fn test_locks() {
    let mut track = track_with_system();
    assert_eq!(
        track.acquire_lock(SubstateId::System(2), false, false),
        Err(TrackError::NotFound(SubstateId::System(2)))
    );
    assert_eq!(track.acquire_lock(SubstateId::System(1), false, false), Ok(()));
    assert_eq!(track.acquire_lock(SubstateId::System(1), false, false), Ok(()));
    assert_eq!(track.lock_state(&SubstateId::System(1)), Some(LockState::Read(2)));
    assert_eq!(
        track.acquire_lock(SubstateId::System(1), true, false),
        Err(TrackError::SubstateLocked(SubstateId::System(1)))
    );
    assert_eq!(track.release_lock(SubstateId::System(1), false), Ok(()));
    assert_eq!(track.release_lock(SubstateId::System(1), false), Ok(()));
    assert_eq!(track.lock_state(&SubstateId::System(1)), None);
    assert_eq!(
        track.release_lock(SubstateId::System(1), false),
        Err(TrackError::NotLocked(SubstateId::System(1)))
    );
    assert_eq!(track.acquire_lock(SubstateId::System(1), true, false), Ok(()));
    assert_eq!(track.lock_state(&SubstateId::System(1)), Some(LockState::Write));
    assert_eq!(
        track.acquire_lock(SubstateId::System(1), false, false),
        Err(TrackError::SubstateLocked(SubstateId::System(1)))
    );
}

#[test]
fn test_take_and_return() {
    let mut track = track_with_system();
    let taken = track.take_substate(SubstateId::System(1));
    assert!(!track.contains_substate(&SubstateId::System(1)));
    track.return_substate(SubstateId::System(1), taken);
    assert!(track.contains_substate(&SubstateId::System(1)));
    assert_eq!(track.borrow_substate(SubstateId::System(1)).raw().system(), &System { epoch: 3 });
}

#[test]
fn test_key_values() {
    let mut track = Track::new();
    match track.read_key_value(SubstateId::NonFungibleSpace(1), vec![1]) {
        Substate::NonFungible(n) => assert_eq!(n, NonFungibleSubstate(None)),
        _ => panic!("expected a non-fungible slot"),
    }
    match track.read_key_value(SubstateId::KeyValueStoreSpace(1), vec![1]) {
        Substate::KeyValueStoreEntry(e) => assert_eq!(e, KeyValueStoreEntrySubstate(None)),
        _ => panic!("expected an entry"),
    }
    track.set_key_value(
        SubstateId::KeyValueStoreSpace(1),
        vec![1],
        Substate::KeyValueStoreEntry(KeyValueStoreEntrySubstate(Some(vec![7]))),
    );
    match track.read_key_value(SubstateId::KeyValueStoreSpace(1), vec![1]) {
        Substate::KeyValueStoreEntry(e) => assert_eq!(e, KeyValueStoreEntrySubstate(Some(vec![7]))),
        _ => panic!("expected an entry"),
    }
    match track.read_key_value(SubstateId::KeyValueStoreSpace(2), vec![1]) {
        Substate::KeyValueStoreEntry(e) => assert_eq!(e, KeyValueStoreEntrySubstate(None)),
        _ => panic!("expected an entry"),
    }
}
