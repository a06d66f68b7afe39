use anchor_lang::prelude::Pubkey;
use counter::{
    close, decrement, derive_address, Counter, increment, initialize, reset, Close, CounterError,
    CounterStore, Decrement, Increment, Initialize, Key,
};

fn program() -> Key {
    Key::new([7u8; 32])
}

fn alice() -> Key {
    Key::new([1u8; 32])
}

fn bob() -> Key {
    Key::new([2u8; 32])
}

fn address_of(owner: &Key) -> Key {
    derive_address(&program(), owner).unwrap().0
}

fn inc(store: &mut CounterStore, owner: Key) -> Result<u64, CounterError> {
    let ctx = Increment { counter: address_of(&owner), owner };
    increment(store, &ctx).map(|c| c.count)
}

fn dec(store: &mut CounterStore, counter: Key, owner: Key) -> Result<u64, CounterError> {
    decrement(store, &Decrement { counter, owner }).map(|c| c.count)
}

fn count_at(store: &CounterStore, owner: &Key) -> Result<u64, CounterError> {
    store.get(&address_of(owner)).map(|c| c.count)
}

#[test]
fn derive_address_matches_anchor() {
    let owner = alice();
    let (expected, bump) = Pubkey::find_program_address(
        &[b"counter", owner.bytes.as_ref()],
        &Pubkey::new_from_array(program().bytes),
    );
    let (address, b) = derive_address(&program(), &owner).unwrap();
    assert_eq!(address.bytes, expected.to_bytes());
    assert_eq!(b, bump);
    assert_ne!(address, owner);
    assert_ne!(address, program());
}

#[test]
fn derive_address_is_deterministic_and_separates_owners() {
    let first = derive_address(&program(), &alice()).unwrap();
    let again = derive_address(&program(), &alice()).unwrap();
    assert_eq!(first.0, again.0);
    assert_eq!(first.1, again.1);
    let other = derive_address(&program(), &bob()).unwrap();
    assert_ne!(first.0, other.0);
}

#[test]
fn derive_address_depends_on_program() {
    let a = derive_address(&program(), &alice()).unwrap().0;
    let b = derive_address(&Key::new([8u8; 32]), &alice()).unwrap().0;
    assert_ne!(a, b);
}

#[test]
fn initialize_sets_owner_and_zero() {
    let mut store = CounterStore::new(program());
    let c = initialize(&mut store, &Initialize { owner: alice() }).unwrap();
    assert_eq!(c.count, 0);
    assert_eq!(c.owner, alice());
    assert_eq!(c.bump, derive_address(&program(), &alice()).unwrap().1);
    let stored = store.get(&address_of(&alice())).unwrap();
    assert_eq!(stored.owner, alice());
    assert_eq!(stored.count, 0);
}

#[test]
fn initialize_twice_fails_and_keeps_record() {
    let mut store = CounterStore::new(program());
    initialize(&mut store, &Initialize { owner: alice() }).unwrap();
    assert_eq!(inc(&mut store, alice()), Ok(1));
    let r = initialize(&mut store, &Initialize { owner: alice() });
    assert_eq!(r.unwrap_err(), CounterError::AlreadyExists);
    assert_eq!(count_at(&store, &alice()), Ok(1));
}

#[test]
fn two_owners_have_separate_counters() {
    let mut store = CounterStore::new(program());
    initialize(&mut store, &Initialize { owner: alice() }).unwrap();
    initialize(&mut store, &Initialize { owner: bob() }).unwrap();
    assert_eq!(inc(&mut store, alice()), Ok(1));
    assert_eq!(inc(&mut store, alice()), Ok(2));
    assert_eq!(inc(&mut store, bob()), Ok(1));
    assert_eq!(count_at(&store, &alice()), Ok(2));
    assert_eq!(count_at(&store, &bob()), Ok(1));
}

#[test]
fn increment_then_decrement_round_trip() {
    let mut store = CounterStore::new(program());
    initialize(&mut store, &Initialize { owner: alice() }).unwrap();
    assert_eq!(inc(&mut store, alice()), Ok(1));
    assert_eq!(inc(&mut store, alice()), Ok(2));
    assert_eq!(inc(&mut store, alice()), Ok(3));
    assert_eq!(dec(&mut store, address_of(&alice()), alice()), Ok(2));
    assert_eq!(count_at(&store, &alice()), Ok(2));
}

#[test]
fn decrement_at_zero_stays_zero() {
    let mut store = CounterStore::new(program());
    initialize(&mut store, &Initialize { owner: alice() }).unwrap();
    let a = address_of(&alice());
    assert_eq!(dec(&mut store, a, alice()), Ok(0));
    assert_eq!(dec(&mut store, a, alice()), Ok(0));
    assert_eq!(count_at(&store, &alice()), Ok(0));
}

#[test]
fn non_owner_is_refused_everywhere() {
    let mut store = CounterStore::new(program());
    initialize(&mut store, &Initialize { owner: alice() }).unwrap();
    assert_eq!(inc(&mut store, alice()), Ok(1));
    let a = address_of(&alice());
    let r = increment(&mut store, &Increment { counter: a, owner: bob() });
    assert_eq!(r.unwrap_err(), CounterError::Unauthorized);
    assert_eq!(dec(&mut store, a, bob()), Err(CounterError::Unauthorized));
    let r = reset(&mut store, &Decrement { counter: a, owner: bob() });
    assert_eq!(r.unwrap_err(), CounterError::Unauthorized);
    let r = close(&mut store, &Close { counter: a, owner: bob() });
    assert_eq!(r, Err(CounterError::Unauthorized));
    assert_eq!(count_at(&store, &alice()), Ok(1));
}

#[test]
fn operations_on_missing_record_report_not_found() {
    let mut store = CounterStore::new(program());
    let a = address_of(&alice());
    assert_eq!(store.get(&a).unwrap_err(), CounterError::NotFound);
    assert_eq!(inc(&mut store, alice()), Err(CounterError::NotFound));
    assert_eq!(dec(&mut store, a, alice()), Err(CounterError::NotFound));
    let r = reset(&mut store, &Decrement { counter: a, owner: alice() });
    assert_eq!(r.unwrap_err(), CounterError::NotFound);
    let r = close(&mut store, &Close { counter: a, owner: alice() });
    assert_eq!(r, Err(CounterError::NotFound));
}

#[test]
fn counter_is_found_only_at_derived_address() {
    let mut store = CounterStore::new(program());
    initialize(&mut store, &Initialize { owner: alice() }).unwrap();
    let r = increment(&mut store, &Increment { counter: alice(), owner: alice() });
    assert_eq!(r.unwrap_err(), CounterError::NotFound);
    assert_eq!(count_at(&store, &alice()), Ok(0));
}

#[test]
fn reset_sets_zero() {
    let mut store = CounterStore::new(program());
    initialize(&mut store, &Initialize { owner: alice() }).unwrap();
    inc(&mut store, alice()).unwrap();
    inc(&mut store, alice()).unwrap();
    let a = address_of(&alice());
    let c = reset(&mut store, &Decrement { counter: a, owner: alice() }).unwrap();
    assert_eq!(c.count, 0);
    assert_eq!(c.owner, alice());
    assert_eq!(count_at(&store, &alice()), Ok(0));
    let c = reset(&mut store, &Decrement { counter: a, owner: alice() }).unwrap();
    assert_eq!(c.count, 0);
}

#[test]
fn close_then_reinitialize() {
    let mut store = CounterStore::new(program());
    initialize(&mut store, &Initialize { owner: alice() }).unwrap();
    inc(&mut store, alice()).unwrap();
    let a = address_of(&alice());
    assert_eq!(close(&mut store, &Close { counter: a, owner: alice() }), Ok(()));
    assert_eq!(store.get(&a).unwrap_err(), CounterError::NotFound);
    let c = initialize(&mut store, &Initialize { owner: alice() }).unwrap();
    assert_eq!(c.count, 0);
    assert_eq!(count_at(&store, &alice()), Ok(0));
}

#[test]
fn close_leaves_other_counters() {
    let mut store = CounterStore::new(program());
    initialize(&mut store, &Initialize { owner: alice() }).unwrap();
    initialize(&mut store, &Initialize { owner: bob() }).unwrap();
    inc(&mut store, bob()).unwrap();
    let a = address_of(&alice());
    assert_eq!(close(&mut store, &Close { counter: a, owner: alice() }), Ok(()));
    assert_eq!(count_at(&store, &bob()), Ok(1));
    assert_eq!(inc(&mut store, bob()), Ok(2));
}

#[test]
fn alice_and_bob_walkthrough() {
    let mut store = CounterStore::new(program());
    initialize(&mut store, &Initialize { owner: alice() }).unwrap();
    assert_eq!(inc(&mut store, alice()), Ok(1));
    assert_eq!(inc(&mut store, alice()), Ok(2));
    assert_eq!(inc(&mut store, alice()), Ok(3));
    assert_eq!(count_at(&store, &alice()), Ok(3));
    let a = address_of(&alice());
    assert_eq!(dec(&mut store, a, bob()), Err(CounterError::Unauthorized));
    assert_eq!(count_at(&store, &alice()), Ok(3));
    assert_eq!(dec(&mut store, a, alice()), Ok(2));
    assert_eq!(dec(&mut store, a, alice()), Ok(1));
    assert_eq!(dec(&mut store, a, alice()), Ok(0));
    assert_eq!(dec(&mut store, a, alice()), Ok(0));
    assert_eq!(count_at(&store, &alice()), Ok(0));
    assert_eq!(close(&mut store, &Close { counter: a, owner: alice() }), Ok(()));
    assert_eq!(store.get(&a).unwrap_err(), CounterError::NotFound);
    let c = initialize(&mut store, &Initialize { owner: alice() }).unwrap();
    assert_eq!(c.count, 0);
    assert_eq!(count_at(&store, &alice()), Ok(0));
}

#[test]
fn store_keeps_program_id() {
    let store = CounterStore::new(program());
    assert_eq!(store.program_id(), program());
}

#[test]
fn key_equality_compares_all_bytes() {
    let mut b = [1u8; 32];
    assert_eq!(Key::new(b), alice());
    b[31] = 9;
    assert_ne!(Key::new(b), alice());
    assert_eq!(Key::new(b).to_bytes(), b);
}

#[test]
fn load_admits_record_at_its_derived_address() {
    let mut store = CounterStore::new(program());
    let (a, bump) = derive_address(&program(), &alice()).unwrap();
    let record = Counter { owner: alice(), count: 41, bump };
    assert_eq!(store.load(&a, record), Ok(()));
    assert_eq!(inc(&mut store, alice()), Ok(42));
    assert_eq!(store.load(&a, record), Err(CounterError::AlreadyExists));
    assert_eq!(count_at(&store, &alice()), Ok(42));
}

#[test]
fn load_refuses_record_at_foreign_address() {
    let mut store = CounterStore::new(program());
    let (_, bump) = derive_address(&program(), &alice()).unwrap();
    let b = address_of(&bob());
    let record = Counter { owner: alice(), count: 5, bump };
    assert_eq!(store.load(&b, record), Err(CounterError::AddressMismatch));
    assert_eq!(store.get(&b).unwrap_err(), CounterError::NotFound);
}

#[test]
fn load_refuses_record_with_wrong_bump() {
    let mut store = CounterStore::new(program());
    let (a, bump) = derive_address(&program(), &alice()).unwrap();
    let record = Counter { owner: alice(), count: 5, bump: bump.wrapping_add(1) };
    assert_eq!(store.load(&a, record), Err(CounterError::AddressMismatch));
}

#[test]
fn increment_at_largest_count_overflows() {
    let mut store = CounterStore::new(program());
    let (a, bump) = derive_address(&program(), &alice()).unwrap();
    let record = Counter { owner: alice(), count: u64::MAX, bump };
    store.load(&a, record).unwrap();
    assert_eq!(inc(&mut store, alice()), Err(CounterError::Overflow));
    assert_eq!(count_at(&store, &alice()), Ok(u64::MAX));
    assert_eq!(dec(&mut store, a, alice()), Ok(u64::MAX - 1));
}
