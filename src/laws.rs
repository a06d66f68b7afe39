use crate::address::derived;
use crate::key::Key;
use crate::store::{
    access, after_close, after_initialize, close_outcome, decrement_outcome, increment_outcome,
    initialize_outcome, owned, read_outcome, reset_outcome, Counter, CounterError, StoreView,
};
use vstd::prelude::*;

verus! {

/// Address derivation is a function of the program and the owner alone:
/// owners with the same identity get the same address and bump seed.
pub proof fn derivation_is_deterministic(program: Seq<u8>, o1: Seq<u8>, o2: Seq<u8>)
    requires
        o1 == o2,
    ensures
        derived(program, o1) == derived(program, o2),
{
}

/// In a well-formed store an owner has at most one counter: two records with
/// the same owner stand at the same address.
pub proof fn one_counter_per_owner(s: StoreView, a1: Seq<u8>, a2: Seq<u8>)
    requires
        s.wf(),
        s.records.contains_key(a1),
        s.records.contains_key(a2),
        s.records[a1].owner@ == s.records[a2].owner@,
    ensures
        a1 == a2,
{
}

/// In a well-formed store every record's owner and bump seed lead back to
/// its address, so the address check refuses nothing that the ownership
/// check lets through.
pub proof fn address_check_holds_in_wf(s: StoreView, address: Seq<u8>, caller: Seq<u8>)
    requires
        s.wf(),
    ensures
        access(s, address, caller) == owned(s, address, caller),
{
}

/// `initialize` where a record already stands at the owner's address fails
/// with `AlreadyExists` and leaves the store as it was.
pub proof fn initialize_never_overwrites(s: StoreView, owner: Key)
    requires
        derived(s.program, owner@) matches Some((a, _)) && s.records.contains_key(a),
    ensures
        initialize_outcome(s, owner) == Err::<(Seq<u8>, Counter), CounterError>(
            CounterError::AlreadyExists,
        ),
        after_initialize(s, owner) == s,
{
}

/// A successful `initialize` by `o` makes a record owned by `o` with a count
/// of zero, at `o`'s derived address, and keeps the store well formed.
pub proof fn initialize_starts_at_zero(s: StoreView, o: Key)
    requires
        s.wf(),
        initialize_outcome(s, o) is Ok,
    ensures
        ({
            let (a, c) = initialize_outcome(s, o)->Ok_0;
            &&& c.count == 0
            &&& c.owner == o
            &&& derived(s.program, o@) == Some((a, c.bump))
            &&& after_initialize(s, o).records[a] == c
        }),
{
}

/// `increment` followed by `decrement` by the same caller, where the
/// increment succeeds, brings the count and the whole store back.
pub proof fn increment_then_decrement(s: StoreView, address: Seq<u8>, caller: Seq<u8>)
    requires
        increment_outcome(s, address, caller) is Ok,
    ensures
        ({
            let s1 = s.after(address, increment_outcome(s, address, caller));
            let r = decrement_outcome(s1, address, caller);
            &&& r is Ok
            &&& r->Ok_0.count == s.records[address].count
            &&& s1.after(address, r) == s
        }),
{
    let c = s.records[address];
    let s1 = s.after(address, increment_outcome(s, address, caller));
    let c1 = increment_outcome(s, address, caller)->Ok_0;
    assert(access(s1, address, caller) is Ok);
    let c2 = decrement_outcome(s1, address, caller)->Ok_0;
    assert(c2 == c);
    assert(s.records.insert(address, c1).insert(address, c2) =~= s.records);
}

/// `decrement` at a count of zero succeeds, keeps the count at zero and
/// leaves the store as it was, so repeating it changes nothing either.
pub proof fn decrement_at_zero_is_idempotent(s: StoreView, address: Seq<u8>, caller: Seq<u8>)
    requires
        access(s, address, caller) is Ok,
        s.records[address].count == 0,
    ensures
        decrement_outcome(s, address, caller) == Ok::<Counter, CounterError>(s.records[address]),
        s.after(address, decrement_outcome(s, address, caller)) == s,
{
    assert(s.records.insert(address, s.records[address]) =~= s.records);
}

/// Every operation on an existing record by a caller that is not its owner
/// fails with `Unauthorized` and leaves the store as it was.
pub proof fn non_owner_is_refused(s: StoreView, address: Seq<u8>, caller: Seq<u8>)
    requires
        s.records.contains_key(address),
        s.records[address].owner@ != caller,
    ensures
        increment_outcome(s, address, caller) == Err::<Counter, CounterError>(
            CounterError::Unauthorized,
        ),
        decrement_outcome(s, address, caller) == Err::<Counter, CounterError>(
            CounterError::Unauthorized,
        ),
        reset_outcome(s, address, caller) == Err::<Counter, CounterError>(
            CounterError::Unauthorized,
        ),
        close_outcome(s, address, caller) == Err::<(), CounterError>(CounterError::Unauthorized),
        s.after(address, increment_outcome(s, address, caller)) == s,
        s.after(address, decrement_outcome(s, address, caller)) == s,
        s.after(address, reset_outcome(s, address, caller)) == s,
        after_close(s, address, caller) == s,
{
}

/// After a successful `close`, reading the address reports `NotFound`, and
/// `initialize` by the same owner succeeds again at that address with a
/// count of zero.
pub proof fn close_then_reopen(s: StoreView, address: Seq<u8>, owner: Key)
    requires
        s.wf(),
        close_outcome(s, address, owner@) is Ok,
    ensures
        ({
            let s1 = after_close(s, address, owner@);
            &&& read_outcome(s1, address) == Err::<Counter, CounterError>(CounterError::NotFound)
            &&& initialize_outcome(s1, owner) == Ok::<(Seq<u8>, Counter), CounterError>(
                (address, Counter { owner, count: 0, bump: s.records[address].bump }),
            )
        }),
{
}

} // verus!
