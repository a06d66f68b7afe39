use crate::address::{derive_address, derived, rederive_address, rederived};
use crate::key::Key;
use vstd::prelude::*;

verus! {

/// The record kept for one owner: who may change it, its count, and the bump
/// seed with which its address was derived.
#[derive(Clone, Copy, Debug)]
pub struct Counter {
    pub owner: Key,
    pub count: u64,
    pub bump: u8,
}

/// Why an operation was refused. A refused operation changes nothing.
#[derive(Clone, Copy, Debug, PartialEq, Eq, Structural)]
pub enum CounterError {
    /// A record already stands at the owner's address.
    AlreadyExists,
    /// No record stands at the address.
    NotFound,
    /// The caller is not the record's owner.
    Unauthorized,
    /// The record's owner and bump seed do not lead back to its address.
    AddressMismatch,
    /// The count is already at its largest value.
    Overflow,
    /// No bump seed gives the owner a valid address.
    AddressUnavailable,
}

/// The accounts of `initialize`: the owner, who signs and pays.
#[derive(Clone, Copy, Debug)]
pub struct Initialize {
    pub owner: Key,
}

/// The accounts of `increment`: the counter's address and the signer.
#[derive(Clone, Copy, Debug)]
pub struct Increment {
    pub counter: Key,
    pub owner: Key,
}

/// The accounts of `decrement` and `reset`: the counter's address and the
/// signer.
#[derive(Clone, Copy, Debug)]
pub struct Decrement {
    pub counter: Key,
    pub owner: Key,
}

/// The accounts of `close`: the counter's address and the signer.
#[derive(Clone, Copy, Debug)]
pub struct Close {
    pub counter: Key,
    pub owner: Key,
}

/// The abstract state of a store: the program identity its addresses are
/// derived under, and the record at each address.
pub ghost struct StoreView {
    pub program: Seq<u8>,
    pub records: Map<Seq<u8>, Counter>,
}

impl StoreView {
    /// Every record stands at the address derived from its owner, and its
    /// owner and bump seed lead back to that address.
    pub open spec fn wf(self) -> bool {
        forall|a: Seq<u8>| #[trigger]
            self.records.contains_key(a) ==> {
                &&& derived(self.program, self.records[a].owner@) == Some((a, self.records[a].bump))
                &&& rederived(self.program, self.records[a].owner@, self.records[a].bump) == Some(a)
            }
    }

    pub open spec fn with(self, a: Seq<u8>, c: Counter) -> StoreView {
        StoreView { program: self.program, records: self.records.insert(a, c) }
    }

    pub open spec fn without(self, a: Seq<u8>) -> StoreView {
        StoreView { program: self.program, records: self.records.remove(a) }
    }

    /// The state after an operation on the record at `a` that returned `r`.
    pub open spec fn after(self, a: Seq<u8>, r: Result<Counter, CounterError>) -> StoreView {
        match r {
            Ok(c) => self.with(a, c),
            Err(_) => self,
        }
    }
}

/// What reading the record at `address` gives.
pub open spec fn read_outcome(s: StoreView, address: Seq<u8>) -> Result<Counter, CounterError> {
    if s.records.contains_key(address) {
        Ok(s.records[address])
    } else {
        Err(CounterError::NotFound)
    }
}

/// What `load` gives for a record handed in from outside: it is admitted
/// only at a free address that its owner and bump seed derive.
pub open spec fn load_outcome(s: StoreView, address: Seq<u8>, record: Counter) -> Result<(), CounterError> {
    if s.records.contains_key(address) {
        Err(CounterError::AlreadyExists)
    } else if derived(s.program, record.owner@) != Some((address, record.bump)) {
        Err(CounterError::AddressMismatch)
    } else {
        Ok(())
    }
}

/// The record at `address`, if it exists and `caller` owns it.
pub open spec fn owned(s: StoreView, address: Seq<u8>, caller: Seq<u8>) -> Result<Counter, CounterError> {
    if !s.records.contains_key(address) {
        Err(CounterError::NotFound)
    } else if s.records[address].owner@ != caller {
        Err(CounterError::Unauthorized)
    } else {
        Ok(s.records[address])
    }
}

/// The record at `address`, if `caller` owns it and its owner and bump seed
/// lead back to `address`.
pub open spec fn access(s: StoreView, address: Seq<u8>, caller: Seq<u8>) -> Result<Counter, CounterError> {
    match owned(s, address, caller) {
        Err(e) => Err(e),
        Ok(c) => if rederived(s.program, c.owner@, c.bump) == Some(address) {
            Ok(c)
        } else {
            Err(CounterError::AddressMismatch)
        },
    }
}

/// What `initialize` by `owner` gives: the new record's address and the
/// record, or why none was made.
pub open spec fn initialize_outcome(s: StoreView, owner: Key) -> Result<(Seq<u8>, Counter), CounterError> {
    match derived(s.program, owner@) {
        None => Err(CounterError::AddressUnavailable),
        Some((a, bump)) => if s.records.contains_key(a) {
            Err(CounterError::AlreadyExists)
        } else {
            Ok((a, Counter { owner, count: 0, bump }))
        },
    }
}

/// The state after `initialize` by `owner`.
pub open spec fn after_initialize(s: StoreView, owner: Key) -> StoreView {
    match initialize_outcome(s, owner) {
        Ok((a, c)) => s.with(a, c),
        Err(_) => s,
    }
}

/// What `increment` gives: the record with its count one higher.
pub open spec fn increment_outcome(s: StoreView, address: Seq<u8>, caller: Seq<u8>) -> Result<Counter, CounterError> {
    match access(s, address, caller) {
        Err(e) => Err(e),
        Ok(c) => if c.count < u64::MAX {
            Ok(Counter { owner: c.owner, count: (c.count + 1) as u64, bump: c.bump })
        } else {
            Err(CounterError::Overflow)
        },
    }
}

/// What `decrement` gives: the record with its count one lower, or still
/// zero when it was zero.
pub open spec fn decrement_outcome(s: StoreView, address: Seq<u8>, caller: Seq<u8>) -> Result<Counter, CounterError> {
    match access(s, address, caller) {
        Err(e) => Err(e),
        Ok(c) => Ok(
            Counter {
                owner: c.owner,
                count: if c.count == 0 { 0 } else { (c.count - 1) as u64 },
                bump: c.bump,
            },
        ),
    }
}

/// What `reset` gives: the record with its count at zero.
pub open spec fn reset_outcome(s: StoreView, address: Seq<u8>, caller: Seq<u8>) -> Result<Counter, CounterError> {
    match access(s, address, caller) {
        Err(e) => Err(e),
        Ok(c) => Ok(Counter { owner: c.owner, count: 0, bump: c.bump }),
    }
}

/// What `close` gives.
pub open spec fn close_outcome(s: StoreView, address: Seq<u8>, caller: Seq<u8>) -> Result<(), CounterError> {
    match owned(s, address, caller) {
        Err(e) => Err(e),
        Ok(_) => Ok(()),
    }
}

/// The state after `close`: the record is gone.
pub open spec fn after_close(s: StoreView, address: Seq<u8>, caller: Seq<u8>) -> StoreView {
    match close_outcome(s, address, caller) {
        Ok(()) => s.without(address),
        Err(_) => s,
    }
}

/// The counters of one program, each at its derived address.
pub struct CounterStore {
    program_id: Key,
    entries: Vec<(Key, Counter)>,
    records: Ghost<Map<Seq<u8>, Counter>>,
}

impl View for CounterStore {
    type V = StoreView;

    closed spec fn view(&self) -> StoreView {
        StoreView { program: self.program_id@, records: self.records@ }
    }
}

impl CounterStore {
    /// The entries hold the records, one entry per address.
    pub closed spec fn entries_match(&self) -> bool {
        &&& forall|i: int|
            #![trigger self.entries@[i]]
            0 <= i < self.entries@.len() ==> {
                &&& self.records@.contains_key(self.entries@[i].0@)
                &&& self.records@[self.entries@[i].0@] == self.entries@[i].1
            }
        &&& forall|a: Seq<u8>| #[trigger]
            self.records@.contains_key(a) ==> exists|i: int|
                0 <= i < self.entries@.len() && self.entries@[i].0@ == a
        &&& forall|i: int, j: int|
            0 <= i < j < self.entries@.len() ==> #[trigger] self.entries@[i].0@
                != #[trigger] self.entries@[j].0@
    }

    pub open spec fn wf(&self) -> bool {
        self.entries_match() && self@.wf()
    }

    /// An empty store for the program `program_id`.
    pub fn new(program_id: Key) -> (r: CounterStore)
        ensures
            r.wf(),
            r@.program == program_id@,
            r@.records == Map::<Seq<u8>, Counter>::empty(),
    {
        CounterStore { program_id, entries: Vec::new(), records: Ghost(Map::empty()) }
    }

    pub fn program_id(&self) -> (r: Key)
        ensures
            r@ == self@.program,
    {
        self.program_id
    }

    /// The record at `address`.
    pub fn get(&self, address: &Key) -> (r: Result<Counter, CounterError>)
        requires
            self.wf(),
        ensures
            r == read_outcome(self@, address@),
    {
        match self.find(address) {
            Some(i) => Ok(self.entries[i].1),
            None => Err(CounterError::NotFound),
        }
    }

    /// Admits a record kept elsewhere (by the hosting runtime) at `address`,
    /// after checking that its owner and bump seed lead to that address.
    pub fn load(&mut self, address: &Key, record: Counter) -> (r: Result<(), CounterError>)
        requires
            old(self).wf(),
        ensures
            final(self).wf(),
            r == load_outcome(old(self)@, address@, record),
            final(self)@ == match r {
                Ok(()) => old(self)@.with(address@, record),
                Err(_) => old(self)@,
            },
    {
        if self.find(address).is_some() {
            return Err(CounterError::AlreadyExists);
        }
        match derive_address(&self.program_id, &record.owner) {
            Some((a, b)) => {
                if !(a == *address && b == record.bump) {
                    return Err(CounterError::AddressMismatch);
                }
            },
            None => {
                return Err(CounterError::AddressMismatch);
            },
        }
        self.push_entry(*address, record);
        Ok(())
    }

    fn find(&self, address: &Key) -> (r: Option<usize>)
        requires
            self.wf(),
        ensures
            match r {
                Some(i) => i < self.entries@.len() && self.entries@[i as int].0@ == address@,
                None => !self@.records.contains_key(address@),
            },
    {
        let mut i: usize = 0;
        while i < self.entries.len()
            invariant
                i <= self.entries@.len(),
                forall|j: int| 0 <= j < i ==> #[trigger] self.entries@[j].0@ != address@,
            decreases self.entries@.len() - i,
        {
            if self.entries[i].0 == *address {
                return Some(i);
            }
            i = i + 1;
        }
        None
    }

    /// The index of the record at `address`, if `caller` may change it.
    fn authorize(&self, address: &Key, caller: &Key) -> (r: Result<usize, CounterError>)
        requires
            self.wf(),
        ensures
            match access(self@, address@, caller@) {
                Ok(c) => r matches Ok(i) && i < self.entries@.len() && self.entries@[i as int].0@
                    == address@ && self.entries@[i as int].1 == c,
                Err(e) => r == Err::<usize, CounterError>(e),
            },
    {
        let i = match self.find(address) {
            Some(i) => i,
            None => {
                return Err(CounterError::NotFound);
            },
        };
        let c = self.entries[i].1;
        if !(c.owner == *caller) {
            return Err(CounterError::Unauthorized);
        }
        match rederive_address(&self.program_id, &c.owner, c.bump) {
            Some(a) => {
                if a == *address {
                    Ok(i)
                } else {
                    Err(CounterError::AddressMismatch)
                }
            },
            None => Err(CounterError::AddressMismatch),
        }
    }

    /// Replaces the record of entry `i` by one of the same owner and bump.
    fn set_entry(&mut self, i: usize, c: Counter)
        requires
            old(self).wf(),
            i < old(self).entries@.len(),
            c.owner@ == old(self).entries@[i as int].1.owner@,
            c.bump == old(self).entries@[i as int].1.bump,
        ensures
            final(self).wf(),
            final(self)@ == old(self)@.with(old(self).entries@[i as int].0@, c),
    {
        let k = self.entries[i].0;
        self.entries.set(i, (k, c));
        self.records = Ghost(self.records@.insert(k@, c));
        proof {
            assert forall|a: Seq<u8>| #[trigger] self.records@.contains_key(a) implies exists|j: int|
                0 <= j < self.entries@.len() && self.entries@[j].0@ == a by {
                if a != k@ {
                    assert(old(self).records@.contains_key(a));
                    let j = choose|j: int|
                        0 <= j < old(self).entries@.len() && old(self).entries@[j].0@ == a;
                    assert(self.entries@[j].0@ == a);
                } else {
                    assert(self.entries@[i as int].0@ == a);
                }
            }
        }
    }

    /// Adds the record `c` at the free address `a`.
    fn push_entry(&mut self, a: Key, c: Counter)
        requires
            old(self).wf(),
            !old(self)@.records.contains_key(a@),
            derived(old(self)@.program, c.owner@) == Some((a@, c.bump)),
            rederived(old(self)@.program, c.owner@, c.bump) == Some(a@),
        ensures
            final(self).wf(),
            final(self)@ == old(self)@.with(a@, c),
    {
        self.entries.push((a, c));
        self.records = Ghost(self.records@.insert(a@, c));
        proof {
            let n = old(self).entries@.len() as int;
            assert(self.entries@[n].0@ == a@);
            assert forall|x: Seq<u8>| #[trigger] self.records@.contains_key(x) implies exists|j: int|
                0 <= j < self.entries@.len() && self.entries@[j].0@ == x by {
                if x != a@ {
                    let j = choose|j: int|
                        0 <= j < old(self).entries@.len() && old(self).entries@[j].0@ == x;
                    assert(self.entries@[j].0@ == x);
                }
            }
            assert forall|p: int, q: int| 0 <= p < q < self.entries@.len() implies #[trigger] self.entries@[p].0@
                != #[trigger] self.entries@[q].0@ by {
                if q == n {
                    assert(old(self).entries@[p].0@ == self.entries@[p].0@);
                }
            }
        }
    }

    /// Removes the record of entry `i`.
    fn remove_entry(&mut self, i: usize)
        requires
            old(self).wf(),
            i < old(self).entries@.len(),
        ensures
            final(self).wf(),
            final(self)@ == old(self)@.without(old(self).entries@[i as int].0@),
    {
        let ghost k = self.entries@[i as int].0@;
        let ghost before = self.entries@;
        self.entries.remove(i);
        self.records = Ghost(self.records@.remove(k));
        proof {
            assert forall|j: int| 0 <= j < self.entries@.len() implies {
                &&& self.records@.contains_key(#[trigger] self.entries@[j].0@)
                &&& self.records@[self.entries@[j].0@] == self.entries@[j].1
            } by {
                if j < i {
                    assert(self.entries@[j] == before[j]);
                } else {
                    assert(self.entries@[j] == before[j + 1]);
                }
            }
            assert forall|x: Seq<u8>| #[trigger] self.records@.contains_key(x) implies exists|j: int|
                0 <= j < self.entries@.len() && self.entries@[j].0@ == x by {
                let j = choose|j: int| 0 <= j < before.len() && before[j].0@ == x;
                if j < i {
                    assert(self.entries@[j] == before[j]);
                } else {
                    assert(j != i);
                    assert(self.entries@[j - 1] == before[j]);
                }
            }
            assert forall|p: int, q: int| 0 <= p < q < self.entries@.len() implies #[trigger] self.entries@[p].0@
                != #[trigger] self.entries@[q].0@ by {
                let p0 = if p < i { p } else { p + 1 };
                let q0 = if q < i { q } else { q + 1 };
                assert(self.entries@[p] == before[p0]);
                assert(self.entries@[q] == before[q0]);
                assert(before[p0].0@ != before[q0].0@);
            }
        }
    }
}

/// Creates the counter of `ctx.owner` at the address derived from the owner,
/// with a count of zero.
pub fn initialize(store: &mut CounterStore, ctx: &Initialize) -> (r: Result<Counter, CounterError>)
    requires
        old(store).wf(),
    ensures
        final(store).wf(),
        final(store)@ == after_initialize(old(store)@, ctx.owner),
        match initialize_outcome(old(store)@, ctx.owner) {
            Ok((_, c)) => r == Ok::<Counter, CounterError>(c),
            Err(e) => r == Err::<Counter, CounterError>(e),
        },
{
    let (address, bump) = match derive_address(&store.program_id, &ctx.owner) {
        Some(found) => found,
        None => {
            return Err(CounterError::AddressUnavailable);
        },
    };
    if store.find(&address).is_some() {
        return Err(CounterError::AlreadyExists);
    }
    let c = Counter { owner: ctx.owner, count: 0, bump };
    store.push_entry(address, c);
    Ok(c)
}

/// Adds one to the counter at `ctx.counter`; refuses rather than wrap.
pub fn increment(store: &mut CounterStore, ctx: &Increment) -> (r: Result<Counter, CounterError>)
    requires
        old(store).wf(),
    ensures
        final(store).wf(),
        r == increment_outcome(old(store)@, ctx.counter@, ctx.owner@),
        final(store)@ == old(store)@.after(ctx.counter@, r),
{
    let i = match store.authorize(&ctx.counter, &ctx.owner) {
        Ok(i) => i,
        Err(e) => {
            return Err(e);
        },
    };
    let c = store.entries[i].1;
    let count = match c.count.checked_add(1) {
        Some(n) => n,
        None => {
            return Err(CounterError::Overflow);
        },
    };
    let n = Counter { owner: c.owner, count, bump: c.bump };
    store.set_entry(i, n);
    Ok(n)
}

/// Takes one from the counter at `ctx.counter`; a count of zero stays zero.
pub fn decrement(store: &mut CounterStore, ctx: &Decrement) -> (r: Result<Counter, CounterError>)
    requires
        old(store).wf(),
    ensures
        final(store).wf(),
        r == decrement_outcome(old(store)@, ctx.counter@, ctx.owner@),
        final(store)@ == old(store)@.after(ctx.counter@, r),
{
    let i = match store.authorize(&ctx.counter, &ctx.owner) {
        Ok(i) => i,
        Err(e) => {
            return Err(e);
        },
    };
    let c = store.entries[i].1;
    let count = match c.count.checked_sub(1) {
        Some(n) => n,
        None => 0,
    };
    let n = Counter { owner: c.owner, count, bump: c.bump };
    store.set_entry(i, n);
    Ok(n)
}

/// Sets the counter at `ctx.counter` to zero.
pub fn reset(store: &mut CounterStore, ctx: &Decrement) -> (r: Result<Counter, CounterError>)
    requires
        old(store).wf(),
    ensures
        final(store).wf(),
        r == reset_outcome(old(store)@, ctx.counter@, ctx.owner@),
        final(store)@ == old(store)@.after(ctx.counter@, r),
{
    let i = match store.authorize(&ctx.counter, &ctx.owner) {
        Ok(i) => i,
        Err(e) => {
            return Err(e);
        },
    };
    let c = store.entries[i].1;
    let n = Counter { owner: c.owner, count: 0, bump: c.bump };
    store.set_entry(i, n);
    Ok(n)
}

/// Deletes the counter at `ctx.counter`, which frees its address for a new
/// `initialize` by the same owner.
pub fn close(store: &mut CounterStore, ctx: &Close) -> (r: Result<(), CounterError>)
    requires
        old(store).wf(),
    ensures
        final(store).wf(),
        r == close_outcome(old(store)@, ctx.counter@, ctx.owner@),
        final(store)@ == after_close(old(store)@, ctx.counter@, ctx.owner@),
{
    let i = match store.find(&ctx.counter) {
        Some(i) => i,
        None => {
            return Err(CounterError::NotFound);
        },
    };
    if !(store.entries[i].1.owner == ctx.owner) {
        return Err(CounterError::Unauthorized);
    }
    store.remove_entry(i);
    Ok(())
}

} // verus!
