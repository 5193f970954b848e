//! The record store: fixed-size records kept under their addresses, each
//! paid for when it is allocated and never changed or removed afterwards.

use vstd::prelude::*;
use crate::error::AllocationError;
use crate::wire::same_bytes;

verus! {

/// One record of the store.
struct Account {
    address: [u8; 32],
    data: Vec<u8>,
}

/// A record store that charges `storage_price` for each byte it sets aside.
pub struct Ledger {
    storage_price: u64,
    accounts: Vec<Account>,
}

/// A record store as a mathematical value: the price of a byte and the
/// bytes held under each address.
pub ghost struct LedgerView {
    pub storage_price: nat,
    pub records: Map<Seq<u8>, Seq<u8>>,
}

/// `count` zero bytes.
pub open spec fn zeros(count: nat) -> Seq<u8> {
    Seq::new(count, |i: int| 0u8)
}

impl LedgerView {
    /// What the store charges for `space` bytes.
    pub open spec fn cost(self, space: nat) -> nat {
        self.storage_price * space
    }

    /// The outcome of asking for `space` bytes at `address` that start
    /// with `data`, paid from `funds`: the store afterwards with the funds
    /// that are left, or the reason for the refusal.
    pub open spec fn allocate(self, address: Seq<u8>, space: nat, data: Seq<u8>, funds: nat)
        -> Result<(LedgerView, nat), AllocationError> {
        if data.len() > space {
            Err(AllocationError::SpaceTooSmall)
        } else if self.records.contains_key(address) {
            Err(AllocationError::DuplicateEntry)
        } else if funds < self.cost(space) {
            Err(AllocationError::InsufficientFunds)
        } else {
            Ok(
                (
                    LedgerView {
                        storage_price: self.storage_price,
                        records: self.records.insert(
                            address,
                            data + zeros((space - data.len()) as nat),
                        ),
                    },
                    (funds - self.cost(space)) as nat,
                ),
            )
        }
    }
}

/// The records that a list of accounts holds. Were an address to occur
/// twice, the later account would count.
spec fn records_of(accounts: Seq<Account>) -> Map<Seq<u8>, Seq<u8>>
    decreases accounts.len(),
{
    if accounts.len() == 0 {
        Map::empty()
    } else {
        records_of(accounts.drop_last()).insert(accounts.last().address@, accounts.last().data@)
    }
}

/// No two accounts share an address.
spec fn distinct(accounts: Seq<Account>) -> bool {
    forall|i: int, j: int|
        0 <= i < j < accounts.len() ==> accounts[i].address@ != accounts[j].address@
}

/// Over distinct addresses, the records are those of the accounts: each
/// account is found under its address with its data, and nothing else is.
proof fn lemma_records_of(accounts: Seq<Account>)
    requires
        distinct(accounts),
    ensures
        forall|i: int|
            0 <= i < accounts.len() ==> {
                &&& #[trigger] records_of(accounts).contains_key(accounts[i].address@)
                &&& records_of(accounts)[accounts[i].address@] == accounts[i].data@
            },
        forall|address: Seq<u8>| #[trigger]
            records_of(accounts).contains_key(address) ==> exists|i: int|
                0 <= i < accounts.len() && accounts[i].address@ == address,
    decreases accounts.len(),
{
    if accounts.len() > 0 {
        let front = accounts.drop_last();
        lemma_records_of(front);
        assert forall|i: int| 0 <= i < accounts.len() implies {
            &&& #[trigger] records_of(accounts).contains_key(accounts[i].address@)
            &&& records_of(accounts)[accounts[i].address@] == accounts[i].data@
        } by {
            if i < accounts.len() - 1 {
                assert(front[i] == accounts[i]);
                assert(records_of(front).contains_key(front[i].address@));
            }
        }
        assert forall|address: Seq<u8>| #[trigger]
            records_of(accounts).contains_key(address) implies exists|i: int|
            0 <= i < accounts.len() && accounts[i].address@ == address by {
            if address == accounts.last().address@ {
                assert(accounts[accounts.len() - 1].address@ == address);
            } else {
                assert(records_of(front).contains_key(address));
                let i = choose|i: int| 0 <= i < front.len() && front[i].address@ == address;
                assert(accounts[i].address@ == address);
            }
        }
    }
}

/// Over distinct addresses, there are as many records as accounts.
proof fn lemma_records_count(accounts: Seq<Account>)
    requires
        distinct(accounts),
    ensures
        records_of(accounts).dom().finite(),
        records_of(accounts).dom().len() == accounts.len(),
    decreases accounts.len(),
{
    if accounts.len() > 0 {
        let front = accounts.drop_last();
        lemma_records_count(front);
        lemma_records_of(front);
        let last = accounts.last().address@;
        if records_of(front).contains_key(last) {
            let i = choose|i: int| 0 <= i < front.len() && front[i].address@ == last;
            assert(accounts[i].address@ == accounts[accounts.len() - 1].address@);
        }
        assert(records_of(accounts).dom() =~= records_of(front).dom().insert(last));
    }
}

impl View for Ledger {
    type V = LedgerView;

    closed spec fn view(&self) -> LedgerView {
        LedgerView {
            storage_price: self.storage_price as nat,
            records: records_of(self.accounts@),
        }
    }
}

impl Ledger {
    #[verifier::type_invariant]
    spec fn distinct_addresses(self) -> bool {
        distinct(self.accounts@)
    }

    /// An empty store with the given price for a byte.
    pub fn new(storage_price: u64) -> (ledger: Ledger)
        ensures
            ledger@.storage_price == storage_price,
            ledger@.records == Map::<Seq<u8>, Seq<u8>>::empty(),
    {
        Ledger { storage_price, accounts: Vec::new() }
    }

    /// The price of one byte of storage.
    pub fn storage_price(&self) -> (price: u64)
        ensures
            price == self@.storage_price,
    {
        self.storage_price
    }

    /// What the store charges for `space` bytes.
    pub fn cost(&self, space: usize) -> (cost: u128)
        ensures
            cost == self@.cost(space as nat),
    {
        assert(self.storage_price * space <= u64::MAX * u64::MAX) by (nonlinear_arith)
            requires
                self.storage_price <= u64::MAX,
                space <= u64::MAX,
        ;
        (self.storage_price as u128) * (space as u128)
    }

    /// The number of records in the store.
    pub fn len(&self) -> (count: usize)
        ensures
            count == self@.records.dom().len(),
            self@.records.dom().finite(),
    {
        proof {
            use_type_invariant(self);
            lemma_records_count(self.accounts@);
        }
        self.accounts.len()
    }

    /// The place of the account with this address in the list, if any.
    fn position(&self, address: &[u8; 32]) -> (place: Option<usize>)
        ensures
            match place {
                Some(i) => i < self.accounts@.len() && self.accounts@[i as int].address@
                    == address@,
                None => forall|i: int|
                    0 <= i < self.accounts@.len() ==> self.accounts@[i].address@ != address@,
            },
    {
        let mut at: usize = 0;
        while at < self.accounts.len()
            invariant
                at <= self.accounts@.len(),
                forall|i: int| 0 <= i < at ==> self.accounts@[i].address@ != address@,
            decreases self.accounts@.len() - at,
        {
            if same_bytes(self.accounts[at].address.as_slice(), address.as_slice()) {
                return Some(at);
            }
            at = at + 1;
        }
        None
    }

    /// The bytes stored under `address`, if a record is there.
    pub fn record_at(&self, address: &[u8; 32]) -> (found: Option<&Vec<u8>>)
        ensures
            match found {
                Some(data) => self@.records.contains_key(address@) && self@.records[address@]
                    == data@,
                None => !self@.records.contains_key(address@),
            },
    {
        proof {
            use_type_invariant(self);
            lemma_records_of(self.accounts@);
        }
        match self.position(address) {
            Some(i) => {
                assert(self@.records.contains_key(self.accounts@[i as int].address@));
                Some(&self.accounts[i].data)
            },
            None => None,
        }
    }

    /// Tells whether a record is stored under `address`.
    pub fn contains(&self, address: &[u8; 32]) -> (held: bool)
        ensures
            held == self@.records.contains_key(address@),
    {
        self.record_at(address).is_some()
    }

    /// Sets `space` bytes aside under `address`, fills them with `data`
    /// followed by zeros, and charges the cost to `funds`. Either all of
    /// this happens and the funds that are left come back, or the store
    /// stays as it was.
    pub fn allocate(&mut self, address: &[u8; 32], space: usize, data: &[u8], funds: u64) -> (done:
        Result<u64, AllocationError>)
        ensures
            match old(self)@.allocate(address@, space as nat, data@, funds as nat) {
                Ok((after, left)) => {
                    &&& done == Ok::<u64, AllocationError>(left as u64)
                    &&& final(self)@ == after
                },
                Err(reason) => {
                    &&& done == Err::<u64, AllocationError>(reason)
                    &&& final(self)@ == old(self)@
                },
            },
    {
        if data.len() > space {
            return Err(AllocationError::SpaceTooSmall);
        }
        if self.contains(address) {
            return Err(AllocationError::DuplicateEntry);
        }
        let cost: u128 = self.cost(space);
        if (funds as u128) < cost {
            return Err(AllocationError::InsufficientFunds);
        }
        let mut stored: Vec<u8> = Vec::new();
        stored.extend_from_slice(data);
        let mut filled: usize = data.len();
        while filled < space
            invariant
                data@.len() <= filled <= space,
                stored@ == data@ + zeros((filled - data@.len()) as nat),
            decreases space - filled,
        {
            stored.push(0u8);
            filled = filled + 1;
            proof {
                assert(stored@ =~= data@ + zeros((filled - data@.len()) as nat));
            }
        }
        proof {
            use_type_invariant(&*self);
            lemma_records_of(self.accounts@);
        }
        let ghost before = self.accounts@;
        let mut accounts: Vec<Account> = Vec::new();
        core::mem::swap(&mut accounts, &mut self.accounts);
        accounts.push(Account { address: *address, data: stored });
        proof {
            assert(accounts@.drop_last() =~= before);
        }
        self.accounts = accounts;
        Ok((funds as u128 - cost) as u64)
    }
}

} // verus!
