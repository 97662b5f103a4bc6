//! Append-only ledger of weekly savings deposits.
//!
//! It holds no tokens: each entry is a commitment and a nullifier. A nullifier is
//! accepted once, and the weeks have to advance by one or two at a time.
use crate::address::Address;
use crate::bytes::{zero32, Bytes32};
use crate::host::sha256_digest;
use crate::merkle::{hash_pair, parent};
use crate::table::Table;
use soroban_sdk::Env;
use vstd::prelude::*;

verus! {

/// A weekly deposit.
#[derive(Clone, Copy, Debug, PartialEq)]
pub struct Commitment {
    /// Hides the secret and the amount.
    pub hash: Bytes32,
    /// Keeps the deposit from being recorded twice.
    pub nullifier: Bytes32,
    pub week_number: u32,
    /// Ledger time of the deposit.
    pub timestamp: u64,
}

#[derive(Clone, Copy, Debug, PartialEq, Eq, Structural)]
pub enum SavingsError {
    NullifierAlreadySpent,
    InvalidWeekNumber,
    WeekGapTooLarge,
    InvalidCommitmentLength,
    WeekNumberMustAdvance,
    RangeInverted,
}

impl SavingsError {
    pub open spec fn number(self) -> u32 {
        match self {
            SavingsError::NullifierAlreadySpent => 1,
            SavingsError::InvalidWeekNumber => 2,
            SavingsError::WeekGapTooLarge => 3,
            SavingsError::InvalidCommitmentLength => 4,
            SavingsError::WeekNumberMustAdvance => 5,
            SavingsError::RangeInverted => 6,
        }
    }

    /// The number by which a contract reports this error.
    pub fn code(self) -> (r: u32)
        ensures
            r == self.number(),
    {
        match self {
            SavingsError::NullifierAlreadySpent => 1,
            SavingsError::InvalidWeekNumber => 2,
            SavingsError::WeekGapTooLarge => 3,
            SavingsError::InvalidCommitmentLength => 4,
            SavingsError::WeekNumberMustAdvance => 5,
            SavingsError::RangeInverted => 6,
        }
    }

    pub open spec fn text(self) -> Seq<char> {
        match self {
            SavingsError::NullifierAlreadySpent => "nullifier already spent"@,
            SavingsError::InvalidWeekNumber => "invalid week number"@,
            SavingsError::WeekGapTooLarge => "week gap too large (max 2)"@,
            SavingsError::InvalidCommitmentLength => "invalid commitment length"@,
            SavingsError::WeekNumberMustAdvance => "week number must advance"@,
            SavingsError::RangeInverted => "range inverted"@,
        }
    }

    /// What went wrong, in words.
    pub fn message(self) -> (r: &'static str)
        ensures
            r@ == self.text(),
    {
        match self {
            SavingsError::NullifierAlreadySpent => "nullifier already spent",
            SavingsError::InvalidWeekNumber => "invalid week number",
            SavingsError::WeekGapTooLarge => "week gap too large (max 2)",
            SavingsError::InvalidCommitmentLength => "invalid commitment length",
            SavingsError::WeekNumberMustAdvance => "week number must advance",
            SavingsError::RangeInverted => "range inverted",
        }
    }
}

/// Something that the ledger has to do for the contract.
#[derive(Clone, Copy, Debug, PartialEq, Eq)]
pub enum SavingsEffect {
    /// Publish that a deposit was recorded.
    Recorded { week_number: u32, timestamp: u64 },
    /// Publish the new root.
    RootUpdated { root: Bytes32 },
}

// ---------------------------------------------------------------------------
// The ledger as a state machine
// ---------------------------------------------------------------------------

/// The chained hash of the deposits: the first one's hash, then for each further
/// one the hash of what there was and of that one's hash.
pub open spec fn chain_root(commitments: Seq<Commitment>) -> Bytes32
    decreases commitments.len(),
{
    if commitments.len() == 0 {
        zero32()
    } else if commitments.len() == 1 {
        commitments[0].hash
    } else {
        parent(chain_root(commitments.drop_last()), commitments.last().hash)
    }
}

/// The week of a deposit lies between `start` and `end`.
pub open spec fn within(c: Commitment, start: u32, end: u32) -> bool {
    start <= c.week_number <= end
}

/// The state of a ledger.
#[verifier::ext_equal]
pub struct SavingsState {
    /// Where the ledger is deployed.
    pub address: Address,
    pub commitments: Seq<Commitment>,
    /// Nullifiers and whether they are spent.
    pub spent: Map<Bytes32, bool>,
    /// Commitment hashes and whether they are recorded.
    pub recorded: Map<Bytes32, bool>,
    pub last_week: Option<u32>,
    pub merkle_root: Option<Bytes32>,
}

impl SavingsState {
    pub open spec fn is_spent(self, nullifier: Bytes32) -> bool {
        self.spent.contains_key(nullifier) && self.spent[nullifier]
    }

    pub open spec fn is_recorded(self, commitment: Bytes32) -> bool {
        self.recorded.contains_key(commitment) && self.recorded[commitment]
    }

    /// The current root; zero before the first deposit.
    pub open spec fn root(self) -> Bytes32 {
        match self.merkle_root {
            Some(root) => root,
            None => zero32(),
        }
    }

    /// Why a deposit is turned down, if it is.
    pub open spec fn deposit_fault(self, nullifier: Bytes32, week_number: u32) -> Option<
        SavingsError,
    > {
        if self.is_spent(nullifier) {
            Some(SavingsError::NullifierAlreadySpent)
        } else {
            match self.last_week {
                None => None,
                Some(last) => if week_number <= last {
                    Some(SavingsError::WeekNumberMustAdvance)
                } else if week_number > last + 2 {
                    Some(SavingsError::WeekGapTooLarge)
                } else {
                    None
                },
            }
        }
    }

    /// After a deposit.
    pub open spec fn deposited(self, entry: Commitment) -> SavingsState {
        let commitments = self.commitments.push(entry);
        SavingsState {
            address: self.address,
            commitments,
            spent: self.spent.insert(entry.nullifier, true),
            recorded: self.recorded.insert(entry.hash, true),
            last_week: Some(entry.week_number),
            merkle_root: Some(chain_root(commitments)),
        }
    }
}

// ---------------------------------------------------------------------------
// The contract
// ---------------------------------------------------------------------------

/// What other contracts ask of the ledger.
///
/// An implementation says what it answers. Of one that leaves the functions below as
/// they are, it is only known that the same question gets the same answer.
pub trait SavingsInterface: Sized {
    /// The address that this ledger is deployed at.
    open spec fn id(&self) -> Address {
        let answer: spec_fn(Self) -> Address = arbitrary();
        answer(*self)
    }

    /// The current root.
    open spec fn root(&self) -> Bytes32 {
        let answer: spec_fn(Self) -> Bytes32 = arbitrary();
        answer(*self)
    }

    /// `nullifier` belongs to a deposit.
    open spec fn spent(&self, nullifier: Bytes32) -> bool {
        let answer: spec_fn(Self, Bytes32) -> bool = arbitrary();
        answer(*self, nullifier)
    }

    /// `commitment` belongs to a deposit.
    open spec fn recorded(&self, commitment: Bytes32) -> bool {
        let answer: spec_fn(Self, Bytes32) -> bool = arbitrary();
        answer(*self, commitment)
    }

    fn get_merkle_root(&self, env: &Env) -> (r: Bytes32)
        ensures
            r == self.root(),
    ;

    fn is_nullifier_spent(&self, env: &Env, nullifier: &Bytes32) -> (r: bool)
        ensures
            r == self.spent(*nullifier),
    ;

    fn is_commitment_recorded(&self, env: &Env, commitment: &Bytes32) -> (r: bool)
        ensures
            r == self.recorded(*commitment),
    ;
}

/// A ledger of deposits.
pub struct SavingsContract {
    /// Where the contract is deployed.
    pub address: Address,
    /// All deposits, in order.
    pub commitments: Vec<Commitment>,
    pub nullifier_spent: Table<Bytes32, bool>,
    pub commitment_recorded: Table<Bytes32, bool>,
    pub last_week: Option<u32>,
    pub merkle_root: Option<Bytes32>,
    /// What the ledger has to do, in order.
    pub outbox: Vec<SavingsEffect>,
}

impl View for SavingsContract {
    type V = SavingsState;

    open spec fn view(&self) -> SavingsState {
        SavingsState {
            address: self.address,
            commitments: self.commitments@,
            spent: self.nullifier_spent@,
            recorded: self.commitment_recorded@,
            last_week: self.last_week,
            merkle_root: self.merkle_root,
        }
    }
}

impl SavingsContract {
    /// A ledger without deposits.
    pub fn new(address: Address) -> (r: Self)
        ensures
            r@ == (SavingsState {
                address,
                commitments: Seq::empty(),
                spent: Map::empty(),
                recorded: Map::empty(),
                last_week: None,
                merkle_root: None,
            }),
            r.outbox@.len() == 0,
    {
        SavingsContract {
            address,
            commitments: Vec::new(),
            nullifier_spent: Table::new(),
            commitment_recorded: Table::new(),
            last_week: None,
            merkle_root: None,
            outbox: Vec::new(),
        }
    }

    /// Records a deposit at ledger time `now`.
    pub fn deposit(
        &mut self,
        env: &Env,
        commitment: Bytes32,
        nullifier: Bytes32,
        week_number: u32,
        now: u64,
    ) -> (r: Result<(), SavingsError>)
        requires
            !old(self)@.is_spent(nullifier) && old(self).last_week is Some && week_number
                > old(self).last_week->0 ==> old(self).last_week->0 + 2 <= u32::MAX,
        ensures
            r == (match old(self)@.deposit_fault(nullifier, week_number) {
                Some(error) => Err(error),
                None => Ok(()),
            }),
            final(self)@ == (if r is Ok {
                old(self)@.deposited(
                    Commitment { hash: commitment, nullifier, week_number, timestamp: now },
                )
            } else {
                old(self)@
            }),
            final(self).outbox@ == (if r is Ok {
                old(self).outbox@.push(
                    SavingsEffect::Recorded { week_number, timestamp: now },
                ).push(SavingsEffect::RootUpdated { root: final(self)@.root() })
            } else {
                old(self).outbox@
            }),
    {
        if self.is_nullifier_spent(&nullifier) {
            return Err(SavingsError::NullifierAlreadySpent);
        }
        if let Some(last_week) = self.last_week {
            if week_number <= last_week {
                return Err(SavingsError::WeekNumberMustAdvance);
            }
            if week_number > last_week + 2 {
                return Err(SavingsError::WeekGapTooLarge);
            }
        }
        self.commitments.push(
            Commitment { hash: commitment, nullifier, week_number, timestamp: now },
        );
        self.nullifier_spent.set(nullifier, true);
        self.commitment_recorded.set(commitment, true);
        self.last_week = Some(week_number);
        let root = Self::compute_merkle_root(env, &self.commitments);
        self.merkle_root = Some(root);
        self.outbox.push(SavingsEffect::Recorded { week_number, timestamp: now });
        self.outbox.push(SavingsEffect::RootUpdated { root });
        Ok(())
    }

    /// Like [`SavingsContract::deposit`], for any last week: where the nullifier is
    /// fresh and the week advances but the latest week allowed cannot be counted,
    /// nothing is returned and nothing changes.
    pub fn try_deposit(
        &mut self,
        env: &Env,
        commitment: Bytes32,
        nullifier: Bytes32,
        week_number: u32,
        now: u64,
    ) -> (r: Option<Result<(), SavingsError>>)
        ensures
            r == (if !old(self)@.is_spent(nullifier) && old(self).last_week is Some && week_number
                > old(self).last_week->0 && old(self).last_week->0 + 2 > u32::MAX {
                None
            } else {
                Some(
                    match old(self)@.deposit_fault(nullifier, week_number) {
                        Some(error) => Err(error),
                        None => Ok(()),
                    },
                )
            }),
            final(self)@ == (if r == Some(Ok::<(), SavingsError>(())) {
                old(self)@.deposited(
                    Commitment { hash: commitment, nullifier, week_number, timestamp: now },
                )
            } else {
                old(self)@
            }),
            final(self).outbox@ == (if r == Some(Ok::<(), SavingsError>(())) {
                old(self).outbox@.push(
                    SavingsEffect::Recorded { week_number, timestamp: now },
                ).push(SavingsEffect::RootUpdated { root: final(self)@.root() })
            } else {
                old(self).outbox@
            }),
    {
        if let Some(last_week) = self.last_week {
            if !self.is_nullifier_spent(&nullifier) && week_number > last_week && last_week
                > u32::MAX - 2 {
                return None;
            }
        }
        Some(self.deposit(env, commitment, nullifier, week_number, now))
    }

    /// The current root.
    pub fn get_merkle_root(&self) -> (r: Bytes32)
        ensures
            r == self@.root(),
    {
        match self.merkle_root {
            Some(root) => root,
            None => {
                let zero: Bytes32 = [0u8; 32];
                assert(zero =~= zero32());
                zero
            },
        }
    }

    /// The number of deposits.
    pub fn get_commitment_count(&self) -> (r: u32)
        requires
            self@.commitments.len() <= u32::MAX,
        ensures
            r == self@.commitments.len(),
    {
        self.commitments.len() as u32
    }

    /// Whether a deposit was made with `nullifier`.
    pub fn is_nullifier_spent(&self, nullifier: &Bytes32) -> (r: bool)
        ensures
            r == self@.is_spent(*nullifier),
    {
        match self.nullifier_spent.get(nullifier) {
            Some(spent) => *spent,
            None => false,
        }
    }

    /// Whether `commitment` was deposited.
    pub fn is_commitment_recorded(&self, commitment: &Bytes32) -> (r: bool)
        ensures
            r == self@.is_recorded(*commitment),
    {
        match self.commitment_recorded.get(commitment) {
            Some(recorded) => *recorded,
            None => false,
        }
    }

    /// All deposits of the weeks from `start` to `end`, in order.
    pub fn get_commitments_by_range(&self, start: u32, end: u32) -> (r: Result<
        Vec<Commitment>,
        SavingsError,
    >)
        ensures
            start > end ==> r == Err::<Vec<Commitment>, _>(SavingsError::RangeInverted),
            start <= end ==> r is Ok,
            r matches Ok(found) ==> found@ == self@.commitments.filter(
                |c: Commitment| within(c, start, end),
            ),
            r matches Ok(found) ==> lists_in_order(self@.commitments, found@, start, end),
    {
        if start > end {
            return Err(SavingsError::RangeInverted);
        }
        let ghost pred = |c: Commitment| within(c, start, end);
        let all = &self.commitments;
        let mut result: Vec<Commitment> = Vec::new();
        let mut i: usize = 0;
        proof {
            reveal(Seq::filter);
            assert(all@.take(0) =~= Seq::<Commitment>::empty());
        }
        while i < all.len()
            invariant
                i <= all@.len(),
                pred == (|c: Commitment| within(c, start, end)),
                result@ == all@.take(i as int).filter(pred),
            decreases all@.len() - i,
        {
            let c = all[i];
            proof {
                reveal(Seq::filter);
                let seen = all@.take(i + 1);
                assert(seen.drop_last() =~= all@.take(i as int));
                assert(seen.last() == c);
            }
            if c.week_number >= start && c.week_number <= end {
                result.push(c);
            }
            i += 1;
        }
        assert(all@.take(i as int) =~= all@);
        proof {
            law_range_lists_its_weeks_in_order(all@, start, end);
        }
        Ok(result)
    }

    /// The chained hash of a list of deposits.
    pub fn compute_merkle_root(env: &Env, commitments: &Vec<Commitment>) -> (r: Bytes32)
        ensures
            r == chain_root(commitments@),
    {
        if commitments.len() == 0 {
            let zero: Bytes32 = [0u8; 32];
            assert(zero =~= zero32());
            return zero;
        }
        let mut running: Bytes32 = commitments[0].hash;
        let mut i: usize = 1;
        while i < commitments.len()
            invariant
                1 <= i <= commitments@.len(),
                running == chain_root(commitments@.take(i as int)),
            decreases commitments@.len() - i,
        {
            proof {
                let seen = commitments@.take(i + 1);
                assert(seen.drop_last() =~= commitments@.take(i as int));
                assert(seen.last() == commitments@[i as int]);
            }
            running = hash_pair(env, &running, &commitments[i].hash);
            i += 1;
        }
        assert(commitments@.take(i as int) =~= commitments@);
        running
    }
}

impl SavingsInterface for SavingsContract {
    open spec fn id(&self) -> Address {
        self.address
    }

    open spec fn root(&self) -> Bytes32 {
        self@.root()
    }

    open spec fn spent(&self, nullifier: Bytes32) -> bool {
        self@.is_spent(nullifier)
    }

    open spec fn recorded(&self, commitment: Bytes32) -> bool {
        self@.is_recorded(commitment)
    }

    fn get_merkle_root(&self, env: &Env) -> (r: Bytes32) {
        SavingsContract::get_merkle_root(self)
    }

    fn is_nullifier_spent(&self, env: &Env, nullifier: &Bytes32) -> (r: bool) {
        SavingsContract::is_nullifier_spent(self, nullifier)
    }

    fn is_commitment_recorded(&self, env: &Env, commitment: &Bytes32) -> (r: bool) {
        SavingsContract::is_commitment_recorded(self, commitment)
    }
}

// ---------------------------------------------------------------------------
// What holds over any sequence of deposits
// ---------------------------------------------------------------------------

/// `places` picks `found` out of `all`, in the order of `all`.
pub open spec fn picks(all: Seq<Commitment>, found: Seq<Commitment>, places: Seq<int>) -> bool {
    &&& places.len() == found.len()
    &&& forall|i: int|
        0 <= i < places.len() ==> 0 <= #[trigger] places[i] < all.len() && found[i]
            == all[places[i]]
    &&& forall|i: int, j: int|
        0 <= i < j < places.len() ==> #[trigger] places[i] < #[trigger] places[j]
}

/// `found` holds exactly the deposits of `all` whose week is at least `start` and at most
/// `end`, in the order of `all`.
pub open spec fn lists_in_order(
    all: Seq<Commitment>,
    found: Seq<Commitment>,
    start: u32,
    end: u32,
) -> bool {
    exists|places: Seq<int>| #[trigger]
        picks(all, found, places) && forall|k: int|
            0 <= k < all.len() ==> (places.contains(k) <==> start <= (
            #[trigger] all[k]).week_number && all[k].week_number <= end)
}

/// A range of weeks lists its deposits: every one in the list has a week of at least
/// `start` and at most `end`, every recorded one with such a week is in the list, and they
/// stand in the order of the ledger.
pub proof fn law_range_lists_its_weeks_in_order(all: Seq<Commitment>, start: u32, end: u32)
    ensures
        ({
            let found = all.filter(|c: Commitment| within(c, start, end));
            &&& forall|i: int|
                0 <= i < found.len() ==> start <= (#[trigger] found[i]).week_number
                    && found[i].week_number <= end
            &&& forall|k: int|
                0 <= k < all.len() && start <= (#[trigger] all[k]).week_number
                    && all[k].week_number <= end ==> found.contains(all[k])
            &&& lists_in_order(all, found, start, end)
        }),
    decreases all.len(),
{
    let pred = |c: Commitment| within(c, start, end);
    let found = all.filter(pred);
    reveal(Seq::filter);
    if all.len() == 0 {
        assert(picks(all, found, Seq::<int>::empty()));
        assert(lists_in_order(all, found, start, end));
    } else {
        let rest = all.drop_last();
        let last = all.len() - 1;
        law_range_lists_its_weeks_in_order(rest, start, end);
        let before = rest.filter(pred);
        let places = choose|places: Seq<int>| #[trigger]
            picks(rest, before, places) && forall|k: int|
                0 <= k < rest.len() ==> (places.contains(k) <==> start <= (
                #[trigger] rest[k]).week_number && rest[k].week_number <= end);
        let taken = start <= all[last].week_number && all[last].week_number <= end;
        let now = if taken {
            places.push(last)
        } else {
            places
        };
        assert(found == (if taken {
            before.push(all[last])
        } else {
            before
        }));
        assert(picks(all, found, now)) by {
            assert forall|i: int| 0 <= i < now.len() implies 0 <= #[trigger] now[i] < all.len()
                && found[i] == all[now[i]] by {
                if i < places.len() {
                    assert(now[i] == places[i]);
                    assert(rest[places[i]] == all[places[i]]);
                }
            }
        }
        assert forall|k: int| 0 <= k < all.len() implies (now.contains(k) <==> start <= (
        #[trigger] all[k]).week_number && all[k].week_number <= end) by {
            if k < last {
                assert(rest[k] == all[k]);
                if places.contains(k) {
                    let i = choose|i: int| 0 <= i < places.len() && places[i] == k;
                    assert(now[i] == k);
                }
                if now.contains(k) {
                    let i = choose|i: int| 0 <= i < now.len() && now[i] == k;
                    assert(places[i] == k);
                }
            } else {
                if taken {
                    assert(now[places.len() as int] == k);
                }
                if now.contains(k) && !taken {
                    let i = choose|i: int| 0 <= i < now.len() && now[i] == k;
                    assert(places[i] < rest.len());
                }
            }
        }
        assert(lists_in_order(all, found, start, end));
        assert forall|k: int|
            0 <= k < all.len() && start <= (#[trigger] all[k]).week_number && all[k].week_number
                <= end implies found.contains(all[k]) by {
            assert(now.contains(k));
            let i = choose|i: int| 0 <= i < now.len() && now[i] == k;
            assert(found[i] == all[k]);
        }
        assert forall|i: int| 0 <= i < found.len() implies start <= (
        #[trigger] found[i]).week_number && found[i].week_number <= end by {
            assert(now.contains(now[i]));
            assert(all[now[i]] == found[i]);
        }
    }
}

/// A deposit is accepted exactly when its nullifier is fresh and its week is one or two
/// after the last one, or any week for the first deposit; and each error comes for its own
/// reason alone, a spent nullifier first.
pub proof fn law_each_error_of_a_deposit(s: SavingsState, nullifier: Bytes32, week_number: u32)
    ensures
        ({
            let f = s.deposit_fault(nullifier, week_number);
            let fresh = !(s.spent.contains_key(nullifier) && s.spent[nullifier]);
            let last = s.last_week->0;
            &&& f is None <==> fresh && (s.last_week is None || week_number == last + 1
                || week_number == last + 2)
            &&& f == Some(SavingsError::NullifierAlreadySpent) <==> !fresh
            &&& f == Some(SavingsError::WeekNumberMustAdvance) <==> fresh && s.last_week is Some
                && week_number <= last
            &&& f == Some(SavingsError::WeekGapTooLarge) <==> fresh && s.last_week is Some
                && week_number >= last + 3
        }),
{
}

/// What a deposit changes: it is appended, its nullifier and its commitment are marked, its
/// week is the last one, and the root takes its hash in.
pub proof fn law_deposit_changes_its_own_entries(s: SavingsState, entry: Commitment)
    ensures
        ({
            let t = s.deposited(entry);
            &&& t.address == s.address
            &&& t.commitments == s.commitments.push(entry)
            &&& t.spent == s.spent.insert(entry.nullifier, true)
            &&& t.recorded == s.recorded.insert(entry.hash, true)
            &&& t.last_week == Some(entry.week_number)
            &&& s.commitments.len() == 0 ==> t.merkle_root == Some(entry.hash)
            &&& s.commitments.len() > 0 ==> t.merkle_root == Some(
                sha256_digest(chain_root(s.commitments)@ + entry.hash@),
            )
        }),
{
    law_root_is_the_chained_hash(s.commitments, entry);
}

/// The chained hash: of one deposit its own hash, of more the SHA-256 of the chained hash
/// of all but the last followed by the last one's hash; of none it is zero.
pub proof fn law_root_is_the_chained_hash(commitments: Seq<Commitment>, next: Commitment)
    ensures
        forall|j: int| 0 <= j < 32 ==> #[trigger] chain_root(Seq::empty())@[j] == 0,
        commitments.len() == 0 ==> chain_root(commitments.push(next)) == next.hash,
        commitments.len() > 0 ==> chain_root(commitments.push(next)) == sha256_digest(
            chain_root(commitments)@ + next.hash@,
        ),
{
    assert(commitments.push(next).drop_last() =~= commitments);
}

/// The state of a ledger is what its fields hold, and other contracts are told that.
pub proof fn law_others_see_the_ledger(ledger: SavingsContract, x: Bytes32)
    ensures
        ledger@.address == ledger.address,
        ledger@.commitments == ledger.commitments@,
        ledger@.spent == ledger.nullifier_spent@,
        ledger@.recorded == ledger.commitment_recorded@,
        ledger@.last_week == ledger.last_week,
        ledger@.merkle_root == ledger.merkle_root,
        ledger.id() == ledger.address,
        ledger.spent(x) <==> ledger.nullifier_spent@.contains_key(x) && ledger.nullifier_spent@[x],
        ledger.recorded(x) <==> ledger.commitment_recorded@.contains_key(x)
            && ledger.commitment_recorded@[x],
        ledger.merkle_root matches Some(root) ==> ledger.root() == root,
        ledger.merkle_root is None ==> forall|j: int|
            0 <= j < 32 ==> #[trigger] ledger.root()@[j] == 0,
{
}

/// What each error says, and the number that it is reported by.
pub proof fn law_error_texts_and_numbers(e: SavingsError)
    ensures
        e.text() == (match e.number() {
            1 => "nullifier already spent"@,
            2 => "invalid week number"@,
            3 => "week gap too large (max 2)"@,
            4 => "invalid commitment length"@,
            5 => "week number must advance"@,
            _ => "range inverted"@,
        }),
        1 <= e.number() <= 6,
        e == SavingsError::NullifierAlreadySpent <==> e.number() == 1,
        e == SavingsError::InvalidWeekNumber <==> e.number() == 2,
        e == SavingsError::WeekGapTooLarge <==> e.number() == 3,
        e == SavingsError::InvalidCommitmentLength <==> e.number() == 4,
        e == SavingsError::WeekNumberMustAdvance <==> e.number() == 5,
        e == SavingsError::RangeInverted <==> e.number() == 6,
{
}

/// Some deposit has this nullifier.
pub open spec fn uses_nullifier(commitments: Seq<Commitment>, nullifier: Bytes32) -> bool {
    exists|i: int| 0 <= i < commitments.len() && (#[trigger] commitments[i]).nullifier == nullifier
}

/// Some deposit has this commitment hash.
pub open spec fn uses_hash(commitments: Seq<Commitment>, hash: Bytes32) -> bool {
    exists|i: int| 0 <= i < commitments.len() && (#[trigger] commitments[i]).hash == hash
}

impl SavingsState {
    /// The parts of the ledger agree: exactly the nullifiers and commitments of
    /// the deposits are marked, no nullifier occurs twice, the weeks advance by
    /// one or two at a time, and the last week and the root are those of the
    /// deposits.
    pub open spec fn consistent(self) -> bool {
        let cs = self.commitments;
        &&& forall|n: Bytes32| #[trigger] self.is_spent(n) <==> uses_nullifier(cs, n)
        &&& forall|h: Bytes32| #[trigger] self.is_recorded(h) <==> uses_hash(cs, h)
        &&& forall|i: int, j: int|
            0 <= i < j < cs.len() ==> (#[trigger] cs[i]).nullifier != (#[trigger] cs[j]).nullifier
        &&& forall|i: int, j: int|
            0 <= i < j < cs.len() ==> (#[trigger] cs[i]).week_number < (
            #[trigger] cs[j]).week_number <= cs[i].week_number + 2 * (j - i)
        &&& self.last_week == (if cs.len() == 0 {
            None
        } else {
            Some(cs.last().week_number)
        })
        &&& self.root() == chain_root(cs)
    }
}

/// An empty ledger is consistent.
pub proof fn law_empty_ledger_is_consistent(address: Address)
    ensures
        (SavingsState {
            address,
            commitments: Seq::empty(),
            spent: Map::empty(),
            recorded: Map::empty(),
            last_week: None,
            merkle_root: None,
        }).consistent(),
{
}

/// A deposit that is accepted keeps the ledger consistent.
pub proof fn law_deposit_keeps_the_ledger_consistent(s: SavingsState, entry: Commitment)
    requires
        s.consistent(),
        s.deposit_fault(entry.nullifier, entry.week_number) is None,
    ensures
        s.deposited(entry).consistent(),
{
    let t = s.deposited(entry);
    let cs = s.commitments;
    let ds = t.commitments;
    let k = cs.len() as int;
    assert(ds[k] == entry);
    assert forall|n: Bytes32| #[trigger] t.is_spent(n) <==> uses_nullifier(ds, n) by {
        if uses_nullifier(cs, n) {
            let i = choose|i: int| 0 <= i < cs.len() && (#[trigger] cs[i]).nullifier == n;
            assert(ds[i] == cs[i]);
        }
        if uses_nullifier(ds, n) && n != entry.nullifier {
            let i = choose|i: int| 0 <= i < ds.len() && (#[trigger] ds[i]).nullifier == n;
            assert(cs[i] == ds[i]);
        }
        assert(s.is_spent(n) <==> uses_nullifier(cs, n));
    }
    assert forall|h: Bytes32| #[trigger] t.is_recorded(h) <==> uses_hash(ds, h) by {
        if uses_hash(cs, h) {
            let i = choose|i: int| 0 <= i < cs.len() && (#[trigger] cs[i]).hash == h;
            assert(ds[i] == cs[i]);
        }
        if uses_hash(ds, h) && h != entry.hash {
            let i = choose|i: int| 0 <= i < ds.len() && (#[trigger] ds[i]).hash == h;
            assert(cs[i] == ds[i]);
        }
        assert(s.is_recorded(h) <==> uses_hash(cs, h));
    }
    assert forall|i: int, j: int| 0 <= i < j < ds.len() implies (#[trigger] ds[i]).nullifier != (
    #[trigger] ds[j]).nullifier by {
        if j == k {
            assert(!s.is_spent(entry.nullifier));
            assert(cs[i] == ds[i]);
        } else {
            assert(cs[i] == ds[i] && cs[j] == ds[j]);
        }
    }
    assert forall|i: int, j: int| 0 <= i < j < ds.len() implies (#[trigger] ds[i]).week_number < (
    #[trigger] ds[j]).week_number <= ds[i].week_number + 2 * (j - i) by {
        if j == k {
            assert(cs[i] == ds[i]);
            if i < k - 1 {
                assert(cs[i].week_number < cs[k - 1].week_number);
            }
        } else {
            assert(cs[i] == ds[i] && cs[j] == ds[j]);
        }
    }
}

/// The ledger after the deposits `entries` were handed in one after the other; one that
/// is turned down changes nothing.
pub open spec fn after_deposits(s: SavingsState, entries: Seq<Commitment>) -> SavingsState
    decreases entries.len(),
{
    if entries.len() == 0 {
        s
    } else {
        let before = after_deposits(s, entries.drop_last());
        let entry = entries.last();
        if before.deposit_fault(entry.nullifier, entry.week_number) is None {
            before.deposited(entry)
        } else {
            before
        }
    }
}

/// Whatever is handed in, a consistent ledger stays consistent.
pub proof fn law_ledger_stays_consistent(s: SavingsState, entries: Seq<Commitment>)
    requires
        s.consistent(),
    ensures
        after_deposits(s, entries).consistent(),
    decreases entries.len(),
{
    if entries.len() > 0 {
        let before = after_deposits(s, entries.drop_last());
        let entry = entries.last();
        law_ledger_stays_consistent(s, entries.drop_last());
        if before.deposit_fault(entry.nullifier, entry.week_number) is None {
            law_deposit_keeps_the_ledger_consistent(before, entry);
        }
    }
}

/// Every ledger that is reached from the empty one is consistent.
pub proof fn law_every_ledger_is_consistent(address: Address, entries: Seq<Commitment>)
    ensures
        after_deposits(
            SavingsState {
                address,
                commitments: Seq::empty(),
                spent: Map::empty(),
                recorded: Map::empty(),
                last_week: None,
                merkle_root: None,
            },
            entries,
        ).consistent(),
{
    law_empty_ledger_is_consistent(address);
    law_ledger_stays_consistent(
        SavingsState {
            address,
            commitments: Seq::empty(),
            spent: Map::empty(),
            recorded: Map::empty(),
            last_week: None,
            merkle_root: None,
        },
        entries,
    );
}

/// The ledger only grows: whatever is handed in, all earlier deposits stay in place, and
/// nothing that was marked is unmarked.
pub proof fn law_ledger_only_grows(s: SavingsState, entries: Seq<Commitment>, x: Bytes32)
    ensures
        ({
            let later = after_deposits(s, entries);
            &&& s.commitments.len() <= later.commitments.len() <= s.commitments.len()
                + entries.len()
            &&& later.commitments.take(s.commitments.len() as int) == s.commitments
            &&& s.is_spent(x) ==> later.is_spent(x)
            &&& s.is_recorded(x) ==> later.is_recorded(x)
        }),
    decreases entries.len(),
{
    let later = after_deposits(s, entries);
    if entries.len() > 0 {
        law_ledger_only_grows(s, entries.drop_last(), x);
        let before = after_deposits(s, entries.drop_last());
        let n = s.commitments.len() as int;
        assert(later.commitments.take(n) =~= before.commitments.take(n));
    } else {
        assert(later.commitments.take(s.commitments.len() as int) =~= s.commitments);
    }
}

/// A nullifier is accepted once: a deposit with the nullifier of an earlier one is
/// turned down, however many deposits lie in between.
pub proof fn law_no_nullifier_is_deposited_twice(s: SavingsState, i: int, week_number: u32)
    requires
        s.consistent(),
        0 <= i < s.commitments.len(),
    ensures
        s.deposit_fault(s.commitments[i].nullifier, week_number) == Some(
            SavingsError::NullifierAlreadySpent,
        ),
{
    assert(s.is_spent(s.commitments[i].nullifier));
}

/// Each deposit extends the chained hash by one step.
pub proof fn law_root_extends_the_chain(s: SavingsState, entry: Commitment)
    requires
        s.consistent(),
    ensures
        s.deposited(entry).root() == (if s.commitments.len() == 0 {
            entry.hash
        } else {
            parent(s.root(), entry.hash)
        }),
{
    let ds = s.commitments.push(entry);
    assert(ds.drop_last() =~= s.commitments);
}

/// In a consistent ledger every week has at most one deposit.
pub proof fn law_one_deposit_per_week(s: SavingsState, i: int, j: int)
    requires
        s.consistent(),
        0 <= i < s.commitments.len(),
        0 <= j < s.commitments.len(),
        s.commitments[i].week_number == s.commitments[j].week_number,
    ensures
        i == j,
{
}

} // verus!
