//! The token ledger the escrow works on: holdings of assets, escrow records,
//! and the reserve that every account on the ledger is backed by.
use vstd::prelude::*;
use crate::address::{Address, DerivedAddress};
use crate::state::Escrow;
use crate::table::{Key, Table};

verus! {

impl Key for Address {
    fn same(&self, other: &Address) -> (r: bool) {
        *self == *other
    }
}

/// Names a holding: the balance of `owner` in the asset `mint`.
#[derive(Clone, Copy, Debug)]
pub struct HoldingId {
    pub owner: Address,
    pub mint: Address,
}

impl Key for HoldingId {
    fn same(&self, other: &HoldingId) -> (r: bool) {
        self.owner == other.owner && self.mint == other.mint
    }
}

/// The holding of `owner` in `mint`.
pub open spec fn holding(owner: Address, mint: Address) -> HoldingId {
    HoldingId { owner, mint }
}

/// Who authorises a transfer out of a holding, or its closing.
#[derive(Clone, Copy, Debug)]
pub enum Authority {
    /// The identity that signed the operation.
    Signer(Address),
    /// A derived address, shown by the seeds and bump seed that derive it.
    Derived(DerivedAddress),
}

impl Authority {
    /// The identity this authority speaks for.
    pub open spec fn identity(self) -> Address {
        match self {
            Authority::Signer(who) => who,
            Authority::Derived(derived) => derived.address,
        }
    }

    /// The identity this authority speaks for.
    pub fn who(&self) -> (r: Address)
        ensures
            r == self.identity(),
    {
        match self {
            Authority::Signer(who) => *who,
            Authority::Derived(derived) => derived.address,
        }
    }
}

/// Why the ledger refused a step.
#[derive(Clone, Copy, Debug, PartialEq, Eq, Structural)]
pub enum LedgerError {
    /// No account lives at the place named.
    AccountNotFound,
    /// An account already lives at the place named.
    AccountInUse,
    /// The authority does not control the holding.
    NotAuthorised,
    /// The holding has less than the amount to move.
    InsufficientFunds,
    /// The payer cannot put up the reserve of a new account.
    InsufficientReserve,
    /// A balance would exceed what 64 bits hold.
    BalanceOverflow,
    /// A holding can be closed only when it is empty.
    HoldingNotEmpty,
}

/// What the ledger holds, as mathematics.
#[verifier::ext_equal]
pub struct LedgerState {
    /// The balance of every holding.
    pub holdings: Map<HoldingId, u64>,
    /// The escrow record at every address that has one.
    pub records: Map<Address, Escrow>,
    /// The free reserve funds of every identity that has any.
    pub funds: Map<Address, u64>,
    /// The reserve that backs each account: paid when the account is
    /// created, handed back when it is closed.
    pub deposit: u64,
}

impl LedgerState {
    /// The free reserve funds of `who`.
    pub open spec fn funds_of(self, who: Address) -> u64 {
        if self.funds.dom().contains(who) {
            self.funds[who]
        } else {
            0
        }
    }

    /// The balance of `owner` in `mint`; nothing where it has no holding.
    pub open spec fn balance_of(self, owner: Address, mint: Address) -> u64 {
        if self.holdings.dom().contains(holding(owner, mint)) {
            self.holdings[holding(owner, mint)]
        } else {
            0
        }
    }

    /// `who` receives `amount` in reserve funds.
    pub open spec fn fund(self, who: Address, amount: u64) -> Result<LedgerState, LedgerError> {
        if self.funds_of(who) + amount > u64::MAX {
            Err(LedgerError::BalanceOverflow)
        } else {
            Ok(LedgerState { funds: self.funds.insert(who, (self.funds_of(who) + amount) as u64), ..self })
        }
    }

    /// `payer` puts up the reserve of one account.
    pub open spec fn pay_deposit(self, payer: Address) -> Result<LedgerState, LedgerError> {
        if self.funds_of(payer) < self.deposit {
            Err(LedgerError::InsufficientReserve)
        } else {
            Ok(
                LedgerState {
                    funds: self.funds.insert(payer, (self.funds_of(payer) - self.deposit) as u64),
                    ..self
                },
            )
        }
    }

    /// A new, empty holding `id` is created; `payer` puts up its reserve.
    pub open spec fn open_holding(self, payer: Address, id: HoldingId) -> Result<
        LedgerState,
        LedgerError,
    > {
        if self.holdings.dom().contains(id) {
            Err(LedgerError::AccountInUse)
        } else {
            match self.pay_deposit(payer) {
                Err(e) => Err(e),
                Ok(paid) => Ok(LedgerState { holdings: paid.holdings.insert(id, 0), ..paid }),
            }
        }
    }

    /// The holding `id` is created as by `open_holding` unless it exists.
    pub open spec fn ensure_holding(self, payer: Address, id: HoldingId) -> Result<
        LedgerState,
        LedgerError,
    > {
        if self.holdings.dom().contains(id) {
            Ok(self)
        } else {
            self.open_holding(payer, id)
        }
    }

    /// `amount` new units of the asset appear in the holding `id`.
    pub open spec fn issue(self, id: HoldingId, amount: u64) -> Result<LedgerState, LedgerError> {
        if !self.holdings.dom().contains(id) {
            Err(LedgerError::AccountNotFound)
        } else if self.holdings[id] + amount > u64::MAX {
            Err(LedgerError::BalanceOverflow)
        } else {
            Ok(
                LedgerState {
                    holdings: self.holdings.insert(id, (self.holdings[id] + amount) as u64),
                    ..self
                },
            )
        }
    }

    /// `amount` of the asset `mint` moves from the holding of `from` to the
    /// holding of `to`, on the word of `authority`.
    pub open spec fn transfer(
        self,
        from: Address,
        to: Address,
        mint: Address,
        amount: u64,
        authority: Address,
    ) -> Result<LedgerState, LedgerError> {
        let source = HoldingId { owner: from, mint };
        let target = HoldingId { owner: to, mint };
        if !self.holdings.dom().contains(source) || !self.holdings.dom().contains(target) {
            Err(LedgerError::AccountNotFound)
        } else if authority != from {
            Err(LedgerError::NotAuthorised)
        } else if self.holdings[source] < amount {
            Err(LedgerError::InsufficientFunds)
        } else if from == to {
            Ok(self)
        } else if self.holdings[target] + amount > u64::MAX {
            Err(LedgerError::BalanceOverflow)
        } else {
            Ok(
                LedgerState {
                    holdings: self.holdings.insert(
                        source,
                        (self.holdings[source] - amount) as u64,
                    ).insert(target, (self.holdings[target] + amount) as u64),
                    ..self
                },
            )
        }
    }

    /// The empty holding `id` is destroyed on the word of `authority`; its
    /// reserve goes to `refund_to`.
    pub open spec fn close_holding(self, id: HoldingId, authority: Address, refund_to: Address) -> Result<
        LedgerState,
        LedgerError,
    > {
        if !self.holdings.dom().contains(id) {
            Err(LedgerError::AccountNotFound)
        } else if authority != id.owner {
            Err(LedgerError::NotAuthorised)
        } else if self.holdings[id] != 0 {
            Err(LedgerError::HoldingNotEmpty)
        } else {
            match self.fund(refund_to, self.deposit) {
                Err(e) => Err(e),
                Ok(refunded) => Ok(
                    LedgerState { holdings: refunded.holdings.remove(id), ..refunded },
                ),
            }
        }
    }

    /// The record `escrow` is stored at `address`; `payer` puts up its
    /// reserve.
    pub open spec fn create_record(self, payer: Address, address: Address, escrow: Escrow) -> Result<
        LedgerState,
        LedgerError,
    > {
        if self.records.dom().contains(address) {
            Err(LedgerError::AccountInUse)
        } else {
            match self.pay_deposit(payer) {
                Err(e) => Err(e),
                Ok(paid) => Ok(LedgerState { records: paid.records.insert(address, escrow), ..paid }),
            }
        }
    }

    /// The record at `address` is destroyed; its reserve goes to
    /// `refund_to`.
    pub open spec fn close_record(self, address: Address, refund_to: Address) -> Result<
        LedgerState,
        LedgerError,
    > {
        if !self.records.dom().contains(address) {
            Err(LedgerError::AccountNotFound)
        } else {
            match self.fund(refund_to, self.deposit) {
                Err(e) => Err(e),
                Ok(refunded) => Ok(
                    LedgerState { records: refunded.records.remove(address), ..refunded },
                ),
            }
        }
    }

    /// The state after `step`, or why the ledger refuses it.
    pub open spec fn step(self, step: Step) -> Result<LedgerState, LedgerError> {
        match step {
            Step::OpenHolding { payer, owner, mint } => self.open_holding(
                payer,
                HoldingId { owner, mint },
            ),
            Step::EnsureHolding { payer, owner, mint } => self.ensure_holding(
                payer,
                HoldingId { owner, mint },
            ),
            Step::Transfer { from, to, mint, amount, authority } => self.transfer(
                from,
                to,
                mint,
                amount,
                authority.identity(),
            ),
            Step::CloseHolding { owner, mint, authority, refund_to } => self.close_holding(
                HoldingId { owner, mint },
                authority.identity(),
                refund_to,
            ),
            Step::CreateRecord { payer, address, escrow } => self.create_record(
                payer,
                address,
                escrow,
            ),
            Step::CloseRecord { address, refund_to } => self.close_record(address, refund_to),
        }
    }

    /// The state after the steps of `steps` from the one at `at` onwards,
    /// taken in order, or the first refusal.
    pub open spec fn run_from(self, steps: Seq<Step>, at: int) -> Result<LedgerState, LedgerError>
        decreases steps.len() - at,
    {
        if at < 0 || at >= steps.len() {
            Ok(self)
        } else {
            match self.step(steps[at]) {
                Err(e) => Err(e),
                Ok(next) => next.run_from(steps, at + 1),
            }
        }
    }

    /// The state after all of `steps`, taken in order, or the first refusal.
    pub open spec fn run(self, steps: Seq<Step>) -> Result<LedgerState, LedgerError> {
        self.run_from(steps, 0)
    }
}

impl Step {
    /// Whether the step names `who` as the owner of a holding it creates,
    /// debits, credits or closes, or as the address of a record it creates
    /// or closes.
    pub open spec fn touches(self, who: Address) -> bool {
        match self {
            Step::OpenHolding { payer, owner, mint } => owner == who,
            Step::EnsureHolding { payer, owner, mint } => owner == who,
            Step::Transfer { from, to, mint, amount, authority } => from == who || to == who,
            Step::CloseHolding { owner, mint, authority, refund_to } => owner == who,
            Step::CreateRecord { payer, address, escrow } => address == who,
            Step::CloseRecord { address, refund_to } => address == who,
        }
    }
}

impl LedgerState {
    /// Whether `other` holds of `who` what `self` holds of it: the same
    /// holdings with the same balances, and the same record at its address.
    pub open spec fn agrees_on(self, other: LedgerState, who: Address) -> bool {
        &&& forall|mint: Address|
            self.holdings.dom().contains(#[trigger] holding(who, mint))
                == other.holdings.dom().contains(holding(who, mint))
        &&& forall|mint: Address|
            self.holdings.dom().contains(#[trigger] holding(who, mint))
                ==> self.holdings[holding(who, mint)] == other.holdings[holding(who, mint)]
        &&& self.records.dom().contains(who) == other.records.dom().contains(who)
        &&& self.records.dom().contains(who) ==> self.records[who] == other.records[who]
    }
}

/// A step changes nothing of an address that it does not touch.
pub proof fn lemma_step_leaves_alone(before: LedgerState, step: Step, who: Address)
    requires
        before.step(step) is Ok,
        !step.touches(who),
    ensures
        before.agrees_on(before.step(step).unwrap(), who),
{
}

/// A run changes nothing of an address that none of its steps touches.
pub proof fn lemma_run_leaves_alone(before: LedgerState, steps: Seq<Step>, at: int, who: Address)
    requires
        0 <= at,
        before.run_from(steps, at) is Ok,
        forall|i: int| at <= i < steps.len() ==> !(#[trigger] steps[i]).touches(who),
    ensures
        before.agrees_on(before.run_from(steps, at).unwrap(), who),
    decreases steps.len() - at,
{
    if at < steps.len() {
        let next = before.step(steps[at]).unwrap();
        lemma_step_leaves_alone(before, steps[at], who);
        lemma_run_leaves_alone(next, steps, at + 1, who);
    }
}

/// A run from a step onwards is that step, then the run from the next.
pub proof fn lemma_run_next(before: LedgerState, steps: Seq<Step>, at: int)
    requires
        0 <= at < steps.len(),
    ensures
        before.run_from(steps, at) == (match before.step(steps[at]) {
            Err(e) => Err(e),
            Ok(next) => next.run_from(steps, at + 1),
        }),
{
}

/// What a step does to the records: creating one adds it where none was,
/// closing one removes it, and no other step touches any.
pub proof fn lemma_step_records(before: LedgerState, step: Step)
    requires
        before.step(step) is Ok,
    ensures
        ({
            let after = before.step(step).unwrap();
            match step {
                Step::CreateRecord { payer, address, escrow } => {
                    &&& !before.records.dom().contains(address)
                    &&& after.records == before.records.insert(address, escrow)
                },
                Step::CloseRecord { address, refund_to } => after.records == before.records.remove(
                    address,
                ),
                _ => after.records == before.records,
            }
        }),
{
}

/// One step against the ledger.
#[derive(Clone, Copy, Debug)]
pub enum Step {
    /// Create an empty holding; fails where it exists.
    OpenHolding { payer: Address, owner: Address, mint: Address },
    /// Create an empty holding unless it exists.
    EnsureHolding { payer: Address, owner: Address, mint: Address },
    /// Move `amount` of `mint` from the holding of `from` to that of `to`.
    Transfer { from: Address, to: Address, mint: Address, amount: u64, authority: Authority },
    /// Destroy an empty holding and refund its reserve.
    CloseHolding { owner: Address, mint: Address, authority: Authority, refund_to: Address },
    /// Store an escrow record.
    CreateRecord { payer: Address, address: Address, escrow: Escrow },
    /// Destroy an escrow record and refund its reserve.
    CloseRecord { address: Address, refund_to: Address },
}

/// A step either takes the ledger to the state `expected` names and
/// succeeds, or fails with the error `expected` names and changes nothing.
pub open spec fn applies<E>(
    before: LedgerState,
    expected: Result<LedgerState, E>,
    outcome: Result<(), E>,
    after: LedgerState,
) -> bool {
    match expected {
        Ok(next) => outcome is Ok && after == next,
        Err(e) => outcome == Err::<(), E>(e) && after == before,
    }
}

/// The ledger.
pub struct Ledger {
    holdings: Table<HoldingId, u64>,
    records: Table<Address, Escrow>,
    funds: Table<Address, u64>,
    deposit: u64,
}

impl View for Ledger {
    type V = LedgerState;

    closed spec fn view(&self) -> LedgerState {
        LedgerState {
            holdings: self.holdings@,
            records: self.records@,
            funds: self.funds@,
            deposit: self.deposit,
        }
    }
}

impl Ledger {
    /// The ledger's stores are well formed.
    pub closed spec fn wf(&self) -> bool {
        &&& self.holdings.wf()
        &&& self.records.wf()
        &&& self.funds.wf()
    }

    /// An empty ledger on which every account is backed by `deposit`.
    pub fn new(deposit: u64) -> (ledger: Ledger)
        ensures
            ledger.wf(),
            ledger@ == (LedgerState {
                holdings: Map::empty(),
                records: Map::empty(),
                funds: Map::empty(),
                deposit,
            }),
    {
        Ledger { holdings: Table::new(), records: Table::new(), funds: Table::new(), deposit }
    }

    /// A copy of the ledger as it stands.
    pub fn snapshot(&self) -> (copy: Ledger)
        requires
            self.wf(),
        ensures
            copy.wf(),
            copy@ == self@,
    {
        Ledger {
            holdings: self.holdings.snapshot(),
            records: self.records.snapshot(),
            funds: self.funds.snapshot(),
            deposit: self.deposit,
        }
    }

    /// The reserve that backs each account.
    pub fn deposit(&self) -> (r: u64)
        ensures
            r == self@.deposit,
    {
        self.deposit
    }

    /// The balance of `owner` in `mint`, if it has a holding there.
    pub fn balance(&self, owner: &Address, mint: &Address) -> (r: Option<u64>)
        requires
            self.wf(),
        ensures
            r == (if self@.holdings.dom().contains(holding(*owner, *mint)) {
                Some(self@.holdings[holding(*owner, *mint)])
            } else {
                None
            }),
    {
        self.holdings.get(&HoldingId { owner: *owner, mint: *mint })
    }

    /// The escrow record at `address`, if one lives there.
    pub fn record(&self, address: &Address) -> (r: Option<Escrow>)
        requires
            self.wf(),
        ensures
            r == (if self@.records.dom().contains(*address) {
                Some(self@.records[*address])
            } else {
                None
            }),
    {
        self.records.get(address)
    }

    /// The free reserve funds of `who`.
    pub fn funds(&self, who: &Address) -> (r: u64)
        requires
            self.wf(),
        ensures
            r == self@.funds_of(*who),
    {
        match self.funds.get(who) {
            Some(amount) => amount,
            None => 0,
        }
    }

    /// Gives `who` `amount` in reserve funds.
    pub fn fund(&mut self, who: &Address, amount: u64) -> (r: Result<(), LedgerError>)
        requires
            old(self).wf(),
        ensures
            final(self).wf(),
            applies(old(self)@, old(self)@.fund(*who, amount), r, final(self)@),
    {
        let have = self.funds(who);
        match have.checked_add(amount) {
            None => Err(LedgerError::BalanceOverflow),
            Some(total) => {
                self.funds.insert(*who, total);
                Ok(())
            },
        }
    }

    fn pay_deposit(&mut self, payer: &Address) -> (r: Result<(), LedgerError>)
        requires
            old(self).wf(),
        ensures
            final(self).wf(),
            applies(old(self)@, old(self)@.pay_deposit(*payer), r, final(self)@),
    {
        let have = self.funds(payer);
        if have < self.deposit {
            Err(LedgerError::InsufficientReserve)
        } else {
            self.funds.insert(*payer, have - self.deposit);
            Ok(())
        }
    }

    /// Creates the empty holding of `owner` in `mint`; `payer` puts up its
    /// reserve.
    pub fn open_holding(&mut self, payer: &Address, owner: &Address, mint: &Address) -> (r: Result<
        (),
        LedgerError,
    >)
        requires
            old(self).wf(),
        ensures
            final(self).wf(),
            applies(
                old(self)@,
                old(self)@.open_holding(*payer, holding(*owner, *mint)),
                r,
                final(self)@,
            ),
    {
        let id = HoldingId { owner: *owner, mint: *mint };
        if self.holdings.get(&id).is_some() {
            return Err(LedgerError::AccountInUse);
        }
        match self.pay_deposit(payer) {
            Err(e) => Err(e),
            Ok(()) => {
                self.holdings.insert(id, 0);
                Ok(())
            },
        }
    }

    /// Makes sure that `owner` has a holding in `mint`, creating an empty one
    /// on `payer`'s reserve if it has none.
    pub fn ensure_holding(&mut self, payer: &Address, owner: &Address, mint: &Address) -> (r: Result<
        (),
        LedgerError,
    >)
        requires
            old(self).wf(),
        ensures
            final(self).wf(),
            applies(
                old(self)@,
                old(self)@.ensure_holding(*payer, holding(*owner, *mint)),
                r,
                final(self)@,
            ),
    {
        let id = HoldingId { owner: *owner, mint: *mint };
        if self.holdings.get(&id).is_some() {
            Ok(())
        } else {
            self.open_holding(payer, owner, mint)
        }
    }

    /// Issues `amount` new units of `mint` into the holding of `owner`.
    pub fn issue(&mut self, owner: &Address, mint: &Address, amount: u64) -> (r: Result<
        (),
        LedgerError,
    >)
        requires
            old(self).wf(),
        ensures
            final(self).wf(),
            applies(
                old(self)@,
                old(self)@.issue(holding(*owner, *mint), amount),
                r,
                final(self)@,
            ),
    {
        let id = HoldingId { owner: *owner, mint: *mint };
        match self.holdings.get(&id) {
            None => Err(LedgerError::AccountNotFound),
            Some(have) => match have.checked_add(amount) {
                None => Err(LedgerError::BalanceOverflow),
                Some(total) => {
                    self.holdings.insert(id, total);
                    Ok(())
                },
            },
        }
    }

    /// Moves `amount` of `mint` from the holding of `from` to the holding of
    /// `to`. `authority` must speak for `from`.
    pub fn transfer(
        &mut self,
        from: &Address,
        to: &Address,
        mint: &Address,
        amount: u64,
        authority: &Authority,
    ) -> (r: Result<(), LedgerError>)
        requires
            old(self).wf(),
        ensures
            final(self).wf(),
            applies(
                old(self)@,
                old(self)@.transfer(*from, *to, *mint, amount, authority.identity()),
                r,
                final(self)@,
            ),
    {
        let source = HoldingId { owner: *from, mint: *mint };
        let target = HoldingId { owner: *to, mint: *mint };
        let (have, held) = match (self.holdings.get(&source), self.holdings.get(&target)) {
            (Some(have), Some(held)) => (have, held),
            _ => { return Err(LedgerError::AccountNotFound); },
        };
        if authority.who() != *from {
            return Err(LedgerError::NotAuthorised);
        }
        if have < amount {
            return Err(LedgerError::InsufficientFunds);
        }
        if *from == *to {
            return Ok(());
        }
        match held.checked_add(amount) {
            None => Err(LedgerError::BalanceOverflow),
            Some(total) => {
                self.holdings.insert(source, have - amount);
                self.holdings.insert(target, total);
                Ok(())
            },
        }
    }

    /// Destroys the empty holding of `owner` in `mint` and hands its reserve
    /// to `refund_to`. `authority` must speak for `owner`.
    pub fn close_holding(
        &mut self,
        owner: &Address,
        mint: &Address,
        authority: &Authority,
        refund_to: &Address,
    ) -> (r: Result<(), LedgerError>)
        requires
            old(self).wf(),
        ensures
            final(self).wf(),
            applies(
                old(self)@,
                old(self)@.close_holding(
                    holding(*owner, *mint),
                    authority.identity(),
                    *refund_to,
                ),
                r,
                final(self)@,
            ),
    {
        let id = HoldingId { owner: *owner, mint: *mint };
        match self.holdings.get(&id) {
            None => Err(LedgerError::AccountNotFound),
            Some(have) => {
                if authority.who() != *owner {
                    Err(LedgerError::NotAuthorised)
                } else if have != 0 {
                    Err(LedgerError::HoldingNotEmpty)
                } else {
                    let deposit = self.deposit;
                    match self.fund(refund_to, deposit) {
                        Err(e) => Err(e),
                        Ok(()) => {
                            self.holdings.remove(&id);
                            Ok(())
                        },
                    }
                }
            },
        }
    }

    /// Stores `escrow` at `address`; `payer` puts up the record's reserve.
    pub fn create_record(&mut self, payer: &Address, address: &Address, escrow: Escrow) -> (r: Result<
        (),
        LedgerError,
    >)
        requires
            old(self).wf(),
        ensures
            final(self).wf(),
            applies(
                old(self)@,
                old(self)@.create_record(*payer, *address, escrow),
                r,
                final(self)@,
            ),
    {
        if self.records.get(address).is_some() {
            return Err(LedgerError::AccountInUse);
        }
        match self.pay_deposit(payer) {
            Err(e) => Err(e),
            Ok(()) => {
                self.records.insert(*address, escrow);
                Ok(())
            },
        }
    }

    /// Destroys the record at `address` and hands its reserve to
    /// `refund_to`.
    pub fn close_record(&mut self, address: &Address, refund_to: &Address) -> (r: Result<
        (),
        LedgerError,
    >)
        requires
            old(self).wf(),
        ensures
            final(self).wf(),
            applies(old(self)@, old(self)@.close_record(*address, *refund_to), r, final(self)@),
    {
        if self.records.get(address).is_none() {
            return Err(LedgerError::AccountNotFound);
        }
        let deposit = self.deposit;
        match self.fund(refund_to, deposit) {
            Err(e) => Err(e),
            Ok(()) => {
                self.records.remove(address);
                Ok(())
            },
        }
    }

    /// Takes one step.
    pub fn apply(&mut self, step: &Step) -> (r: Result<(), LedgerError>)
        requires
            old(self).wf(),
        ensures
            final(self).wf(),
            applies(old(self)@, old(self)@.step(*step), r, final(self)@),
    {
        match step {
            Step::OpenHolding { payer, owner, mint } => self.open_holding(payer, owner, mint),
            Step::EnsureHolding { payer, owner, mint } => self.ensure_holding(payer, owner, mint),
            Step::Transfer { from, to, mint, amount, authority } => self.transfer(
                from,
                to,
                mint,
                *amount,
                authority,
            ),
            Step::CloseHolding { owner, mint, authority, refund_to } => self.close_holding(
                owner,
                mint,
                authority,
                refund_to,
            ),
            Step::CreateRecord { payer, address, escrow } => self.create_record(
                payer,
                address,
                *escrow,
            ),
            Step::CloseRecord { address, refund_to } => self.close_record(address, refund_to),
        }
    }

    /// Takes all of `steps` in order, as one indivisible unit: where a step
    /// is refused, the ledger is left as it was before the first.
    pub fn run(&mut self, steps: &Vec<Step>) -> (r: Result<(), LedgerError>)
        requires
            old(self).wf(),
        ensures
            final(self).wf(),
            applies(old(self)@, old(self)@.run(steps@), r, final(self)@),
    {
        let mut work = self.snapshot();
        let mut i: usize = 0;
        while i < steps.len()
            invariant
                i <= steps@.len(),
                work.wf(),
                self.wf(),
                self@ == old(self)@,
                old(self)@.run(steps@) == work@.run_from(steps@, i as int),
            decreases steps@.len() - i,
        {
            match work.apply(&steps[i]) {
                Err(e) => {
                    return Err(e);
                },
                Ok(()) => {},
            }
            i += 1;
        }
        *self = work;
        Ok(())
    }
}

} // verus!
