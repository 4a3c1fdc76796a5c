//! Cancelling an escrow.
use vstd::prelude::*;
use crate::address::{confirm, derives, derived_view, Address, DerivedAddress};
use crate::error::{lifted, EscrowError, Failure};
use crate::ledger::{
    applies, holding, Authority, Ledger, LedgerError, LedgerState, Step,
};
use crate::state::Escrow;

verus! {

/// Who cancels an escrow, and what they say it is about.
#[derive(Clone, Copy, Debug)]
pub struct Cancel {
    /// The caller, who signed the operation: the depositor.
    pub authority: Address,
    /// The address of the escrow record.
    pub escrow: Address,
    /// The asset said to be in custody.
    pub token_a: Address,
}

/// The checks of a cancellation against the record, in the order in which
/// they are made; the first that fails decides the error. `derived` is what
/// deriving the escrow's address from the caller, the asset named in `ctx`
/// and the other asset gave. There is no check of the time.
pub open spec fn cancel_check(record: Escrow, ctx: Cancel, derived: Option<(Seq<u8>, u8)>) -> Result<
    (),
    EscrowError,
> {
    if ctx.authority != record.from {
        Err(EscrowError::Unauthorised)
    } else if ctx.token_a != record.token_a {
        Err(EscrowError::IncorrectMint)
    } else if !derives(derived, ctx.escrow) {
        Err(EscrowError::IncorrectAddress)
    } else {
        Ok(())
    }
}

/// Makes the checks of a cancellation. Where all pass, the result is the
/// escrow's address with its bump seed: the authority over the custody
/// holding.
pub fn check_cancel(record: &Escrow, ctx: &Cancel, derived: Option<DerivedAddress>) -> (r: Result<
    DerivedAddress,
    EscrowError,
>)
    ensures
        match cancel_check(*record, *ctx, derived_view(derived)) {
            Ok(_) => r is Ok && derived == Some(r.unwrap()) && r.unwrap().address == ctx.escrow,
            Err(e) => r == Err::<DerivedAddress, EscrowError>(e),
        },
{
    if ctx.authority != record.from {
        return Err(EscrowError::Unauthorised);
    }
    if ctx.token_a != record.token_a {
        return Err(EscrowError::IncorrectMint);
    }
    match confirm(derived, &ctx.escrow) {
        None => Err(EscrowError::IncorrectAddress),
        Some(escrow) => Ok(escrow),
    }
}

/// The ledger steps of cancelling `record`, which lives at `escrow` and
/// whose custody holding holds `balance`: all of the balance goes back to
/// the depositor; then the custody holding and the record are destroyed, the
/// reserve of both going to the depositor.
pub open spec fn cancel_steps(record: Escrow, escrow: DerivedAddress, balance: u64) -> Seq<Step> {
    seq![
        Step::Transfer {
            from: escrow.address,
            to: record.from,
            mint: record.token_a,
            amount: balance,
            authority: Authority::Derived(escrow),
        },
        Step::CloseHolding {
            owner: escrow.address,
            mint: record.token_a,
            authority: Authority::Derived(escrow),
            refund_to: record.from,
        },
        Step::CloseRecord { address: escrow.address, refund_to: record.from },
    ]
}

/// The steps of cancelling, for the ledger to run.
pub fn cancel_plan(record: &Escrow, escrow: &DerivedAddress, balance: u64) -> (steps: Vec<Step>)
    ensures
        steps@ == cancel_steps(*record, *escrow, balance),
{
    let mut steps: Vec<Step> = Vec::new();
    steps.push(
        Step::Transfer {
            from: escrow.address,
            to: record.from,
            mint: record.token_a,
            amount: balance,
            authority: Authority::Derived(*escrow),
        },
    );
    steps.push(
        Step::CloseHolding {
            owner: escrow.address,
            mint: record.token_a,
            authority: Authority::Derived(*escrow),
            refund_to: record.from,
        },
    );
    steps.push(Step::CloseRecord { address: escrow.address, refund_to: record.from });
    assert(steps@ =~= cancel_steps(*record, *escrow, balance));
    steps
}

/// What cancelling does to the ledger `before`: the record must live at
/// `ctx.escrow`, the checks must pass, the custody holding must exist, and
/// the ledger must accept every step.
pub open spec fn cancel_outcome(before: LedgerState, ctx: Cancel, derived: Option<(Seq<u8>, u8)>) -> Result<
    LedgerState,
    Failure,
> {
    if !before.records.dom().contains(ctx.escrow) {
        Err(Failure::Ledger(LedgerError::AccountNotFound))
    } else {
        let record = before.records[ctx.escrow];
        match cancel_check(record, ctx, derived) {
            Err(e) => Err(Failure::Escrow(e)),
            Ok(_) => if !before.holdings.dom().contains(holding(ctx.escrow, record.token_a)) {
                Err(Failure::Ledger(LedgerError::AccountNotFound))
            } else {
                lifted(
                    before.run(
                        cancel_steps(
                            record,
                            DerivedAddress { address: ctx.escrow, bump: derived.unwrap().1 },
                            before.holdings[holding(ctx.escrow, record.token_a)],
                        ),
                    ),
                )
            },
        }
    }
}

/// After a cancellation neither the escrow record nor its custody holding
/// exists.
pub proof fn lemma_cancel_closes(before: LedgerState, ctx: Cancel, derived: Option<(Seq<u8>, u8)>)
    requires
        cancel_outcome(before, ctx, derived) is Ok,
    ensures
        ({
            let after = cancel_outcome(before, ctx, derived).unwrap();
            &&& !after.records.dom().contains(ctx.escrow)
            &&& !after.holdings.dom().contains(holding(ctx.escrow, ctx.token_a))
        }),
{
    reveal_with_fuel(LedgerState::run_from, 4);
}

/// What cancelling moves, where the depositor is not the escrow's own
/// address: all that custody holds goes to the depositor's holding, the
/// reserve of the custody holding and of the record goes to the depositor's
/// funds, custody and record are gone, and nothing else on the ledger
/// changes.
pub proof fn lemma_cancel_moves(before: LedgerState, ctx: Cancel, derived: Option<(Seq<u8>, u8)>)
    requires
        cancel_outcome(before, ctx, derived) is Ok,
        ctx.authority != ctx.escrow,
    ensures
        ({
            let after = cancel_outcome(before, ctx, derived).unwrap();
            let custody = holding(ctx.escrow, ctx.token_a);
            let target = holding(ctx.authority, ctx.token_a);
            &&& before.holdings.dom().contains(custody)
            &&& before.holdings.dom().contains(target)
            &&& before.holdings[target] + before.holdings[custody] <= u64::MAX
            &&& after.holdings == before.holdings.insert(
                target,
                (before.holdings[target] + before.holdings[custody]) as u64,
            ).remove(custody)
            &&& after.records == before.records.remove(ctx.escrow)
            &&& before.funds_of(ctx.authority) + 2 * before.deposit <= u64::MAX
            &&& after.funds == before.funds.insert(
                ctx.authority,
                (before.funds_of(ctx.authority) + 2 * before.deposit) as u64,
            )
            &&& after.deposit == before.deposit
        }),
{
    reveal_with_fuel(LedgerState::run_from, 4);
    let after = cancel_outcome(before, ctx, derived).unwrap();
    let custody = holding(ctx.escrow, ctx.token_a);
    let target = holding(ctx.authority, ctx.token_a);
    assert(after.holdings =~= before.holdings.insert(
        target,
        (before.holdings[target] + before.holdings[custody]) as u64,
    ).remove(custody));
    assert(after.funds =~= before.funds.insert(
        ctx.authority,
        (before.funds_of(ctx.authority) + 2 * before.deposit) as u64,
    ));
}

/// Cancels the escrow at `ctx.escrow`: all that is in custody goes back to
/// the depositor, and the custody holding and the record are destroyed.
/// `derived` is the address derived for the caller, the asset that `ctx`
/// names and the other asset of the escrow. The counterparty has no part in
/// it, and the deadline does not matter. Either all of it happens or
/// nothing.
pub fn process_cancel(ledger: &mut Ledger, ctx: &Cancel, derived: Option<DerivedAddress>) -> (r:
    Result<(), Failure>)
    requires
        old(ledger).wf(),
    ensures
        final(ledger).wf(),
        applies(
            old(ledger)@,
            cancel_outcome(old(ledger)@, *ctx, derived_view(derived)),
            r,
            final(ledger)@,
        ),
        !old(ledger)@.records.dom().contains(ctx.escrow) ==> r == Err::<(), Failure>(
            Failure::Ledger(LedgerError::AccountNotFound),
        ),
        old(ledger)@.records.dom().contains(ctx.escrow)
            && ctx.authority != old(ledger)@.records[ctx.escrow].from
            ==> r == Err::<(), Failure>(Failure::Escrow(EscrowError::Unauthorised))
            && final(ledger)@ == old(ledger)@,
        old(ledger)@.records.dom().contains(ctx.escrow)
            && ctx.authority == old(ledger)@.records[ctx.escrow].from
            && ctx.token_a != old(ledger)@.records[ctx.escrow].token_a
            ==> r == Err::<(), Failure>(Failure::Escrow(EscrowError::IncorrectMint))
            && final(ledger)@ == old(ledger)@,
        r is Ok ==> !final(ledger)@.records.dom().contains(ctx.escrow)
            && !final(ledger)@.holdings.dom().contains(holding(ctx.escrow, ctx.token_a)),
{
    let record = match ledger.record(&ctx.escrow) {
        None => { return Err(Failure::Ledger(LedgerError::AccountNotFound)); },
        Some(record) => record,
    };
    let escrow = match check_cancel(&record, ctx, derived) {
        Err(e) => { return Err(Failure::Escrow(e)); },
        Ok(escrow) => escrow,
    };
    let balance = match ledger.balance(&ctx.escrow, &record.token_a) {
        None => { return Err(Failure::Ledger(LedgerError::AccountNotFound)); },
        Some(balance) => balance,
    };
    let steps = cancel_plan(&record, &escrow, balance);
    match ledger.run(&steps) {
        Err(e) => Err(Failure::Ledger(e)),
        Ok(()) => {
            proof {
                lemma_cancel_closes(old(ledger)@, *ctx, derived_view(derived));
            }
            Ok(())
        },
    }
}

} // verus!
