//! The life of an escrow: opened once, then settled or cancelled once, and
//! closed for good.
use vstd::prelude::*;
use crate::address::{derives, Address, DerivedAddress};
use crate::error::Failure;
use crate::instructions::cancel::{cancel_outcome, cancel_steps, lemma_cancel_closes, Cancel};
use crate::instructions::init::{
    lemma_open_funds_custody, open_outcome, open_steps, opened_record, Init, InitFields,
};
use crate::instructions::transfer::{
    lemma_settle_closes, settle_outcome, settle_steps, settlement_of, Transfer,
};
use crate::ledger::{
    holding, lemma_run_leaves_alone, lemma_step_records, LedgerError, LedgerState,
};

verus! {

/// Whether the escrow at `escrow` is live and has in custody exactly the
/// amount its record names.
pub open spec fn fully_funded(state: LedgerState, escrow: Address) -> bool {
    &&& state.records.dom().contains(escrow)
    &&& state.holdings.dom().contains(holding(escrow, state.records[escrow].token_a))
    &&& state.holdings[holding(escrow, state.records[escrow].token_a)]
        == state.records[escrow].amount_a
}

/// An escrow is fully funded from the moment it is opened.
pub proof fn lemma_opened_is_fully_funded(
    before: LedgerState,
    ctx: Init,
    data: InitFields,
    derived: Option<(Seq<u8>, u8)>,
)
    requires
        open_outcome(before, ctx, data, derived) is Ok,
    ensures
        fully_funded(open_outcome(before, ctx, data, derived).unwrap(), ctx.escrow),
{
    lemma_open_funds_custody(before, ctx, data, derived);
}

/// An escrow stays fully funded through whatever leaves its address alone:
/// through the opening, settling and cancelling of other escrows to which
/// its address is no party.
pub proof fn lemma_funding_is_kept(before: LedgerState, after: LedgerState, escrow: Address)
    requires
        fully_funded(before, escrow),
        before.agrees_on(after, escrow),
    ensures
        fully_funded(after, escrow),
{
    assert(before.holdings.dom().contains(holding(escrow, before.records[escrow].token_a)));
}

/// Where an escrow is live, no other can be opened at its address: a second
/// opening there, rightly derived, finds the account in use.
pub proof fn lemma_open_is_exclusive(
    before: LedgerState,
    ctx: Init,
    data: InitFields,
    derived: Option<(Seq<u8>, u8)>,
    again: Init,
    again_data: InitFields,
    again_derived: Option<(Seq<u8>, u8)>,
)
    requires
        open_outcome(before, ctx, data, derived) is Ok,
        again.escrow == ctx.escrow,
        derives(again_derived, again.escrow),
    ensures
        open_outcome(
            open_outcome(before, ctx, data, derived).unwrap(),
            again,
            again_data,
            again_derived,
        ) == Err::<LedgerState, Failure>(Failure::Ledger(LedgerError::AccountInUse)),
{
    lemma_open_funds_custody(before, ctx, data, derived);
    let after = open_outcome(before, ctx, data, derived).unwrap();
    let steps = open_steps(again, again_data);
    assert(after.step(steps[0]) == Err::<LedgerState, LedgerError>(LedgerError::AccountInUse));
}

/// Opening writes a record where none was, and leaves every other record
/// as it is.
pub proof fn lemma_open_writes_one_record(
    before: LedgerState,
    ctx: Init,
    data: InitFields,
    derived: Option<(Seq<u8>, u8)>,
)
    requires
        open_outcome(before, ctx, data, derived) is Ok,
    ensures
        !before.records.dom().contains(ctx.escrow),
        open_outcome(before, ctx, data, derived).unwrap().records == before.records.insert(
            ctx.escrow,
            opened_record(ctx, data),
        ),
{
    let steps = open_steps(ctx, data);
    reveal_with_fuel(LedgerState::run_from, 4);
    let s1 = before.step(steps[0]).unwrap();
    let s2 = s1.step(steps[1]).unwrap();
    lemma_step_records(before, steps[0]);
    lemma_step_records(s1, steps[1]);
    lemma_step_records(s2, steps[2]);
}

/// Settling removes the record it is about, and leaves every other record
/// as it is.
pub proof fn lemma_settle_removes_one_record(
    before: LedgerState,
    ctx: Transfer,
    now: i64,
    derived: Option<(Seq<u8>, u8)>,
)
    requires
        settle_outcome(before, ctx, now, derived) is Ok,
    ensures
        settle_outcome(before, ctx, now, derived).unwrap().records == before.records.remove(
            ctx.escrow,
        ),
{
    let record = before.records[ctx.escrow];
    let steps = settle_steps(
        record,
        DerivedAddress { address: ctx.escrow, bump: derived.unwrap().1 },
        settlement_of(record).unwrap(),
    );
    reveal_with_fuel(LedgerState::run_from, 9);
    let s1 = before.step(steps[0]).unwrap();
    let s2 = s1.step(steps[1]).unwrap();
    let s3 = s2.step(steps[2]).unwrap();
    let s4 = s3.step(steps[3]).unwrap();
    let s5 = s4.step(steps[4]).unwrap();
    let s6 = s5.step(steps[5]).unwrap();
    let s7 = s6.step(steps[6]).unwrap();
    lemma_step_records(before, steps[0]);
    lemma_step_records(s1, steps[1]);
    lemma_step_records(s2, steps[2]);
    lemma_step_records(s3, steps[3]);
    lemma_step_records(s4, steps[4]);
    lemma_step_records(s5, steps[5]);
    lemma_step_records(s6, steps[6]);
    lemma_step_records(s7, steps[7]);
}

/// Cancelling removes the record it is about, and leaves every other record
/// as it is.
pub proof fn lemma_cancel_removes_one_record(
    before: LedgerState,
    ctx: Cancel,
    derived: Option<(Seq<u8>, u8)>,
)
    requires
        cancel_outcome(before, ctx, derived) is Ok,
    ensures
        cancel_outcome(before, ctx, derived).unwrap().records == before.records.remove(
            ctx.escrow,
        ),
{
    let record = before.records[ctx.escrow];
    let steps = cancel_steps(
        record,
        DerivedAddress { address: ctx.escrow, bump: derived.unwrap().1 },
        before.holdings[holding(ctx.escrow, record.token_a)],
    );
    reveal_with_fuel(LedgerState::run_from, 4);
    let s1 = before.step(steps[0]).unwrap();
    let s2 = s1.step(steps[1]).unwrap();
    lemma_step_records(before, steps[0]);
    lemma_step_records(s1, steps[1]);
    lemma_step_records(s2, steps[2]);
}

/// Opening an escrow leaves alone whoever is no party to it: the holdings
/// of, and the record at, every address but the depositor's and the
/// escrow's own stay as they were. So every other escrow keeps its record
/// and what it has in custody.
pub proof fn lemma_open_leaves_others_alone(
    before: LedgerState,
    ctx: Init,
    data: InitFields,
    derived: Option<(Seq<u8>, u8)>,
    other: Address,
)
    requires
        open_outcome(before, ctx, data, derived) is Ok,
        other != ctx.escrow,
        other != ctx.from,
    ensures
        before.agrees_on(open_outcome(before, ctx, data, derived).unwrap(), other),
{
    lemma_run_leaves_alone(before, open_steps(ctx, data), 0, other);
}

/// Settling an escrow leaves alone whoever is no party to it: the holdings
/// of, and the record at, every address but the depositor's, the
/// counterparty's, the fee collector's and the escrow's own stay as they
/// were. So every other escrow keeps its record and what it has in custody.
pub proof fn lemma_settle_leaves_others_alone(
    before: LedgerState,
    ctx: Transfer,
    now: i64,
    derived: Option<(Seq<u8>, u8)>,
    other: Address,
)
    requires
        settle_outcome(before, ctx, now, derived) is Ok,
        other != ctx.escrow,
        other != ctx.recipient,
        other != ctx.payer,
        other != ctx.fee_vault,
    ensures
        before.agrees_on(settle_outcome(before, ctx, now, derived).unwrap(), other),
{
    let record = before.records[ctx.escrow];
    let steps = settle_steps(
        record,
        DerivedAddress { address: ctx.escrow, bump: derived.unwrap().1 },
        settlement_of(record).unwrap(),
    );
    lemma_run_leaves_alone(before, steps, 0, other);
}

/// Cancelling an escrow leaves alone whoever is no party to it: the
/// holdings of, and the record at, every address but the depositor's and the
/// escrow's own stay as they were. So every other escrow keeps its record
/// and what it has in custody.
pub proof fn lemma_cancel_leaves_others_alone(
    before: LedgerState,
    ctx: Cancel,
    derived: Option<(Seq<u8>, u8)>,
    other: Address,
)
    requires
        cancel_outcome(before, ctx, derived) is Ok,
        other != ctx.escrow,
        other != ctx.authority,
    ensures
        before.agrees_on(cancel_outcome(before, ctx, derived).unwrap(), other),
{
    let record = before.records[ctx.escrow];
    let steps = cancel_steps(
        record,
        DerivedAddress { address: ctx.escrow, bump: derived.unwrap().1 },
        before.holdings[holding(ctx.escrow, record.token_a)],
    );
    lemma_run_leaves_alone(before, steps, 0, other);
}

/// A settled escrow is closed for good: whatever is tried next at its
/// address, a settlement or a cancellation, finds no account there.
pub proof fn lemma_settled_is_closed(
    before: LedgerState,
    ctx: Transfer,
    now: i64,
    derived: Option<(Seq<u8>, u8)>,
    settle_again: Transfer,
    again_now: i64,
    settle_derived: Option<(Seq<u8>, u8)>,
    cancel_again: Cancel,
    cancel_derived: Option<(Seq<u8>, u8)>,
)
    requires
        settle_outcome(before, ctx, now, derived) is Ok,
        settle_again.escrow == ctx.escrow,
        cancel_again.escrow == ctx.escrow,
    ensures
        settle_outcome(
            settle_outcome(before, ctx, now, derived).unwrap(),
            settle_again,
            again_now,
            settle_derived,
        ) == Err::<LedgerState, Failure>(Failure::Ledger(LedgerError::AccountNotFound)),
        cancel_outcome(
            settle_outcome(before, ctx, now, derived).unwrap(),
            cancel_again,
            cancel_derived,
        ) == Err::<LedgerState, Failure>(Failure::Ledger(LedgerError::AccountNotFound)),
{
    lemma_settle_closes(before, ctx, now, derived);
}

/// A cancelled escrow is closed for good: whatever is tried next at its
/// address, a settlement or a cancellation, finds no account there.
pub proof fn lemma_cancelled_is_closed(
    before: LedgerState,
    ctx: Cancel,
    derived: Option<(Seq<u8>, u8)>,
    settle_again: Transfer,
    again_now: i64,
    settle_derived: Option<(Seq<u8>, u8)>,
    cancel_again: Cancel,
    cancel_derived: Option<(Seq<u8>, u8)>,
)
    requires
        cancel_outcome(before, ctx, derived) is Ok,
        settle_again.escrow == ctx.escrow,
        cancel_again.escrow == ctx.escrow,
    ensures
        settle_outcome(
            cancel_outcome(before, ctx, derived).unwrap(),
            settle_again,
            again_now,
            settle_derived,
        ) == Err::<LedgerState, Failure>(Failure::Ledger(LedgerError::AccountNotFound)),
        cancel_outcome(
            cancel_outcome(before, ctx, derived).unwrap(),
            cancel_again,
            cancel_derived,
        ) == Err::<LedgerState, Failure>(Failure::Ledger(LedgerError::AccountNotFound)),
{
    lemma_cancel_closes(before, ctx, derived);
}

} // verus!
