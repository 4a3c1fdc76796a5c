//! A two-party atomic-swap escrow over a token ledger.
//!
//! One party deposits a quantity of one asset, names the quantity of
//! another asset it wants in return, the counterparty and a deadline. The
//! escrow is then either settled by the counterparty (both sides exchange,
//! each leg paying a protocol fee) or cancelled by the depositor. Every
//! operation is atomic: it completes, or it leaves the ledger as it found it.
use vstd::prelude::*;

pub mod address;
pub mod constants;
pub mod error;
pub mod instructions;
pub mod ledger;
pub mod lifecycle;
pub mod state;
pub mod table;
pub mod utils;

use crate::address::{escrow_address, find_escrow_address, Address};
use crate::error::{EscrowError, Failure};
use crate::instructions::cancel::{cancel_outcome, process_cancel, Cancel};
use crate::instructions::init::{open_outcome, opened_record, process_init, Init, InitFields};
use crate::instructions::transfer::{process_transfer, settle_outcome, Transfer};
use crate::ledger::{applies, holding, Ledger, LedgerError};

verus! {

/// Opens an escrow for the depositor `ctx.from`: derives the address at
/// which the escrow of this depositor for this pair of assets lives, and
/// opens it there as `process_init` says.
pub fn init(ledger: &mut Ledger, ctx: &Init, data: &InitFields) -> (r: Result<(), Failure>)
    requires
        old(ledger).wf(),
    ensures
        final(ledger).wf(),
        applies(
            old(ledger)@,
            open_outcome(
                old(ledger)@,
                *ctx,
                *data,
                escrow_address(ctx.from, ctx.token_a, data.token_b),
            ),
            r,
            final(ledger)@,
        ),
        r is Ok ==> final(ledger)@.records.dom().contains(ctx.escrow)
            && final(ledger)@.records[ctx.escrow] == opened_record(*ctx, *data),
        r is Ok ==> final(ledger)@.holdings.dom().contains(holding(ctx.escrow, ctx.token_a))
            && final(ledger)@.holdings[holding(ctx.escrow, ctx.token_a)] == data.amount_a,
{
    let derived = find_escrow_address(&ctx.from, &ctx.token_a, &data.token_b);
    process_init(ledger, ctx, data, derived)
}

/// Settles the escrow at `ctx.escrow` at the time `now`: derives the
/// address at which the escrow of `ctx.recipient` for the pair of assets
/// that `ctx` names lives, and settles as `process_transfer` says.
pub fn transfer(ledger: &mut Ledger, ctx: &Transfer, now: i64) -> (r: Result<(), Failure>)
    requires
        old(ledger).wf(),
    ensures
        final(ledger).wf(),
        applies(
            old(ledger)@,
            settle_outcome(
                old(ledger)@,
                *ctx,
                now,
                escrow_address(ctx.recipient, ctx.token_a, ctx.token_b),
            ),
            r,
            final(ledger)@,
        ),
        !old(ledger)@.records.dom().contains(ctx.escrow) ==> r == Err::<(), Failure>(
            Failure::Ledger(LedgerError::AccountNotFound),
        ),
        old(ledger)@.records.dom().contains(ctx.escrow)
            && now > old(ledger)@.records[ctx.escrow].expiry
            ==> r == Err::<(), Failure>(Failure::Escrow(EscrowError::Expired))
            && final(ledger)@ == old(ledger)@,
        old(ledger)@.records.dom().contains(ctx.escrow)
            && now <= old(ledger)@.records[ctx.escrow].expiry
            && (ctx.token_a != old(ledger)@.records[ctx.escrow].token_a
            || ctx.token_b != old(ledger)@.records[ctx.escrow].token_b)
            ==> r == Err::<(), Failure>(Failure::Escrow(EscrowError::IncorrectMint))
            && final(ledger)@ == old(ledger)@,
        r is Ok ==> !final(ledger)@.records.dom().contains(ctx.escrow)
            && !final(ledger)@.holdings.dom().contains(holding(ctx.escrow, ctx.token_a)),
{
    let derived = find_escrow_address(&ctx.recipient, &ctx.token_a, &ctx.token_b);
    process_transfer(ledger, ctx, now, derived)
}

/// Cancels the escrow at `ctx.escrow`: derives the address at which the
/// escrow of the caller for the asset that `ctx` names and `token_b` lives,
/// and cancels as `process_cancel` says.
pub fn cancel(ledger: &mut Ledger, ctx: &Cancel, token_b: &Address) -> (r: Result<(), Failure>)
    requires
        old(ledger).wf(),
    ensures
        final(ledger).wf(),
        applies(
            old(ledger)@,
            cancel_outcome(
                old(ledger)@,
                *ctx,
                escrow_address(ctx.authority, ctx.token_a, *token_b),
            ),
            r,
            final(ledger)@,
        ),
        !old(ledger)@.records.dom().contains(ctx.escrow) ==> r == Err::<(), Failure>(
            Failure::Ledger(LedgerError::AccountNotFound),
        ),
        old(ledger)@.records.dom().contains(ctx.escrow)
            && ctx.authority != old(ledger)@.records[ctx.escrow].from
            ==> r == Err::<(), Failure>(Failure::Escrow(EscrowError::Unauthorised))
            && final(ledger)@ == old(ledger)@,
        old(ledger)@.records.dom().contains(ctx.escrow)
            && ctx.authority == old(ledger)@.records[ctx.escrow].from
            && ctx.token_a != old(ledger)@.records[ctx.escrow].token_a
            ==> r == Err::<(), Failure>(Failure::Escrow(EscrowError::IncorrectMint))
            && final(ledger)@ == old(ledger)@,
        r is Ok ==> !final(ledger)@.records.dom().contains(ctx.escrow)
            && !final(ledger)@.holdings.dom().contains(holding(ctx.escrow, ctx.token_a)),
{
    let derived = find_escrow_address(&ctx.authority, &ctx.token_a, token_b);
    process_cancel(ledger, ctx, derived)
}

} // verus!
