//! Opening an escrow.
use vstd::prelude::*;
use crate::address::{confirm, derives, derived_view, Address, DerivedAddress};
use crate::error::{lifted, EscrowError, Failure};
use crate::ledger::{applies, holding, Authority, Ledger, LedgerState, Step};
use crate::state::Escrow;

verus! {

/// Who opens an escrow, and where.
#[derive(Clone, Copy, Debug)]
pub struct Init {
    /// The depositor, who signed the operation.
    pub from: Address,
    /// The address at which the escrow record is to live.
    pub escrow: Address,
    /// The asset the depositor puts up.
    pub token_a: Address,
}

/// The terms of a new escrow.
#[derive(Clone, Copy, Debug)]
pub struct InitFields {
    /// The counterparty.
    pub to: Address,
    /// The asset wanted in return.
    pub token_b: Address,
    /// How much of the depositor's asset goes into custody.
    pub amount_a: u64,
    /// How much of the other asset the counterparty is to pay.
    pub amount_b: u64,
    /// The last moment at which the escrow can be settled.
    pub expiry: i64,
}

/// The record that opening writes.
pub open spec fn opened_record(ctx: Init, data: InitFields) -> Escrow {
    Escrow {
        from: ctx.from,
        to: data.to,
        token_a: ctx.token_a,
        token_b: data.token_b,
        amount_a: data.amount_a,
        amount_b: data.amount_b,
        expiry: data.expiry,
    }
}

/// The ledger steps of opening: store the record, create the custody
/// holding under the escrow's address, and move the deposit into it.
pub open spec fn open_steps(ctx: Init, data: InitFields) -> Seq<Step> {
    seq![
        Step::CreateRecord {
            payer: ctx.from,
            address: ctx.escrow,
            escrow: opened_record(ctx, data),
        },
        Step::OpenHolding { payer: ctx.from, owner: ctx.escrow, mint: ctx.token_a },
        Step::Transfer {
            from: ctx.from,
            to: ctx.escrow,
            mint: ctx.token_a,
            amount: data.amount_a,
            authority: Authority::Signer(ctx.from),
        },
    ]
}

/// What opening does to the ledger `before`, where `derived` is what
/// deriving the escrow's address from the depositor and the two assets gave.
pub open spec fn open_outcome(
    before: LedgerState,
    ctx: Init,
    data: InitFields,
    derived: Option<(Seq<u8>, u8)>,
) -> Result<LedgerState, Failure> {
    if !derives(derived, ctx.escrow) {
        Err(Failure::Escrow(EscrowError::IncorrectAddress))
    } else {
        lifted(before.run(open_steps(ctx, data)))
    }
}

/// After an escrow was opened, its record is on the ledger as written, and
/// the custody holding exists and holds exactly the amount deposited.
pub proof fn lemma_open_funds_custody(
    before: LedgerState,
    ctx: Init,
    data: InitFields,
    derived: Option<(Seq<u8>, u8)>,
)
    requires
        open_outcome(before, ctx, data, derived) is Ok,
    ensures
        ({
            let after = open_outcome(before, ctx, data, derived).unwrap();
            &&& after.records.dom().contains(ctx.escrow)
            &&& after.records[ctx.escrow] == opened_record(ctx, data)
            &&& after.holdings.dom().contains(holding(ctx.escrow, ctx.token_a))
            &&& after.holdings[holding(ctx.escrow, ctx.token_a)] == data.amount_a
        }),
{
    reveal_with_fuel(LedgerState::run_from, 4);
}

/// What opening moves, where the depositor is not the escrow's own address:
/// the amount deposited leaves the depositor's holding, the reserve of the
/// record and of the custody holding leaves the depositor's funds, and
/// nothing else on the ledger changes.
pub proof fn lemma_open_moves(
    before: LedgerState,
    ctx: Init,
    data: InitFields,
    derived: Option<(Seq<u8>, u8)>,
)
    requires
        open_outcome(before, ctx, data, derived) is Ok,
        ctx.from != ctx.escrow,
    ensures
        ({
            let after = open_outcome(before, ctx, data, derived).unwrap();
            let custody = holding(ctx.escrow, ctx.token_a);
            let source = holding(ctx.from, ctx.token_a);
            &&& !before.records.dom().contains(ctx.escrow)
            &&& !before.holdings.dom().contains(custody)
            &&& after.records == before.records.insert(ctx.escrow, opened_record(ctx, data))
            &&& before.holdings.dom().contains(source)
            &&& before.holdings[source] >= data.amount_a
            &&& after.holdings == before.holdings.insert(custody, data.amount_a).insert(
                source,
                (before.holdings[source] - data.amount_a) as u64,
            )
            &&& before.funds_of(ctx.from) >= 2 * before.deposit
            &&& after.funds == before.funds.insert(
                ctx.from,
                (before.funds_of(ctx.from) - 2 * before.deposit) as u64,
            )
            &&& after.deposit == before.deposit
        }),
{
    reveal_with_fuel(LedgerState::run_from, 4);
    let after = open_outcome(before, ctx, data, derived).unwrap();
    let custody = holding(ctx.escrow, ctx.token_a);
    let source = holding(ctx.from, ctx.token_a);
    assert(after.holdings =~= before.holdings.insert(custody, data.amount_a).insert(
        source,
        (before.holdings[source] - data.amount_a) as u64,
    ));
    assert(after.funds =~= before.funds.insert(
        ctx.from,
        (before.funds_of(ctx.from) - 2 * before.deposit) as u64,
    ));
}

/// The steps of opening, for the ledger to run.
pub fn init_plan(ctx: &Init, data: &InitFields) -> (steps: Vec<Step>)
    ensures
        steps@ == open_steps(*ctx, *data),
{
    let record = Escrow {
        from: ctx.from,
        to: data.to,
        token_a: ctx.token_a,
        token_b: data.token_b,
        amount_a: data.amount_a,
        amount_b: data.amount_b,
        expiry: data.expiry,
    };
    let mut steps: Vec<Step> = Vec::new();
    steps.push(Step::CreateRecord { payer: ctx.from, address: ctx.escrow, escrow: record });
    steps.push(Step::OpenHolding { payer: ctx.from, owner: ctx.escrow, mint: ctx.token_a });
    steps.push(
        Step::Transfer {
            from: ctx.from,
            to: ctx.escrow,
            mint: ctx.token_a,
            amount: data.amount_a,
            authority: Authority::Signer(ctx.from),
        },
    );
    assert(steps@ =~= open_steps(*ctx, *data));
    steps
}

/// Opens an escrow: writes the record at `ctx.escrow`, creates the custody
/// holding and moves `data.amount_a` of the depositor's asset into it.
/// `derived` is the address derived for this depositor and pair of assets;
/// the escrow can live nowhere else. Either all of it happens or nothing.
pub fn process_init(
    ledger: &mut Ledger,
    ctx: &Init,
    data: &InitFields,
    derived: Option<DerivedAddress>,
) -> (r: Result<(), Failure>)
    requires
        old(ledger).wf(),
    ensures
        final(ledger).wf(),
        applies(
            old(ledger)@,
            open_outcome(old(ledger)@, *ctx, *data, derived_view(derived)),
            r,
            final(ledger)@,
        ),
        r is Ok ==> final(ledger)@.records.dom().contains(ctx.escrow)
            && final(ledger)@.records[ctx.escrow] == opened_record(*ctx, *data),
        r is Ok ==> final(ledger)@.holdings.dom().contains(holding(ctx.escrow, ctx.token_a))
            && final(ledger)@.holdings[holding(ctx.escrow, ctx.token_a)] == data.amount_a,
{
    if confirm(derived, &ctx.escrow).is_none() {
        return Err(Failure::Escrow(EscrowError::IncorrectAddress));
    }
    let steps = init_plan(ctx, data);
    match ledger.run(&steps) {
        Err(e) => Err(Failure::Ledger(e)),
        Ok(()) => {
            proof {
                lemma_open_funds_custody(old(ledger)@, *ctx, *data, derived_view(derived));
            }
            Ok(())
        },
    }
}

} // verus!
