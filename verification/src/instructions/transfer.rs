//! Settling an escrow.
use vstd::prelude::*;
use crate::address::{confirm, derives, derived_view, fee_collector, fee_vault, Address, DerivedAddress};
use crate::constants::FEE;
use crate::error::{lifted, EscrowError, Failure};
use crate::ledger::{
    applies, holding, lemma_run_next, lemma_step_records, Authority, Ledger, LedgerError,
    LedgerState, Step,
};
use crate::state::Escrow;
use crate::utils::{lemma_parted, part, parted_at, Parted};

verus! {

/// Who settles an escrow, and what they say it is about.
#[derive(Clone, Copy, Debug)]
pub struct Transfer {
    /// The address of the escrow record.
    pub escrow: Address,
    /// The asset said to be in custody.
    pub token_a: Address,
    /// The asset said to be paid in return.
    pub token_b: Address,
    /// The caller, who signed the operation: the counterparty.
    pub payer: Address,
    /// The party said to be the depositor.
    pub recipient: Address,
    /// The identity said to collect the fees.
    pub fee_vault: Address,
}

/// The amounts of a settlement: each side's amount parted into the fee and
/// what the other party receives.
#[derive(Clone, Copy, Debug, PartialEq, Eq, Structural)]
pub struct Settlement {
    /// The custody amount: fee, and what the counterparty receives.
    pub a: Parted,
    /// The counterparty's payment: fee, and what the depositor receives.
    pub b: Parted,
}

/// The amounts by which `record` settles.
pub open spec fn settlement_of(record: Escrow) -> Result<Settlement, EscrowError> {
    match parted_at(record.amount_a, FEE) {
        Err(e) => Err(e),
        Ok(a) => match parted_at(record.amount_b, FEE) {
            Err(e) => Err(e),
            Ok(b) => Ok(Settlement { a, b }),
        },
    }
}

/// Computes the amounts by which `record` settles.
pub fn settlement(record: &Escrow) -> (r: Result<Settlement, EscrowError>)
    ensures
        r == settlement_of(*record),
{
    match part(record.amount_a) {
        Err(e) => Err(e),
        Ok(a) => match part(record.amount_b) {
            Err(e) => Err(e),
            Ok(b) => Ok(Settlement { a, b }),
        },
    }
}

/// The checks of a settlement against the record, in the order in which
/// they are made; the first that fails decides the error. `now` is the
/// current time, `derived` what deriving the escrow's address from the
/// depositor and the two assets named in `ctx` gave.
pub open spec fn settle_check(
    record: Escrow,
    ctx: Transfer,
    now: i64,
    derived: Option<(Seq<u8>, u8)>,
) -> Result<(), EscrowError> {
    if now > record.expiry {
        Err(EscrowError::Expired)
    } else if ctx.token_a != record.token_a || ctx.token_b != record.token_b {
        Err(EscrowError::IncorrectMint)
    } else if ctx.payer != record.to {
        Err(EscrowError::IncorrectAddress)
    } else if ctx.recipient != record.from {
        Err(EscrowError::IncorrectAddress)
    } else if ctx.fee_vault != fee_vault() {
        Err(EscrowError::IncorrectAddress)
    } else if !derives(derived, ctx.escrow) {
        Err(EscrowError::IncorrectAddress)
    } else {
        Ok(())
    }
}

/// Makes the checks of a settlement. Where all pass, the result is the
/// escrow's address with its bump seed: the authority over the custody
/// holding.
pub fn check_settle(
    record: &Escrow,
    ctx: &Transfer,
    now: i64,
    derived: Option<DerivedAddress>,
) -> (r: Result<DerivedAddress, EscrowError>)
    ensures
        match settle_check(*record, *ctx, now, derived_view(derived)) {
            Ok(_) => r is Ok && derived == Some(r.unwrap()) && r.unwrap().address == ctx.escrow,
            Err(e) => r == Err::<DerivedAddress, EscrowError>(e),
        },
{
    if now > record.expiry {
        return Err(EscrowError::Expired);
    }
    if ctx.token_a != record.token_a || ctx.token_b != record.token_b {
        return Err(EscrowError::IncorrectMint);
    }
    if ctx.payer != record.to {
        return Err(EscrowError::IncorrectAddress);
    }
    if ctx.recipient != record.from {
        return Err(EscrowError::IncorrectAddress);
    }
    if ctx.fee_vault != fee_collector() {
        return Err(EscrowError::IncorrectAddress);
    }
    match confirm(derived, &ctx.escrow) {
        None => Err(EscrowError::IncorrectAddress),
        Some(escrow) => Ok(escrow),
    }
}

/// The ledger steps of settling `record`, which lives at `escrow`, by the
/// amounts `legs`: make sure the two fee holdings exist; the fee on the
/// payment, from the counterparty; the fee on the custody amount, from
/// custody; the rest of the payment, to the depositor; the rest of the
/// custody amount, to the counterparty; then destroy the custody holding and
/// the record, the reserve of both going to the depositor.
pub open spec fn settle_steps(record: Escrow, escrow: DerivedAddress, legs: Settlement) -> Seq<
    Step,
> {
    seq![
        Step::EnsureHolding { payer: record.to, owner: fee_vault(), mint: record.token_a },
        Step::EnsureHolding { payer: record.to, owner: fee_vault(), mint: record.token_b },
        Step::Transfer {
            from: record.to,
            to: fee_vault(),
            mint: record.token_b,
            amount: legs.b.fee,
            authority: Authority::Signer(record.to),
        },
        Step::Transfer {
            from: escrow.address,
            to: fee_vault(),
            mint: record.token_a,
            amount: legs.a.fee,
            authority: Authority::Derived(escrow),
        },
        Step::Transfer {
            from: record.to,
            to: record.from,
            mint: record.token_b,
            amount: legs.b.remainder,
            authority: Authority::Signer(record.to),
        },
        Step::Transfer {
            from: escrow.address,
            to: record.to,
            mint: record.token_a,
            amount: legs.a.remainder,
            authority: Authority::Derived(escrow),
        },
        Step::CloseHolding {
            owner: escrow.address,
            mint: record.token_a,
            authority: Authority::Derived(escrow),
            refund_to: record.from,
        },
        Step::CloseRecord { address: escrow.address, refund_to: record.from },
    ]
}

/// The steps of settling, for the ledger to run.
pub fn settle_plan(record: &Escrow, escrow: &DerivedAddress, legs: &Settlement) -> (steps: Vec<
    Step,
>)
    ensures
        steps@ == settle_steps(*record, *escrow, *legs),
{
    let collector = fee_collector();
    let mut steps: Vec<Step> = Vec::new();
    steps.push(Step::EnsureHolding { payer: record.to, owner: collector, mint: record.token_a });
    steps.push(Step::EnsureHolding { payer: record.to, owner: collector, mint: record.token_b });
    steps.push(
        Step::Transfer {
            from: record.to,
            to: collector,
            mint: record.token_b,
            amount: legs.b.fee,
            authority: Authority::Signer(record.to),
        },
    );
    steps.push(
        Step::Transfer {
            from: escrow.address,
            to: collector,
            mint: record.token_a,
            amount: legs.a.fee,
            authority: Authority::Derived(*escrow),
        },
    );
    steps.push(
        Step::Transfer {
            from: record.to,
            to: record.from,
            mint: record.token_b,
            amount: legs.b.remainder,
            authority: Authority::Signer(record.to),
        },
    );
    steps.push(
        Step::Transfer {
            from: escrow.address,
            to: record.to,
            mint: record.token_a,
            amount: legs.a.remainder,
            authority: Authority::Derived(*escrow),
        },
    );
    steps.push(
        Step::CloseHolding {
            owner: escrow.address,
            mint: record.token_a,
            authority: Authority::Derived(*escrow),
            refund_to: record.from,
        },
    );
    steps.push(Step::CloseRecord { address: escrow.address, refund_to: record.from });
    assert(steps@ =~= settle_steps(*record, *escrow, *legs));
    steps
}

/// What settling does to the ledger `before`: the record must live at
/// `ctx.escrow`, the checks must pass, the fees must be computable, and the
/// ledger must accept every step.
pub open spec fn settle_outcome(
    before: LedgerState,
    ctx: Transfer,
    now: i64,
    derived: Option<(Seq<u8>, u8)>,
) -> Result<LedgerState, Failure> {
    if !before.records.dom().contains(ctx.escrow) {
        Err(Failure::Ledger(LedgerError::AccountNotFound))
    } else {
        let record = before.records[ctx.escrow];
        match settle_check(record, ctx, now, derived) {
            Err(e) => Err(Failure::Escrow(e)),
            Ok(_) => match settlement_of(record) {
                Err(e) => Err(Failure::Escrow(e)),
                Ok(legs) => lifted(
                    before.run(
                        settle_steps(
                            record,
                            DerivedAddress { address: ctx.escrow, bump: derived.unwrap().1 },
                            legs,
                        ),
                    ),
                ),
            },
        }
    }
}

/// After a settlement neither the escrow record nor its custody holding
/// exists.
pub proof fn lemma_settle_closes(
    before: LedgerState,
    ctx: Transfer,
    now: i64,
    derived: Option<(Seq<u8>, u8)>,
)
    requires
        settle_outcome(before, ctx, now, derived) is Ok,
    ensures
        ({
            let after = settle_outcome(before, ctx, now, derived).unwrap();
            &&& !after.records.dom().contains(ctx.escrow)
            &&& !after.holdings.dom().contains(holding(ctx.escrow, ctx.token_a))
        }),
{
    reveal_with_fuel(LedgerState::run_from, 9);
}

/// What a settlement moves, where depositor, counterparty, fee collector
/// and the escrow's own address are four identities and the two assets
/// differ. Custody held exactly the amount of the record. The fee on each
/// amount goes to the fee collector; the rest of the
/// custody amount goes to the counterparty, the rest of the payment to the
/// depositor; the counterparty has paid the whole payment. Custody and
/// record are gone, and no other holding or record changes.
pub proof fn lemma_settle_moves(
    before: LedgerState,
    ctx: Transfer,
    now: i64,
    derived: Option<(Seq<u8>, u8)>,
)
    requires
        settle_outcome(before, ctx, now, derived) is Ok,
        ctx.recipient != ctx.payer,
        ctx.recipient != ctx.fee_vault,
        ctx.recipient != ctx.escrow,
        ctx.payer != ctx.fee_vault,
        ctx.payer != ctx.escrow,
        ctx.fee_vault != ctx.escrow,
        ctx.token_a != ctx.token_b,
    ensures
        ({
            let after = settle_outcome(before, ctx, now, derived).unwrap();
            let record = before.records[ctx.escrow];
            let fee_a = record.amount_a as int / (FEE * 100);
            let fee_b = record.amount_b as int / (FEE * 100);
            let custody = holding(ctx.escrow, ctx.token_a);
            let fees_a = holding(ctx.fee_vault, ctx.token_a);
            let fees_b = holding(ctx.fee_vault, ctx.token_b);
            let paid_from = holding(ctx.payer, ctx.token_b);
            let paid_to = holding(ctx.recipient, ctx.token_b);
            let delivered_to = holding(ctx.payer, ctx.token_a);
            &&& now <= record.expiry
            &&& before.holdings.dom().contains(custody)
            &&& before.holdings[custody] == record.amount_a
            &&& before.holdings.dom().contains(paid_from)
            &&& before.holdings.dom().contains(paid_to)
            &&& before.holdings.dom().contains(delivered_to)
            &&& before.holdings[paid_from] >= record.amount_b
            &&& after.holdings == before.holdings.insert(
                fees_a,
                (before.balance_of(ctx.fee_vault, ctx.token_a) + fee_a) as u64,
            ).insert(fees_b, (before.balance_of(ctx.fee_vault, ctx.token_b) + fee_b) as u64).insert(
                paid_from,
                (before.holdings[paid_from] - record.amount_b) as u64,
            ).insert(paid_to, (before.holdings[paid_to] + record.amount_b - fee_b) as u64).insert(
                delivered_to,
                (before.holdings[delivered_to] + record.amount_a - fee_a) as u64,
            ).remove(custody)
            &&& after.records == before.records.remove(ctx.escrow)
            &&& after.deposit == before.deposit
        }),
{
    let after = settle_outcome(before, ctx, now, derived).unwrap();
    let record = before.records[ctx.escrow];
    let escrow = DerivedAddress { address: ctx.escrow, bump: derived.unwrap().1 };
    let legs = settlement_of(record).unwrap();
    let steps = settle_steps(record, escrow, legs);
    lemma_parted(record.amount_a, FEE);
    lemma_parted(record.amount_b, FEE);
    let custody = holding(ctx.escrow, ctx.token_a);
    let fees_a = holding(ctx.fee_vault, ctx.token_a);
    let fees_b = holding(ctx.fee_vault, ctx.token_b);
    let paid_from = holding(ctx.payer, ctx.token_b);
    let paid_to = holding(ctx.recipient, ctx.token_b);
    let delivered_to = holding(ctx.payer, ctx.token_a);
    let h0 = before.holdings;

    lemma_run_next(before, steps, 0);
    let s1 = before.step(steps[0]).unwrap();
    let h1 = if h0.dom().contains(fees_a) {
        h0
    } else {
        h0.insert(fees_a, 0)
    };
    assert(s1.holdings == h1);

    lemma_run_next(s1, steps, 1);
    let s2 = s1.step(steps[1]).unwrap();
    let h2 = if h1.dom().contains(fees_b) {
        h1
    } else {
        h1.insert(fees_b, 0)
    };
    assert(s2.holdings == h2);

    lemma_run_next(s2, steps, 2);
    let s3 = s2.step(steps[2]).unwrap();
    let h3 = h2.insert(paid_from, (h2[paid_from] - legs.b.fee) as u64).insert(
        fees_b,
        (h2[fees_b] + legs.b.fee) as u64,
    );
    assert(s3.holdings == h3);

    lemma_run_next(s3, steps, 3);
    let s4 = s3.step(steps[3]).unwrap();
    let h4 = h3.insert(custody, (h3[custody] - legs.a.fee) as u64).insert(
        fees_a,
        (h3[fees_a] + legs.a.fee) as u64,
    );
    assert(s4.holdings == h4);

    lemma_run_next(s4, steps, 4);
    let s5 = s4.step(steps[4]).unwrap();
    let h5 = h4.insert(paid_from, (h4[paid_from] - legs.b.remainder) as u64).insert(
        paid_to,
        (h4[paid_to] + legs.b.remainder) as u64,
    );
    assert(s5.holdings == h5);

    lemma_run_next(s5, steps, 5);
    let s6 = s5.step(steps[5]).unwrap();
    let h6 = h5.insert(custody, (h5[custody] - legs.a.remainder) as u64).insert(
        delivered_to,
        (h5[delivered_to] + legs.a.remainder) as u64,
    );
    assert(s6.holdings == h6);

    lemma_run_next(s6, steps, 6);
    let s7 = s6.step(steps[6]).unwrap();
    assert(h6[custody] == 0);
    assert(s7.holdings == h6.remove(custody));

    lemma_run_next(s7, steps, 7);
    let s8 = s7.step(steps[7]).unwrap();
    assert(s8.holdings == s7.holdings);
    assert(after == s8);

    assert(h0[custody] == record.amount_a);
    assert(after.holdings =~= h0.insert(
        fees_a,
        (before.balance_of(ctx.fee_vault, ctx.token_a) + legs.a.fee) as u64,
    ).insert(fees_b, (before.balance_of(ctx.fee_vault, ctx.token_b) + legs.b.fee) as u64).insert(
        paid_from,
        (h0[paid_from] - record.amount_b) as u64,
    ).insert(paid_to, (h0[paid_to] + record.amount_b - legs.b.fee) as u64).insert(
        delivered_to,
        (h0[delivered_to] + record.amount_a - legs.a.fee) as u64,
    ).remove(custody));
    lemma_step_records(before, steps[0]);
    lemma_step_records(s1, steps[1]);
    lemma_step_records(s2, steps[2]);
    lemma_step_records(s3, steps[3]);
    lemma_step_records(s4, steps[4]);
    lemma_step_records(s5, steps[5]);
    lemma_step_records(s6, steps[6]);
    lemma_step_records(s7, steps[7]);
}

/// What a settlement does to the reserve funds, where depositor and
/// counterparty are two identities and the two assets differ: the reserve of
/// the custody holding and of the record goes to the depositor, the
/// counterparty has put up the reserve of each fee holding that did not
/// exist, and nobody else's funds change.
pub proof fn lemma_settle_refunds(
    before: LedgerState,
    ctx: Transfer,
    now: i64,
    derived: Option<(Seq<u8>, u8)>,
)
    requires
        settle_outcome(before, ctx, now, derived) is Ok,
        ctx.recipient != ctx.payer,
        ctx.token_a != ctx.token_b,
    ensures
        ({
            let after = settle_outcome(before, ctx, now, derived).unwrap();
            let backed_a: int = if before.holdings.dom().contains(
                holding(ctx.fee_vault, ctx.token_a),
            ) {
                0
            } else {
                before.deposit as int
            };
            let backed_b: int = if before.holdings.dom().contains(
                holding(ctx.fee_vault, ctx.token_b),
            ) {
                0
            } else {
                before.deposit as int
            };
            &&& after.funds_of(ctx.recipient) == before.funds_of(ctx.recipient) + 2
                * before.deposit
            &&& after.funds_of(ctx.payer) == before.funds_of(ctx.payer) - backed_a - backed_b
            &&& forall|who: Address|
                who != ctx.recipient && who != ctx.payer ==> after.funds_of(who)
                    == before.funds_of(who)
            &&& after.deposit == before.deposit
        }),
{
    reveal_with_fuel(LedgerState::run_from, 9);
    let after = settle_outcome(before, ctx, now, derived).unwrap();
    let record = before.records[ctx.escrow];
    let escrow = DerivedAddress { address: ctx.escrow, bump: derived.unwrap().1 };
    let legs = settlement_of(record).unwrap();
    let steps = settle_steps(record, escrow, legs);
    let s1 = before.step(steps[0]).unwrap();
    let s2 = s1.step(steps[1]).unwrap();
    let s3 = s2.step(steps[2]).unwrap();
    let s4 = s3.step(steps[3]).unwrap();
    let s5 = s4.step(steps[4]).unwrap();
    let s6 = s5.step(steps[5]).unwrap();
    let s7 = s6.step(steps[6]).unwrap();
    let s8 = s7.step(steps[7]).unwrap();
    assert(after == s8);
    assert(s1.holdings.dom().contains(holding(ctx.fee_vault, ctx.token_b))
        == before.holdings.dom().contains(holding(ctx.fee_vault, ctx.token_b)));
    assert(s3.funds == s2.funds);
    assert(s4.funds == s3.funds);
    assert(s5.funds == s4.funds);
    assert(s6.funds == s5.funds);
    assert(s7.funds == s6.funds.insert(
        ctx.recipient,
        (s6.funds_of(ctx.recipient) + before.deposit) as u64,
    ));
    assert(s8.funds == s7.funds.insert(
        ctx.recipient,
        (s7.funds_of(ctx.recipient) + before.deposit) as u64,
    ));
}

/// Settles the escrow at `ctx.escrow` at the time `now`: the counterparty
/// pays, custody is paid out, each leg less the protocol fee, and the
/// custody holding and the record are destroyed. `derived` is the address
/// derived for the depositor and pair of assets that `ctx` names. Either all
/// of it happens or nothing.
pub fn process_transfer(
    ledger: &mut Ledger,
    ctx: &Transfer,
    now: i64,
    derived: Option<DerivedAddress>,
) -> (r: Result<(), Failure>)
    requires
        old(ledger).wf(),
    ensures
        final(ledger).wf(),
        applies(
            old(ledger)@,
            settle_outcome(old(ledger)@, *ctx, now, derived_view(derived)),
            r,
            final(ledger)@,
        ),
        !old(ledger)@.records.dom().contains(ctx.escrow) ==> r == Err::<(), Failure>(
            Failure::Ledger(LedgerError::AccountNotFound),
        ),
        old(ledger)@.records.dom().contains(ctx.escrow)
            && now > old(ledger)@.records[ctx.escrow].expiry
            ==> r == Err::<(), Failure>(Failure::Escrow(EscrowError::Expired))
            && final(ledger)@ == old(ledger)@,
        old(ledger)@.records.dom().contains(ctx.escrow)
            && now <= old(ledger)@.records[ctx.escrow].expiry
            && (ctx.token_a != old(ledger)@.records[ctx.escrow].token_a
            || ctx.token_b != old(ledger)@.records[ctx.escrow].token_b)
            ==> r == Err::<(), Failure>(Failure::Escrow(EscrowError::IncorrectMint))
            && final(ledger)@ == old(ledger)@,
        r is Ok ==> !final(ledger)@.records.dom().contains(ctx.escrow)
            && !final(ledger)@.holdings.dom().contains(holding(ctx.escrow, ctx.token_a)),
{
    let record = match ledger.record(&ctx.escrow) {
        None => { return Err(Failure::Ledger(LedgerError::AccountNotFound)); },
        Some(record) => record,
    };
    let escrow = match check_settle(&record, ctx, now, derived) {
        Err(e) => { return Err(Failure::Escrow(e)); },
        Ok(escrow) => escrow,
    };
    let legs = match settlement(&record) {
        Err(e) => { return Err(Failure::Escrow(e)); },
        Ok(legs) => legs,
    };
    let steps = settle_plan(&record, &escrow, &legs);
    match ledger.run(&steps) {
        Err(e) => Err(Failure::Ledger(e)),
        Ok(()) => {
            proof {
                lemma_settle_closes(old(ledger)@, *ctx, now, derived_view(derived));
            }
            Ok(())
        },
    }
}

} // verus!
