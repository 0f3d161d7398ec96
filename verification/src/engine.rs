//! The distribution engine: which transfers one tip gives rise to.
//!
//! Every line of the payee's split table receives its percentage of the tip,
//! rounded down; lines whose part rounds down to nothing are passed over.
//! What is left, rounding dust included, goes to the payee.

use vstd::prelude::*;
use crate::registry::{
    lemma_line_within_total, lemma_total_percentage_prefix, total_percentage,
    valid_configuration, SplitRegistry,
};
use crate::types::{
    split_views, transfer_views, AccountId, RoyaltySplitView, Transfer, TransferView,
    BASIS_POINTS,
};

verus! {

/// The part of `amount` that `percentage` basis points stand for, rounded
/// down.
pub open spec fn share(amount: int, percentage: nat) -> int {
    amount * percentage / 10000
}

/// What a line of `percentage` basis points is paid out of `amount`: its
/// share, or nothing where the share is not positive.
pub open spec fn issued_share(amount: int, percentage: nat) -> int {
    if share(amount, percentage) > 0 {
        share(amount, percentage)
    } else {
        0
    }
}

/// What rounding down takes from a line's exact part, in ten-thousandths.
pub open spec fn line_dust(amount: int, percentage: nat) -> int {
    amount * percentage % 10000
}

/// The sum of what the lines of `splits` are paid out of `amount`.
pub open spec fn shares_total(amount: int, splits: Seq<RoyaltySplitView>) -> int
    decreases splits.len(),
{
    if splits.len() == 0 {
        0
    } else {
        shares_total(amount, splits.drop_last()) + issued_share(amount, splits.last().percentage)
    }
}

/// The rounding dust of all lines of `splits`, in ten-thousandths.
pub open spec fn dust(amount: int, splits: Seq<RoyaltySplitView>) -> int
    decreases splits.len(),
{
    if splits.len() == 0 {
        0
    } else {
        dust(amount, splits.drop_last()) + line_dust(amount, splits.last().percentage)
    }
}

/// What is left of `amount` for the payee once the lines of `splits` are
/// paid.
pub open spec fn remainder(amount: int, splits: Seq<RoyaltySplitView>) -> int {
    amount - shares_total(amount, splits)
}

/// The transfer that pays `amount` of `token` from `sender` to `to`.
pub open spec fn payment(token: Seq<char>, sender: Seq<char>, to: Seq<char>, amount: int)
    -> TransferView {
    TransferView { token, from: sender, to, amount }
}

/// The transfers to the recipients of `splits`, in the order of the table.
pub open spec fn split_transfers(
    token: Seq<char>,
    sender: Seq<char>,
    amount: int,
    splits: Seq<RoyaltySplitView>,
) -> Seq<TransferView>
    decreases splits.len(),
{
    if splits.len() == 0 {
        Seq::empty()
    } else {
        let before = split_transfers(token, sender, amount, splits.drop_last());
        let line = splits.last();
        if share(amount, line.percentage) > 0 {
            before.push(payment(token, sender, line.recipient, share(amount, line.percentage)))
        } else {
            before
        }
    }
}

/// All transfers of one tip, in the order of issue. A payee without a table
/// is paid the tip as it is. With a table, its lines are paid first and the
/// payee is paid the remainder, where one is left.
pub open spec fn transfers(
    token: Seq<char>,
    sender: Seq<char>,
    payee: Seq<char>,
    amount: int,
    configuration: Option<Seq<RoyaltySplitView>>,
) -> Seq<TransferView> {
    match configuration {
        None => seq![payment(token, sender, payee, amount)],
        Some(splits) => {
            let to_recipients = split_transfers(token, sender, amount, splits);
            if remainder(amount, splits) > 0 {
                to_recipients.push(payment(token, sender, payee, remainder(amount, splits)))
            } else {
                to_recipients
            }
        },
    }
}

/// The sum of the amounts of a list of transfers.
pub open spec fn total_amount(transfers: Seq<TransferView>) -> int
    decreases transfers.len(),
{
    if transfers.len() == 0 {
        0
    } else {
        total_amount(transfers.drop_last()) + transfers.last().amount
    }
}

/// Of a tip that is not negative, the lines' payments and their dust make up
/// exactly the table's percentage of the tip.
pub proof fn lemma_shares_and_dust(amount: int, splits: Seq<RoyaltySplitView>)
    requires
        amount >= 0,
    ensures
        10000 * shares_total(amount, splits) + dust(amount, splits) == amount * total_percentage(
            splits,
        ),
        dust(amount, splits) >= 0,
        shares_total(amount, splits) >= 0,
    decreases splits.len(),
{
    if splits.len() == 0 {
        assert(amount * 0 == 0);
    } else {
        let rest = splits.drop_last();
        let p = splits.last().percentage;
        lemma_shares_and_dust(amount, rest);
        let exact = amount * p;
        assert(exact >= 0) by (nonlinear_arith)
            requires
                exact == amount * p,
                amount >= 0,
                p >= 0,
        ;
        assert(exact == 10000 * (exact / 10000) + exact % 10000);
        assert(issued_share(amount, p) == exact / 10000);
        assert(line_dust(amount, p) == exact % 10000);
        assert(amount * (total_percentage(rest) + p) == amount * total_percentage(rest) + amount
            * p) by (nonlinear_arith);
    }
}

/// The lines of a valid table never receive more than the tip.
pub proof fn lemma_shares_within_amount(amount: int, splits: Seq<RoyaltySplitView>)
    requires
        amount >= 0,
        valid_configuration(splits),
    ensures
        0 <= shares_total(amount, splits) <= amount,
        remainder(amount, splits) >= 0,
{
    lemma_shares_and_dust(amount, splits);
    let total = total_percentage(splits);
    assert(amount * total <= amount * 10000) by (nonlinear_arith)
        requires
            amount >= 0,
            total <= 10000,
    ;
}

/// Of a tip that is not positive no line receives anything.
pub proof fn lemma_nothing_to_share(
    token: Seq<char>,
    sender: Seq<char>,
    amount: int,
    splits: Seq<RoyaltySplitView>,
)
    requires
        amount <= 0,
    ensures
        shares_total(amount, splits) == 0,
        split_transfers(token, sender, amount, splits) == Seq::<TransferView>::empty(),
    decreases splits.len(),
{
    if splits.len() > 0 {
        let p = splits.last().percentage;
        lemma_nothing_to_share(token, sender, amount, splits.drop_last());
        assert(amount * p <= 0) by (nonlinear_arith)
            requires
                amount <= 0,
                p >= 0,
        ;
    }
}

/// The transfers to the recipients add up to what the lines are paid.
pub proof fn lemma_split_transfers_total(
    token: Seq<char>,
    sender: Seq<char>,
    amount: int,
    splits: Seq<RoyaltySplitView>,
)
    ensures
        total_amount(split_transfers(token, sender, amount, splits)) == shares_total(
            amount,
            splits,
        ),
    decreases splits.len(),
{
    if splits.len() > 0 {
        let before = split_transfers(token, sender, amount, splits.drop_last());
        let line = splits.last();
        lemma_split_transfers_total(token, sender, amount, splits.drop_last());
        if share(amount, line.percentage) > 0 {
            let paid = payment(token, sender, line.recipient, share(amount, line.percentage));
            assert(before.push(paid).drop_last() =~= before);
        }
    }
}

/// Conservation: the transfers of a tip that is not negative add up to the
/// tip, whether the payee has no table or any valid one.
pub proof fn lemma_transfers_conserve_amount(
    token: Seq<char>,
    sender: Seq<char>,
    payee: Seq<char>,
    amount: int,
    configuration: Option<Seq<RoyaltySplitView>>,
)
    requires
        amount >= 0,
        configuration is Some ==> valid_configuration(configuration->Some_0),
    ensures
        total_amount(transfers(token, sender, payee, amount, configuration)) == amount,
{
    match configuration {
        None => {
            let only = seq![payment(token, sender, payee, amount)];
            assert(only.drop_last() =~= Seq::<TransferView>::empty());
            assert(total_amount(only.drop_last()) == 0);
        },
        Some(splits) => {
            let to_recipients = split_transfers(token, sender, amount, splits);
            lemma_split_transfers_total(token, sender, amount, splits);
            lemma_shares_within_amount(amount, splits);
            if remainder(amount, splits) > 0 {
                let last = payment(token, sender, payee, remainder(amount, splits));
                assert(to_recipients.push(last).drop_last() =~= to_recipients);
            }
        },
    }
}

/// What the payee is paid in a transfer of its own: the remainder, where one
/// is left.
pub open spec fn payee_part(amount: int, splits: Seq<RoyaltySplitView>) -> int {
    if remainder(amount, splits) > 0 {
        remainder(amount, splits)
    } else {
        0
    }
}

/// Where no line loses anything to rounding, the table has no dust.
proof fn lemma_no_dust(amount: int, splits: Seq<RoyaltySplitView>)
    requires
        forall|i: int|
            0 <= i < splits.len() ==> line_dust(amount, (#[trigger] splits[i]).percentage) == 0,
    ensures
        dust(amount, splits) == 0,
    decreases splits.len(),
{
    if splits.len() > 0 {
        let rest = splits.drop_last();
        assert forall|i: int| 0 <= i < rest.len() implies line_dust(
            amount,
            (#[trigger] rest[i]).percentage,
        ) == 0 by {
            assert(rest[i] == splits[i]);
        }
        lemma_no_dust(amount, rest);
        assert(splits.last() == splits[splits.len() - 1]);
    }
}

/// A table that gives everything away, on a tip that it divides without
/// rounding, leaves nothing: the payee gets no transfer of its own.
pub proof fn lemma_exact_table_leaves_nothing(
    token: Seq<char>,
    sender: Seq<char>,
    payee: Seq<char>,
    amount: int,
    splits: Seq<RoyaltySplitView>,
)
    requires
        total_percentage(splits) == 10000,
        forall|i: int|
            0 <= i < splits.len() ==> line_dust(amount, (#[trigger] splits[i]).percentage) == 0,
    ensures
        amount >= 0 ==> remainder(amount, splits) == 0,
        payee_part(amount, splits) == 0,
        transfers(token, sender, payee, amount, Some(splits)) == split_transfers(
            token,
            sender,
            amount,
            splits,
        ),
{
    if amount >= 0 {
        lemma_no_dust(amount, splits);
        lemma_shares_and_dust(amount, splits);
    } else {
        lemma_nothing_to_share(token, sender, amount, splits);
    }
}

/// The payee of a valid table is paid at least the part of the tip that the
/// table does not give away. Of a tip that is not negative the payee is paid
/// exactly that part and the rounding dust of all lines.
pub proof fn lemma_payee_keeps_complement(amount: int, splits: Seq<RoyaltySplitView>)
    requires
        valid_configuration(splits),
    ensures
        payee_part(amount, splits) >= share(amount, (10000 - total_percentage(splits)) as nat),
        amount >= 0 ==> 10000 * payee_part(amount, splits) == amount * (10000 - total_percentage(
            splits,
        )) + dust(amount, splits),
        amount >= 0 ==> dust(amount, splits) >= 0,
{
    let total = total_percentage(splits);
    let left = (10000 - total) as nat;
    if amount >= 0 {
        lemma_shares_and_dust(amount, splits);
        lemma_shares_within_amount(amount, splits);
        assert(amount * left == amount * 10000 - amount * total) by (nonlinear_arith)
            requires
                left == 10000 - total,
        ;
    } else {
        assert(amount * left <= 0) by (nonlinear_arith)
            requires
                amount < 0,
                left >= 0,
        ;
    }
}

/// An empty table is as good as none: a positive tip goes to the payee
/// whole.
pub proof fn lemma_empty_table_pays_payee(
    token: Seq<char>,
    sender: Seq<char>,
    payee: Seq<char>,
    amount: int,
)
    requires
        amount > 0,
    ensures
        transfers(token, sender, payee, amount, Some(Seq::<RoyaltySplitView>::empty()))
            == transfers(token, sender, payee, amount, None),
{
    let none = Seq::<RoyaltySplitView>::empty();
    assert(transfers(token, sender, payee, amount, Some(none)) =~= transfers(
        token,
        sender,
        payee,
        amount,
        None,
    ));
}

/// The share of a positive amount.
fn positive_share(amount: i128, percentage: u32) -> (part: i128)
    requires
        amount > 0,
        percentage <= BASIS_POINTS,
    ensures
        part == share(amount as int, percentage as nat),
        0 <= part <= amount,
{
    let whole: i128 = amount / 10000;
    let rest: i128 = amount % 10000;
    let rate: i128 = percentage as i128;
    proof {
        assert(whole * rate <= whole * 10000) by (nonlinear_arith)
            requires
                whole >= 0,
                0 <= rate <= 10000,
        ;
        assert(0 <= whole * rate) by (nonlinear_arith)
            requires
                whole >= 0,
                0 <= rate,
        ;
        assert(0 <= rest * rate <= 10000 * 10000) by (nonlinear_arith)
            requires
                0 <= rest < 10000,
                0 <= rate <= 10000,
        ;
        assert(rest * rate <= rest * 10000) by (nonlinear_arith)
            requires
                0 <= rest,
                0 <= rate <= 10000,
        ;
    }
    let part: i128 = whole * rate + (rest * rate) / 10000;
    proof {
        let exact = amount as int * percentage as nat;
        assert(exact == 10000 * (whole * rate) + rest * rate) by (nonlinear_arith)
            requires
                exact == amount * rate,
                amount == 10000 * whole + rest,
        ;
    }
    part
}

/// Decides the transfers of one tip of `amount` of `token` from `sender` to
/// `payee`, in the order in which they are to be issued.
pub fn distribute(
    registry: &SplitRegistry,
    sender: &AccountId,
    payee: &AccountId,
    token: &AccountId,
    amount: i128,
) -> (plan: Vec<Transfer>)
    ensures
        transfer_views(plan@) == transfers(
            token@,
            sender@,
            payee@,
            amount as int,
            registry.configuration(payee@),
        ),
        registry.configuration(payee@) is None ==> transfer_views(plan@) == seq![
            payment(token@, sender@, payee@, amount as int),
        ],
        amount >= 0 ==> total_amount(transfer_views(plan@)) == amount,
{
    let mut plan: Vec<Transfer> = Vec::new();
    match registry.find(payee) {
        None => {
            plan.push(pay(token, sender, payee, amount));
            proof {
                assert(transfer_views(plan@) =~= seq![
                    payment(token@, sender@, payee@, amount as int),
                ]);
                if amount >= 0 {
                    lemma_transfers_conserve_amount(token@, sender@, payee@, amount as int, None);
                }
            }
        },
        Some(splits) => {
            let ghost lines = split_views(splits@);
            let mut remaining: i128 = amount;
            if amount > 0 {
                let mut i: usize = 0;
                proof {
                    assert(lines.take(0) =~= Seq::<RoyaltySplitView>::empty());
                    assert(transfer_views(plan@) =~= Seq::<TransferView>::empty());
                }
                while i < splits.len()
                    invariant
                        amount > 0,
                        0 <= i <= splits.len(),
                        lines == split_views(splits@),
                        valid_configuration(lines),
                        transfer_views(plan@) == split_transfers(
                            token@,
                            sender@,
                            amount as int,
                            lines.take(i as int),
                        ),
                        remaining == remainder(amount as int, lines.take(i as int)),
                    decreases splits.len() - i,
                {
                    proof {
                        assert(lines.take(i + 1).drop_last() =~= lines.take(i as int));
                        assert(lines.take(i + 1).last() == splits[i as int]@);
                        lemma_line_within_total(lines, i as int);
                        lemma_total_percentage_prefix(lines, i + 1);
                        lemma_shares_within_amount(amount as int, lines.take(i + 1));
                    }
                    let part = positive_share(amount, splits[i].percentage);
                    if part > 0 {
                        let ghost before = transfer_views(plan@);
                        let paid = pay(token, sender, &splits[i].recipient, part);
                        plan.push(paid);
                        remaining = remaining - part;
                        proof {
                            assert(transfer_views(plan@) =~= before.push(paid@));
                        }
                    }
                    i = i + 1;
                }
                proof {
                    assert(lines.take(i as int) =~= lines);
                }
            } else {
                proof {
                    lemma_nothing_to_share(token@, sender@, amount as int, lines);
                    assert(transfer_views(plan@) =~= Seq::<TransferView>::empty());
                }
            }
            if remaining > 0 {
                let ghost before = transfer_views(plan@);
                let kept = pay(token, sender, payee, remaining);
                plan.push(kept);
                proof {
                    assert(transfer_views(plan@) =~= before.push(kept@));
                }
            }
            proof {
                if amount >= 0 {
                    lemma_transfers_conserve_amount(
                        token@,
                        sender@,
                        payee@,
                        amount as int,
                        Some(lines),
                    );
                }
            }
        },
    }
    plan
}

/// Makes the transfer of `amount` of `token` from `sender` to `to`.
fn pay(token: &AccountId, sender: &AccountId, to: &AccountId, amount: i128) -> (transfer: Transfer)
    ensures
        transfer@ == payment(token@, sender@, to@, amount as int),
{
    Transfer { token: token.clone(), from: sender.clone(), to: to.clone(), amount }
}

} // verus!
