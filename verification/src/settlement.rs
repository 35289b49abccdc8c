use vstd::prelude::*;

use crate::ledger::{lemma_transfer_conserves, lemma_with_balance, transfer_spec, Ledger, LedgerView};
use crate::pubkey::Pubkey;
use crate::state::ErrorCode;

verus! {

/// One step of a settlement: a lamport transfer; a check that fails the
/// instruction with `error` where it does not hold; or an arithmetic overflow,
/// which aborts it.
#[derive(Clone, Copy, Debug)]
pub enum Step {
    Transfer { from: Pubkey, to: Pubkey, amount: u64 },
    Check { holds: bool, error: ErrorCode },
    Overflow,
}

pub enum StepView {
    Transfer { from: Seq<u8>, to: Seq<u8>, amount: int },
    Check { holds: bool, error: ErrorCode },
    Overflow,
}

impl View for Step {
    type V = StepView;

    open spec fn view(&self) -> StepView {
        match *self {
            Step::Transfer { from, to, amount } => StepView::Transfer {
                from: from@,
                to: to@,
                amount: amount as int,
            },
            Step::Check { holds, error } => StepView::Check { holds, error },
            Step::Overflow => StepView::Overflow,
        }
    }
}

pub open spec fn steps_view(steps: Seq<Step>) -> Seq<StepView> {
    steps.map_values(|s: Step| s@)
}

/// How a sequence of steps ends.
pub enum Settlement {
    /// A transfer or an overflow aborts.
    Aborted,
    /// A check fails with the error.
    Failed(ErrorCode),
    /// Every step went through, leaving the ledger.
    Done(LedgerView),
}

/// The steps carried out in order on the ledger `v`, up to the first that
/// aborts or fails.
pub open spec fn apply_steps(v: LedgerView, steps: Seq<StepView>) -> Settlement
    decreases steps.len(),
{
    if steps.len() == 0 {
        Settlement::Done(v)
    } else {
        match steps[0] {
            StepView::Check { holds, error } => if holds {
                apply_steps(v, steps.drop_first())
            } else {
                Settlement::Failed(error)
            },
            StepView::Transfer { from, to, amount } => match transfer_spec(v, from, to, amount) {
                Some(w) => apply_steps(w, steps.drop_first()),
                None => Settlement::Aborted,
            },
            StepView::Overflow => Settlement::Aborted,
        }
    }
}

/// The lamports that the transfers of `steps` take out of `key`.
pub open spec fn paid_from(steps: Seq<StepView>, key: Seq<u8>) -> int
    decreases steps.len(),
{
    if steps.len() == 0 {
        0
    } else {
        (match steps[0] {
            StepView::Transfer { from, to, amount } => if from == key {
                amount
            } else {
                0
            },
            _ => 0,
        }) + paid_from(steps.drop_first(), key)
    }
}

/// Settling moves lamports between the ledger's accounts and creates none:
/// where every step goes through, the ledger holds as many lamports as before,
/// in the same accounts.
pub proof fn lemma_apply_conserves(v: LedgerView, steps: Seq<StepView>)
    ensures
        apply_steps(v, steps) matches Settlement::Done(w) ==> {
            &&& w.total() == v.total()
            &&& w.keys() == v.keys()
        },
    decreases steps.len(),
{
    if steps.len() > 0 {
        match steps[0] {
            StepView::Check { .. } => lemma_apply_conserves(v, steps.drop_first()),
            StepView::Transfer { from, to, amount } => {
                lemma_transfer_conserves(v, from, to, amount);
                if let Some(w) = transfer_spec(v, from, to, amount) {
                    lemma_apply_conserves(w, steps.drop_first());
                }
            },
            StepView::Overflow => {},
        }
    }
}

pub proof fn lemma_paid_from_concat(a: Seq<StepView>, b: Seq<StepView>, key: Seq<u8>)
    ensures
        paid_from(a + b, key) == paid_from(a, key) + paid_from(b, key),
    decreases a.len(),
{
    if a.len() > 0 {
        assert((a + b).drop_first() =~= a.drop_first() + b);
        assert((a + b)[0] == a[0]);
        lemma_paid_from_concat(a.drop_first(), b, key);
    } else {
        assert(a + b =~= b);
    }
}

/// A transfer that goes through takes at most `amount` out of any account.
proof fn lemma_transfer_debit(v: LedgerView, from: Seq<u8>, to: Seq<u8>, amount: int, key: Seq<u8>)
    requires
        v.contains(key),
        transfer_spec(v, from, to, amount) is Some,
    ensures
        transfer_spec(v, from, to, amount)->0.contains(key),
        transfer_spec(v, from, to, amount)->0.balance(key) >= v.balance(key) - (if from == key {
            amount
        } else {
            0
        }),
{
    let d = v.with_balance(from, (v.balance(from) - amount) as u64);
    lemma_with_balance(v, from, (v.balance(from) - amount) as u64);
    assert(d.contains(to));
    lemma_with_balance(d, to, (d.balance(to) + amount) as u64);
}

/// Where every step goes through, no account loses more than the transfers
/// out of it add up to.
pub proof fn lemma_apply_debit(v: LedgerView, steps: Seq<StepView>, key: Seq<u8>)
    requires
        v.contains(key),
    ensures
        apply_steps(v, steps) matches Settlement::Done(w) ==> w.balance(key) >= v.balance(key)
            - paid_from(steps, key),
    decreases steps.len(),
{
    if steps.len() > 0 {
        match steps[0] {
            StepView::Check { .. } => lemma_apply_debit(v, steps.drop_first(), key),
            StepView::Transfer { from, to, amount } => {
                if let Some(w) = transfer_spec(v, from, to, amount) {
                    lemma_transfer_debit(v, from, to, amount, key);
                    lemma_apply_debit(w, steps.drop_first(), key);
                }
            },
            StepView::Overflow => {},
        }
    }
}

/// The lamports that the transfers of `steps` pay into `key`.
pub open spec fn paid_to(steps: Seq<StepView>, key: Seq<u8>) -> int
    decreases steps.len(),
{
    if steps.len() == 0 {
        0
    } else {
        (match steps[0] {
            StepView::Transfer { from, to, amount } => if to == key {
                amount
            } else {
                0
            },
            _ => 0,
        }) + paid_to(steps.drop_first(), key)
    }
}

pub proof fn lemma_paid_to_concat(a: Seq<StepView>, b: Seq<StepView>, key: Seq<u8>)
    ensures
        paid_to(a + b, key) == paid_to(a, key) + paid_to(b, key),
    decreases a.len(),
{
    if a.len() > 0 {
        assert((a + b).drop_first() =~= a.drop_first() + b);
        assert((a + b)[0] == a[0]);
        lemma_paid_to_concat(a.drop_first(), b, key);
    } else {
        assert(a + b =~= b);
    }
}

/// Every transfer of `steps` is paid from `src`.
pub open spec fn paid_only_from(steps: Seq<StepView>, src: Seq<u8>) -> bool {
    forall|i: int|
        #![trigger steps[i]]
        0 <= i < steps.len() ==> (steps[i] matches StepView::Transfer { from, .. } ==> from == src)
}

/// Where every transfer is paid from `src`, no other account pays anything.
pub proof fn lemma_paid_only_from(steps: Seq<StepView>, src: Seq<u8>, key: Seq<u8>)
    requires
        paid_only_from(steps, src),
        key != src,
    ensures
        paid_from(steps, key) == 0,
    decreases steps.len(),
{
    if steps.len() > 0 {
        assert(paid_only_from(steps.drop_first(), src)) by {
            assert forall|i: int| 0 <= i < steps.drop_first().len() implies (
            #[trigger] steps.drop_first()[i] matches StepView::Transfer { from, .. } ==> from == src) by {
                assert(steps.drop_first()[i] == steps[i + 1]);
            }
        }
        assert(steps[0] matches StepView::Transfer { from, .. } ==> from == src);
        lemma_paid_only_from(steps.drop_first(), src, key);
    }
}

/// A transfer that goes through changes the balance of an account by what it
/// pays in less what it takes out.
proof fn lemma_transfer_balance(v: LedgerView, from: Seq<u8>, to: Seq<u8>, amount: int, key: Seq<u8>)
    requires
        v.contains(key),
        transfer_spec(v, from, to, amount) is Some,
    ensures
        transfer_spec(v, from, to, amount)->0.contains(key),
        transfer_spec(v, from, to, amount)->0.balance(key) == v.balance(key) - (if from == key {
            amount
        } else {
            0
        }) + (if to == key {
            amount
        } else {
            0
        }),
{
    let d = v.with_balance(from, (v.balance(from) - amount) as u64);
    lemma_with_balance(v, from, (v.balance(from) - amount) as u64);
    assert(d.contains(to));
    assert(d.contains(key));
    lemma_with_balance(d, to, (d.balance(to) + amount) as u64);
}

/// Where every step goes through, an account ends with its balance less what
/// the transfers take out of it plus what they pay into it.
pub proof fn lemma_apply_balance(v: LedgerView, steps: Seq<StepView>, key: Seq<u8>)
    requires
        v.contains(key),
    ensures
        apply_steps(v, steps) matches Settlement::Done(w) ==> w.balance(key) == v.balance(key)
            - paid_from(steps, key) + paid_to(steps, key),
    decreases steps.len(),
{
    if steps.len() > 0 {
        match steps[0] {
            StepView::Check { .. } => lemma_apply_balance(v, steps.drop_first(), key),
            StepView::Transfer { from, to, amount } => {
                if let Some(w) = transfer_spec(v, from, to, amount) {
                    lemma_transfer_balance(v, from, to, amount, key);
                    lemma_apply_balance(w, steps.drop_first(), key);
                }
            },
            StepView::Overflow => {},
        }
    }
}

/// Every check of `steps` holds, none overflows, and every transfer moves a
/// nonnegative amount from `src` to an account of `v` that, unless it is
/// `src`, can take `bound` more lamports.
pub open spec fn behaved(v: LedgerView, steps: Seq<StepView>, src: Seq<u8>, bound: int) -> bool {
    forall|i: int|
        #![trigger steps[i]]
        0 <= i < steps.len() ==> match steps[i] {
            StepView::Check { holds, .. } => holds,
            StepView::Overflow => false,
            StepView::Transfer { from, to, amount } => {
                &&& from == src
                &&& amount >= 0
                &&& v.contains(to)
                &&& (to != src ==> v.balance(to) + bound <= u64::MAX)
            },
        }
}

pub proof fn lemma_behaved_concat(v: LedgerView, a: Seq<StepView>, b: Seq<StepView>, src: Seq<u8>, bound: int)
    requires
        behaved(v, a, src, bound),
        behaved(v, b, src, bound),
    ensures
        behaved(v, a + b, src, bound),
{
    assert forall|i: int| 0 <= i < (a + b).len() implies match #[trigger] (a + b)[i] {
        StepView::Check { holds, .. } => holds,
        StepView::Overflow => false,
        StepView::Transfer { from, to, amount } => {
            &&& from == src
            &&& amount >= 0
            &&& v.contains(to)
            &&& (to != src ==> v.balance(to) + bound <= u64::MAX)
        },
    } by {
        if i < a.len() {
            assert((a + b)[i] == a[i]);
        } else {
            assert((a + b)[i] == b[i - a.len()]);
        }
    }
}

proof fn lemma_behaved_rest(v: LedgerView, steps: Seq<StepView>, src: Seq<u8>, bound: int)
    requires
        steps.len() > 0,
        behaved(v, steps, src, bound),
    ensures
        behaved(v, steps.drop_first(), src, bound),
        paid_from(steps.drop_first(), src) >= 0,
        paid_from(steps, src) >= paid_from(steps.drop_first(), src),
    decreases steps.len(),
{
    let rest = steps.drop_first();
    assert forall|i: int| 0 <= i < rest.len() implies match #[trigger] rest[i] {
        StepView::Check { holds, .. } => holds,
        StepView::Overflow => false,
        StepView::Transfer { from, to, amount } => {
            &&& from == src
            &&& amount >= 0
            &&& v.contains(to)
            &&& (to != src ==> v.balance(to) + bound <= u64::MAX)
        },
    } by {
        assert(rest[i] == steps[i + 1]);
    }
    assert(steps[0] == steps[0]);
    if rest.len() > 0 {
        lemma_behaved_rest(v, rest, src, bound);
    }
}

/// Steps that are all well behaved go through, where `src` holds all that
/// they take out of it and every account they pay can take it.
pub proof fn lemma_apply_succeeds(v: LedgerView, steps: Seq<StepView>, src: Seq<u8>)
    requires
        v.contains(src),
        behaved(v, steps, src, paid_from(steps, src)),
        v.balance(src) >= paid_from(steps, src),
    ensures
        apply_steps(v, steps) is Done,
    decreases steps.len(),
{
    if steps.len() > 0 {
        let rest = steps.drop_first();
        let total = paid_from(steps, src);
        lemma_behaved_rest(v, steps, src, total);
        assert(steps[0] == steps[0]);
        match steps[0] {
            StepView::Check { .. } => {
                assert(paid_from(steps, src) == paid_from(rest, src));
                lemma_apply_succeeds(v, rest, src);
            },
            StepView::Overflow => {},
            StepView::Transfer { from, to, amount } => {
                let rest_total = paid_from(rest, src);
                assert(total == amount + rest_total);
                let d = v.with_balance(src, (v.balance(src) - amount) as u64);
                lemma_with_balance(v, src, (v.balance(src) - amount) as u64);
                assert(d.contains(to));
                lemma_with_balance(d, to, (d.balance(to) + amount) as u64);
                let w = d.with_balance(to, (d.balance(to) + amount) as u64);
                assert(transfer_spec(v, from, to, amount) == Some(w));
                assert forall|i: int| 0 <= i < rest.len() implies match #[trigger] rest[i] {
                    StepView::Check { holds, .. } => holds,
                    StepView::Overflow => false,
                    StepView::Transfer { from, to, amount } => {
                        &&& from == src
                        &&& amount >= 0
                        &&& w.contains(to)
                        &&& (to != src ==> w.balance(to) + rest_total <= u64::MAX)
                    },
                } by {
                    match rest[i] {
                        StepView::Transfer { from: f2, to: t2, amount: a2 } => {
                            assert(v.contains(t2));
                            assert(d.contains(t2));
                        },
                        _ => {},
                    }
                }
                lemma_apply_succeeds(w, rest, src);
            },
        }
    }
}

/// Why a sequence of steps stopped.
#[derive(Clone, Copy, Debug, PartialEq, Eq, Structural)]
pub enum StepFailure {
    Aborted,
    Failed(ErrorCode),
}

/// Carries out `steps` in order on `ledger`, and gives the ledger back where
/// every step went through.
pub fn apply(ledger: Ledger, steps: &Vec<Step>) -> (r: Result<Ledger, StepFailure>)
    ensures
        match apply_steps(ledger@, steps_view(steps@)) {
            Settlement::Done(w) => r matches Ok(l) && l@ == w,
            Settlement::Aborted => r == Err::<Ledger, StepFailure>(StepFailure::Aborted),
            Settlement::Failed(e) => r == Err::<Ledger, StepFailure>(StepFailure::Failed(e)),
        },
{
    let ghost v0 = ledger@;
    let ghost sv = steps_view(steps@);
    let mut current = ledger;
    let n = steps.len();
    let mut i: usize = 0;
    assert(sv.skip(0) =~= sv);
    while i < n
        invariant
            n == steps@.len(),
            sv == steps_view(steps@),
            v0 == ledger@,
            sv.len() == n,
            0 <= i <= n,
            apply_steps(v0, sv) == apply_steps(current@, sv.skip(i as int)),
        decreases n - i,
    {
        proof {
            assert(sv.skip(i as int).drop_first() =~= sv.skip(i + 1));
            assert(sv.skip(i as int)[0] == sv[i as int]);
            assert(sv[i as int] == steps@[i as int]@);
        }
        match &steps[i] {
            Step::Check { holds, error } => {
                if !*holds {
                    return Err(StepFailure::Failed(*error));
                }
            },
            Step::Transfer { from, to, amount } => {
                if !current.transfer(from, to, *amount) {
                    return Err(StepFailure::Aborted);
                }
            },
            Step::Overflow => {
                return Err(StepFailure::Aborted);
            },
        }
        i = i + 1;
    }
    assert(sv.skip(n as int) =~= Seq::<StepView>::empty());
    Ok(current)
}

} // verus!
