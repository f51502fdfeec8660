//! Batch dispatch planning: a fixed total transaction count is split
//! into contiguous batches of at most `BATCH_SIZE`, and every
//! transaction index is assigned its sender, receiver and nonce before
//! dispatch. Sender selection and nonce issuance happen together, so
//! the nonces issued to each wallet are consecutive from its seed.

use crate::crypto::{generate_hash, spec_is_payload_hash};
use crate::nonce::NonceTracker;
use crate::rpc::{send_transaction_body, spec_send_tx_body};
use crate::wallets::WalletStore;
use vstd::string::StringSliceAdditionalSpecFns;
use vstd::utf8::encode_utf8;
use vstd::arithmetic::div_mod::{
    lemma_div_multiples_vanish_fancy, lemma_div_pos_is_pos, lemma_fundamental_div_mod,
    lemma_fundamental_div_mod_converse, lemma_mod_multiples_vanish, lemma_small_mod,
    lemma_div_plus_one,
};
use vstd::prelude::*;

verus! {

/// Fixed number of transactions dispatched concurrently in one batch.
pub const BATCH_SIZE: usize = 1000;

/// Number of batches needed to cover `total` transactions in groups of
/// at most `batch` each.
pub open spec fn spec_num_batches(total: nat, batch: nat) -> nat
    recommends
        batch > 0,
{
    ((total + batch - 1) / batch as int) as nat
}

/// How many batches a run of `total` transactions takes.
pub fn num_batches(total: usize, batch: usize) -> (r: usize)
    requires
        batch > 0,
    ensures
        r == spec_num_batches(total as nat, batch as nat),
{
    if total == 0 {
        proof {
            vstd::arithmetic::div_mod::lemma_basic_div(batch - 1, batch as int);
        }
        0
    } else {
        proof {
            lemma_div_plus_one(total - 1, batch as int);
            assert((total - 1) as int / batch as int <= total - 1) by {
                lemma_fundamental_div_mod(total - 1, batch as int);
                lemma_div_pos_is_pos(total - 1, batch as int);
                assert(batch as int * ((total - 1) as int / batch as int) >= (total - 1) as int
                    / batch as int) by (nonlinear_arith)
                    requires
                        batch >= 1,
                        (total - 1) as int / batch as int >= 0,
                ;
            }
        }
        1 + (total - 1) / batch
    }
}

/// The batch count covers the whole range, and one batch fewer would
/// not: `num_batches` is the least count whose batches reach `total`.
pub proof fn lemma_num_batches_bounds(total: nat, batch: nat)
    requires
        batch > 0,
    ensures
        spec_num_batches(total, batch) * batch >= total,
        total > 0 ==> (spec_num_batches(total, batch) - 1) * batch < total,
        total == 0 ==> spec_num_batches(total, batch) == 0,
{
    let x = total + batch - 1;
    let b = batch as int;
    let c = x as int / b;
    lemma_fundamental_div_mod(x as int, b);
    lemma_div_pos_is_pos(x as int, b);
    assert(0 <= x as int % b < b) by {
        vstd::arithmetic::div_mod::lemma_mod_division_less_than_divisor(x as int, b);
    }
    assert(c * b == b * c) by (nonlinear_arith);
    assert((c - 1) * b == b * c - b) by (nonlinear_arith);
    if total == 0 {
        assert(x < b);
        vstd::arithmetic::div_mod::lemma_basic_div(x as int, b);
    }
}

/// The contiguous index ranges `[start, end)` of each batch, in order:
/// batch `i` covers `[i*batch, min((i+1)*batch, total))`, so the final
/// batch may be shorter and no index reaches `total`.
pub fn batch_ranges(total: usize, batch: usize) -> (r: Vec<(usize, usize)>)
    requires
        batch > 0,
    ensures
        r@.len() == spec_num_batches(total as nat, batch as nat),
        forall|i: int|
            0 <= i < r@.len() ==> (#[trigger] r@[i]).0 == i * batch && r@[i].1 == (if (i + 1)
                * batch <= total {
                (i + 1) * batch
            } else {
                total as int
            }),
{
    let nb = num_batches(total, batch);
    proof {
        lemma_num_batches_bounds(total as nat, batch as nat);
    }
    let mut r: Vec<(usize, usize)> = Vec::new();
    let mut i: usize = 0;
    while i < nb
        invariant
            batch > 0,
            nb == spec_num_batches(total as nat, batch as nat),
            nb * batch >= total,
            total > 0 ==> (nb - 1) * batch < total,
            total == 0 ==> nb == 0,
            i <= nb,
            r@.len() == i,
            forall|t: int|
                0 <= t < i ==> (#[trigger] r@[t]).0 == t * batch && r@[t].1 == (if (t + 1) * batch
                    <= total {
                    (t + 1) * batch
                } else {
                    total as int
                }),
        decreases nb - i,
    {
        proof {
            assert(i as int * batch <= (nb - 1) * batch) by (nonlinear_arith)
                requires
                    i as int <= nb - 1,
                    batch > 0,
            ;
            assert((i as int + 1) * batch == i as int * batch + batch) by (nonlinear_arith);
        }
        let s = i * batch;
        let e = if total - s > batch {
            s + batch
        } else {
            total
        };
        r.push((s, e));
        i = i + 1;
    }
    r
}

/// One planned transaction: the sender and receiver wallet indices and
/// the nonce issued to the sender.
#[derive(Debug, Clone, Copy, PartialEq, Eq, Structural)]
pub struct TxPlan {
    pub from_index: usize,
    pub to_index: usize,
    pub nonce: u64,
}

/// How many of the first `k` transactions are sent from wallet `w`,
/// when transaction `k` is sent from wallet `k % n`.
pub open spec fn spec_issued_below(k: nat, n: nat, w: nat) -> int
    recommends
        n > 0,
        w < n,
{
    k as int / n as int + (if w < k as int % n as int {
        1int
    } else {
        0int
    })
}

/// Assign every transaction index `k` in `[0, total)` its sender
/// `k % n`, receiver `(k + 1) % n`, and the next nonce of the sender,
/// advancing the tracker exactly once per planned transaction.
pub fn build_plan(total: usize, tracker: &mut NonceTracker) -> (r: Vec<TxPlan>)
    requires
        old(tracker)@.len() > 0,
        forall|w: int|
            0 <= w < old(tracker)@.len() ==> #[trigger] old(tracker)@[w] + total <= u64::MAX,
    ensures
        r@.len() == total,
        forall|k: int|
            0 <= k < total ==> {
                let n = old(tracker)@.len() as int;
                (#[trigger] r@[k]).from_index == k % n && r@[k].to_index == (k + 1) % n
                    && r@[k].nonce == old(tracker)@[k % n] + k / n
            },
        final(tracker)@.len() == old(tracker)@.len(),
        forall|w: int|
            0 <= w < old(tracker)@.len() ==> #[trigger] final(tracker)@[w] == old(tracker)@[w]
                + spec_issued_below(
                total as nat,
                old(tracker)@.len() as nat,
                w as nat,
            ),
{
    let n = tracker.count();
    let ghost seeds = tracker@;
    let mut r: Vec<TxPlan> = Vec::new();
    let mut k: usize = 0;
    while k < total
        invariant
            n == seeds.len(),
            n > 0,
            k <= total,
            forall|w: int| 0 <= w < n ==> #[trigger] seeds[w] + total <= u64::MAX,
            r@.len() == k,
            forall|j: int|
                0 <= j < k ==> (#[trigger] r@[j]).from_index == j % (n as int) && r@[j].to_index
                    == (j + 1) % (n as int) && r@[j].nonce == seeds[j % (n as int)] + j / (n as int),
            tracker@.len() == n,
            forall|w: int|
                0 <= w < n ==> #[trigger] tracker@[w] == seeds[w] + spec_issued_below(
                    k as nat,
                    n as nat,
                    w as nat,
                ),
        decreases total - k,
    {
        let ghost ni = n as int;
        let ghost q = k as int / ni;
        let ghost rm = k as int % ni;
        let w = k % n;
        let to = (k + 1) % n;
        proof {
            lemma_fundamental_div_mod(k as int, ni);
            lemma_div_pos_is_pos(k as int, ni);
            assert(ni * q >= q) by (nonlinear_arith)
                requires
                    ni >= 1,
                    q >= 0,
            ;
            assert(q <= k);
            assert(spec_issued_below(k as nat, n as nat, w as nat) == q);
            assert(tracker@[w as int] == seeds[w as int] + q);
            assert(q < total);
        }
        let nonce = tracker.next_nonce(w);
        r.push(TxPlan { from_index: w, to_index: to, nonce });
        proof {
            // how the quotient and remainder step when k steps to k + 1
            if rm + 1 < ni {
                lemma_fundamental_div_mod_converse(k as int + 1, ni, q, rm + 1);
            } else {
                assert(k as int + 1 == (q + 1) * ni + 0) by (nonlinear_arith)
                    requires
                        k as int == q * ni + rm,
                        rm + 1 == ni,
                ;
                lemma_fundamental_div_mod_converse(k as int + 1, ni, q + 1, 0);
            }
            assert forall|w2: int| 0 <= w2 < n implies #[trigger] tracker@[w2] == seeds[w2]
                + spec_issued_below((k + 1) as nat, n as nat, w2 as nat) by {}
        }
        k = k + 1;
    }
    r
}

/// Whether `body` is a well-formed `eth_sendTx` request from `from` to
/// `to` with nonce `nonce` and some fresh payload hash.
pub open spec fn spec_is_batch_body(body: Seq<u8>, from: Seq<char>, to: Seq<char>, nonce: u64) -> bool {
    exists|h: Seq<char>|
        spec_is_payload_hash(h) && body == spec_send_tx_body(
            encode_utf8(from),
            encode_utf8(to),
            nonce,
            encode_utf8(h),
        )
}

/// Build the request bodies for the planned transactions `[lo, hi)` of
/// one batch: each gets the sender and receiver addresses its plan names,
/// its planned nonce, and a fresh payload hash. The bodies are handed
/// back in plan order, ready to be dispatched concurrently.
pub fn build_batch_bodies(store: &WalletStore, plan: &Vec<TxPlan>, lo: usize, hi: usize) -> (r:
    Vec<Vec<u8>>)
    requires
        lo <= hi <= plan@.len(),
        forall|k: int|
            lo <= k < hi ==> (#[trigger] plan@[k]).from_index < store@.len()
                && plan@[k].to_index < store@.len(),
    ensures
        r@.len() == hi - lo,
        forall|i: int|
            0 <= i < r@.len() ==> spec_is_batch_body(
                (#[trigger] r@[i])@,
                store@[plan@[lo + i].from_index as int],
                store@[plan@[lo + i].to_index as int],
                plan@[lo + i].nonce,
            ),
{
    let mut r: Vec<Vec<u8>> = Vec::new();
    let mut k: usize = lo;
    while k < hi
        invariant
            lo <= k <= hi <= plan@.len(),
            forall|t: int|
                lo <= t < hi ==> (#[trigger] plan@[t]).from_index < store@.len()
                    && plan@[t].to_index < store@.len(),
            r@.len() == k - lo,
            forall|i: int|
                0 <= i < r@.len() ==> spec_is_batch_body(
                    (#[trigger] r@[i])@,
                    store@[plan@[lo + i].from_index as int],
                    store@[plan@[lo + i].to_index as int],
                    plan@[lo + i].nonce,
                ),
        decreases hi - k,
    {
        let item = plan[k];
        let hash = generate_hash();
        let body = send_transaction_body(
            store.wallet_at(item.from_index).as_str(),
            store.wallet_at(item.to_index).as_str(),
            item.nonce,
            hash.as_str(),
        );
        let ghost hv = hash@;
        let ghost bv = body@;
        r.push(body);
        proof {
            let idx = r@.len() - 1;
            assert(r@[idx]@ == bv);
            assert(spec_is_payload_hash(hv) && bv == spec_send_tx_body(
                encode_utf8(store@[plan@[lo + idx].from_index as int]),
                encode_utf8(store@[plan@[lo + idx].to_index as int]),
                plan@[lo + idx].nonce,
                encode_utf8(hv),
            ));
            assert(spec_is_batch_body(
                r@[idx]@,
                store@[plan@[lo + idx].from_index as int],
                store@[plan@[lo + idx].to_index as int],
                plan@[lo + idx].nonce,
            ));
        }
        k = k + 1;
    }
    r
}

/// The transactions sent from wallet `w` are those at indices
/// `w, w + n, w + 2n, ...`, and the `j`-th of them carries nonce
/// `seeds[w] + j`: each wallet's nonces are consecutive from its seed,
/// with no gap and no repeat, regardless of batch boundaries.
pub proof fn lemma_wallet_nonce_sequence(total: nat, n: nat, seeds: Seq<u64>, w: nat, j: nat)
    requires
        n > 0,
        w < n,
        seeds.len() == n,
        w + j * n < total,
    ensures
        (w + j * n) as int % n as int == w,
        seeds[((w + j * n) as int % n as int)] + (w + j * n) as int / n as int == seeds[w as int]
            + j,
{
    lemma_mod_multiples_vanish(j as int, w as int, n as int);
    lemma_small_mod(w, n);
    lemma_div_multiples_vanish_fancy(j as int, w as int, n as int);
}

/// The transactions a run of `total` over `n` wallets plans, in dispatch
/// order: the sender index and the issued nonce of each.
pub open spec fn spec_plan_seq(total: nat, n: nat, seeds: Seq<u64>) -> Seq<(nat, int)> {
    Seq::new(
        total,
        |k: int| ((k % n as int) as nat, seeds[k % n as int] + k / n as int),
    )
}

/// Whether a planned transaction is sent from wallet `w`.
pub open spec fn spec_sent_from(w: nat) -> spec_fn((nat, int)) -> bool {
    |p: (nat, int)| p.0 == w
}

/// The nonce of a planned transaction.
pub open spec fn spec_nonce_of() -> spec_fn((nat, int)) -> int {
    |p: (nat, int)| p.1
}

/// The nonces a run of `total` transactions issues to wallet `w`, in
/// dispatch order.
pub open spec fn spec_wallet_nonces(total: nat, n: nat, seeds: Seq<u64>, w: nat) -> Seq<int> {
    spec_plan_seq(total, n, seeds).filter(spec_sent_from(w)).map_values(spec_nonce_of())
}

/// A plan with the shape `build_plan` promises realizes `spec_plan_seq`:
/// sender and nonce of every planned transaction are the specified ones.
pub proof fn lemma_plan_matches_seq(plan: Seq<TxPlan>, n: nat, seeds: Seq<u64>)
    requires
        n > 0,
        seeds.len() == n,
        forall|k: int|
            0 <= k < plan.len() ==> (#[trigger] plan[k]).from_index == k % n as int
                && plan[k].nonce == seeds[k % n as int] + k / n as int,
    ensures
        plan.map_values(|p: TxPlan| (p.from_index as nat, p.nonce as int)) =~= spec_plan_seq(
            plan.len(),
            n,
            seeds,
        ),
{
}

/// How the per-wallet issued counts change when one more transaction is
/// planned: only the sender's count grows, and by exactly one.
proof fn lemma_issued_step(k: nat, n: nat)
    requires
        n > 0,
    ensures
        forall|w: nat|
            w < n ==> #[trigger] spec_issued_below(k + 1, n, w) == spec_issued_below(k, n, w) + (
            if k as int % n as int == w {
                1int
            } else {
                0int
            }),
{
    let ni = n as int;
    let q = k as int / ni;
    let rm = k as int % ni;
    lemma_fundamental_div_mod(k as int, ni);
    vstd::arithmetic::div_mod::lemma_mod_division_less_than_divisor(k as int, ni);
    if rm + 1 < ni {
        lemma_fundamental_div_mod_converse(k as int + 1, ni, q, rm + 1);
    } else {
        assert(k as int + 1 == (q + 1) * ni + 0) by (nonlinear_arith)
            requires
                k as int == q * ni + rm,
                rm + 1 == ni,
        ;
        lemma_fundamental_div_mod_converse(k as int + 1, ni, q + 1, 0);
    }
}

/// Across a full run, the nonces issued to wallet `w` are exactly the
/// consecutive integers from its seed — no gap, no repeat — regardless
/// of batch boundaries.
pub proof fn lemma_wallet_nonces_are_consecutive(total: nat, n: nat, seeds: Seq<u64>, w: nat)
    requires
        n > 0,
        w < n,
        seeds.len() == n,
    ensures
        spec_wallet_nonces(total, n, seeds, w) =~= Seq::new(
            spec_issued_below(total, n, w) as nat,
            |j: int| seeds[w as int] + j,
        ),
    decreases total,
{
    reveal(Seq::filter);
    if total == 0 {
        vstd::arithmetic::div_mod::lemma_basic_div(0, n as int);
        lemma_small_mod(0, n);
        assert(spec_plan_seq(0, n, seeds).len() == 0);
    } else {
        let k = (total - 1) as nat;
        lemma_wallet_nonces_are_consecutive(k, n, seeds, w);
        lemma_issued_step(k, n);
        assert(spec_issued_below(total, n, w) == spec_issued_below(k + 1, n, w));
        let ni = n as int;
        let q = k as int / ni;
        let rm = k as int % ni;
        lemma_fundamental_div_mod(k as int, ni);
        vstd::arithmetic::div_mod::lemma_mod_division_less_than_divisor(k as int, ni);
        let s = spec_plan_seq(total, n, seeds);
        let prev = spec_plan_seq(k, n, seeds);
        assert(s.drop_last() =~= prev);
        assert(s.last() == ((rm as nat, seeds[rm] + q)));
        let fprev = prev.filter(spec_sent_from(w));
        if rm == w {
            assert(s.filter(spec_sent_from(w)) == fprev.push(s.last()));
            assert(spec_wallet_nonces(total, n, seeds, w) =~= spec_wallet_nonces(k, n, seeds, w)
                .push(seeds[w as int] + q));
            assert(spec_issued_below(k, n, w) == q);
        } else {
            assert(s.filter(spec_sent_from(w)) == fprev);
        }
    }
}

/// Conversely, every transaction whose sender is wallet `w` stands at an
/// index of the form `w + j * n`.
pub proof fn lemma_sender_slot(k: nat, n: nat, w: nat)
    requires
        n > 0,
        k as int % n as int == w,
    ensures
        k == w + (k as int / n as int) * n,
{
    lemma_fundamental_div_mod(k as int, n as int);
    assert((n as int) * (k as int / n as int) == (k as int / n as int) * (n as int))
        by (nonlinear_arith);
}

} // verus!
