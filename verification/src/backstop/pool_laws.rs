//! What holds of pool balances across operations.

use vstd::prelude::*;

use super::pool::{lemma_tokens_for_bounds, PoolBalance};
use crate::math::{fits_i128, lemma_quotient_bounds};

verus! {

/// Converting tokens to shares and back never creates tokens.
pub proof fn law_tokens_survive_a_round_trip_at_most(b: PoolBalance, tokens: int)
    requires
        b.well_formed(),
        tokens >= 0,
    ensures
        0 <= b.tokens_for(b.shares_for(tokens)) <= tokens,
{
    if b.shares > 0 && b.tokens > 0 {
        let s = b.shares_for(tokens);
        let n = tokens * b.shares;
        assert(n >= 0) by (nonlinear_arith)
            requires
                tokens >= 0,
                b.shares > 0,
                n == tokens * b.shares,
        ;
        lemma_quotient_bounds(n, b.tokens as int);
        assert(s * b.tokens <= tokens * b.shares);
        if s == b.shares {
            assert(b.tokens <= tokens) by (nonlinear_arith)
                requires
                    b.shares * b.tokens <= tokens * b.shares,
                    b.shares > 0,
            ;
        } else {
            let m = s * b.tokens;
            assert(m >= 0) by (nonlinear_arith)
                requires
                    s >= 0,
                    b.tokens > 0,
                    m == s * b.tokens,
            ;
            lemma_quotient_bounds(m, b.shares as int);
            let back = m / (b.shares as int);
            assert(back <= tokens) by (nonlinear_arith)
                requires
                    back * b.shares <= m,
                    m <= tokens * b.shares,
                    b.shares > 0,
            ;
        }
    } else if b.shares > 0 {
        assert(b.tokens_for(0) == 0) by {
            lemma_quotient_bounds(0, b.shares as int);
        }
    }
}

/// Converting shares to tokens and back never creates shares.
pub proof fn law_shares_survive_a_round_trip_at_most(b: PoolBalance, shares: int)
    requires
        b.well_formed(),
        shares >= 0,
    ensures
        0 <= b.shares_for(b.tokens_for(shares)) <= shares,
{
    if b.shares > 0 && b.tokens > 0 {
        let t = b.tokens_for(shares);
        if shares != b.shares {
            let n = shares * b.tokens;
            assert(n >= 0) by (nonlinear_arith)
                requires
                    shares >= 0,
                    b.tokens > 0,
                    n == shares * b.tokens,
            ;
            lemma_quotient_bounds(n, b.shares as int);
        }
        assert(t * b.shares <= shares * b.tokens) by (nonlinear_arith)
            requires
                t * b.shares <= shares * b.tokens || (shares == b.shares && t == b.tokens),
        ;
        let m = t * b.shares;
        assert(m >= 0) by (nonlinear_arith)
            requires
                t >= 0,
                b.shares > 0,
                m == t * b.shares,
        ;
        lemma_quotient_bounds(m, b.tokens as int);
        let back = m / (b.tokens as int);
        assert(back <= shares) by (nonlinear_arith)
            requires
                back * b.tokens <= m,
                m <= shares * b.tokens,
                b.tokens > 0,
        ;
    }
}

/// A share is worth no less where the tokens per share have not fallen.
pub proof fn lemma_no_dilution(before: PoolBalance, after: PoolBalance, shares: int)
    requires
        before.well_formed(),
        0 <= after.tokens,
        0 < before.shares,
        0 <= after.shares,
        0 <= shares <= before.shares,
        shares <= after.shares,
        before.tokens * after.shares <= after.tokens * before.shares,
    ensures
        before.tokens_for(shares) <= after.tokens_for(shares),
{
    let bs = before.shares as int;
    let bt = before.tokens as int;
    let af = after.shares as int;
    let at = after.tokens as int;
    let x = before.tokens_for(shares);
    lemma_tokens_for_bounds(before, shares);
    if shares != bs {
        let n = shares * bt;
        assert(n >= 0) by (nonlinear_arith)
            requires
                shares >= 0,
                bt >= 0,
                n == shares * bt,
        ;
        lemma_quotient_bounds(n, bs);
    }
    assert(x * bs <= shares * bt) by (nonlinear_arith)
        requires
            x * bs <= shares * bt || (shares == bs && x == bt),
    ;
    if af == 0 {
        assert(shares == 0);
        assert(x <= 0) by (nonlinear_arith)
            requires
                x * bs <= 0 * bt,
                bs > 0,
        ;
    } else if af == shares {
        // All the shares that are left are asked for.
        assert(x <= at) by (nonlinear_arith)
            requires
                x * bs <= shares * bt,
                bt * shares <= at * bs,
                bs > 0,
        ;
    } else {
        let m = shares * at;
        assert(m >= 0) by (nonlinear_arith)
            requires
                shares >= 0,
                at >= 0,
                m == shares * at,
        ;
        lemma_quotient_bounds(m, af);
        let y = m / af;
        assert(x * af <= shares * at) by (nonlinear_arith)
            requires
                x * bs <= shares * bt,
                bt * af <= at * bs,
                bs > 0,
                af > 0,
                shares >= 0,
                x >= 0,
        {
            assert(x * bs * af <= shares * bt * af);
            assert(shares * (bt * af) <= shares * (at * bs));
            assert((x * af) * bs <= (shares * at) * bs);
        }
        assert(x <= y) by (nonlinear_arith)
            requires
                x * af <= m,
                m < y * af + af,
                af > 0,
        ;
    }
}

/// A deposit at the pool's own rate never makes a share worth less.
pub proof fn law_deposits_do_not_dilute(b: PoolBalance, tokens: int, shares: int)
    requires
        b.well_formed(),
        tokens >= 0,
        fits_i128(b.tokens + tokens),
        fits_i128(b.shares + b.shares_for(tokens)),
        0 <= shares <= b.shares,
    ensures
        b.tokens_for(shares) <= b.after_deposit(tokens, b.shares_for(tokens)).tokens_for(shares),
{
    let minted = b.shares_for(tokens);
    let after = b.after_deposit(tokens, minted);
    if b.shares > 0 {
        if b.tokens > 0 {
            let n = tokens * b.shares;
            assert(n >= 0) by (nonlinear_arith)
                requires
                    tokens >= 0,
                    b.shares > 0,
                    n == tokens * b.shares,
            ;
            lemma_quotient_bounds(n, b.tokens as int);
        }
        assert(minted >= 0 && minted * b.tokens <= tokens * b.shares) by (nonlinear_arith)
            requires
                (minted >= 0 && minted * b.tokens <= tokens * b.shares) || (minted == 0 && b.tokens
                    == 0),
                tokens >= 0,
                b.shares > 0,
        ;
        assert(b.tokens * (b.shares + minted) <= (b.tokens + tokens) * b.shares)
            by (nonlinear_arith)
            requires
                minted * b.tokens <= tokens * b.shares,
        ;
        lemma_no_dilution(b, after, shares);
    } else {
        assert(shares == 0);
        if after.shares > 0 {
            lemma_tokens_for_bounds(PoolBalance { q4w: 0, ..after }, 0);
        }
    }
}

/// Redeeming shares at the pool's own rate never makes a share that stays worth less.
pub proof fn law_withdrawals_do_not_dilute(b: PoolBalance, burned: int, shares: int)
    requires
        b.well_formed(),
        0 <= burned <= b.q4w,
        0 <= shares <= b.shares - burned,
    ensures
        b.tokens_for(shares) <= b.after_withdraw(b.tokens_for(burned), burned).tokens_for(shares),
{
    let paid = b.tokens_for(burned);
    let after = b.after_withdraw(paid, burned);
    lemma_tokens_for_bounds(b, burned);
    if b.shares > 0 {
        if burned != b.shares {
            let n = burned * b.tokens;
            assert(n >= 0) by (nonlinear_arith)
                requires
                    burned >= 0,
                    b.tokens >= 0,
                    n == burned * b.tokens,
            ;
            lemma_quotient_bounds(n, b.shares as int);
        }
        assert(paid * b.shares <= burned * b.tokens) by (nonlinear_arith)
            requires
                paid * b.shares <= burned * b.tokens || (burned == b.shares && paid == b.tokens),
        ;
        assert(b.tokens * (b.shares - burned) <= (b.tokens - paid) * b.shares)
            by (nonlinear_arith)
            requires
                paid * b.shares <= burned * b.tokens,
        ;
        lemma_no_dilution(b, after, shares);
    }
}

/// The active and the queued shares of a pool stand for all its tokens, but for at
/// most one lost to rounding.
pub proof fn law_partition_covers_the_tokens(b: PoolBalance)
    requires
        b.well_formed(),
        b.shares > 0,
    ensures
        b.tokens - 1 <= b.tokens_for(b.shares - b.q4w) + b.tokens_for(b.q4w as int) <= b.tokens,
{
    let s = b.shares as int;
    let t = b.tokens as int;
    let q = b.q4w as int;
    if q == 0 || q == s {
        lemma_quotient_bounds(0, s);
        assert(0 * t == 0);
    } else {
        let m = (s - q) * t;
        let n = q * t;
        assert(m >= 0 && n >= 0 && m + n == s * t) by (nonlinear_arith)
            requires
                0 < q < s,
                t >= 0,
                m == (s - q) * t,
                n == q * t,
        ;
        lemma_quotient_bounds(m, s);
        lemma_quotient_bounds(n, s);
        let x = m / s;
        let y = n / s;
        assert(t - 1 <= x + y <= t) by (nonlinear_arith)
            requires
                x * s <= m < x * s + s,
                y * s <= n < y * s + s,
                m + n == s * t,
                s > 0,
        ;
    }
}

/// Shares that are queued and taken back out of the queue leave the pool as it was.
pub proof fn law_dequeue_undoes_queue(b: PoolBalance, shares: int)
    requires
        fits_i128(b.q4w + shares),
    ensures
        b.after_queue(shares).after_queue(-shares) == b,
{
}

/// Every operation within the pool's means keeps the balance well formed.
pub proof fn law_operations_keep_balances_well_formed(b: PoolBalance, tokens: int, shares: int)
    requires
        b.well_formed(),
        tokens >= 0,
        shares >= 0,
    ensures
        fits_i128(b.tokens + tokens) && fits_i128(b.shares + shares) ==> b.after_deposit(
            tokens,
            shares,
        ).well_formed(),
        !b.lacks(tokens, shares) ==> b.after_withdraw(tokens, shares).well_formed(),
        shares <= b.shares - b.q4w ==> b.after_queue(shares).well_formed(),
        shares <= b.q4w ==> b.after_queue(-shares).well_formed(),
{
}

} // verus!
