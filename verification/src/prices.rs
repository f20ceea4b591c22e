//! Prices of the tokens of a group.

use vstd::arithmetic::power::{lemma_pow0, lemma_pow1, lemma_pow_adds, lemma_pow_increases, pow};
use vstd::prelude::*;

use crate::error::{check_assert, or_abort, or_refuse, present, refused, unmet};
use crate::error::{Check, Failure};
use crate::fixed_point::{product, quotient, whole, U64F64};
use crate::state::{AccountInfo, MangoGroup, NUM_MARKETS, NUM_TOKENS};
use crate::token::{mint_read, read_mint};

verus! {

/// Ten to the power of `e` as a fixed-point number, where it fits 64 bits.
pub open spec fn scale(e: nat) -> Option<U64F64> {
    if pow(10, e) <= u64::MAX {
        Some(whole(pow(10, e) as u64))
    } else {
        None
    }
}

/// Computes a power of ten.
fn to_scale(e: u8) -> (r: Option<U64F64>)
    ensures
        r == scale(e as nat),
{
    let mut power: u64 = 1;
    let mut i: u8 = 0;
    proof {
        lemma_pow0(10);
    }
    while i < e
        invariant
            i <= e,
            power == pow(10, i as nat),
        decreases e - i,
    {
        proof {
            lemma_pow_adds(10, i as nat, 1);
            lemma_pow1(10);
            lemma_pow_increases(10, (i + 1) as nat, e as nat);
        }
        power = match power.checked_mul(10) {
            Some(p) => p,
            None => {
                return None;
            },
        };
        i += 1;
    }
    Some(U64F64::from_num(power))
}

/// The number of native units of the quote token in one cent, the unit that the
/// oracles count in.
pub open spec fn quote_scale(group: MangoGroup, mints: Seq<AccountInfo>) -> Result<
    U64F64,
    Failure,
> {
    if mints.len() <= NUM_MARKETS {
        Err(Failure::Aborted)
    } else if mints[NUM_MARKETS as int].key != group.tokens[NUM_MARKETS as int] {
        Err(unmet(Check::QuoteMint))
    } else {
        match mint_read(mints[NUM_MARKETS as int]) {
            Err(e) => Err(e),
            Ok(decimals) => if decimals < 2 {
                Err(Failure::Aborted)
            } else {
                present(scale((decimals - 2) as nat))
            },
        }
    }
}

/// The price of one native unit of a base token in native units of the quote
/// token: the median of the oracle, times ten to the quote decimals less two,
/// over ten to the base decimals.
pub open spec fn market_price(
    group: MangoGroup,
    mints: Seq<AccountInfo>,
    oracles: Seq<AccountInfo>,
    quote_adj: U64F64,
    market: int,
) -> Result<U64F64, Failure> {
    if oracles.len() <= market {
        Err(Failure::Aborted)
    } else {
        match refused(oracles[market].median) {
            Err(e) => Err(e),
            Ok(median) => if mints[market].key != group.tokens[market] {
                Err(unmet(Check::BaseMint))
            } else {
                match mint_read(mints[market]) {
                    Err(e) => Err(e),
                    Ok(decimals) => match scale(decimals as nat) {
                        None => Err(Failure::Aborted),
                        Some(base_adj) => match quotient(quote_adj, base_adj) {
                            None => Err(Failure::Aborted),
                            Some(ratio) => present(product(whole(median), ratio)),
                        },
                    },
                }
            },
        }
    }
}

/// The prices of the first `n` base tokens, or the failure of the first that has
/// none.
pub open spec fn market_prices(
    group: MangoGroup,
    mints: Seq<AccountInfo>,
    oracles: Seq<AccountInfo>,
    quote_adj: U64F64,
    n: nat,
) -> Result<Seq<U64F64>, Failure>
    decreases n,
{
    if n == 0 {
        Ok(Seq::empty())
    } else {
        match market_prices(group, mints, oracles, quote_adj, (n - 1) as nat) {
            Err(e) => Err(e),
            Ok(prices) => match market_price(group, mints, oracles, quote_adj, n - 1) {
                Err(e) => Err(e),
                Ok(price) => Ok(prices.push(price)),
            },
        }
    }
}

proof fn lemma_market_prices_fail(
    group: MangoGroup,
    mints: Seq<AccountInfo>,
    oracles: Seq<AccountInfo>,
    quote_adj: U64F64,
    k: nat,
    n: nat,
)
    requires
        k <= n,
        market_prices(group, mints, oracles, quote_adj, k) is Err,
    ensures
        market_prices(group, mints, oracles, quote_adj, n) == market_prices(
            group,
            mints,
            oracles,
            quote_adj,
            k,
        ),
    decreases n,
{
    if k < n {
        lemma_market_prices_fail(group, mints, oracles, quote_adj, k, (n - 1) as nat);
    }
}

/// The prices of all tokens. The price of the quote token is one.
pub open spec fn token_prices(
    group: MangoGroup,
    mints: Seq<AccountInfo>,
    oracles: Seq<AccountInfo>,
) -> Result<Seq<U64F64>, Failure> {
    match quote_scale(group, mints) {
        Err(e) => Err(e),
        Ok(quote_adj) => match market_prices(
            group,
            mints,
            oracles,
            quote_adj,
            NUM_MARKETS as nat,
        ) {
            Err(e) => Err(e),
            Ok(prices) => Ok(prices.push(whole(1))),
        },
    }
}

/// Prices as a sequence.
pub open spec fn prices_view(r: Result<[U64F64; NUM_TOKENS], Failure>) -> Result<
    Seq<U64F64>,
    Failure,
> {
    match r {
        Ok(prices) => Ok(prices@),
        Err(e) => Err(e),
    }
}

/// Computes the price of a base token.
fn to_market_price(
    group: &MangoGroup,
    mints: &[AccountInfo],
    oracles: &[AccountInfo],
    quote_adj: U64F64,
    market: usize,
) -> (r: Result<U64F64, Failure>)
    requires
        market < NUM_MARKETS < mints@.len(),
    ensures
        r == market_price(*group, mints@, oracles@, quote_adj, market as int),
{
    if oracles.len() <= market {
        return Err(Failure::Aborted);
    }
    let value = U64F64::from_num(or_refuse(oracles[market].median)?);
    check_assert(mints[market].key == group.tokens[market], Check::BaseMint)?;
    let decimals = read_mint(&mints[market])?;
    let base_adj = or_abort(to_scale(decimals))?;
    let ratio = or_abort(quote_adj.checked_div(base_adj))?;
    or_abort(value.checked_mul(ratio))
}

/// Prices the tokens of a group from the decimals of their mints and the medians
/// of the oracles of the base tokens.
pub fn get_prices(
    mango_group: &MangoGroup,
    mint_accs: &[AccountInfo],
    oracle_accs: &[AccountInfo],
) -> (r: Result<[U64F64; NUM_TOKENS], Failure>)
    ensures
        prices_view(r) == token_prices(*mango_group, mint_accs@, oracle_accs@),
{
    let mut prices: [U64F64; NUM_TOKENS] = [U64F64::from_num(0);NUM_TOKENS];
    prices[NUM_MARKETS] = U64F64::from_num(1);
    if mint_accs.len() <= NUM_MARKETS {
        return Err(Failure::Aborted);
    }
    check_assert(
        mint_accs[NUM_MARKETS].key == mango_group.tokens[NUM_MARKETS],
        Check::QuoteMint,
    )?;
    let quote_decimals = read_mint(&mint_accs[NUM_MARKETS])?;
    if quote_decimals < 2 {
        return Err(Failure::Aborted);
    }
    let quote_adj = or_abort(to_scale(quote_decimals - 2))?;
    assert(prices@.take(0) =~= Seq::empty());
    let mut i: usize = 0;
    while i < NUM_MARKETS
        invariant
            i <= NUM_MARKETS,
            mint_accs@.len() > NUM_MARKETS,
            prices[NUM_MARKETS as int] == whole(1),
            quote_scale(*mango_group, mint_accs@) == Ok::<U64F64, Failure>(quote_adj),
            market_prices(*mango_group, mint_accs@, oracle_accs@, quote_adj, i as nat) == Ok::<
                Seq<U64F64>,
                Failure,
            >(prices@.take(i as int)),
        decreases NUM_MARKETS - i,
    {
        let ghost before = prices@;
        let price = to_market_price(mango_group, mint_accs, oracle_accs, quote_adj, i);
        proof {
            if price is Err {
                lemma_market_prices_fail(
                    *mango_group,
                    mint_accs@,
                    oracle_accs@,
                    quote_adj,
                    (i + 1) as nat,
                    NUM_MARKETS as nat,
                );
            }
        }
        prices[i] = price?;
        proof {
            assert(prices@.take(i + 1) =~= before.take(i as int).push(prices[i as int]));
        }
        i += 1;
    }
    assert(prices@ =~= prices@.take(NUM_MARKETS as int).push(whole(1)));
    Ok(prices)
}

} // verus!
