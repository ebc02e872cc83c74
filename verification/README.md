# Diversified staking pool

The accounting of a contract that stakes the funds of many users in several
staking pools. Users hold shares of what the contract has for staking; a
liquidity pool buys their staked tokens at a discount, so that they need not
wait until a staking pool releases the funds.

- `src/` is the library, verified with Verus.
  - `math.rs`: proportions, percentages, and the exchange between amounts and shares.
  - `account.rs`: an account and the meter of its staking rewards.
  - `store.rs`: the persistent map of near-sdk that holds the accounts.
  - `pool.rs`: the state of the contract, its accounts, the price of its shares.
  - `staking.rs`: deposits, withdrawals, staking, unstaking.
  - `liquidity.rs`: the liquidity pool.
  - `balancing.rs`: the choice of the staking pool to move funds to or from.
  - `transfer.rs`: transfers of tokens between accounts.
  - `ledger.rs`: the totals are the sums over the accounts, and stay so.
  - `laws.rs`: what holds of the operations together.
- `app/` is the contract on the chain around it.
- `tests/` run the library on a mocked chain.

An operation takes what the chain says of the call (caller, deposit, epoch) as
arguments. One that is refused says why, and changes nothing; that includes one
in which a figure would leave the range of its integer.
