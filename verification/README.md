# oraiswap_v3

The verified core of a concentrated-liquidity exchange for CosmWasm.

- `src/` is the library, written in Verus: tick bitmap addressing
  (`tickmap`, `tickmap_query`), tick rounding (`nearest_usable_tick`), fee
  tiers, pool keys and their storage encoding (`fee_tier`, `pool_key`,
  `bytes`), the admin-controlled configuration (`config`), asset transfers
  and position NFT approvals (`asset`, `nft`), position liquidity and fee
  settlement (`position`, `position_ticks`), the bookkeeping and stopping
  rules of a swap (`swap`), 256-bit and arbitrary-precision liquidity math (`uint256`,
  `big_num`, `bit_math`, `fee_growth_inside`, `max_liquidity_for_amounts`,
  `encode_sqrt_ratio_x96`) and the records of the single-pool AMM (`amm`).
  Every function there carries a contract that Verus proves; the calls into
  `alloy-primitives`, `num-bigint`, `num-integer`, `uniswap-sdk-core` and
  `cosmwasm-storage` sit behind small wrappers whose contracts are trusted.
- `app/` holds the CosmWasm entry points: they load and store state and hand
  plain values to the library.
- `tests/` exercises the library on concrete values.
