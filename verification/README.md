# auction

The rules of an NFT auction program on Solana, verified with Verus.

- `src/state.rs`: the accounts' data (`Data`, `Auction`, `Bids`) and the errors.
- `src/accounts.rs`: what each instruction reads and writes (`Initialize`,
  `StartAuction`, `MakeBid`, `Redeem`), with their constraints.
- `src/ledger.rs`: lamport balances and transfers; a transfer conserves lamports.
- `src/settlement.rs`: sequences of transfers and checks, and what they do to a ledger.
- `src/metadata.rs`: the token metadata that a sale reads (royalty and creators),
  decoded by `metaplex-token-metadata`.
- `src/auction.rs`: the instructions `new`, `start_auction`, `place_bid` and
  `redeem`, the specification of a sale, and its laws.
- `app/lib.rs`: the Anchor program that validates the accounts, calls the
  library, writes the lamports back and makes the token program calls.
