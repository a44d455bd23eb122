# hammer

Tools that put load on a Solana "hammer" program: a client that runs random
transactions from several threads against the program, a tool that creates
contention accounts for it, a tool that fetches the TPU addresses of the
cluster from gossip, and a base-58 encoder and decoder.

The logic of these tools is a library verified with Verus (`src/`):

- `commands`: the byte encoding of each command of the program, and the
  accounts that a command touches.
- `command_accounts`: the set of accounts of a command or an instruction, each
  address once with its write and signer flags, and the laws of adding to it.
- `accounts`: the accounts that the client has created and not yet deleted.
- `generator`: the random choice of a command that fits a compute budget.
- `batch`: the commands of one transaction and their grouping into
  instructions under the per-instruction compute limit.
- `creation`, `contention`: the instructions that create and delete accounts.
- `funding`, `rpc`, `blockhash`: when a fee payer is topped up, the
  round-robin choice of RPC servers, and when a fetched blockhash is used.
- `client_args`, `contention`, `tools`, `keyfile`, `decimal`, `pubkey`: the
  command lines of the tools, key files and base-58 addresses.

`app/` holds the programs themselves: command-line and file input, RPC and
gossip calls, threads, and the conversions to and from the `solana_sdk`
types. `tests/` runs the library on concrete values.
