# Zava

Privacy-preserving savings, credit and payments on Stellar: six Soroban contracts
whose logic is verified with Verus.

| Module | What it is |
|---|---|
| `zava_vault`, `vault_laws` | shielded payment pool: deposits, withdrawals, transfers and partial withdrawals of notes |
| `merkle` | the note tree and the ring of recent roots |
| `zava_credit`, `credit_laws` | credit and loan size from deposits in the vault |
| `savings` | append-only ledger of weekly deposits |
| `credit_verifier` | credit tiers from proofs about the ledger |
| `honk_verifier`, `groth16` | proof verifiers with a key that is set once |
| `bytes`, `claim_words`, `address`, `table` | encodings and keyed entries |
| `host` | the calls into the Soroban SDK, with what is claimed of them |

The library keeps a contract's state in a struct and never touches the ledger. A
method decides, changes the struct and puts what the ledger has to do (ask for an
authorisation, move tokens, publish an event) into the struct's outbox. The
contracts under `app/` load the entries that a call touches, call the method, write
the entries back and perform the outbox. Other contracts are reached through the
interface traits `HonkVerifierInterface`, `VaultInterface` and `SavingsInterface`. A
method that asks one requires it to be the contract at the configured address.

A method's contract says when it fails, with which error, and what the state and the
outbox are afterwards, over a mathematical view of the state. The `try_` forms of
operations do the same without a bound on totals, positions, weeks and times: they
return nothing where the result could not be counted. The `try_` forms on the proof
verifiers return an error where the plain ones require a key. Functions whose names
start with `law_` state what holds over several calls or for all inputs.

Everything the proofs rest on besides Verus is in the functions marked
`external_body`: SHA-256 and the keyed slots (`host`), the serialisation of addresses
(`address`) and the UltraHonk verifier crate (`honk_verifier`).
