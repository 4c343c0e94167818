# revm

The core of an Ethereum virtual machine, written in Rust and verified with
Verus: the bytecode and its analysis, the interpreter with its stack, memory
and gas, the instructions, the journal of state changes, the frames of a
machine, and the curve operations of the precompiles.

## Layout

- `primitives`: 256-bit words, addresses and hashes, hard forks, Keccak-256.
- `bytecode`: opcodes, code with its table of jump destinations, delegations.
- `gas`: the gas counter, what memory costs, and the prices of instructions.
- `interpreter`: stack, shared memory, code under way, and the dispatch loop.
  `state` holds the model that contracts speak of; `laws` what holds of runs.
- `instructions`: one function for each instruction, with a specification of
  the step it makes, and the instruction table.
- `host`: what an interpreter asks of the world around it.
- `journal`: accounts, storage, logs, and the entries by which changes are
  undone. `model` holds the state that contracts speak of; `laws` what a
  return to a checkpoint brings back.
- `handler`: machines made of a context, instructions, precompiles and frames.
  A context answers the questions of instructions from its journal; `laws`
  holds what a frame leaves behind when it is reverted.
- `precompile`: points and pairings of the BN254 curve.

## What is trusted

Word arithmetic is done by `ruint`, hashing by `alloy-primitives`, the bits of
jump tables by `bitvec`, and curve arithmetic by `substrate-bn`. Each call goes
through a small function whose contract says what is taken from the crate
without proof. Everything else is proved.
