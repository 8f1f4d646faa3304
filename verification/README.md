# llm

A verified library for a command-line client of language-model providers,
written in Verus. `src/` holds the client's logic with its contracts and
proofs; `app/` holds what touches files, the terminal and the process.

- `input`: the line editor (cursor moves by grapheme, wrapping by display
  width) and the history of entered prompts.
- `diff`: reading unified diffs, recording review decisions, and applying
  the accepted hunks to a file's lines.
- `chain`: prompt chains: variables, templates, step conditions, the run
  of a chain step by step, and the review menu.
- `conversation`, `backtrack`, `launch`: messages and what they are sent
  to a provider as, conversations, the session's list of conversations,
  snapshots to roll back to, the options the interface starts with as the
  command line gives them, and the conversation it opens with.
- `config`, `args`, `dialogue`, `stream`, `tooling`, `sixtydb`: settings and
  their paths, subcommands, dialogue participants, streamed replies, tool
  approval, and text-to-speech replies.
- `text`, `strings`, `unicode`, `utf8_facts`: text operations with the
  meaning std gives them, and the calls into std and the Unicode crates.

## Collections

- A chain's variables (`chain::memory::Memory`) are a vector of name/value
  pairs in which each name occurs once, in the order they were first bound.
  A map keyed by strings gives Verus nothing to prove `get` against.
- The snapshots of each conversation (`backtrack`) and the session's
  conversations (`conversation::manager`) are vectors. The client changes
  an entry in place (a conversation's snapshot list, the active
  conversation), and vstd specifies in-place access to a `Vec` element but
  not to a `HashMap` value or a `VecDeque` element.

## Not in the library

- The Bedrock backend and the HTTP halves of the 60db backend: the AWS SDK
  is not a dependency here, and sending requests is I/O. What the 60db
  client sends and how it reads the reply are in `sixtydb`.
- Reading `provider` or `provider:model` against the provider registry,
  and the dialogue's turn order: the registry and the dialogue controller
  live outside this crate, so `launch` takes the providers already read.
- Numbering dialogue participants across the process (a shared counter);
  `app/` does it and hands the number to the library.
- Sampling temperatures and penalties, which are floats; the caller keeps
  them.
