# sieve

Pieces of a Sieve (RFC 5228) mail-filtering engine, written in Verus: each
function carries a contract and Verus proves the code against it.

## Layout

- `src/lib.rs`: compiler limits, envelope parts, metadata and the small
  enums shared by the rest.
- `src/compiler/`: the script tokenizer (`lexer/tokenizer.rs`), the reader of
  strings with `${...}` variables and `%{...}` encodings (`lexer/string.rs`),
  the words and capabilities of the language, and the error types.
- `src/runtime/`: values and the operators of expressions, reading header
  values, and the actions:
  - `action_notify.rs`: notification URIs, `mailto:` reading, the
    notification message, and the actions a `notify` queues;
  - `action_vacation.rs`: the subject and the message of a vacation reply,
    and the actions it queues;
  - `action_redirect.rs`: redirect addresses, deliver-by dates, when a
    redirect goes out;
  - `action_flags.rs`: IMAP flag lists;
  - `action_editheader.rs`, `action_mime.rs`, `action_convert.rs`,
    `action_set.rs`: added and kept headers, enclosing and replacing the
    message, conversions, and the `set` modifiers;
  - `message.rs`: writing the edited MIME tree back to bytes, and
    `enclose` on the running message;
  - `header_select.rs`: which headers a header variable names, and adding
    and deleting headers;
  - `disposition.rs`: the implicit keep, what cancels it, and what the end
    of a run hands to the host;
  - `machine.rs`: the interpreter's state machine, one step per
    instruction (CPU limit, `require`, tests answered by the host, jumps,
    `set`);
  - `store.rs`: the local variables of each frame and the global ones;
  - `queue.rs`: the actions waiting for the host, handed out in order;
  - `header_value.rs`: what a header variable reads of a header, through
    the message parser's address, date, id and text parsers;
  - `expression.rs`: the operators and the stack evaluator of expressions.
- `src/header.rs`, `src/runtime/platform.rs`, and the wrappers in
  `src/text.rs`: the calls into `mail-parser`, `mail-builder` and std whose
  behaviour Verus takes from their contracts.
- `tests/`: tests on concrete values.
- `app/`: the floating-point side of values and expressions, which Verus
  does not handle, and the loop that runs a script through the state
  machine for a host and hands it the queued actions.

Properties that span several calls (for instance that `peek` then `next`
give the same token, or that a `mailto:` URI never lists an address twice)
are stated as public proof functions named `lemma_*` next to the code they
speak of.
