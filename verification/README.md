# Patina RPC

An asynchronous remote procedure call protocol in Rust, with its logic verified
in Verus.

Many callers share one connection. Each call gets an id, travels as a
length-prefixed envelope, and is woken by the answer that carries its id. A
trait annotated as a service is turned into a typed client and a server
dispatcher.

## Layout

- `src/` is the verified library. It performs no I/O.
  - `envelope.rs`, `body.rs`: messages and their bytes (bincode's standard
    encoding).
  - `codec.rs`: framing; `WireCodec` between a byte stream and envelopes.
  - `client.rs`: calls in flight, and what callers, reader and writer do on each
    event.
  - `server.rs`: handlers, routing and replies.
  - `macros/`: the rules for service traits and the code generated from them,
    from the tokens of an item (`reader.rs`) to the tokens put in its place
    (`writer.rs`).
  - `stub.rs`: what generated code does with arguments and return values.
  - `error.rs`: what can go wrong.
- `app/` runs the library over tokio: sockets, tasks, channels and timers. It
  also hands the compiler what takes the place of an annotated item.
- `tests/` runs the library with the real crates below it.

## What is proved

A function's contract says what it returns. What is left open, such as source
positions that only the compiler knows, is said where it is left open. Proof
functions named `law_*` state what holds across functions, among them:

- what was written is what is read, however the bytes are cut into pieces;
- an answer reaches the caller whose id it carries, and only that caller;
- no call in flight is overwritten, forgotten or left waiting after the
  connection closed;
- a call returns what the handler returned;
- exactly the well-formed service traits are accepted, generated code is
  balanced, and client and server agree on the names of methods.

bincode, bytes, tokio-util, syn and proc-macro2 are called through small trusted
functions, each with a contract of its own. What a program using the library has to
provide, such as a buffer that can grow by one frame, stands in the `requires`
of the function it calls.
