# objc_messages

Objective-C messaging for an emulator of 32-bit apps, verified with Verus:
`objc_msgSend` and its variants, messages to super, lazy `+initialize`, and the
host's side of sending messages.

What sending a message does is stated as a relation between the state before and
the states that may come after (`src/semantics.rs`). Methods can do anything, so
the relation is stated over a function that runs them; everything else is fixed:
which calls of that function are made, in which order, in which states, and what
becomes of the states they leave. The function is held in a `Runner`, which logs
each call, and the log is part of the state. `src/messages.rs` is proved to follow
that relation, and to end, because dispatches are nested only so deep.

`src/laws.rs` states what follows for all messages. Whatever the methods do,
messages to nil return zero, the stack pointer is kept, arguments and results pass
through (but for one game that gets special treatment), and a class that is marked as initialized is not initialized again. Other
laws hold as long as the methods play along, and say in which way: that classes
stay initialized needs methods that do not take that back, that superclasses come
before their subclasses needs methods that keep superclasses too, and that
arguments on the stack survive `+initialize` needs methods that leave their
caller's stack alone. `src/alike.rs` states what does not matter to messages as
long as methods do not look at it: the signature that a message is checked against
and what has been noticed, and, outside of that game, what is kept of
it.

- `src/` is the library.
- `tests/` runs it on concrete classes, objects and methods.
- `app/` connects it to a process: its log and its environment variables.

The tables of classes, selectors and guest memory are part of the library. What
only the rest of an emulator can do (running a method, allocating an object,
registering a selector, making a class known) is asked of a function that the
caller passes to every message in a `Runner`.
