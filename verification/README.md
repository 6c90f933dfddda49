# monty

Verified parts of a Python interpreter: scope analysis of a module, the byte
string, dictionary, double-ended queue, class, context variable and `asyncio`
objects, `str.format`, the limits that a run is held to, and the session that
snippets are fed to one after the other.

## Layout

- `src/` is the library, all of it verified by Verus.
  - `ast`, `parse`, `prepared`, `model`, `prepare`, `prepare_spec`, `scope`,
    `names`, `name_map`, `intern`, `program`, `tstring`: from a parsed module to
    one whose names have scopes and slots.
  - `bytes`, `bytes_text`, `bytes_call`, `bytes_ops`, `scan`: byte strings and
    the search for one in another.
  - `dict`, `candidates`, `dict_probe`, `dict_merge`, `dict_call`, `dict_iter`,
    `dict_ops`: dictionaries, as a list of entries and a hash table of their places.
  - `deque`, `deque_call`, `deque_ops`, `equality`: double-ended queues.
  - `class`, `code`, `attrgetter`, `contextvar`, `contextvars`, `asyncio`,
    `event_loop`, `str_format`: further objects.
  - `repl`, `repl_continuation`, `cwd`: sessions, whether an input is complete, and
    working directories.
  - `value`, `heap`, `args`, `exceptions`, `resource_checks`, `text`, `hash`:
    what all of them share.
- `tests/` holds tests of the library on concrete values.
- `app/` is ordinary Rust around the library: the loops that run code on an
  engine, the calls of objects whose methods are code, and the saved forms.

Where an operation needs code of the interpreted program to run (a comparison, a
hash, an iteration, an attribute), the library says what it needs and is called
again with the answer.
