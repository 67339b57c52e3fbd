# chos_lib

Support library of a small x86_64 kernel, verified with Verus.

- `src/` is the verified library: integer helpers, addresses, frames and
  mappings (`mm`), ELF64 and tar readers, intrusive lists and hash tables,
  ring queues, the x86_64 paging, APIC, I/O APIC and HPET register fields,
  and the single-step spin primitives.
- `app/` holds what touches the machine or the formatting machinery:
  memory-mapped registers, waiting loops around the spin primitives, the
  log handler registry and the `Display` forms of library values.
- `tests/` runs the library on concrete values.

The intrusive structures keep the links of all the values in one table,
indexed by the value's number (and, for the hash table, their keys in a
second table): a list or a bucket refers to its values by number and threads
them through their links. The contracts state what each operation does to
the values of the structure and to the links.
