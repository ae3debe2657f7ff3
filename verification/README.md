# decompiler

The data-type system of a decompiler, written in Verus: every function carries a contract
that is proved.

- `types`: data-types and the factory that keeps them. Creating, comparing, ordering, laying
  out and splitting data-types; enumerations; typedefs; reading and writing documents of
  data-types (`decode`, `members`, `document`, `finish`, `nest`, `encode`).
- `typeop`: the kinds of p-code operations, the data-types they ask for and hand on, and how
  they are listed.
- `unionresolve`: which field of a union an operation reads or writes, by trying the fields
  and scoring them.
- `variable`: high-level variables, the merging of varnodes into them, and groups of pieces.
- `userop`, `userop_decode`: operations that a processor defines for itself.
- `laws`: what holds of several operations together.
- The other modules (`address`, `arena`, `architecture`, `cover`, `cpool`, `database`,
  `float`, `fspec`, `funcdata`, `marshal`, `op`, `opbehavior`, `opcodes`, `space`, `text`,
  `varnode`) hold the program that the above work on, as plain data with handles in place of
  references.

A document is a tree of `Element`s on the way in and a list of `Token`s on the way out.
Integer operations are computed (`opbehavior`). Questions that only a printing language,
floating point or injected code can answer are handed out as plain values (`CastPlan`,
`TokenPlan`, `PrintRequest`, `FloatRequest`, `ExecuteRequest`).

Reading keeps what is unusual too: a structure that holds itself, one that outgrows what
holds it, a field that is a space of symbols, elements that take up no room. A factory with no
structure of these kinds is *firm* (`TypeFactory::firm`): adding and completing data-types say
whether it stays so, and the operations that walk into data-types ask for it. With the message
`Malformed data-type` reading refuses only what no handle or no 32-bit size can be given to.
