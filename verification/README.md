# metel

Type inference and evaluation for the Metel language, with contracts that Verus
proves.

## Layout

- `src/` is the library. `src/lib.rs` lists its modules in groups: types and
  unification, what a program declares, the state of inference, values at run time,
  evaluation, and measuring. The modules whose names end in `_laws` state what holds
  of several operations together.
- `tests/` runs the library on concrete values.
- `app/` is the program around the library: the command line, files, other
  processes, the clock, floating point, and the JSON that a benchmark writes.

## How it is put together

Types and values have mathematical models: a type is a `Term`, a value a
`ValueTerm`. The contracts speak of these.

References, arrays and closures are shared while a program runs. They stand in a
`Store`, and a value names them by their numbers.

What the library cannot compute by itself it asks of a `Host`: to print, to read a
file, to add two floating-point numbers, to type the body of a generic function. A
host promises nothing of its answers, only that its history has every task that it
was given, with its answer. Contracts tie what a program does to that history: the
tasks are the ones that the program calls for, in that order, and the outcome is the
one that the answers lead to, whatever they are. `Script` is a host that answers from
a list.

Evaluation takes a bound on how deep it may nest. A program that reaches the bound
ends with `Stop::Endless`; `evaluation_laws` shows that a deeper bound never changes
how a program ends that did not reach it.
