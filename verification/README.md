# emmylua_code_analysis

A verified core for the analysis of Lua code with type annotations: what types there are, which
members their values have, when a value of one type may stand where another is wanted, which
signature a call goes to, and which type a variable has at a place in the flow of control.

The library in `src/` is written in Verus. Every function states what it computes over a mathematical
picture of types (`Ty`) and of the index of a workspace (`DbTy`), and is proved to do so.

| module       | what it holds                                                              |
|--------------|----------------------------------------------------------------------------|
| `types`      | types, their parts, their equality and the questions asked of them         |
| `db`         | the index: declared types, members, modules, signatures; unions of types   |
| `generic`    | templates, conditional types and the operators on types                    |
| `member`     | the members of a type, inherited ones and those of unions and aliases      |
| `type_check` | the comparison of types, with its limits, its memory and its reasons       |
| `overload`   | arguments, parameters and the choice among signatures                      |
| `infer`      | members by key, indexing, `or`, tables and what is expected of them        |
| `flow`       | questions about variables, followed back through the flow of control       |
| `tables`     | sets and tables of numbers                                                 |
| `diagnostic` | arguments and table fields that do not fit                                 |

The syntax tree is not part of the library. What a decision needs to know of it is handed over as
plain values; `app/` shows the loop that asks for them.

Answers that the flow engine keeps, and the templates that a pattern binds, are found through
`hashbrown` tables. The calls into that crate stand in `src/tables.rs`, each with a contract that is
taken from its documentation.
