# aiondb_engine

A small SQL engine in verified Rust: the functions of the library have contracts, and
Verus proves that their code meets them.

An engine holds the committed state of a database and a list of sessions. A client
starts a session, sends texts of statements, and gets results. The contract of
`Engine::execute_sql` says, for every engine and every text, which results come back
and what the engine is afterwards; all the other modules exist to say that in
pieces that can be read.

## Layout of `src/`

| module | what is in it |
| --- | --- |
| `text`, `symbols` | texts as sequences of characters; the table of names and texts |
| `keyword`, `lexer`, `ast`, `parser` | from a text to statements |
| `datum`, `fields`, `relation` | values, rows of named columns, sets and orders of rows |
| `catalog` | tables, sequences, schemas, roles and privileges |
| `analyze`, `eval` | the columns of a query, and its rows |
| `strings`, `window` | functions on texts, and functions of the rows around a row |
| `supply` | the texts that a statement makes, entered before it runs |
| `dml`, `upsert`, `change` | what statements do to a database |
| `returning` | what statements that change rows give back of them |
| `defined`, `block` | types, casts and functions of a session; blocks of code |
| `portal`, `prepared`, `hints` | cursors and portals, prepared statements, the types of their parameters |
| `txn` | transaction identifiers, savepoints, and the parties of a transaction |
| `settings`, `notice`, `fault` | what can be set, said and refused |
| `session` | what each statement does to a session and to what sessions share |
| `security`, `auth` | password rules, logins, lockout |
| `value`, `engine` | what clients see |
| `explain`, `logictest` | readers of plans and of scripts |
| `fixtures`, `harness` | ready-made engines, tables and readers of results |
| `validity` | what holds of every state of a database |
| `meaning` | what holds of what queries give back and of what statements do to rows |
| `laws` | what holds of every engine, session and statement |

Statements are modelled by step functions from a world (what sessions share, and
one session) to a world and an answer. `laws` is about those functions: a block is
private until it is committed, a failed statement commits nothing, a rollback to a
savepoint brings back what the savepoint saw, sessions do not disturb each other,
and so on.

Two facts about the standard library are taken without proof: what `String::push`
does (`text`), and that the quoted form of a text is a function of the text
(`harness`).

## What the engine understands

Values are 32-bit and 64-bit integers, truth values, texts and null. Queries have
select lists, joins of every kind, `WHERE`, `GROUP BY`, `HAVING`, `DISTINCT` and
`DISTINCT ON`, `ORDER BY`, `LIMIT` and `OFFSET`, set operations, subqueries, `WITH`,
`VALUES`, `generate_series` and `ROWS FROM`. Expressions have three-valued logic,
arithmetic, comparisons, `BETWEEN`, `IN`, `EXISTS`, `LIKE`, both forms of `CASE`,
`COALESCE`, `NULLIF`, casts, functions on texts, the aggregates `COUNT`, `SUM`, `MIN` and
`MAX` with `DISTINCT` or `FILTER`, and these aggregates, `ROW_NUMBER`, `RANK`, `LAG` and
`LEAD` over windows.

There are statements to insert, update and delete rows, with `ON CONFLICT` and
`RETURNING`; to make and drop tables, columns, indexes, schemas and sequences, and to draw
from sequences; for roles, passwords, privileges, membership in roles and what roles own;
for transactions, savepoints and their modes; for settings and for the role that a session
acts for; for types, casts and functions; and for cursors. Statements can be prepared, with
parameters, and executed in portals. A block of code has variables, assignments, branches
and notices.

What is not there is refused, as a syntax error or as an unknown name: decimal and
floating-point numbers, dates, times and intervals, arrays, JSON, vectors and other types;
`MERGE` and `CURRENT OF`; views and rules; `PREPARE` and `EXECUTE` as statements, and tables
made from queries; catalogs that can be queried, statistics, plans and their cache; foreign
keys and checks; transactions that are prepared; tenants, nodes and graph queries. An index
is checked against its table and not kept, a password is kept as it was given, and a name in
a statement is looked up in the tables alone. A text in a `CHAR` column is not padded. The
types, casts and functions that a session defines are kept, with what depends on them, and
nothing can be computed with them. `nextval` stands for a whole value: in a select list
without tables, in the rows of an insertion, in an assignment, or as the default of a
column; a transaction that is rolled back gives back what it has drawn.

`app/` holds what reads files, the environment and the clock. `tests/` holds
scenarios that run the engine.
