# jitacart

The verified core of a logistics tracker for EVE Online groups: members
paste MultiBuy shopping lists, haulers claim, buy and deliver the items, and
reimbursements are settled by hand or by in-game contracts checked against
the corporation wallet.

`src/` is the library, verified with Verus: the MultiBuy parser, the item
and claim state machines, every authorization and input check the API
makes, the assembly of the pages it serves from database rows, the
settlement arithmetic, the cheapest-market pricing of a new list, the
token-at-rest cipher and the ESI error budget.
Calls into `aes-gcm`, `base64`, `rust_decimal` and `uuid` go through small
trusted functions whose contracts state what those crates document.

`tests/` exercises the library on concrete values. `app/` is the process
start-up: it reads the configuration (JSON) and builds the cipher from it,
and holds the serde shapes of the library's types.
