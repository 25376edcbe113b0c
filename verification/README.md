# edge_database

The business rules of a restaurant outlet's local database, written in
Verus and proved against their contracts.

- `src/` is the library. `tax` computes GST over invoice lines (both pricing
  modes, largest-remainder splits, rupee round-off) and resolves which
  compliance version, profile and rates apply; `procurement` converts
  purchase units to base units, costs receipts and numbers them; `payment`
  holds the tender and reversal rules and the cash-shift decisions; `stock`
  holds wastage, counts, variance and the bounded current-stock read;
  `order` holds order-status gates, kitchen-ticket transitions and display
  numbers; `payload` reads and patches JSON stored with tickets and outbox
  events. Each public function states in its `ensures` what it returns, and
  the laws that relate several functions are public proof functions.
- `app/` is the SQLite side: the reads that feed the rules, the writes that
  record their decisions, and the JSON payloads of outbox events.
- `tests/` runs the library on concrete values.
