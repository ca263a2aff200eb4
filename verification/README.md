# polymix

The business core of a print-shop back office, verified with Verus:

- `src/engine` — the quote engine: resolving a product template and a
  parameter selection into a job spec, compatibility rules, machine and
  material costing, margin bands, rounding and quantity ladders.
- `src/domain` — customers, orders, invoices and quotes: validation, status
  lifecycles, money arithmetic, conflict reasons and their details.
- `src/api` — the request-side logic of the HTTP service: error envelopes,
  bearer tokens, token key ids and checks, the caller's identity from
  claims, configuration, status dictionaries, quote line
  pricing and repricing, the calculator, live-update fan-out decisions.
- `src/seed` — planning of demo data from given random rolls.
- `src/json.rs`, `src/text.rs`, `src/seqs.rs` — JSON values, string helpers
  and sequence facts shared by the rest.

`tests/` exercises the library on concrete values. `app/` is the HTTP
service around it (axum): configuration from the environment, the identity
provider's key set, price-model snapshots per pricelist version, the routes
that need no database (health, identity, dictionaries, estimates), and the
WebSocket session loop. The routes over customers, orders, invoices, quotes
and search, and the demo-data seeder, need the document store and are not
part of this service.
