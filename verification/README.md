# zitro

Carbon-footprint auditing of web pages, verified with Verus.

- `src/` is the library: the EcoIndex score (in hundredths of a point),
  grades, the carbon estimate (exact, in 1/1024 of a nanogram, from emission factors in
  milligrams of CO2eq per kWh), country emission factors, the choice of the
  heaviest resources, and the audit session that decides which resources of a
  page to fetch and what each answer counts for. `src/laws.rs` holds the
  properties proved of it on every input.
- `app/` is the command-line program: argument parsing, HTTP requests, the
  embedded emission-factor table, and terminal output.
- `tests/` runs the library on concrete values.
