# rsomics-adf-test

Augmented Dickey-Fuller unit-root test, with its decision logic formally verified.

- `src/` is the verified library: option parsing, input validation, the lag
  bound (Schwert's rule in exact integer arithmetic), the layout of the search
  and final regression designs, the lag search as a state machine, the
  MacKinnon p-value region, and laws relating them. Floating-point values
  enter it only as IEEE-754 bit patterns, which it classifies and orders.
- `app/` is the command-line tool: reading the series, the least-squares
  fits (nalgebra), information criteria, p-value polynomials and critical
  values, and JSON output.
- `tests/` exercises the library on concrete values.
