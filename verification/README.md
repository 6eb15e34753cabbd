# number

Exact rational numbers of arbitrary size for reference formulas, property tests and invariant
checks, verified with Verus on top of Malachite.

A `Number` is kept in lowest terms (a type invariant); its view is the pair of its numerator and
its positive denominator, and every contract speaks of that pair.

- `src/` is the verified library:
  - `ratio.rs`, `natural.rs`: the mathematical model (gcd, reduced ratios, limbs and digits)
    and its lemmas;
  - `number.rs`: the type, its invariant and its constructors from integers;
  - `ops.rs`, `lhs_ops.rs`, `from.rs`, `signed.rs`, `order.rs`, `try_into.rs`: exact
    arithmetic, conversions, signs and order;
  - `literal.rs`: literals such as `42.21` and `1.5 / 0.25`;
  - `parse.rs`, `format.rs`: reading `n`, `n/d` and decimal or scientific notation, and the
    fraction and decimal texts;
  - `rational_varint.rs`, `typical.rs`: the two-varint binary encoding;
  - `laws.rs`: the algebraic and order laws;
  - `malachite.rs`: the calls into Malachite, each behind a contract.
- `app/` wraps the library's type with the traits of outside crates (serde, borsh, SCALE,
  schemars, num-traits), `Debug`, `Ord`, `Sum`, the `num!` macro, and the conversions from
  floats, `NonZero` integers, num-bigint, num-rational and ruint.
- `tests/` holds the tests.
