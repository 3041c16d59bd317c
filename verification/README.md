# quantsupport

Verified core of a quantitative finance support library, written in Verus.

- `src/` is the library; every function in it is verified:
  - `time`: calendar dates, periods (and their text form), frequencies.
  - `currencies`, `indices`: ISO currencies and market indices.
  - `quotes`: FX spot rates with triangulation (`fxstore`), the grammar of
    quote identifiers (`quotedetails`), quote levels and selectors (`quote`),
    a quote store, and market scenarios that shock the quotes they target.
  - `rates`: rate definitions, IBOR and overnight indices (their fixings
    and where a forward rate comes from), the interest rate index store,
    yield provider and curve context stores, composite and mixed term
    structures,
    and curve bootstrapping (curve configurations, and the quote
    resolution, dependency ordering with cycle detection and FX checks of a
    multi-curve bootstrap).
  - `pricing`, `pricers`: discount policies, market data requests and the
    pricers that build them, and the cashflow pricer's choice of discount
    curve and check of the cashflows it can value; `models`: model and simulation configurations.
- `tests/` exercises the library.
- `app/` holds the glue that cannot be verified: serde records of the
  library's inputs, displayable error types, exchange rate values and
  scenario shocks on `f64` quotes, and interest rates with their compound
  factors and implied rates. The numeric valuation of the pricers, the curve
  solves of the bootstraps and the stochastic models work on floating point
  and on curve, instrument and cashflow types that this project does not
  include; they are not part of it.
