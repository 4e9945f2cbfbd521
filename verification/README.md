# sam-trust

Multi-dimensional trust scoring and relationship management, with the
decision logic verified by Verus.

- `src/` is the verified library:
  - `multidimensional_trust`: trust dimensions, policy evaluation
    (`All`, `Any`, `AtLeastN`) together with the designations a policy
    requires, explicit designations and the authority
    they grant, the stored form of designations, and the interaction-rate
    rule.
  - `relationships`: relationship types and sources with their stored
    names, descriptions, and the transitive inference of uncles and
    grandparents over a snapshot of known relationships, which reaches a
    fixpoint once its results are stored.
  - `trust_scoring`: trust levels and their stored names, the window of
    recent authentication attempts, the counting of attempts, baseline
    adoption and the impossible travel rule.
- `app/` holds what surrounds the library: SQLite storage, the clock, and
  the floating-point trust scores and confidences.
- `tests/` exercises the library on concrete values.
