# cubesql

Planning of queries over cubes, verified with Verus.

- `src/` is the library.
  - `planner`: the query planner's state, and what it hands to the planner of cube scans.
  - `plan`, `align`, `align_laws`: alignment of subquery inputs. A subquery operator that reads
    an empty relation of one row and no columns gets a source of one row and no columns instead;
    every other operator is kept, or rebuilt over its new children.
  - `source`: what is taken from Arrow and DataFusion.
  - `json`, `request`: load requests, read out of wrapper SQL.
  - `members`, `fixture`, `fixture_laws`, `text`: rendering of wrapper SQL over inline tables.
  - `meta`, `templates`, `cases`, `role_cases`, `results`: sample cubes, SQL templates, queries
    and what their results have to be.
- `app/` connects the library to DataFusion: the `QueryPlanner` and the checks that run rendered
  SQL.
- `tests/` runs the library, partly on real DataFusion plans.
