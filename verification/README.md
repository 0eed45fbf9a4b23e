# manifestvault-engine

A verified engine for ManifestVault: it normalises Kubernetes workload
manifests, matches the packages of container images against OSV advisories,
and scores each workload with the Component Importance Index (CII).

- `src/` is the library, written in Verus.  Every public function states its result
  in its contract over a mathematical model of its inputs.  What the YAML and
  Kubernetes crates make of a manifest text is named document by document
  over the text and the document's position (`decode`), and what std's path
  functions give is named over the path (`scan`); the contracts are exact
  over those names.
  - `manifest`, `decode`: normalising workloads; `decode` reads YAML and the
    Kubernetes API types through `serde_yaml`, `serde_ignored` and
    `k8s-openapi`.
  - `advisory`, `version`, `cvss`: advisories, version ranges and CVSS v3
    vectors.
  - `score`, `report`, `properties`: scoring, reports, and what holds of every
    report (finding order, one finding per key, the topmost layer wins, the
    index is the sum of the scores).
  - `scan`: where bills of materials are looked up, which one each
    container gets, and which entries of an advisory feed are read.
  - `layer`, `sort`, `text`, `cli`: bills of materials, stable sorting,
    character-level strings, the command line as plain values.
- `app/` is the `manifestvault` command: file and directory reading, the
  advisory feed loader (it asks `scan::feed_entry_action` what to do with
  each entry), JSON rendering, and the CVSS base-score arithmetic,
  which is floating point.
- `tests/` exercises the library.

Scores are fixed-point numbers in hundredths (`980` is 9.80); CVSS scores
travel as the bit pattern of their `f64` value.
