# dpcs

A toolkit for the Data Pipeline Contract Standard (DPCS): pipeline contracts,
capability profiles, orchestrator bindings, compatibility checks, packages and
a reference registry.

## Layout

- `src/` — the library, verified with Verus. Every public function states
  what it returns in its `ensures`; the properties that span functions are
  public proof functions (their names start with `law_`).
  - `diagnostics`, `error` — findings, reports and their deterministic order.
  - `model` — the contract object model, registries, semantic versions.
  - `capabilities` — matching a plan's execution demands against profiles.
  - `compatibility` — comparing two contracts or plans.
  - `binding` — orchestrator scaffolds (Airflow, Dagster, Temporal,
    Kubernetes) and the binding gate.
  - `plan`, `resolve` — plan assembly, reference location and nested
    pipeline resolution (over the answers the caller gathers from disk).
  - `package`, `paths` — package manifests and safe relative paths.
  - `registry_net` — registry server decisions, client paths and responses,
    and the lookup cache.
  - `report`, `cli` — text, Markdown, HTML, Mermaid and DOT renderings, exit
    codes and the inspector's key handling.
- `app/` — the command-line program: argument parsing, files, HTTP (server
  and client), archives, and the serde forms of the documents.
- `tests/` — tests of the library through its public interface.
