# corpus-core

The core of a research corpus: projects and the knowledge they gather, the
agents that work on them under roles and permissions, the missions that the
agents are launched on, and the plugins whose environments they work in.

The library under `src/` decides and computes. Every function of it is verified
with Verus against its contract, except the small wrappers named below, whose
contracts are believed. It does no input or output: what was
read, listed, asked or waited for is handed to it as plain values, and what is
to be written, started or asked next is what it hands back. Where a task
alternates between deciding and acting, it is a machine whose steps the library
takes: fetching a source tree, exporting a conversation, opening an environment
session, installing a release.

| module | what it is about |
| --- | --- |
| `text`, `path`, `table`, `order`, `json` | the values that everything else is stated over |
| `error`, `frontmatter`, `digest` | errors and their texts, fenced headers, digests of bundles |
| `store` | where things are kept, slugs, projects, missions, corpus entries, statistics, usage |
| `agents` | agent documents, roles, permissions, delegation and rendering |
| `templates`, `models`, `audit` | templates of agents, the model registry, the audit log |
| `plugin`, `registry` | manifests, the protocol, operations; pins of sources and the status of plugins |
| `plugin_install`, `plugin_distribution` | immutable installations, curated releases and their archives |
| `srcrev` | revisions of source repositories and the trees fetched of them |
| `environment_session` | durable environment sessions, from opening to closing |
| `launch` | plans, commands, environments, terminals, transcripts and the end of a run |

A law that spans several functions is a public proof function whose name begins
with `law_`, in the module that it is about.

What the library takes from other crates (JSON and YAML text, SHA-256, random
bytes) stands behind small wrappers in `json`, `frontmatter`, `digest` and
`launch::policy`. Their doc comments say which function they call and what is
believed of it.

`app/` is ordinary Rust around the library: files, processes, git, tmux, HTTP
and archives, and the forms in which records are kept on disk. `tests/` runs the
library on concrete values.
