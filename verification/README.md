# krust_operator

A Kubernetes operator whose resources are looked after by language-model agents. A resource names
a skill (monitors, actions, prompts) and a goal; monitors watch it, a trigger wakes its worker, and
the worker runs a pipeline of agents (planner, simulator, executor, verification) that act through
tools within the resource's guardrails.

`src/` is the verified library: every rule, parser, state machine and check, each with its
contract. `app/` does what reaches outside: the cluster, the model's service, files, processes and
the clock. It performs the steps that the library decides and hands the outcomes back. From the
environment it takes `SKILLS_DIR`, the directory of the skills, `ANTHROPIC_API_KEY`, and
`DEFAULT_MODEL`, the model of a resource that names none.

- `text`, `json`, `table`, `path`: texts, documents, tables and paths.
- `crd`, `types`, `channel`: resources, snapshots, the circuit breaker, the registry of channels.
- `skill`: the front matter of a skill, its files, and the triggers of its monitors.
- `monitor`: which monitors are due, and what a monitor's script said.
- `agent`: the loop of an agent, the requests to the model, the tools' interface, the worker.
- `pipeline`: the stages and how they follow each other.
- `controller`: what a reconciliation does, and the status of a resource.
- `tools`: what agents can call, and what is refused to them.

The public proof functions named `lemma_..` state what holds across functions: that a high-risk
plan is only executed after it was approved, that a worker stops after three failures, that
resolved paths stay inside their base directory, and so on.

The library calls `serde_json`, `serde_yaml` and `regex`; what is believed of those calls stands in
the contracts of the functions marked `external_body` in `text`, `json` and `tools::template`.
