# sigil_kernel

The decisions of an agent kernel, verified with Verus.

The library under `src/` reads what a session recorded and what was found in a workspace, as plain
values, and decides what follows: which plan of intents is accepted, which execution a change belongs
to, which layer of changes an intent owns, how an intent can be dropped and what became of the drop,
which proposals can be integrated side by side, which execution backend may run a command, and what of
hosted tools, images and external sources may be kept. A function states its result exactly, with two
exceptions. Which identity a new external source draws is left to chance: only its form is stated. What
a resolver of images answers is up to the resolver: stated is what becomes of each answer it may give.
What holds of several functions together is proved by the functions whose names begin with `law_`.

| Modules | What they decide |
| --- | --- |
| `intent`, `intent_contract`, `intent_layer_contract`, `intent_event_contract` | the types of intents, their shapes and their digests |
| `intent_admission`, `intent_stack` | admission and acceptance of plans, replay of a stream |
| `lineage_facts`, `intent_lineage`, `lineage_append`, `lineage_replay` | executions, change sets and evidence |
| `layer_facts`, `intent_layer`, `layer_materialization`, `layer_replay`, `intent_patch` | layers and patches |
| `intent_drop`, `intent_operation`, `drop_execution`, `operation_recovery`, `operation_replay`, `batch_evidence` | dropping an intent |
| `intent_impact`, `intent_revision` | impact and acceptance of revisions, adoption by a fork |
| `integration`, `integration_plan`, `integration_lanes`, `dag` | lanes of integration |
| `execution_backend`, `managed_execution`, `extension_admission` | execution policies, plans and admissions |
| `hosted`, `external`, `image_attachment` | hosted turns, external sources, images |
| `value`, `search`, `order`, `text`, `json`, `json_exact`, `digest`, `stream`, `records`, `intent_state` | what the others are made of |

What awaits, stores or touches the disk is under `app/`: stored forms with `serde`, services, and the
loops that carry out what the library decides.
