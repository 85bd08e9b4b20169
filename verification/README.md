# neutron_agent

The decision logic of a host agent that applies Neutron port snapshots to a datapath, written and
proved in Verus.

The agent gets snapshots of the ports that a host should carry. It admits or refuses each one, logs
its intent, attaches and detaches interfaces, renders ACLs into groups and policies, commits what
came of it to a write-ahead log, and reports its status. After a failure or a restart it brings the
ports of an unfinished intent back to a known state.

## Layout

`src/` is the verified library. It does no I/O: every flow that talks to the host is a function
from what happened so far to the next step.

| Area | Modules |
| --- | --- |
| Data and text | `model`, `ordered`, `text`, `payload`, `host` |
| Scope, domains, inventory, plans | `scope`, `domains`, `inventory`, `plan`, `plan_laws`, `transaction` |
| ACLs | `acl_cidr`, `acl_ports`, `acl_rules`, `acl_selector`, `acl_overlap`, `acl_plan`, `acl_gate`, `acl_laws` |
| Taking up and applying snapshots | `admission`, `acceptance`, `apply`, `apply_laws`, `reconcile`, `submit` |
| Deleting and recovering | `delete`, `intent`, `recovery`, `committed`, `health` |
| Status | `status`, `status_v1`, `status_response`, `status_laws`, `counters` |

`app/` is the service around it: HTTP routes, background tasks, OVS commands, and the loops that
perform the steps. The host itself (tap registry, control plane, write-ahead log, counters, fault
points) stands behind the trait `Host`.

`tests/` runs the library on concrete values.

## What is taken on trust

* `payload`: SHA-256, from `sha2`.
* `inventory`: reading JSON, from `serde_json`.
* `text`: `String::push` and `str::to_ascii_lowercase`.
