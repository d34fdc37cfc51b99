# libcrun-shim

A container runtime shim for OCI containers on Linux, and on macOS through a
Linux virtual machine that runs a guest agent. The library is written in
Verus: its functions carry `requires`/`ensures` contracts that Verus proves.

## Layout

- `src/` — the verified library.
  - `table.rs`: the container table and its lifecycle rules (create, start,
    stop, delete, cleanup, shutdown), with the laws they keep.
  - `runtime.rs`: the container runtime over the table, configuration checks
    and the errors it reports.
  - `agent.rs`, `proto.rs`, `macos.rs`: the guest agent's request handling,
    the records it exchanges with the host, and how the host reads answers.
  - `image.rs`: image references, registry addresses, manifests, pull plans,
    digests, image metadata and the image catalog.
  - `metrics.rs`: readings of cgroup and procfs files.
  - `oci.rs`, `shim.rs`, `cri.rs`: OCI runtime configuration, bundles, and
    the containerd and CRI interfaces, with the task and container requests
    the shim and the CRI server answer.
  - `cli.rs`: what the command-line tool shows and decides.
  - `types.rs`, `error.rs`, `events.rs`, `path.rs`, `text.rs`: shared types,
    errors, the event channel, paths and text handling.
- `tests/` — tests of the library on concrete values.
- `app/` — the programs around the library: the command line, the guest agent
  server, the shim and CRI socket servers, the image store's network and file
  work, terminals, and the wire format. The shim and CRI servers read one JSON
  request per line (with a `method` field) and write one JSON answer per line;
  containerd's ttrpc and Kubernetes' gRPC framings are not provided.
