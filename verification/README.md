# kuberift

The logic of `kf`, a fuzzy-first Kubernetes resource navigator, as a library
verified with Verus.

- `src/` — the verified library:
  - `items` — status health classification, resource kinds, colors, name
    truncation, and the text of a list row, its search text, its preview
    command and its output line;
  - `k8s::resources` — the status shown for each resource kind, which
    namespace a watcher is restricted to, and the age column;
  - `k8s::watch` — the watcher state machine (what each watch event adds to,
    refreshes in, or marks deleted in the list) and the sorted hand-over of
    the first listings;
  - `k8s::discovery` — which discovered API resources count as watchable
    custom resources, the namespace a custom-resource watcher is restricted
    to, and the status of a custom object;
  - `cost` — finding the OpenCost service, attributing allocations to pods,
    controllers and namespaces, and the kubectl and HTTP requests made;
  - `text`, `name_map` — string helpers and a small map keyed by
    (namespace, name), specified over their views.
- `app/` — the I/O around it: the configuration file, kubectl and HTTP
  calls, the Kubernetes watch streams, cost sums (floating point), and the
  skim item type. It discovers custom resources but starts no watcher for
  them: a list item's kind is a `ResourceKind`, which has no variant that
  names a custom resource.
- `tests/` — tests of the library.
