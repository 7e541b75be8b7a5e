//! kuberift: the logic of a fuzzy-first Kubernetes resource navigator — status
//! health classification, item rendering, status extraction per resource kind,
//! the watch-event state machine, and cost attribution.
pub mod config;
pub mod cost;
pub mod items;
pub mod k8s;
pub mod name_map;
pub mod text;
