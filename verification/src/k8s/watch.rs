//! The decisions of one resource watcher: which items to add to the list,
//! which listed items to refresh or mark deleted, and the order in which a
//! batch of items is handed over (healthy first, critical last, so that the
//! list shows critical items on top).
use vstd::prelude::*;

use crate::items::{
    classify_status, deleted_status, health_priority, K8sItem, K8sItemView, ResourceKind,
};
use crate::name_map::{NameKey, NameMap};
use crate::text::str_eq;

verus! {

// ─── Display order ───────────────────────────────────────────────────────────

/// The sort priority of an item's status (0 critical, 1 warning/unknown, 2 healthy).
pub open spec fn item_priority(v: K8sItemView) -> u8 {
    health_priority(classify_status(v.status))
}

pub open spec fn at_priority(p: u8) -> spec_fn(K8sItemView) -> bool {
    |v: K8sItemView| item_priority(v) == p
}

/// The order items are handed to the list: a stable sort by descending
/// priority — healthy items first, then warning/unknown, then critical.
/// The list renders later items on top, so critical items end up on top.
pub open spec fn display_order(s: Seq<K8sItemView>) -> Seq<K8sItemView> {
    s.filter(at_priority(2)) + s.filter(at_priority(1)) + s.filter(at_priority(0))
}

pub open spec fn item_views(v: Seq<K8sItem>) -> Seq<K8sItemView> {
    v.map_values(|i: K8sItem| i@)
}

/// Appends the items of `items` with the given priority, in order.
fn push_with_priority(out: &mut Vec<K8sItem>, items: &Vec<K8sItem>, p: u8)
    ensures
        item_views(final(out)@) == item_views(old(out)@) + item_views(items@).filter(at_priority(p)),
{
    let ghost start = item_views(out@);
    let n = items.len();
    let mut i: usize = 0;
    assert(item_views(items@).take(0).filter(at_priority(p)) =~= Seq::<K8sItemView>::empty()) by {
        reveal(Seq::filter);
    }
    assert(item_views(out@) =~= start + item_views(items@).take(0).filter(at_priority(p)));
    while i < n
        invariant
            n == items@.len(),
            i <= n,
            item_views(out@) == start + item_views(items@).take(i as int).filter(at_priority(p)),
        decreases n - i,
    {
        let item = &items[i];
        let ghost before = out@;
        let prio = crate::k8s::resources::status_priority(item.status());
        proof {
            let s = item_views(items@);
            assert(s.take(i + 1) =~= s.take(i as int).push(s[i as int]));
            s.take(i as int).lemma_filter_push(s[i as int], at_priority(p));
        }
        if prio == p {
            out.push(item.duplicate());
            assert(item_views(out@) =~= item_views(before).push(item@));
        }
        i += 1;
    }
    assert(item_views(items@).take(n as int) =~= item_views(items@));
}

/// Order items for the list: healthy first, critical last; items of equal
/// priority keep their relative order.
pub fn sort_for_display(items: &Vec<K8sItem>) -> (r: Vec<K8sItem>)
    ensures
        item_views(r@) == display_order(item_views(items@)),
{
    let mut out: Vec<K8sItem> = Vec::new();
    assert(item_views(out@) =~= Seq::<K8sItemView>::empty());
    push_with_priority(&mut out, items, 2);
    push_with_priority(&mut out, items, 1);
    push_with_priority(&mut out, items, 0);
    assert(item_views(out@) =~= display_order(item_views(items@)));
    out
}

// ─── Watch events ────────────────────────────────────────────────────────────

/// A resource as a watch event reports it, with its status and age already
/// extracted.
pub struct WatchedObject {
    pub namespace: String,
    pub name: String,
    pub status: String,
    pub age: String,
}

/// The events of a resource watch stream.
pub enum WatchEvent {
    /// A new watch cycle starts.
    Init,
    /// An existing object, listed during the initial list of a cycle.
    InitApply(WatchedObject),
    /// The initial list of the cycle is complete.
    InitDone,
    /// An object was added or modified.
    Apply(WatchedObject),
    /// An object was deleted.
    Delete { namespace: String, name: String },
}

/// What the watcher asks of the list.
pub enum WatchAction {
    /// Show this status and age for the listed resource.
    Refresh { namespace: String, name: String, status: String, age: String },
    /// Show these listed resources as deleted.
    MarkDeleted(Vec<(String, String)>),
    /// Add these items to the list now.
    Send(Vec<K8sItem>),
    /// Hand the first complete listing over, to be sorted with the other
    /// watchers' listings and sent once all of them are complete.
    PublishInitial(Vec<K8sItem>),
}

/// Actions as their contents: deleted keys as a set, items as views.
pub enum ActionView {
    Refresh(NameKey, Seq<char>, Seq<char>),
    MarkDeleted(Set<NameKey>),
    Send(Seq<K8sItemView>),
    PublishInitial(Seq<K8sItemView>),
}

pub open spec fn key_views(v: Seq<(String, String)>) -> Seq<NameKey> {
    v.map_values(|k: (String, String)| (k.0@, k.1@))
}

pub open spec fn action_view(a: WatchAction) -> ActionView {
    match a {
        WatchAction::Refresh { namespace, name, status, age } => ActionView::Refresh(
            (namespace@, name@),
            status@,
            age@,
        ),
        WatchAction::MarkDeleted(keys) => ActionView::MarkDeleted(key_views(keys@).to_set()),
        WatchAction::Send(items) => ActionView::Send(item_views(items@)),
        WatchAction::PublishInitial(items) => ActionView::PublishInitial(item_views(items@)),
    }
}


/// The watcher's memory: the status and age of every resource it has seen,
/// the keys listed in the current cycle, the keys listed in the current
/// cycle that were not yet handed over, where it is in the cycle, and the
/// resources whose items it has handed to the list.
pub struct WatchStateView {
    pub seen: Map<NameKey, (Seq<char>, Seq<char>)>,
    pub listed: Set<NameKey>,
    pub pending: Seq<NameKey>,
    pub in_init: bool,
    pub first_init_done: bool,
    pub shown: Set<NameKey>,
}

/// The item shown for a resource.
pub open spec fn item_for(
    kind: ResourceKind,
    context: Seq<char>,
    k: NameKey,
    st: (Seq<char>, Seq<char>),
) -> K8sItemView {
    K8sItemView {
        kind,
        namespace: k.0,
        name: k.1,
        status: st.0,
        age: st.1,
        context,
        cost_label: Seq::empty(),
        cost_highlighted: false,
    }
}

/// Every seen resource not listed in this cycle, shown as deleted.
pub open spec fn mark_unlisted(
    seen: Map<NameKey, (Seq<char>, Seq<char>)>,
    listed: Set<NameKey>,
) -> Map<NameKey, (Seq<char>, Seq<char>)> {
    Map::new(
        |k: NameKey| seen.contains_key(k),
        |k: NameKey|
            if listed.contains(k) {
                seen[k]
            } else {
                (deleted_status(), seen[k].1)
            },
    )
}

pub open spec fn pending_items(
    kind: ResourceKind,
    context: Seq<char>,
    pending: Seq<NameKey>,
    seen: Map<NameKey, (Seq<char>, Seq<char>)>,
) -> Seq<K8sItemView> {
    pending.map_values(|k: NameKey| item_for(kind, context, k, seen[k]))
}

/// The watcher's memory after an event.
pub open spec fn watch_next(s: WatchStateView, e: WatchEvent) -> WatchStateView {
    match e {
        WatchEvent::Init => WatchStateView {
            listed: Set::empty(),
            pending: Seq::empty(),
            in_init: true,
            ..s
        },
        WatchEvent::InitApply(o) => {
            let k = (o.namespace@, o.name@);
            WatchStateView {
                seen: s.seen.insert(k, (o.status@, o.age@)),
                listed: s.listed.insert(k),
                pending: if !s.seen.contains_key(k) && s.in_init {
                    s.pending.push(k)
                } else {
                    s.pending
                },
                shown: if !s.seen.contains_key(k) && !s.in_init {
                    s.shown.insert(k)
                } else {
                    s.shown
                },
                ..s
            }
        },
        WatchEvent::InitDone => WatchStateView {
            seen: mark_unlisted(s.seen, s.listed),
            pending: Seq::empty(),
            in_init: false,
            first_init_done: true,
            shown: s.shown.union(s.pending.to_set()),
            ..s
        },
        WatchEvent::Apply(o) => {
            let k = (o.namespace@, o.name@);
            WatchStateView {
                seen: s.seen.insert(k, (o.status@, o.age@)),
                shown: if !s.seen.contains_key(k) {
                    s.shown.insert(k)
                } else {
                    s.shown
                },
                ..s
            }
        },
        WatchEvent::Delete { namespace, name } => {
            let k = (namespace@, name@);
            if s.seen.contains_key(k) {
                WatchStateView {
                    seen: s.seen.insert(k, (deleted_status(), s.seen[k].1)),
                    shown: if !s.pending.contains(k) {
                        s.shown.insert(k)
                    } else {
                        s.shown
                    },
                    ..s
                }
            } else {
                s
            }
        },
    }
}

/// What the watcher asks of the list on an event.
pub open spec fn watch_actions(
    s: WatchStateView,
    kind: ResourceKind,
    context: Seq<char>,
    e: WatchEvent,
) -> Seq<ActionView> {
    match e {
        WatchEvent::Init => Seq::empty(),
        WatchEvent::InitApply(o) => {
            let k = (o.namespace@, o.name@);
            if s.seen.contains_key(k) {
                seq![ActionView::Refresh(k, o.status@, o.age@)]
            } else if s.in_init {
                Seq::empty()
            } else {
                seq![ActionView::Send(seq![item_for(kind, context, k, (o.status@, o.age@))])]
            }
        },
        WatchEvent::InitDone => {
            let marked = mark_unlisted(s.seen, s.listed);
            let items = pending_items(kind, context, s.pending, marked);
            let unlisted = s.seen.dom().difference(s.listed);
            seq![ActionView::MarkDeleted(unlisted)] + if s.first_init_done {
                if items.len() > 0 {
                    seq![ActionView::Send(display_order(items))]
                } else {
                    Seq::empty()
                }
            } else {
                seq![ActionView::PublishInitial(items)]
            }
        },
        WatchEvent::Apply(o) => {
            let k = (o.namespace@, o.name@);
            if s.seen.contains_key(k) {
                seq![ActionView::Refresh(k, o.status@, o.age@)]
            } else {
                seq![ActionView::Send(seq![item_for(kind, context, k, (o.status@, o.age@))])]
            }
        },
        WatchEvent::Delete { namespace, name } => {
            let k = (namespace@, name@);
            if s.seen.contains_key(k) && !s.pending.contains(k) {
                seq![
                    ActionView::MarkDeleted(set![k]),
                    ActionView::Send(seq![item_for(kind, context, k, (deleted_status(), s.seen[k].1))]),
                ]
            } else if s.seen.contains_key(k) {
                seq![ActionView::MarkDeleted(set![k])]
            } else {
                Seq::empty()
            }
        },
    }
}

/// Pending keys are seen, listed, occur once and are not shown yet; shown
/// keys are seen.
pub open spec fn watch_state_wf(s: WatchStateView) -> bool {
    &&& s.pending.no_duplicates()
    &&& forall|i: int| 0 <= i < s.pending.len() ==> s.seen.contains_key(#[trigger] s.pending[i])
    &&& forall|i: int| 0 <= i < s.pending.len() ==> !s.shown.contains(#[trigger] s.pending[i])
    &&& forall|i: int| 0 <= i < s.pending.len() ==> s.listed.contains(#[trigger] s.pending[i])
    &&& s.shown.subset_of(s.seen.dom())
}

/// The state of one resource watcher.
pub struct WatchState {
    seen: NameMap<(String, String)>,
    listed: NameMap<()>,
    pending: Vec<(String, String)>,
    in_init: bool,
    first_init_done: bool,
    shown: Ghost<Set<NameKey>>,
}

impl View for WatchState {
    type V = WatchStateView;

    closed spec fn view(&self) -> WatchStateView {
        WatchStateView {
            seen: self.seen@,
            listed: self.listed@.dom(),
            pending: key_views(self.pending@),
            in_init: self.in_init,
            first_init_done: self.first_init_done,
            shown: self.shown@,
        }
    }
}

fn key_strings(namespace: &str, name: &str) -> (r: (String, String))
    ensures
        (r.0@, r.1@) == (namespace@, name@),
{
    (namespace.to_owned(), name.to_owned())
}

impl WatchState {
    #[verifier::type_invariant]
    closed spec fn well_formed(self) -> bool {
        watch_state_wf(self@)
    }

    /// A watcher that has seen nothing, before its first cycle.
    pub fn new() -> (r: Self)
        ensures
            r@.seen == Map::<NameKey, (Seq<char>, Seq<char>)>::empty(),
            r@.listed == Set::<NameKey>::empty(),
            r@.pending == Seq::<NameKey>::empty(),
            r@.in_init,
            !r@.first_init_done,
            r@.shown == Set::<NameKey>::empty(),
    {
        let r = WatchState {
            seen: NameMap::new(),
            listed: NameMap::new(),
            pending: Vec::new(),
            in_init: true,
            first_init_done: false,
            shown: Ghost(Set::empty()),
        };
        assert(key_views(r.pending@) =~= Seq::<NameKey>::empty());
        assert(r@.listed =~= Set::<NameKey>::empty());
        r
    }

}

proof fn lemma_push_contains<A>(s: Seq<A>, a: A, x: A)
    ensures
        s.push(a).contains(x) <==> (s.contains(x) || x == a),
{
    if s.push(a).contains(x) && x != a {
        let j = choose|j: int| 0 <= j < s.push(a).len() && s.push(a)[j] == x;
        assert(s[j] == x);
    }
    if s.contains(x) {
        let j = choose|j: int| 0 <= j < s.len() && s[j] == x;
        assert(s.push(a)[j] == x);
    }
    if x == a {
        assert(s.push(a)[s.len() as int] == x);
    }
}
/// The items for the given keys, from their current state.
fn items_for_keys(
    kind: ResourceKind,
    context: &str,
    keys: &Vec<(String, String)>,
    seen: &NameMap<(String, String)>,
) -> (r: Vec<K8sItem>)
    requires
        forall|i: int| 0 <= i < keys@.len() ==> seen@.contains_key(#[trigger] key_views(keys@)[i]),
    ensures
        item_views(r@) == pending_items(kind, context@, key_views(keys@), seen@),
{
    let n = keys.len();
    let mut out: Vec<K8sItem> = Vec::new();
    let mut i: usize = 0;
    while i < n
        invariant
            n == keys@.len(),
            i <= n,
            forall|i: int| 0 <= i < keys@.len() ==> seen@.contains_key(#[trigger] key_views(keys@)[i]),
            item_views(out@) == pending_items(kind, context@, key_views(keys@), seen@).take(i as int),
        decreases n - i,
    {
        let (namespace, name) = &keys[i];
        let ghost k = (namespace@, name@);
        assert(key_views(keys@)[i as int] == k);
        let item = match seen.get(namespace.as_str(), name.as_str()) {
            Some(st) => K8sItem::new(
                kind,
                namespace.as_str(),
                name.as_str(),
                st.0.as_str(),
                st.1.as_str(),
                context,
            ),
            None => {
                proof {
                    assert(seen@.contains_key(key_views(keys@)[i as int]));
                }
                K8sItem::new(kind, namespace.as_str(), name.as_str(), "", "", context)
            },
        };
        let ghost before = out@;
        out.push(item);
        assert(item_views(out@) =~= item_views(before).push(item@));
        assert(pending_items(kind, context@, key_views(keys@), seen@).take(i + 1)
            =~= pending_items(kind, context@, key_views(keys@), seen@).take(i as int).push(
            item_for(kind, context@, k, seen@[k]),
        ));
        i += 1;
    }
    assert(pending_items(kind, context@, key_views(keys@), seen@).take(n as int)
        =~= pending_items(kind, context@, key_views(keys@), seen@));
    out
}

impl WatchState {
    /// The watcher's next state and what it asks of the list, on one event.
    pub fn step(self, kind: ResourceKind, context: &str, event: WatchEvent) -> (r: (
        WatchState,
        Vec<WatchAction>,
    ))
        ensures
            r.0@ == watch_next(self@, event),
            r.1@.map_values(|a: WatchAction| action_view(a)) == watch_actions(
                self@,
                kind,
                context@,
                event,
            ),
            forall|i: int|
                0 <= i < r.1@.len() ==> (#[trigger] r.1@[i] matches WatchAction::MarkDeleted(keys)
                    ==> key_views(keys@).no_duplicates()),
    {
        proof {
            use_type_invariant(&self);
        }
        let ghost s = self@;
        let WatchState { mut seen, mut listed, mut pending, in_init, first_init_done, shown } = self;
        let mut actions: Vec<WatchAction> = Vec::new();
        match event {
            WatchEvent::Init => {
                let listed: NameMap<()> = NameMap::new();
                let pending: Vec<(String, String)> = Vec::new();
                let next = WatchState { seen, listed, pending, in_init: true, first_init_done, shown };
                assert(next@.pending =~= Seq::<NameKey>::empty());
                assert(next@.listed =~= Set::<NameKey>::empty());
                assert(actions@.map_values(|a: WatchAction| action_view(a)) =~= Seq::<
                    ActionView,
                >::empty());
                (next, actions)
            },
            WatchEvent::InitApply(o) => {
                let ghost k = (o.namespace@, o.name@);
                let was_seen = seen.contains(o.namespace.as_str(), o.name.as_str());
                let (n1, m1) = key_strings(o.namespace.as_str(), o.name.as_str());
                seen.insert(n1, m1, (o.status.clone(), o.age.clone()));
                let (n2, m2) = key_strings(o.namespace.as_str(), o.name.as_str());
                listed.insert(n2, m2, ());
                if was_seen {
                    actions.push(
                        WatchAction::Refresh {
                            namespace: o.namespace,
                            name: o.name,
                            status: o.status,
                            age: o.age,
                        },
                    );
                } else if in_init {
                    let ghost before = pending@;
                    pending.push(key_strings(o.namespace.as_str(), o.name.as_str()));
                    assert(key_views(pending@) =~= key_views(before).push(k));
                    proof {
                        assert(!key_views(before).contains(k)) by {
                            if key_views(before).contains(k) {
                                let j = choose|j: int|
                                    0 <= j < key_views(before).len() && key_views(before)[j] == k;
                                assert(s.seen.contains_key(s.pending[j]));
                            }
                        }
                    }
                } else {
                    let item = K8sItem::new(
                        kind,
                        o.namespace.as_str(),
                        o.name.as_str(),
                        o.status.as_str(),
                        o.age.as_str(),
                        context,
                    );
                    let mut items: Vec<K8sItem> = Vec::new();
                    items.push(item);
                    assert(item_views(items@) =~= seq![item@]);
                    actions.push(WatchAction::Send(items));
                }
                let ghost shown_next = if !s.seen.contains_key(k) && !s.in_init {
                    s.shown.insert(k)
                } else {
                    s.shown
                };
                let next = WatchState {
                    seen,
                    listed,
                    pending,
                    in_init,
                    first_init_done,
                    shown: Ghost(shown_next),
                };
                assert(next@.listed =~= s.listed.insert(k));
                assert(actions@.map_values(|a: WatchAction| action_view(a)) =~= watch_actions(
                    s,
                    kind,
                    context@,
                    WatchEvent::InitApply(o),
                ));
                (next, actions)
            },
            WatchEvent::InitDone => {
                let deleted = mark_unlisted_in(&mut seen, &listed);
                let items = items_for_keys(kind, context, &pending, &seen);
                actions.push(WatchAction::MarkDeleted(deleted));
                if first_init_done {
                    let sorted = sort_for_display(&items);
                    if items.len() > 0 {
                        actions.push(WatchAction::Send(sorted));
                    }
                } else {
                    actions.push(WatchAction::PublishInitial(items));
                }
                let empty: Vec<(String, String)> = Vec::new();
                let next = WatchState {
                    seen,
                    listed,
                    pending: empty,
                    in_init: false,
                    first_init_done: true,
                    shown: Ghost(s.shown.union(s.pending.to_set())),
                };
                assert(next@.pending =~= Seq::<NameKey>::empty());
                assert(actions@.map_values(|a: WatchAction| action_view(a)) =~= watch_actions(
                    s,
                    kind,
                    context@,
                    WatchEvent::InitDone,
                ));
                (next, actions)
            },
            WatchEvent::Apply(o) => {
                let ghost k = (o.namespace@, o.name@);
                let was_seen = seen.contains(o.namespace.as_str(), o.name.as_str());
                let (n1, m1) = key_strings(o.namespace.as_str(), o.name.as_str());
                seen.insert(n1, m1, (o.status.clone(), o.age.clone()));
                if was_seen {
                    actions.push(
                        WatchAction::Refresh {
                            namespace: o.namespace,
                            name: o.name,
                            status: o.status,
                            age: o.age,
                        },
                    );
                } else {
                    let item = K8sItem::new(
                        kind,
                        o.namespace.as_str(),
                        o.name.as_str(),
                        o.status.as_str(),
                        o.age.as_str(),
                        context,
                    );
                    let mut items: Vec<K8sItem> = Vec::new();
                    items.push(item);
                    assert(item_views(items@) =~= seq![item@]);
                    actions.push(WatchAction::Send(items));
                }
                let ghost shown_next = if !s.seen.contains_key(k) {
                    s.shown.insert(k)
                } else {
                    s.shown
                };
                let next = WatchState {
                    seen,
                    listed,
                    pending,
                    in_init,
                    first_init_done,
                    shown: Ghost(shown_next),
                };
                assert(actions@.map_values(|a: WatchAction| action_view(a)) =~= watch_actions(
                    s,
                    kind,
                    context@,
                    WatchEvent::Apply(o),
                ));
                (next, actions)
            },
            WatchEvent::Delete { namespace, name } => {
                let ghost k = (namespace@, name@);
                let age = match seen.get(namespace.as_str(), name.as_str()) {
                    Some(st) => Some(st.1.clone()),
                    None => None,
                };
                let is_pending = pending_contains(&pending, namespace.as_str(), name.as_str());
                let ghost shown_next = if s.seen.contains_key(k) && !s.pending.contains(k) {
                    s.shown.insert(k)
                } else {
                    s.shown
                };
                if let Some(age) = age {
                    let (n1, m1) = key_strings(namespace.as_str(), name.as_str());
                    let resent = if is_pending {
                        None
                    } else {
                        Some(
                            K8sItem::new(
                                kind,
                                namespace.as_str(),
                                name.as_str(),
                                "[DELETED]",
                                age.as_str(),
                                context,
                            ),
                        )
                    };
                    seen.insert(n1, m1, ("[DELETED]".to_owned(), age));
                    proof {
                        reveal_strlit("[DELETED]");
                    }
                    let mut keys: Vec<(String, String)> = Vec::new();
                    keys.push(key_strings(namespace.as_str(), name.as_str()));
                    assert(key_views(keys@) =~= seq![k]);
                    assert forall|x: NameKey| key_views(keys@).to_set().contains(x) <==> x == k by {
                        lemma_push_contains(Seq::<NameKey>::empty(), k, x);
                        assert(seq![k] =~= Seq::<NameKey>::empty().push(k));
                    }
                    assert(key_views(keys@).to_set() =~= set![k]);
                    actions.push(WatchAction::MarkDeleted(keys));
                    if let Some(item) = resent {
                        let mut items: Vec<K8sItem> = Vec::new();
                        items.push(item);
                        assert(item_views(items@) =~= seq![item@]);
                        actions.push(WatchAction::Send(items));
                    }
                }
                let next = WatchState {
                    seen,
                    listed,
                    pending,
                    in_init,
                    first_init_done,
                    shown: Ghost(shown_next),
                };
                assert(actions@.map_values(|a: WatchAction| action_view(a)) =~= watch_actions(
                    s,
                    kind,
                    context@,
                    WatchEvent::Delete { namespace, name },
                ));
                (next, actions)
            },
        }
    }
}


/// Whether the key (`namespace`, `name`) is among the pending keys.
fn pending_contains(pending: &Vec<(String, String)>, namespace: &str, name: &str) -> (r: bool)
    ensures
        r == key_views(pending@).contains((namespace@, name@)),
{
    let ghost k = (namespace@, name@);
    let n = pending.len();
    let mut i: usize = 0;
    while i < n
        invariant
            n == pending@.len(),
            i <= n,
            k == (namespace@, name@),
            forall|j: int| 0 <= j < i ==> key_views(pending@)[j] != k,
        decreases n - i,
    {
        let (ns, nm) = &pending[i];
        assert(key_views(pending@)[i as int] == (ns@, nm@));
        if str_eq(ns.as_str(), namespace) && str_eq(nm.as_str(), name) {
            return true;
        }
        assert(key_views(pending@)[i as int] != k);
        i += 1;
    }
    proof {
        if key_views(pending@).contains(k) {
            let j = choose|j: int| 0 <= j < key_views(pending@).len() && key_views(pending@)[j] == k;
            assert(key_views(pending@)[j] != k);
        }
    }
    false
}

/// Marks every seen resource not listed in this cycle as deleted;
/// returns the keys marked.
fn mark_unlisted_in(seen: &mut NameMap<(String, String)>, listed_map: &NameMap<()>) -> (r: Vec<
    (String, String),
>)
    ensures
        final(seen)@ == mark_unlisted(old(seen)@, listed_map@.dom()),
        key_views(r@).no_duplicates(),
        key_views(r@).to_set() == old(seen)@.dom().difference(listed_map@.dom()),
{
    let ghost t0 = seen@;
    let ghost listed = listed_map@.dom();
    let keys = seen.keys();
    let ghost ks = key_views(keys@);
    assert(ks == keys@.map_values(|k: (String, String)| (k.0@, k.1@)));
    let n = keys.len();
    let mut deleted: Vec<(String, String)> = Vec::new();
    let mut i: usize = 0;
    while i < n
        invariant
            n == keys@.len(),
            i <= n,
            ks == key_views(keys@),
            ks.no_duplicates(),
            ks.to_set() == t0.dom(),
            listed == listed_map@.dom(),
            t0 == old(seen)@,
            seen@.dom() == t0.dom(),
            forall|k: NameKey| #[trigger]
                seen@.contains_key(k) ==> seen@[k] == if ks.take(
                    i as int,
                ).contains(k) && !listed.contains(k) {
                    (deleted_status(), t0[k].1)
                } else {
                    t0[k]
                },
            key_views(deleted@).no_duplicates(),
            key_views(deleted@).to_set() == ks.take(i as int).to_set().difference(listed),
        decreases n - i,
    {
        let (namespace, name) = &keys[i];
        let ghost k = (namespace@, name@);
        let ghost pre = ks.take(i as int);
        let ghost pre1 = ks.take(i + 1);
        assert(ks[i as int] == k);
        assert(pre1 =~= pre.push(k));
        assert(!pre.contains(k)) by {
            if pre.contains(k) {
                let j = choose|j: int| 0 <= j < i && pre[j] == k;
                assert(ks[j] == ks[i as int]);
            }
        }
        assert(t0.dom().contains(k)) by {
            assert(ks.contains(k));
        }
        if !listed_map.contains(namespace.as_str(), name.as_str()) {
            let age = match seen.get(namespace.as_str(), name.as_str()) {
                Some(st) => st.1.clone(),
                None => String::new(),
            };
            let ghost before_seen = seen@;
            let ghost before_deleted = deleted@;
            let (kn, km) = key_strings(namespace.as_str(), name.as_str());
            seen.insert(kn, km, ("[DELETED]".to_owned(), age));
            deleted.push(key_strings(namespace.as_str(), name.as_str()));
            proof {
                assert(key_views(deleted@) =~= key_views(before_deleted).push(k));
                assert(!key_views(before_deleted).contains(k)) by {
                    if key_views(before_deleted).contains(k) {
                        assert(key_views(before_deleted).to_set().contains(k));
                    }
                }
                assert forall|x: NameKey|
                    key_views(deleted@).to_set().contains(x) <==> pre1.to_set().difference(
                        listed,
                    ).contains(x) by {
                    lemma_push_contains(key_views(before_deleted), k, x);
                    lemma_push_contains(pre, k, x);
                    assert(!listed.contains(k));
                    assert(pre1 == pre.push(k));
                    assert(key_views(deleted@) == key_views(before_deleted).push(k));
                    assert(key_views(before_deleted).to_set().contains(x) <==> pre.to_set().difference(
                        listed,
                    ).contains(x));
                }
                assert(key_views(deleted@).to_set() =~= pre1.to_set().difference(listed));
                assert forall|x: NameKey| #[trigger]
                    seen@.contains_key(x) implies seen@[x] == if pre1.contains(x) && !listed.contains(x) {
                        (deleted_status(), t0[x].1)
                    } else {
                        t0[x]
                    } by {
                    reveal_strlit("[DELETED]");
                    if x != k {
                        assert(before_seen.contains_key(x));
                        if pre1.contains(x) {
                            let j = choose|j: int|
                                0 <= j < i + 1 && pre1[j] == x;
                            assert(pre[j] == x);
                        }
                        if pre.contains(x) {
                            let j = choose|j: int| 0 <= j < i && pre[j] == x;
                            assert(pre1[j] == x);
                        }
                    } else {
                        assert(pre1[i as int] == k);
                    }
                }
                assert(seen@.dom() =~= t0.dom());
            }
        } else {
            proof {
                assert(key_views(deleted@).to_set() =~= pre1.to_set().difference(
                    listed,
                )) by {
                    assert forall|x: NameKey|
                        key_views(deleted@).to_set().contains(x) <==> pre1.to_set().difference(listed).contains(x) by {
                        if pre1.contains(x) && x != k {
                            let j = choose|j: int|
                                0 <= j < i + 1 && pre1[j] == x;
                            assert(pre[j] == x);
                        }
                        if pre.contains(x) {
                            let j = choose|j: int| 0 <= j < i && pre[j] == x;
                            assert(pre1[j] == x);
                        }
                    }
                }
                assert forall|x: NameKey| #[trigger]
                    seen@.contains_key(x) implies seen@[x] == if pre1.contains(x) && !listed.contains(x) {
                        (deleted_status(), t0[x].1)
                    } else {
                        t0[x]
                    } by {
                    if pre1.contains(x) && x != k {
                        let j = choose|j: int| 0 <= j < i + 1 && pre1[j] == x;
                        assert(pre[j] == x);
                    }
                    if pre.contains(x) {
                        let j = choose|j: int| 0 <= j < i && pre[j] == x;
                        assert(pre1[j] == x);
                    }
                }
            }
        }
        i += 1;
    }
    proof {
        assert(ks.take(n as int) =~= ks);
        assert(seen@ =~= mark_unlisted(t0, listed)) by {
            assert forall|x: NameKey| #[trigger] seen@.contains_key(x) implies ks.contains(
                x,
            ) by {
                assert(ks.to_set().contains(x));
            }
        }
    }
    deleted
}


// ─── Laws ────────────────────────────────────────────────────────────────────

/// Items handed to the list in display order come healthy first and
/// critical last: priorities never increase along the sequence.
pub proof fn law_display_order_sorted(s: Seq<K8sItemView>)
    ensures
        forall|i: int, j: int|
            0 <= i < j < display_order(s).len() ==> item_priority(#[trigger] display_order(s)[i])
                >= item_priority(#[trigger] display_order(s)[j]),
{
    let a = s.filter(at_priority(2));
    let b = s.filter(at_priority(1));
    let c = s.filter(at_priority(0));
    let d = display_order(s);
    assert forall|i: int, j: int| 0 <= i < j < d.len() implies item_priority(#[trigger] d[i])
        >= item_priority(#[trigger] d[j]) by {
        assert(d == a + b + c);
        if i < a.len() {
            s.lemma_filter_pred(at_priority(2), i);
            assert(item_priority(d[i]) == 2);
        } else if i < a.len() + b.len() {
            s.lemma_filter_pred(at_priority(1), i - a.len());
            assert(item_priority(d[i]) == 1);
            if j < a.len() + b.len() {
                s.lemma_filter_pred(at_priority(1), j - a.len());
            } else {
                s.lemma_filter_pred(at_priority(0), j - a.len() - b.len());
            }
        } else {
            s.lemma_filter_pred(at_priority(0), i - a.len() - b.len());
            s.lemma_filter_pred(at_priority(0), j - a.len() - b.len());
        }
    }
}

/// Display order neither adds nor drops items: it is a permutation.
pub proof fn law_display_order_permutation(s: Seq<K8sItemView>)
    ensures
        display_order(s).to_multiset() == s.to_multiset(),
    decreases s.len(),
{
    broadcast use vstd::seq_lib::lemma_multiset_commutative, vstd::seq_lib::to_multiset_build;

    if s.len() == 0 {
        reveal(Seq::filter);
        assert(display_order(s) =~= s);
    } else {
        let t = s.drop_last();
        let x = s.last();
        law_display_order_permutation(t);
        assert(s =~= t.push(x));
        t.lemma_filter_push(x, at_priority(2));
        t.lemma_filter_push(x, at_priority(1));
        t.lemma_filter_push(x, at_priority(0));
        let a = t.filter(at_priority(2));
        let b = t.filter(at_priority(1));
        let c = t.filter(at_priority(0));
        assert((a + b + c).to_multiset() =~= a.to_multiset().add(b.to_multiset()).add(
            c.to_multiset(),
        ));
        let p = item_priority(x);
        if p == 2 {
            assert((a.push(x) + b + c).to_multiset() =~= a.push(x).to_multiset().add(
                b.to_multiset(),
            ).add(c.to_multiset()));
        } else if p == 1 {
            assert((a + b.push(x) + c).to_multiset() =~= a.to_multiset().add(
                b.push(x).to_multiset(),
            ).add(c.to_multiset()));
        } else {
            assert(p == 0);
            assert((a + b + c.push(x)).to_multiset() =~= a.to_multiset().add(b.to_multiset()).add(
                c.push(x).to_multiset(),
            ));
        }
        assert(display_order(s).to_multiset() =~= s.to_multiset());
    }
}

/// A deleted resource stays listed, shown as "[DELETED]" with its age
/// unchanged, and (unless it is still waiting for the end of the current
/// listing, whose batch will carry the deleted status) it is sent to the
/// list again with that status so that the deletion stays visible.
pub proof fn law_delete_shows_deleted(
    s: WatchStateView,
    kind: ResourceKind,
    context: Seq<char>,
    namespace: String,
    name: String,
)
    requires
        s.seen.contains_key((namespace@, name@)),
    ensures
        ({
            let k = (namespace@, name@);
            let e = WatchEvent::Delete { namespace, name };
            let next = watch_next(s, e);
            let acts = watch_actions(s, kind, context, e);
            &&& next.seen.contains_key(k)
            &&& next.seen[k].0 == deleted_status()
            &&& next.seen[k].1 == s.seen[k].1
            &&& acts[0] == ActionView::MarkDeleted(set![k])
            &&& !s.pending.contains(k) ==> acts.len() == 2 && acts[1] == ActionView::Send(
                seq![item_for(kind, context, k, (deleted_status(), s.seen[k].1))],
            )
            &&& s.pending.contains(k) ==> acts.len() == 1
        }),
{
}

/// When a new listing completes, every resource that was not listed again
/// (removed while the watch was disconnected) is shown as "[DELETED]"; every
/// resource listed again keeps what the listing reported.
pub proof fn law_relist_marks_missing_deleted(s: WatchStateView)
    ensures
        ({
            let next = watch_next(s, WatchEvent::InitDone);
            &&& next.seen.dom() == s.seen.dom()
            &&& forall|k: NameKey|
                s.seen.contains_key(k) && !s.listed.contains(k) ==> (#[trigger] next.seen[k]).0
                    == deleted_status()
            &&& forall|k: NameKey|
                s.seen.contains_key(k) && s.listed.contains(k) ==> #[trigger] next.seen[k]
                    == s.seen[k]
        }),
{
    let next = watch_next(s, WatchEvent::InitDone);
    assert(next.seen.dom() =~= s.seen.dom());
}

/// Every step keeps the watcher's memory well formed.
pub proof fn law_step_keeps_well_formed(s: WatchStateView, e: WatchEvent)
    requires
        watch_state_wf(s),
    ensures
        watch_state_wf(watch_next(s, e)),
{
    let next = watch_next(s, e);
    match e {
        WatchEvent::InitApply(o) => {
            let k = (o.namespace@, o.name@);
            if !s.seen.contains_key(k) && s.in_init {
                assert(!s.pending.contains(k)) by {
                    if s.pending.contains(k) {
                        let j = choose|j: int| 0 <= j < s.pending.len() && s.pending[j] == k;
                        assert(s.seen.contains_key(s.pending[j]));
                    }
                }
                assert forall|i: int| 0 <= i < next.pending.len() implies next.seen.contains_key(
                    #[trigger] next.pending[i],
                ) && !next.shown.contains(next.pending[i]) by {
                    if i < s.pending.len() {
                        assert(next.pending[i] == s.pending[i]);
                    }
                }
            }
            assert(next.shown.subset_of(next.seen.dom()));
        },
        WatchEvent::InitDone => {
            assert(next.seen.dom() =~= s.seen.dom());
            assert forall|x: NameKey| next.shown.contains(x) implies next.seen.contains_key(x) by {
                if s.pending.to_set().contains(x) {
                    let j = choose|j: int| 0 <= j < s.pending.len() && s.pending[j] == x;
                    assert(s.seen.contains_key(s.pending[j]));
                }
            }
        },
        WatchEvent::Apply(o) => {
            assert forall|i: int| 0 <= i < next.pending.len() implies !next.shown.contains(
                #[trigger] next.pending[i],
            ) by {
                assert(s.seen.contains_key(s.pending[i]));
            }
            assert(next.shown.subset_of(next.seen.dom()));
        },
        WatchEvent::Delete { namespace, name } => {
            let k = (namespace@, name@);
            if s.seen.contains_key(k) && !s.pending.contains(k) {
                assert forall|i: int| 0 <= i < next.pending.len() implies !next.shown.contains(
                    #[trigger] next.pending[i],
                ) by {
                    assert(s.pending[i] != k);
                }
            }
            assert(next.shown.subset_of(next.seen.dom()));
        },
        WatchEvent::Init => {},
    }
}

pub open spec fn item_key(v: K8sItemView) -> NameKey {
    (v.namespace, v.name)
}

pub open spec fn batch_keys(items: Seq<K8sItemView>) -> Set<NameKey> {
    items.map_values(|v: K8sItemView| item_key(v)).to_set()
}

/// The keys of all items that the actions add to the list.
pub open spec fn emitted_keys(actions: Seq<ActionView>) -> Set<NameKey>
    decreases actions.len(),
{
    if actions.len() == 0 {
        Set::empty()
    } else {
        let rest = emitted_keys(actions.drop_first());
        match actions[0] {
            ActionView::Send(items) => batch_keys(items).union(rest),
            ActionView::PublishInitial(items) => batch_keys(items).union(rest),
            _ => rest,
        }
    }
}

proof fn lemma_display_order_keys(items: Seq<K8sItemView>)
    ensures
        batch_keys(display_order(items)) == batch_keys(items),
{
    broadcast use vstd::seq_lib::to_multiset_contains;

    law_display_order_permutation(items);
    let d = display_order(items);
    let dk = d.map_values(|v: K8sItemView| item_key(v));
    let ik = items.map_values(|v: K8sItemView| item_key(v));
    assert forall|k: NameKey| batch_keys(d).contains(k) <==> batch_keys(items).contains(k) by {
        if batch_keys(d).contains(k) {
            let j = choose|j: int| 0 <= j < dk.len() && dk[j] == k;
            assert(d.contains(d[j]));
            assert(d.to_multiset().count(d[j]) > 0);
            assert(items.to_multiset().count(d[j]) > 0);
            assert(items.contains(d[j]));
            let i = choose|i: int| 0 <= i < items.len() && items[i] == d[j];
            assert(ik[i] == k);
        }
        if batch_keys(items).contains(k) {
            let i = choose|i: int| 0 <= i < ik.len() && ik[i] == k;
            assert(items.contains(items[i]));
            assert(items.to_multiset().count(items[i]) > 0);
            assert(d.to_multiset().count(items[i]) > 0);
            assert(d.contains(items[i]));
            let j = choose|j: int| 0 <= j < d.len() && d[j] == items[i];
            assert(dk[j] == k);
        }
    }
    assert(batch_keys(d) =~= batch_keys(items));
}

proof fn lemma_single_batch_keys(v: K8sItemView)
    ensures
        batch_keys(seq![v]) == set![item_key(v)],
{
    let m = seq![v].map_values(|w: K8sItemView| item_key(w));
    assert(m =~= seq![item_key(v)]);
    assert forall|k: NameKey| m.to_set().contains(k) <==> k == item_key(v) by {
        if k == item_key(v) {
            assert(m[0] == k);
        }
    }
    assert(batch_keys(seq![v]) =~= set![item_key(v)]);
}

/// Each resource is added to the list once: the items an event adds are
/// for resources the list does not show yet, except that a deletion sends
/// the deleted resource again with the deleted status; afterwards the list
/// shows exactly what it showed before plus those items.
pub proof fn law_each_resource_listed_once(
    s: WatchStateView,
    kind: ResourceKind,
    context: Seq<char>,
    e: WatchEvent,
)
    requires
        watch_state_wf(s),
    ensures
        !(e is Delete) ==> emitted_keys(watch_actions(s, kind, context, e)).disjoint(s.shown),
        e is Delete ==> emitted_keys(watch_actions(s, kind, context, e)).subset_of(
            s.seen.dom(),
        ),
        watch_next(s, e).shown == s.shown.union(emitted_keys(watch_actions(s, kind, context, e))),
{
    let next = watch_next(s, e);
    let acts = watch_actions(s, kind, context, e);
    reveal_with_fuel(emitted_keys, 3);
    match e {
        WatchEvent::Init => {
            assert(emitted_keys(acts) =~= Set::<NameKey>::empty());
            assert(next.shown =~= s.shown.union(emitted_keys(acts)));
        },
        WatchEvent::InitApply(o) => {
            let k = (o.namespace@, o.name@);
            if s.seen.contains_key(k) || s.in_init {
                assert(emitted_keys(acts) =~= Set::<NameKey>::empty());
                assert(next.shown =~= s.shown.union(emitted_keys(acts)));
            } else {
                let v = item_for(kind, context, k, (o.status@, o.age@));
                lemma_single_batch_keys(v);
                assert(emitted_keys(acts) =~= set![k]);
                assert(next.shown =~= s.shown.union(set![k]));
            }
        },
        WatchEvent::InitDone => {
            let marked = mark_unlisted(s.seen, s.listed);
            let items = pending_items(kind, context, s.pending, marked);
            assert(items.map_values(|v: K8sItemView| item_key(v)) =~= s.pending);
            assert(batch_keys(items) == s.pending.to_set());
            if s.first_init_done {
                if items.len() > 0 {
                    lemma_display_order_keys(items);
                    assert(emitted_keys(acts) =~= s.pending.to_set());
                } else {
                    assert(s.pending.len() == 0);
                    assert(emitted_keys(acts) =~= Set::<NameKey>::empty());
                    assert(s.pending.to_set() =~= Set::<NameKey>::empty());
                }
            } else {
                assert(emitted_keys(acts) =~= s.pending.to_set());
            }
            assert forall|x: NameKey| s.pending.to_set().contains(x) implies !s.shown.contains(x) by {
                let j = choose|j: int| 0 <= j < s.pending.len() && s.pending[j] == x;
                assert(!s.shown.contains(s.pending[j]));
            }
            assert(next.shown =~= s.shown.union(emitted_keys(acts)));
        },
        WatchEvent::Apply(o) => {
            let k = (o.namespace@, o.name@);
            if s.seen.contains_key(k) {
                assert(emitted_keys(acts) =~= Set::<NameKey>::empty());
                assert(next.shown =~= s.shown.union(emitted_keys(acts)));
            } else {
                let v = item_for(kind, context, k, (o.status@, o.age@));
                lemma_single_batch_keys(v);
                assert(emitted_keys(acts) =~= set![k]);
                assert(next.shown =~= s.shown.union(set![k]));
            }
        },
        WatchEvent::Delete { namespace, name } => {
            let k = (namespace@, name@);
            if s.seen.contains_key(k) && !s.pending.contains(k) {
                let v = item_for(kind, context, k, (deleted_status(), s.seen[k].1));
                lemma_single_batch_keys(v);
                assert(acts.drop_first().drop_first() =~= Seq::<ActionView>::empty());
                assert(emitted_keys(acts) =~= set![k]);
                assert(next.shown =~= s.shown.union(set![k]));
            } else {
                assert(emitted_keys(acts) =~= Set::<NameKey>::empty());
                assert(next.shown =~= s.shown.union(emitted_keys(acts)));
            }
        },
    }
}


/// A resource the watcher already knows, listed again (after a reconnect) or
/// changed, is refreshed in place with exactly what the watch just reported:
/// one `Refresh` of its key carrying the reported status and age, nothing
/// added to the list; and the watcher remembers that status and age.
pub proof fn law_known_resource_refreshed_with_report(
    s: WatchStateView,
    kind: ResourceKind,
    context: Seq<char>,
    o: WatchedObject,
)
    requires
        s.seen.contains_key((o.namespace@, o.name@)),
    ensures
        watch_actions(s, kind, context, WatchEvent::InitApply(o)) == seq![
            ActionView::Refresh((o.namespace@, o.name@), o.status@, o.age@),
        ],
        watch_actions(s, kind, context, WatchEvent::Apply(o)) == seq![
            ActionView::Refresh((o.namespace@, o.name@), o.status@, o.age@),
        ],
        watch_next(s, WatchEvent::InitApply(o)).seen[(o.namespace@, o.name@)] == (o.status@, o.age@),
        watch_next(s, WatchEvent::Apply(o)).seen[(o.namespace@, o.name@)] == (o.status@, o.age@),
{
}

/// A resource the watcher has not seen yet is added with what the watch
/// reported: during a listing it waits for the listing's end; otherwise it is
/// sent at once as one item of the watcher's kind and context, with the
/// reported status and age and no cost.
pub proof fn law_new_resource_added_with_report(
    s: WatchStateView,
    kind: ResourceKind,
    context: Seq<char>,
    o: WatchedObject,
)
    requires
        !s.seen.contains_key((o.namespace@, o.name@)),
    ensures
        ({
            let v = K8sItemView {
                kind,
                namespace: o.namespace@,
                name: o.name@,
                status: o.status@,
                age: o.age@,
                context,
                cost_label: Seq::empty(),
                cost_highlighted: false,
            };
            &&& watch_actions(s, kind, context, WatchEvent::Apply(o)) == seq![
                ActionView::Send(seq![v]),
            ]
            &&& !s.in_init ==> watch_actions(s, kind, context, WatchEvent::InitApply(o)) == seq![
                ActionView::Send(seq![v]),
            ]
            &&& s.in_init ==> watch_actions(s, kind, context, WatchEvent::InitApply(o)).len() == 0
            &&& s.in_init ==> watch_next(s, WatchEvent::InitApply(o)).pending == s.pending.push(
                (o.namespace@, o.name@),
            )
        }),
{
}

/// At the end of a listing, the resources it added are handed over in the
/// order they were listed, each with the status and age last reported (or
/// "[DELETED]" if it was deleted meanwhile): all at once as the first
/// listing, sorted for display on a later listing.
pub proof fn law_listing_hands_over_latest_reports(
    s: WatchStateView,
    kind: ResourceKind,
    context: Seq<char>,
)
    requires
        watch_state_wf(s),
    ensures
        ({
            let items = Seq::new(
                s.pending.len(),
                |i: int|
                    K8sItemView {
                        kind,
                        namespace: s.pending[i].0,
                        name: s.pending[i].1,
                        status: s.seen[s.pending[i]].0,
                        age: s.seen[s.pending[i]].1,
                        context,
                        cost_label: Seq::empty(),
                        cost_highlighted: false,
                    },
            );
            let acts = watch_actions(s, kind, context, WatchEvent::InitDone);
            &&& !s.first_init_done ==> acts[1] == ActionView::PublishInitial(items)
            &&& s.first_init_done && s.pending.len() > 0 ==> acts[1] == ActionView::Send(
                display_order(items),
            )
        }),
{
    let marked = mark_unlisted(s.seen, s.listed);
    let items = Seq::new(
        s.pending.len(),
        |i: int|
            K8sItemView {
                kind,
                namespace: s.pending[i].0,
                name: s.pending[i].1,
                status: s.seen[s.pending[i]].0,
                age: s.seen[s.pending[i]].1,
                context,
                cost_label: Seq::empty(),
                cost_highlighted: false,
            },
    );
    assert forall|i: int| 0 <= i < s.pending.len() implies marked[s.pending[i]] == s.seen[
        s.pending[i]] by {
        assert(s.seen.contains_key(s.pending[i]));
        assert(s.listed.contains(s.pending[i]));
    }
    assert(pending_items(kind, context, s.pending, marked) =~= items);
}


/// A new watch cycle asks nothing of the list and starts an empty listing;
/// its end first marks deleted exactly the known resources the listing did
/// not report.
pub proof fn law_cycle_bounds(s: WatchStateView, kind: ResourceKind, context: Seq<char>)
    ensures
        watch_actions(s, kind, context, WatchEvent::Init).len() == 0,
        watch_next(s, WatchEvent::Init).listed == Set::<NameKey>::empty(),
        watch_next(s, WatchEvent::Init).pending.len() == 0,
        watch_next(s, WatchEvent::Init).in_init,
        watch_actions(s, kind, context, WatchEvent::InitDone)[0] == ActionView::MarkDeleted(
            Set::new(|k: NameKey| s.seen.contains_key(k) && !s.listed.contains(k)),
        ),
        !watch_next(s, WatchEvent::InitDone).in_init,
        watch_next(s, WatchEvent::InitDone).first_init_done,
{
    assert(s.seen.dom().difference(s.listed) =~= Set::new(
        |k: NameKey| s.seen.contains_key(k) && !s.listed.contains(k),
    ));
}

// ─── First listings of all watchers ──────────────────────────────────────────

/// The gathered first listings: the items handed over so far, how many
/// watchers have published their first listing, and how many there are.
pub struct InitialListingsView {
    pub gathered: Seq<K8sItemView>,
    pub finished: usize,
    pub total: usize,
}

/// Gathers the first complete listing of every watcher, so that the list
/// receives one batch sorted across all resource kinds.
pub struct InitialListings {
    gathered: Vec<K8sItem>,
    finished: usize,
    total: usize,
}

impl View for InitialListings {
    type V = InitialListingsView;

    closed spec fn view(&self) -> InitialListingsView {
        InitialListingsView {
            gathered: item_views(self.gathered@),
            finished: self.finished,
            total: self.total,
        }
    }
}

/// The count of finished watchers after one more finishes (the counter wraps
/// as an atomic counter does).
pub open spec fn one_more(finished: usize) -> usize {
    if finished == usize::MAX {
        0
    } else {
        (finished + 1) as usize
    }
}

/// The gathered listings after one more watcher publishes `items`.
pub open spec fn after_publish(s: InitialListingsView, items: Seq<K8sItemView>) -> InitialListingsView {
    InitialListingsView {
        gathered: s.gathered + items,
        finished: one_more(s.finished),
        total: s.total,
    }
}

/// What the hand-over gives the list: everything gathered, in display order.
pub open spec fn hand_over_of(s: InitialListingsView) -> Seq<K8sItemView> {
    display_order(s.gathered)
}

impl InitialListings {
    /// Nothing gathered yet, for the given number of watchers.
    pub fn new(total_watchers: usize) -> (r: Self)
        ensures
            r@.gathered == Seq::<K8sItemView>::empty(),
            r@.finished == 0,
            r@.total == total_watchers,
    {
        let r = InitialListings { gathered: Vec::new(), finished: 0, total: total_watchers };
        assert(item_views(r.gathered@) =~= Seq::<K8sItemView>::empty());
        r
    }

    /// A watcher's first complete listing: its items are kept for the
    /// hand-over. Returns whether every watcher has now published.
    pub fn publish(&mut self, items: Vec<K8sItem>) -> (all_done: bool)
        ensures
            final(self)@ == after_publish(old(self)@, item_views(items@)),
            all_done == (final(self)@.finished >= final(self)@.total),
    {
        let mut items = items;
        let ghost before = self.gathered@;
        let ghost added = items@;
        self.gathered.append(&mut items);
        assert(item_views(self.gathered@) =~= item_views(before) + item_views(added));
        self.finished = self.finished.wrapping_add(1);
        self.finished >= self.total
    }

    /// The hand-over: everything gathered so far, in display order. What is
    /// handed over is no longer kept.
    pub fn take_sorted(&mut self) -> (r: Vec<K8sItem>)
        ensures
            item_views(r@) == hand_over_of(old(self)@),
            final(self)@ == (InitialListingsView { gathered: Seq::empty(), ..old(self)@ }),
    {
        let sorted = sort_for_display(&self.gathered);
        self.gathered = Vec::new();
        assert(item_views(self.gathered@) =~= Seq::<K8sItemView>::empty());
        sorted
    }
}

/// Every item of every published first listing is handed over exactly once,
/// healthy ones first and critical ones last: after two more listings are
/// published, the hand-over holds what was gathered before and the items of
/// both listings, nothing more.
pub proof fn law_hand_over_keeps_every_listed_item(
    s: InitialListingsView,
    first: Seq<K8sItemView>,
    second: Seq<K8sItemView>,
)
    ensures
        ({
            let handed = hand_over_of(after_publish(after_publish(s, first), second));
            &&& handed.to_multiset() == s.gathered.to_multiset().add(first.to_multiset()).add(
                second.to_multiset(),
            )
            &&& forall|i: int, j: int|
                0 <= i < j < handed.len() ==> item_priority(#[trigger] handed[i]) >= item_priority(
                    #[trigger] handed[j],
                )
        }),
{
    broadcast use vstd::seq_lib::lemma_multiset_commutative;

    let all = s.gathered + first + second;
    assert(after_publish(after_publish(s, first), second).gathered == all);
    law_display_order_permutation(all);
    law_display_order_sorted(all);
}

} // verus!
