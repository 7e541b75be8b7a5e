//! Resource items as the navigator lists them: status health classification,
//! resource kinds, colors, and the text each item shows and prints.
use vstd::prelude::*;
use vstd::utf8::encode_utf8;
use vstd::utf8::encode_scalar;

use crate::text::{
    find_char, first_index_of, is_prefix, lemma_contains_index, lemma_first_index_from,
    make_spaces, pad_end, pad_end_seq, pad_start, pad_start_seq, spaces, starts_with, str_eq,
};

verus! {

// ─── Colors ──────────────────────────────────────────────────────────────────

/// The terminal colors the navigator paints with.
#[derive(Debug, Clone, Copy, PartialEq, Eq, Hash, Structural)]
pub enum Color {
    Red,
    Yellow,
    Green,
    DarkGray,
    Blue,
    Magenta,
    Cyan,
    White,
    LightCyan,
    LightMagenta,
    LightBlue,
    LightGreen,
    LightRed,
}

// ─── Name truncation ─────────────────────────────────────────────────────────

/// Number of bytes of the UTF-8 encoding of `s`.
pub open spec fn utf8_len(s: Seq<char>) -> nat {
    encode_utf8(s).len()
}

/// `k` characters is the longest prefix of `s` whose encoding fits in `max` bytes.
pub open spec fn is_longest_fitting_prefix(s: Seq<char>, max: nat, k: int) -> bool {
    &&& 0 <= k <= s.len()
    &&& utf8_len(s.take(k)) <= max
    &&& k < s.len() ==> utf8_len(s.take(k + 1)) > max
}

/// `name` cut to at most `max` bytes on a character boundary, followed by an
/// ellipsis; unchanged when it already fits.
pub open spec fn truncated(name: Seq<char>, max: nat) -> Seq<char> {
    if utf8_len(name) <= max {
        name
    } else {
        name.take(choose|k: int| is_longest_fitting_prefix(name, max, k)) + seq!['…']
    }
}

/// UTF-8 encoding distributes over concatenation.
pub proof fn lemma_encode_concat(a: Seq<char>, b: Seq<char>)
    ensures
        encode_utf8(a + b) == encode_utf8(a) + encode_utf8(b),
    decreases a.len(),
{
    if a.len() == 0 {
        assert(a + b =~= b);
        assert(encode_utf8(a) + encode_utf8(b) =~= encode_utf8(b));
    } else {
        lemma_encode_concat(a.drop_first(), b);
        assert((a + b).drop_first() =~= a.drop_first() + b);
        assert((a + b)[0] == a[0]);
        assert(encode_utf8(a + b) =~= encode_utf8(a) + encode_utf8(b));
    }
}

/// Adding one character to a prefix adds that character's 1 to 4 bytes.
pub proof fn lemma_utf8_len_step(s: Seq<char>, k: int)
    requires
        0 <= k < s.len(),
    ensures
        utf8_len(s.take(k + 1)) == utf8_len(s.take(k)) + encode_scalar(s[k] as u32).len(),
        1 <= encode_scalar(s[k] as u32).len() <= 4,
{
    assert(s.take(k + 1) =~= s.take(k) + seq![s[k]]);
    lemma_encode_concat(s.take(k), seq![s[k]]);
    assert(seq![s[k]].drop_first() =~= Seq::<char>::empty());
    reveal_with_fuel(encode_utf8, 2);
    assert(encode_utf8(seq![s[k]]) =~= encode_scalar(s[k] as u32));
}

/// Longer prefixes never take fewer bytes.
pub proof fn lemma_utf8_len_monotone(s: Seq<char>, i: int, j: int)
    requires
        0 <= i <= j <= s.len(),
    ensures
        utf8_len(s.take(i)) <= utf8_len(s.take(j)),
        i < j ==> utf8_len(s.take(i)) < utf8_len(s.take(j)),
    decreases j - i,
{
    if i < j {
        lemma_utf8_len_step(s, j - 1);
        lemma_utf8_len_monotone(s, i, j - 1);
    }
}

/// ASCII text takes one byte per character.
pub proof fn lemma_ascii_utf8_len(s: Seq<char>)
    requires
        forall|i: int| 0 <= i < s.len() ==> (#[trigger] s[i] as u32) <= 0x7F,
    ensures
        utf8_len(s) == s.len(),
{
    assert forall|k: int| 0 <= k <= s.len() implies #[trigger] utf8_len(s.take(k)) == k by {
        lemma_ascii_prefix_len(s, k);
    }
    assert(s.take(s.len() as int) =~= s);
}

proof fn lemma_ascii_prefix_len(s: Seq<char>, k: int)
    requires
        forall|i: int| 0 <= i < s.len() ==> (#[trigger] s[i] as u32) <= 0x7F,
        0 <= k <= s.len(),
    ensures
        utf8_len(s.take(k)) == k,
    decreases k,
{
    if k == 0 {
        assert(s.take(0) =~= Seq::<char>::empty());
    } else {
        lemma_ascii_prefix_len(s, k - 1);
        lemma_utf8_len_step(s, k - 1);
        assert(s[k - 1] as u32 <= 0x7F);
    }
}

/// There is exactly one longest fitting prefix.
pub proof fn lemma_longest_fitting_prefix_unique(s: Seq<char>, max: nat, k1: int, k2: int)
    requires
        is_longest_fitting_prefix(s, max, k1),
        is_longest_fitting_prefix(s, max, k2),
    ensures
        k1 == k2,
{
    if k1 < k2 {
        lemma_utf8_len_monotone(s, k1 + 1, k2);
    } else if k2 < k1 {
        lemma_utf8_len_monotone(s, k2 + 1, k1);
    }
}

fn char_utf8_width(c: char) -> (w: usize)
    ensures
        w == encode_scalar(c as u32).len(),
{
    let v = c as u32;
    if v <= 0x7F {
        1
    } else if v <= 0x7FF {
        2
    } else if v <= 0xFFFF {
        proof {
            vstd::utf8::char_is_scalar(c);
        }
        3
    } else {
        4
    }
}

/// Truncate `name` to at most `max_chars` bytes, appending "…" if truncated.
/// Always splits on a valid UTF-8 char boundary.
pub fn truncate_name(name: &str, max_chars: usize) -> (r: String)
    ensures
        r@ == truncated(name@, max_chars as nat),
        utf8_len(name@) <= max_chars ==> r@ == name@,
        utf8_len(r@) <= max_chars + 3,
        utf8_len(name@) > max_chars ==> exists|k: int|
            0 <= k < name@.len() && r@ == name@.take(k) + seq!['…'],
{
    let n = name.unicode_len();
    let mut i: usize = 0;
    let mut acc: usize = 0;
    while i < n
        invariant
            n == name@.len(),
            i <= n,
            acc == utf8_len(name@.take(i as int)),
            acc <= max_chars,
        ensures
            i <= n,
            acc == utf8_len(name@.take(i as int)),
            acc <= max_chars,
            i < n ==> utf8_len(name@.take(i + 1)) > max_chars,
        decreases n - i,
    {
        let w = char_utf8_width(name.get_char(i));
        proof {
            lemma_utf8_len_step(name@, i as int);
        }
        if w > max_chars - acc {
            break;
        }
        acc += w;
        i += 1;
    }
    if i == n {
        assert(name@.take(n as int) =~= name@);
        return name.to_owned();
    }
    proof {
        lemma_utf8_len_step(name@, i as int);
        assert(is_longest_fitting_prefix(name@, max_chars as nat, i as int));
        lemma_utf8_len_monotone(name@, i as int + 1, n as int);
        assert(name@.take(n as int) =~= name@);
        let k = choose|k: int| is_longest_fitting_prefix(name@, max_chars as nat, k);
        lemma_longest_fitting_prefix_unique(name@, max_chars as nat, i as int, k);
    }
    let mut r = name.substring_char(0, i).to_owned();
    r.append("…");
    proof {
        reveal_strlit("…");
        assert(r@ =~= name@.take(i as int) + seq!['…']);
        lemma_encode_concat(name@.take(i as int), seq!['…']);
        let e = seq!['…'];
        assert(e.drop_first() =~= Seq::<char>::empty());
        reveal_with_fuel(encode_utf8, 2);
        assert(encode_utf8(e) =~= encode_scalar('…' as u32));
        assert('…' as u32 == 0x2026u32);
        assert(encode_scalar('…' as u32).len() == 3);
    }
    r
}

// ─── Status health classification ────────────────────────────────────────────

/// Health category for a Kubernetes resource status string.
/// Single source of truth for both color and sort-priority decisions.
#[derive(Debug, Clone, Copy, PartialEq, Eq, Structural)]
pub enum StatusHealth {
    /// Needs immediate attention: `CrashLoopBackOff`, Error, Failed, Evicted, etc.
    Critical,
    /// Transitional state: Pending, Terminating, Init:X/Y, etc.
    Warning,
    /// Normal operation: Running, Active, Bound, Complete, etc.
    Healthy,
    /// Deleted or unrecognized.
    Unknown,
}

pub open spec fn is_critical_exact(s: Seq<char>) -> bool {
    ||| s == "Failed"@
    ||| s == "Error"@
    ||| s == "OOMKilled"@
    ||| s == "NotReady"@
    ||| s == "Lost"@
    ||| s == "Evicted"@
    ||| s == "BackOff"@
}

pub open spec fn has_critical_prefix(s: Seq<char>) -> bool {
    ||| is_prefix("CrashLoop"@, s)
    ||| is_prefix("ErrImage"@, s)
    ||| is_prefix("ImagePull"@, s)
    ||| is_prefix("Init:Error"@, s)
    ||| is_prefix("Init:ErrImage"@, s)
    ||| is_prefix("Init:ImagePull"@, s)
    ||| is_prefix("Failed("@, s)
}

pub open spec fn is_warning_exact(s: Seq<char>) -> bool {
    ||| s == "Pending"@
    ||| s == "Terminating"@
    ||| s == "ContainerCreating"@
    ||| s == "Unknown"@
}

pub open spec fn is_healthy_exact(s: Seq<char>) -> bool {
    ||| s == "Running"@
    ||| s == "Active"@
    ||| s == "Bound"@
    ||| s == "Complete"@
    ||| s == "Succeeded"@
    ||| s == "Ready"@
    ||| s == "Scheduled"@
    ||| s == "ClusterIP"@
    ||| s == "NodePort"@
    ||| s == "LoadBalancer"@
}

/// A ratio such as "3/3": the text before the first '/' equals the text after it.
pub open spec fn ratio_is_complete(s: Seq<char>) -> bool {
    let i = first_index_of(s, '/');
    s.subrange(0, i) == s.subrange(i + 1, s.len() as int)
}

/// The health category of a status string; the first rule that applies wins.
pub open spec fn classify_status(s: Seq<char>) -> StatusHealth {
    if is_critical_exact(s) || has_critical_prefix(s) {
        StatusHealth::Critical
    } else if is_warning_exact(s) || is_prefix("Init:"@, s) {
        StatusHealth::Warning
    } else if s == "[DELETED]"@ {
        StatusHealth::Unknown
    } else if is_healthy_exact(s) || is_prefix("Active("@, s) {
        StatusHealth::Healthy
    } else if s.contains('/') {
        if ratio_is_complete(s) {
            StatusHealth::Healthy
        } else {
            StatusHealth::Warning
        }
    } else {
        StatusHealth::Healthy
    }
}

pub open spec fn health_color(h: StatusHealth) -> Color {
    match h {
        StatusHealth::Critical => Color::Red,
        StatusHealth::Warning => Color::Yellow,
        StatusHealth::Healthy => Color::Green,
        StatusHealth::Unknown => Color::DarkGray,
    }
}

pub open spec fn health_priority(h: StatusHealth) -> u8 {
    match h {
        StatusHealth::Critical => 0,
        StatusHealth::Warning => 1,
        StatusHealth::Unknown => 1,
        StatusHealth::Healthy => 2,
    }
}

fn is_critical_exact_exec(s: &str) -> (r: bool)
    ensures
        r == is_critical_exact(s@),
{
    str_eq(s, "Failed") || str_eq(s, "Error") || str_eq(s, "OOMKilled") || str_eq(s, "NotReady")
        || str_eq(s, "Lost") || str_eq(s, "Evicted") || str_eq(s, "BackOff")
}

fn has_critical_prefix_exec(s: &str) -> (r: bool)
    ensures
        r == has_critical_prefix(s@),
{
    starts_with(s, "CrashLoop") || starts_with(s, "ErrImage") || starts_with(s, "ImagePull")
        || starts_with(s, "Init:Error") || starts_with(s, "Init:ErrImage") || starts_with(
        s,
        "Init:ImagePull",
    ) || starts_with(s, "Failed(")
}

fn is_warning_exact_exec(s: &str) -> (r: bool)
    ensures
        r == is_warning_exact(s@),
{
    str_eq(s, "Pending") || str_eq(s, "Terminating") || str_eq(s, "ContainerCreating") || str_eq(
        s,
        "Unknown",
    )
}

fn is_healthy_exact_exec(s: &str) -> (r: bool)
    ensures
        r == is_healthy_exact(s@),
{
    str_eq(s, "Running") || str_eq(s, "Active") || str_eq(s, "Bound") || str_eq(s, "Complete")
        || str_eq(s, "Succeeded") || str_eq(s, "Ready") || str_eq(s, "Scheduled") || str_eq(
        s,
        "ClusterIP",
    ) || str_eq(s, "NodePort") || str_eq(s, "LoadBalancer")
}

impl StatusHealth {
    /// Classify a status string into a health category.
    pub fn classify(status: &str) -> (r: Self)
        ensures
            r == classify_status(status@),
    {
        if is_critical_exact_exec(status) || has_critical_prefix_exec(status) {
            return StatusHealth::Critical;
        }
        if is_warning_exact_exec(status) || starts_with(status, "Init:") {
            return StatusHealth::Warning;
        }
        if str_eq(status, "[DELETED]") {
            return StatusHealth::Unknown;
        }
        if is_healthy_exact_exec(status) || starts_with(status, "Active(") {
            return StatusHealth::Healthy;
        }
        proof {
            lemma_contains_index(status@, '/');
            lemma_first_index_from(status@, '/', 0);
        }
        match find_char(status, '/') {
            Some(i) => {
                let n = status.unicode_len();
                let before = status.substring_char(0, i);
                let after = status.substring_char(i + 1, n);
                if str_eq(before, after) {
                    StatusHealth::Healthy
                } else {
                    StatusHealth::Warning
                }
            },
            None => StatusHealth::Healthy,
        }
    }

    /// Terminal color for this health category.
    pub fn color(self) -> (r: Color)
        ensures
            r == health_color(self),
    {
        match self {
            StatusHealth::Critical => Color::Red,
            StatusHealth::Warning => Color::Yellow,
            StatusHealth::Healthy => Color::Green,
            StatusHealth::Unknown => Color::DarkGray,
        }
    }

    /// Sort priority: 0 = top of list (critical), 1 = middle, 2 = bottom (healthy).
    /// Skim renders higher-indexed items at the top, so lower priority = sent last.
    pub fn priority(self) -> (r: u8)
        ensures
            r == health_priority(self),
    {
        match self {
            StatusHealth::Critical => 0,
            StatusHealth::Warning | StatusHealth::Unknown => 1,
            StatusHealth::Healthy => 2,
        }
    }
}

// ─── Resource kinds ──────────────────────────────────────────────────────────

/// The kind of Kubernetes resource this item represents.
#[derive(Debug, Clone, Copy, PartialEq, Eq, Hash, Structural)]
#[non_exhaustive]
pub enum ResourceKind {
    Pod,
    Service,
    Deployment,
    StatefulSet,
    DaemonSet,
    ConfigMap,
    Secret,
    Ingress,
    Node,
    Namespace,
    PersistentVolume,
    PersistentVolumeClaim,
    Job,
    CronJob,
}

/// The short name kubectl accepts for each kind.
pub open spec fn kind_label(k: ResourceKind) -> Seq<char> {
    match k {
        ResourceKind::Pod => "pod"@,
        ResourceKind::Service => "svc"@,
        ResourceKind::Deployment => "deploy"@,
        ResourceKind::StatefulSet => "sts"@,
        ResourceKind::DaemonSet => "ds"@,
        ResourceKind::ConfigMap => "cm"@,
        ResourceKind::Secret => "secret"@,
        ResourceKind::Ingress => "ing"@,
        ResourceKind::Node => "node"@,
        ResourceKind::Namespace => "ns"@,
        ResourceKind::PersistentVolume => "pv"@,
        ResourceKind::PersistentVolumeClaim => "pvc"@,
        ResourceKind::Job => "job"@,
        ResourceKind::CronJob => "cronjob"@,
    }
}

pub open spec fn kind_color(k: ResourceKind) -> Color {
    match k {
        ResourceKind::Pod => Color::Green,
        ResourceKind::Service => Color::Blue,
        ResourceKind::Deployment => Color::Yellow,
        ResourceKind::StatefulSet => Color::Yellow,
        ResourceKind::DaemonSet => Color::Yellow,
        ResourceKind::ConfigMap => Color::Magenta,
        ResourceKind::Secret => Color::Magenta,
        ResourceKind::Ingress => Color::Cyan,
        ResourceKind::Node => Color::White,
        ResourceKind::Namespace => Color::White,
        ResourceKind::PersistentVolume => Color::LightCyan,
        ResourceKind::PersistentVolumeClaim => Color::LightMagenta,
        ResourceKind::Job => Color::LightBlue,
        ResourceKind::CronJob => Color::LightBlue,
    }
}

impl ResourceKind {
    pub fn as_str(self) -> (r: &'static str)
        ensures
            r@ == kind_label(self),
    {
        match self {
            ResourceKind::Pod => "pod",
            ResourceKind::Service => "svc",
            ResourceKind::Deployment => "deploy",
            ResourceKind::StatefulSet => "sts",
            ResourceKind::DaemonSet => "ds",
            ResourceKind::ConfigMap => "cm",
            ResourceKind::Secret => "secret",
            ResourceKind::Ingress => "ing",
            ResourceKind::Node => "node",
            ResourceKind::Namespace => "ns",
            ResourceKind::PersistentVolume => "pv",
            ResourceKind::PersistentVolumeClaim => "pvc",
            ResourceKind::Job => "job",
            ResourceKind::CronJob => "cronjob",
        }
    }

    /// The kind's display text: the same short name as `as_str`.
    pub fn to_string(self) -> (r: String)
        ensures
            r@ == kind_label(self),
    {
        self.as_str().to_owned()
    }

    pub fn color(self) -> (r: Color)
        ensures
            r == kind_color(self),
    {
        match self {
            ResourceKind::Pod => Color::Green,
            ResourceKind::Service => Color::Blue,
            ResourceKind::Deployment | ResourceKind::StatefulSet | ResourceKind::DaemonSet => {
                Color::Yellow
            },
            ResourceKind::ConfigMap | ResourceKind::Secret => Color::Magenta,
            ResourceKind::Ingress => Color::Cyan,
            ResourceKind::Node | ResourceKind::Namespace => Color::White,
            ResourceKind::PersistentVolume => Color::LightCyan,
            ResourceKind::PersistentVolumeClaim => Color::LightMagenta,
            ResourceKind::Job | ResourceKind::CronJob => Color::LightBlue,
        }
    }
}

// ─── Context colors ──────────────────────────────────────────────────────────

/// Sum of a byte sequence.
pub open spec fn byte_sum(b: Seq<u8>) -> nat
    decreases b.len(),
{
    if b.len() == 0 {
        0
    } else {
        byte_sum(b.drop_last()) + (b.last() as nat)
    }
}

/// The eight colors that cluster contexts cycle through.
pub open spec fn palette_color(i: nat) -> Color {
    if i == 0 {
        Color::Cyan
    } else if i == 1 {
        Color::Magenta
    } else if i == 2 {
        Color::Yellow
    } else if i == 3 {
        Color::LightGreen
    } else if i == 4 {
        Color::LightBlue
    } else if i == 5 {
        Color::LightRed
    } else if i == 6 {
        Color::LightCyan
    } else {
        Color::LightMagenta
    }
}

/// The color of a context: its UTF-8 bytes summed, modulo the palette size.
pub open spec fn context_color_of(ctx: Seq<char>) -> Color {
    palette_color(byte_sum(encode_utf8(ctx)) % 8)
}

/// Pick a consistent color for a cluster context name based on a hash of the name.
/// Ensures the same context always gets the same color across all items.
pub fn context_color(ctx: &str) -> (r: Color)
    ensures
        r == context_color_of(ctx@),
{
    let bytes = ctx.as_bytes();
    let n = bytes.len();
    let mut acc: usize = 0;
    let mut i: usize = 0;
    while i < n
        invariant
            n == bytes@.len(),
            bytes@ == encode_utf8(ctx@),
            i <= n,
            acc < 8,
            acc == byte_sum(bytes@.take(i as int)) % 8,
        decreases n - i,
    {
        let b = bytes[i];
        proof {
            assert(bytes@.take(i + 1).drop_last() =~= bytes@.take(i as int));
            let prev = byte_sum(bytes@.take(i as int));
            assert(byte_sum(bytes@.take(i + 1)) == prev + b);
            assert((acc + b) % 8 == (prev + b) % 8) by (nonlinear_arith)
                requires
                    acc == prev % 8,
                    prev >= 0,
            {
                vstd::arithmetic::div_mod::lemma_add_mod_noop(prev as int, b as int, 8);
            }
        }
        acc = (acc + b as usize) % 8;
        i += 1;
    }
    assert(bytes@.take(n as int) =~= bytes@);
    match acc {
        0 => Color::Cyan,
        1 => Color::Magenta,
        2 => Color::Yellow,
        3 => Color::LightGreen,
        4 => Color::LightBlue,
        5 => Color::LightRed,
        6 => Color::LightCyan,
        _ => Color::LightMagenta,
    }
}

// ─── Items ───────────────────────────────────────────────────────────────────

/// The status shown for a deleted resource.
pub open spec fn deleted_status() -> Seq<char> {
    "[DELETED]"@
}

/// The contents of a `K8sItem`.
pub struct K8sItemView {
    pub kind: ResourceKind,
    pub namespace: Seq<char>,
    pub name: Seq<char>,
    pub status: Seq<char>,
    pub age: Seq<char>,
    pub context: Seq<char>,
    pub cost_label: Seq<char>,
    pub cost_highlighted: bool,
}

impl K8sItemView {
    /// The item with the given cost annotation.
    pub open spec fn with_cost(self, label: Seq<char>, highlighted: bool) -> K8sItemView {
        K8sItemView { cost_label: label, cost_highlighted: highlighted, ..self }
    }

    /// The cost label the item reports: none while the label is empty.
    pub open spec fn reported_cost(self) -> Option<Seq<char>> {
        if self.cost_label.len() == 0 {
            None
        } else {
            Some(self.cost_label)
        }
    }

    /// "kind/name" or "kind/namespace/name", prefixed with "context:" in
    /// multi-cluster mode.
    pub open spec fn output_text(self) -> Seq<char> {
        let loc = if self.namespace.len() == 0 {
            kind_label(self.kind) + "/"@ + self.name
        } else {
            kind_label(self.kind) + "/"@ + self.namespace + "/"@ + self.name
        };
        if self.context.len() == 0 {
            loc
        } else {
            self.context + ":"@ + loc
        }
    }

    pub open spec fn context_prefix(self) -> Seq<char> {
        if self.context.len() == 0 {
            Seq::empty()
        } else {
            self.context + "/"@
        }
    }

    pub open spec fn namespace_prefix(self) -> Seq<char> {
        if self.namespace.len() == 0 {
            Seq::empty()
        } else {
            self.namespace + "/"@
        }
    }

    /// The plain text the fuzzy matcher searches.
    pub open spec fn search_text(self) -> Seq<char> {
        pad_end_seq(kind_label(self.kind), 8) + " "@ + self.context_prefix()
            + self.namespace_prefix() + truncated(self.name, 31) + " "@ + self.status + " "@
            + self.age + " "@ + self.cost_label
    }

    /// The name column: the truncated name padded to 32 characters when its
    /// encoding is shorter than 32 bytes, then a space.
    pub open spec fn name_column(self) -> Seq<char> {
        let t = truncated(self.name, 31);
        if utf8_len(t) < 32 {
            pad_end_seq(t, 32) + " "@
        } else {
            t + " "@
        }
    }

    pub open spec fn cost_column(self) -> Seq<char> {
        if self.cost_label.len() == 0 {
            spaces(10)
        } else {
            " "@ + pad_start_seq(self.cost_label, 10)
        }
    }

    pub open spec fn cost_color(self) -> Color {
        if self.cost_highlighted {
            Color::LightRed
        } else {
            Color::LightGreen
        }
    }

    /// The colored segments of the list row, in order.
    pub open spec fn display_row(self) -> Seq<(Seq<char>, Color)> {
        let head = seq![(pad_end_seq(kind_label(self.kind), 8) + " "@, kind_color(self.kind))];
        let ctx = if self.context.len() == 0 {
            Seq::empty()
        } else {
            seq![(self.context + "/"@, context_color_of(self.context))]
        };
        head + ctx + seq![
            (self.namespace_prefix(), Color::Cyan),
            (self.name_column(), Color::White),
            (pad_end_seq(self.status, 17) + " "@, health_color(classify_status(self.status))),
            (self.age, Color::DarkGray),
            (self.cost_column(), self.cost_color()),
        ]
    }

    /// The kubectl arguments of the preview in the given mode
    /// (1 = yaml, 2 = logs for pods, anything else = describe).
    pub open spec fn preview_arguments(self, mode: u8) -> Seq<Seq<char>> {
        let head = if mode == 2 && self.kind == ResourceKind::Pod {
            seq!["logs"@, "--tail=100"@]
        } else if mode == 1 {
            seq!["get"@, kind_label(self.kind), "-o"@, "yaml"@]
        } else {
            seq!["describe"@, kind_label(self.kind)]
        };
        let ns = if self.namespace.len() == 0 {
            Seq::empty()
        } else {
            seq!["-n"@, self.namespace]
        };
        let ctx = if self.context.len() == 0 {
            Seq::empty()
        } else {
            seq!["--context"@, self.context]
        };
        head + ns + ctx + seq!["--"@, self.name]
    }

    /// The first line of the preview pane in the given mode.
    pub open spec fn preview_title(self, mode: u8) -> Seq<char> {
        if mode == 1 {
            "── YAML: "@ + kind_label(self.kind) + "/"@ + self.name + " ──\n"@
        } else if mode == 2 {
            "── LOGS: "@ + self.name + " (last 100) ──\n"@
        } else {
            "── DESCRIBE: "@ + kind_label(self.kind) + "/"@ + self.name + " ──\n"@
        }
    }
}

/// A piece of text shown in one color.
pub struct StyledText {
    pub text: String,
    pub color: Color,
}

pub open spec fn styled_view(s: StyledText) -> (Seq<char>, Color) {
    (s.text@, s.color)
}

pub open spec fn string_views(v: Seq<String>) -> Seq<Seq<char>> {
    v.map_values(|s: String| s@)
}

/// A Kubernetes resource item displayed in the navigator.
#[derive(Debug, Clone)]
pub struct K8sItem {
    kind: ResourceKind,
    namespace: String,
    name: String,
    status: String,
    age: String,
    /// The cluster context this resource belongs to (empty in single-cluster mode).
    context: String,
    cost_label: String,
    cost_highlighted: bool,
}

impl View for K8sItem {
    type V = K8sItemView;

    closed spec fn view(&self) -> K8sItemView {
        K8sItemView {
            kind: self.kind,
            namespace: self.namespace@,
            name: self.name@,
            status: self.status@,
            age: self.age@,
            context: self.context@,
            cost_label: self.cost_label@,
            cost_highlighted: self.cost_highlighted,
        }
    }
}

fn push_strings(v: &mut Vec<String>, a: &str, b: &str)
    ensures
        string_views(final(v)@) == string_views(old(v)@) + seq![a@, b@],
{
    v.push(a.to_owned());
    v.push(b.to_owned());
    assert(string_views(final(v)@) =~= string_views(old(v)@) + seq![a@, b@]);
}

impl K8sItem {
    pub fn new(
        kind: ResourceKind,
        namespace: &str,
        name: &str,
        status: &str,
        age: &str,
        context: &str,
    ) -> (r: Self)
        ensures
            r@ == (K8sItemView {
                kind,
                namespace: namespace@,
                name: name@,
                status: status@,
                age: age@,
                context: context@,
                cost_label: Seq::empty(),
                cost_highlighted: false,
            }),
    {
        K8sItem {
            kind,
            namespace: namespace.to_owned(),
            name: name.to_owned(),
            status: status.to_owned(),
            age: age.to_owned(),
            context: context.to_owned(),
            cost_label: String::new(),
            cost_highlighted: false,
        }
    }

    /// A copy of this item.
    pub fn duplicate(&self) -> (r: Self)
        ensures
            r@ == self@,
    {
        K8sItem {
            kind: self.kind,
            namespace: self.namespace.clone(),
            name: self.name.clone(),
            status: self.status.clone(),
            age: self.age.clone(),
            context: self.context.clone(),
            cost_label: self.cost_label.clone(),
            cost_highlighted: self.cost_highlighted,
        }
    }

    pub fn kind(&self) -> (r: ResourceKind)
        ensures
            r == self@.kind,
    {
        self.kind
    }

    pub fn namespace(&self) -> (r: &str)
        ensures
            r@ == self@.namespace,
    {
        self.namespace.as_str()
    }

    pub fn name(&self) -> (r: &str)
        ensures
            r@ == self@.name,
    {
        self.name.as_str()
    }

    pub fn status(&self) -> (r: &str)
        ensures
            r@ == self@.status,
    {
        self.status.as_str()
    }

    pub fn age(&self) -> (r: &str)
        ensures
            r@ == self@.age,
    {
        self.age.as_str()
    }

    pub fn context(&self) -> (r: &str)
        ensures
            r@ == self@.context,
    {
        self.context.as_str()
    }

    pub fn set_cost(&mut self, label: &str, highlighted: bool)
        ensures
            final(self)@ == old(self)@.with_cost(label@, highlighted),
    {
        self.cost_label = label.to_owned();
        self.cost_highlighted = highlighted;
    }

    pub fn clear_cost(&mut self)
        ensures
            final(self)@ == old(self)@.with_cost(Seq::empty(), false),
    {
        self.cost_label = String::new();
        self.cost_highlighted = false;
    }

    /// Shows a new status and age for this resource; nothing else changes.
    pub fn refresh(&mut self, status: &str, age: &str)
        ensures
            final(self)@ == (K8sItemView { status: status@, age: age@, ..old(self)@ }),
    {
        self.status = status.to_owned();
        self.age = age.to_owned();
    }

    /// Shows this resource as deleted; nothing else changes.
    pub fn mark_deleted(&mut self)
        ensures
            final(self)@ == (K8sItemView { status: deleted_status(), ..old(self)@ }),
    {
        self.status = "[DELETED]".to_owned();
    }

    pub fn cost_label(&self) -> (r: Option<&str>)
        ensures
            r matches Some(l) ==> self@.reported_cost() == Some(l@),
            r is None ==> self@.reported_cost() is None,
    {
        let label = self.cost_label.as_str();
        if label.is_empty() {
            None
        } else {
            Some(label)
        }
    }

    /// Color the status string based on health — delegates to `StatusHealth`.
    pub fn status_color(&self) -> (r: Color)
        ensures
            r == health_color(classify_status(self@.status)),
    {
        StatusHealth::classify(self.status.as_str()).color()
    }

    /// Machine-parseable output string for piping.
    /// In multi-cluster mode, prefixed with the context: "ctx:kind/ns/name"
    pub fn output_str(&self) -> (r: String)
        ensures
            r@ == self@.output_text(),
    {
        let mut loc = self.kind.as_str().to_owned();
        loc.append("/");
        if !self.namespace.as_str().is_empty() {
            loc.append(self.namespace.as_str());
            loc.append("/");
        }
        loc.append(self.name.as_str());
        if self.context.as_str().is_empty() {
            loc
        } else {
            let mut out = self.context.clone();
            out.append(":");
            out.append(loc.as_str());
            out
        }
    }

    /// The text the fuzzy matcher searches: plain, no color.
    /// In multi-cluster mode the context name is included so users can search by cluster.
    pub fn search_text(&self) -> (r: String)
        ensures
            r@ == self@.search_text(),
    {
        let mut r = pad_end(self.kind.as_str(), 8);
        r.append(" ");
        if !self.context.as_str().is_empty() {
            r.append(self.context.as_str());
            r.append("/");
        }
        if !self.namespace.as_str().is_empty() {
            r.append(self.namespace.as_str());
            r.append("/");
        }
        let t = truncate_name(self.name.as_str(), 31);
        r.append(t.as_str());
        r.append(" ");
        r.append(self.status.as_str());
        r.append(" ");
        r.append(self.age.as_str());
        r.append(" ");
        r.append(self.cost_label.as_str());
        r
    }

    /// The colored segments of the list row: kind, context (multi-cluster
    /// mode only), namespace, name, status, age and cost.
    pub fn display_row(&self) -> (r: Vec<StyledText>)
        ensures
            r@.map_values(|s: StyledText| styled_view(s)) == self@.display_row(),
    {
        let mut row: Vec<StyledText> = Vec::new();
        let mut kind_col = pad_end(self.kind.as_str(), 8);
        kind_col.append(" ");
        row.push(StyledText { text: kind_col, color: self.kind.color() });
        if !self.context.as_str().is_empty() {
            let mut c = self.context.clone();
            c.append("/");
            row.push(StyledText { text: c, color: context_color(self.context.as_str()) });
        }
        let mut ns = String::new();
        if !self.namespace.as_str().is_empty() {
            ns = self.namespace.clone();
            ns.append("/");
        }
        row.push(StyledText { text: ns, color: Color::Cyan });
        let t = truncate_name(self.name.as_str(), 31);
        let mut name_col = if t.as_str().len() < 32 {
            pad_end(t.as_str(), 32)
        } else {
            t
        };
        name_col.append(" ");
        row.push(StyledText { text: name_col, color: Color::White });
        let mut status_col = pad_end(self.status.as_str(), 17);
        status_col.append(" ");
        row.push(StyledText { text: status_col, color: self.status_color() });
        row.push(StyledText { text: self.age.clone(), color: Color::DarkGray });
        let cost_col = match self.cost_label() {
            None => make_spaces(10),
            Some(label) => {
                let mut c = " ".to_owned();
                let padded = pad_start(label, 10);
                c.append(padded.as_str());
                c
            },
        };
        let cost_color = if self.cost_highlighted {
            Color::LightRed
        } else {
            Color::LightGreen
        };
        row.push(StyledText { text: cost_col, color: cost_color });
        assert(row@.map_values(|s: StyledText| styled_view(s)) =~= self@.display_row());
        row
    }

    /// The kubectl arguments that show this item's preview in the given mode.
    /// Namespace (-n) and --context come before the `--` end-of-flags separator.
    pub fn preview_args(&self, mode: u8) -> (r: Vec<String>)
        ensures
            string_views(r@) == self@.preview_arguments(mode),
    {
        let mut args: Vec<String> = Vec::new();
        if mode == 2 && self.kind == ResourceKind::Pod {
            push_strings(&mut args, "logs", "--tail=100");
        } else if mode == 1 {
            push_strings(&mut args, "get", self.kind.as_str());
            push_strings(&mut args, "-o", "yaml");
        } else {
            push_strings(&mut args, "describe", self.kind.as_str());
        }
        if !self.namespace.as_str().is_empty() {
            push_strings(&mut args, "-n", self.namespace.as_str());
        }
        if !self.context.as_str().is_empty() {
            push_strings(&mut args, "--context", self.context.as_str());
        }
        push_strings(&mut args, "--", self.name.as_str());
        assert(string_views(args@) =~= self@.preview_arguments(mode));
        args
    }

    /// The header line of the preview pane in the given mode.
    pub fn preview_header(&self, mode: u8) -> (r: String)
        ensures
            r@ == self@.preview_title(mode),
    {
        if mode == 1 {
            let mut h = "── YAML: ".to_owned();
            h.append(self.kind.as_str());
            h.append("/");
            h.append(self.name.as_str());
            h.append(" ──\n");
            h
        } else if mode == 2 {
            let mut h = "── LOGS: ".to_owned();
            h.append(self.name.as_str());
            h.append(" (last 100) ──\n");
            h
        } else {
            let mut h = "── DESCRIBE: ".to_owned();
            h.append(self.kind.as_str());
            h.append("/");
            h.append(self.name.as_str());
            h.append(" ──\n");
            h
        }
    }
}

// ─── Laws ────────────────────────────────────────────────────────────────────

/// Color and sort priority come from the same classification: a status sorts
/// to the top (priority 0) exactly when it is shown red, and to the bottom
/// (priority 2) exactly when it is shown green.
pub proof fn law_color_matches_priority(status: Seq<char>)
    ensures
        (health_priority(classify_status(status)) == 0) == (health_color(classify_status(status))
            == Color::Red),
        (health_priority(classify_status(status)) == 2) == (health_color(classify_status(status))
            == Color::Green),
        (health_priority(classify_status(status)) == 1) == (health_color(classify_status(status))
            == Color::Yellow || health_color(classify_status(status)) == Color::DarkGray),
{
}

/// Setting a cost label and reading it back gives the label (none for an
/// empty label); clearing it leaves no label; neither touches anything else.
pub proof fn law_cost_label_round_trip(item: K8sItemView, label: Seq<char>, highlighted: bool)
    ensures
        item.with_cost(label, highlighted).reported_cost() == if label.len() == 0 {
            None
        } else {
            Some(label)
        },
        item.with_cost(label, highlighted).with_cost(Seq::empty(), false).reported_cost() is None,
        item.with_cost(label, highlighted).with_cost(Seq::empty(), false) == item.with_cost(
            Seq::empty(),
            false,
        ),
        item.with_cost(label, highlighted).output_text() == item.output_text(),
{
}



/// Two texts differ where their characters differ.
proof fn lemma_differ(a: Seq<char>, b: Seq<char>, i: int)
    requires
        0 <= i < a.len(),
        i >= b.len() || a[i] != b[i],
    ensures
        a != b,
{
}

/// A text does not start with `p` when it is shorter than `p` at `i` or has
/// another character there.
proof fn lemma_not_prefix(p: Seq<char>, s: Seq<char>, i: int)
    requires
        0 <= i < p.len(),
        i >= s.len() || s[i] != p[i],
    ensures
        !is_prefix(p, s),
{
    if is_prefix(p, s) {
        assert(s.subrange(0, p.len() as int)[i] == s[i]);
    }
}

/// A prefix fixes the first characters.
proof fn lemma_prefix_chars(p: Seq<char>, s: Seq<char>)
    requires
        is_prefix(p, s),
    ensures
        forall|i: int| 0 <= i < p.len() ==> #[trigger] s[i] == p[i],
{
    assert forall|i: int| 0 <= i < p.len() implies #[trigger] s[i] == p[i] by {
        assert(s.subrange(0, p.len() as int)[i] == s[i]);
    }
}

/// Critical statuses: "Failed", "Error", "OOMKilled", "NotReady", "Lost",
/// "Evicted", "BackOff", and anything starting with "CrashLoop",
/// "ErrImage", "ImagePull", "Init:Error", "Init:ErrImage", "Init:ImagePull"
/// or "Failed(" are critical (shown red, sorted to the top).
pub proof fn law_critical_statuses(s: Seq<char>)
    ensures
        (s == "Failed"@ || s == "Error"@ || s == "OOMKilled"@ || s == "NotReady"@ || s == "Lost"@
            || s == "Evicted"@ || s == "BackOff"@) ==> classify_status(s) == StatusHealth::Critical,
        (is_prefix("CrashLoop"@, s) || is_prefix("ErrImage"@, s) || is_prefix("ImagePull"@, s)
            || is_prefix("Init:Error"@, s) || is_prefix("Init:ErrImage"@, s) || is_prefix(
            "Init:ImagePull"@,
            s,
        ) || is_prefix("Failed("@, s)) ==> classify_status(s) == StatusHealth::Critical,
{
}

/// Warning statuses: "Pending", "Terminating", "ContainerCreating" and
/// "Unknown", and any "Init:" status that is not a critical init failure.
pub proof fn law_warning_statuses(s: Seq<char>)
    ensures
        s == "Pending"@ ==> classify_status(s) == StatusHealth::Warning,
        s == "Terminating"@ ==> classify_status(s) == StatusHealth::Warning,
        s == "ContainerCreating"@ ==> classify_status(s) == StatusHealth::Warning,
        s == "Unknown"@ ==> classify_status(s) == StatusHealth::Warning,
        (is_prefix("Init:"@, s) && !is_prefix("Init:Error"@, s) && !is_prefix("Init:ErrImage"@, s)
            && !is_prefix("Init:ImagePull"@, s)) ==> classify_status(s) == StatusHealth::Warning,
{
    reveal_strlit("Failed");
    reveal_strlit("Error");
    reveal_strlit("OOMKilled");
    reveal_strlit("NotReady");
    reveal_strlit("Lost");
    reveal_strlit("Evicted");
    reveal_strlit("BackOff");
    reveal_strlit("CrashLoop");
    reveal_strlit("ErrImage");
    reveal_strlit("ImagePull");
    reveal_strlit("Init:Error");
    reveal_strlit("Init:ErrImage");
    reveal_strlit("Init:ImagePull");
    reveal_strlit("Failed(");
    reveal_strlit("Pending");
    reveal_strlit("Terminating");
    reveal_strlit("ContainerCreating");
    reveal_strlit("Unknown");
    reveal_strlit("Init:");
    reveal_strlit("[DELETED]");
    reveal_strlit("Active(");
    if s == "Pending"@ {
        lemma_differ(s, "Failed"@, 0);
        lemma_differ(s, "Error"@, 0);
        lemma_differ(s, "OOMKilled"@, 0);
        lemma_differ(s, "NotReady"@, 0);
        lemma_differ(s, "Lost"@, 0);
        lemma_differ(s, "Evicted"@, 0);
        lemma_differ(s, "BackOff"@, 0);
        lemma_not_prefix("CrashLoop"@, s, 0);
        lemma_not_prefix("ErrImage"@, s, 0);
        lemma_not_prefix("ImagePull"@, s, 0);
        lemma_not_prefix("Init:Error"@, s, 0);
        lemma_not_prefix("Init:ErrImage"@, s, 0);
        lemma_not_prefix("Init:ImagePull"@, s, 0);
        lemma_not_prefix("Failed("@, s, 0);
    }
    if s == "Terminating"@ {
        lemma_differ(s, "Failed"@, 0);
        lemma_differ(s, "Error"@, 0);
        lemma_differ(s, "OOMKilled"@, 0);
        lemma_differ(s, "NotReady"@, 0);
        lemma_differ(s, "Lost"@, 0);
        lemma_differ(s, "Evicted"@, 0);
        lemma_differ(s, "BackOff"@, 0);
        lemma_not_prefix("CrashLoop"@, s, 0);
        lemma_not_prefix("ErrImage"@, s, 0);
        lemma_not_prefix("ImagePull"@, s, 0);
        lemma_not_prefix("Init:Error"@, s, 0);
        lemma_not_prefix("Init:ErrImage"@, s, 0);
        lemma_not_prefix("Init:ImagePull"@, s, 0);
        lemma_not_prefix("Failed("@, s, 0);
    }
    if s == "ContainerCreating"@ {
        lemma_differ(s, "Failed"@, 0);
        lemma_differ(s, "Error"@, 0);
        lemma_differ(s, "OOMKilled"@, 0);
        lemma_differ(s, "NotReady"@, 0);
        lemma_differ(s, "Lost"@, 0);
        lemma_differ(s, "Evicted"@, 0);
        lemma_differ(s, "BackOff"@, 0);
        lemma_not_prefix("CrashLoop"@, s, 1);
        lemma_not_prefix("ErrImage"@, s, 0);
        lemma_not_prefix("ImagePull"@, s, 0);
        lemma_not_prefix("Init:Error"@, s, 0);
        lemma_not_prefix("Init:ErrImage"@, s, 0);
        lemma_not_prefix("Init:ImagePull"@, s, 0);
        lemma_not_prefix("Failed("@, s, 0);
    }
    if s == "Unknown"@ {
        lemma_differ(s, "Failed"@, 0);
        lemma_differ(s, "Error"@, 0);
        lemma_differ(s, "OOMKilled"@, 0);
        lemma_differ(s, "NotReady"@, 0);
        lemma_differ(s, "Lost"@, 0);
        lemma_differ(s, "Evicted"@, 0);
        lemma_differ(s, "BackOff"@, 0);
        lemma_not_prefix("CrashLoop"@, s, 0);
        lemma_not_prefix("ErrImage"@, s, 0);
        lemma_not_prefix("ImagePull"@, s, 0);
        lemma_not_prefix("Init:Error"@, s, 0);
        lemma_not_prefix("Init:ErrImage"@, s, 0);
        lemma_not_prefix("Init:ImagePull"@, s, 0);
        lemma_not_prefix("Failed("@, s, 0);
    }
    if is_prefix("Init:"@, s) {
        lemma_prefix_chars("Init:"@, s);
        assert(s[0] == 'I' && s[1] == 'n');
        lemma_differ(s, "Failed"@, 0);
        lemma_differ(s, "Error"@, 0);
        lemma_differ(s, "OOMKilled"@, 0);
        lemma_differ(s, "NotReady"@, 0);
        lemma_differ(s, "Lost"@, 0);
        lemma_differ(s, "Evicted"@, 0);
        lemma_differ(s, "BackOff"@, 0);
        lemma_not_prefix("CrashLoop"@, s, 0);
        lemma_not_prefix("ErrImage"@, s, 0);
        lemma_not_prefix("ImagePull"@, s, 1);
        lemma_not_prefix("Failed("@, s, 0);
    }
}

/// "[DELETED]" is neither healthy nor failing: unknown.
pub proof fn law_deleted_status_is_unknown()
    ensures
        classify_status("[DELETED]"@) == StatusHealth::Unknown,
{
    reveal_strlit("Failed");
    reveal_strlit("Error");
    reveal_strlit("OOMKilled");
    reveal_strlit("NotReady");
    reveal_strlit("Lost");
    reveal_strlit("Evicted");
    reveal_strlit("BackOff");
    reveal_strlit("CrashLoop");
    reveal_strlit("ErrImage");
    reveal_strlit("ImagePull");
    reveal_strlit("Init:Error");
    reveal_strlit("Init:ErrImage");
    reveal_strlit("Init:ImagePull");
    reveal_strlit("Failed(");
    reveal_strlit("Pending");
    reveal_strlit("Terminating");
    reveal_strlit("ContainerCreating");
    reveal_strlit("Unknown");
    reveal_strlit("Init:");
    reveal_strlit("[DELETED]");
    reveal_strlit("Active(");
    let s = "[DELETED]"@;
    if s == "[DELETED]"@ {
        lemma_differ(s, "Failed"@, 0);
        lemma_differ(s, "Error"@, 0);
        lemma_differ(s, "OOMKilled"@, 0);
        lemma_differ(s, "NotReady"@, 0);
        lemma_differ(s, "Lost"@, 0);
        lemma_differ(s, "Evicted"@, 0);
        lemma_differ(s, "BackOff"@, 0);
        lemma_differ(s, "Pending"@, 0);
        lemma_differ(s, "Terminating"@, 0);
        lemma_differ(s, "ContainerCreating"@, 0);
        lemma_differ(s, "Unknown"@, 0);
        lemma_not_prefix("CrashLoop"@, s, 0);
        lemma_not_prefix("ErrImage"@, s, 0);
        lemma_not_prefix("ImagePull"@, s, 0);
        lemma_not_prefix("Init:Error"@, s, 0);
        lemma_not_prefix("Init:ErrImage"@, s, 0);
        lemma_not_prefix("Init:ImagePull"@, s, 0);
        lemma_not_prefix("Failed("@, s, 0);
        lemma_not_prefix("Init:"@, s, 0);
    }
}

/// Healthy statuses: "Running", "Active", "Bound", "Complete", "Succeeded",
/// "Ready", "Scheduled", "ClusterIP", "NodePort", "LoadBalancer", and
/// anything starting with "Active(".
pub proof fn law_healthy_statuses(s: Seq<char>)
    ensures
        (s == "Running"@ || s == "Active"@ || s == "Bound"@ || s == "Complete"@ || s
            == "Succeeded"@ || s == "Ready"@ || s == "Scheduled"@ || s == "ClusterIP"@ || s
            == "NodePort"@ || s == "LoadBalancer"@) ==> classify_status(s) == StatusHealth::Healthy,
        is_prefix("Active("@, s) ==> classify_status(s) == StatusHealth::Healthy,
{
    reveal_strlit("Failed");
    reveal_strlit("Error");
    reveal_strlit("OOMKilled");
    reveal_strlit("NotReady");
    reveal_strlit("Lost");
    reveal_strlit("Evicted");
    reveal_strlit("BackOff");
    reveal_strlit("CrashLoop");
    reveal_strlit("ErrImage");
    reveal_strlit("ImagePull");
    reveal_strlit("Init:Error");
    reveal_strlit("Init:ErrImage");
    reveal_strlit("Init:ImagePull");
    reveal_strlit("Failed(");
    reveal_strlit("Pending");
    reveal_strlit("Terminating");
    reveal_strlit("ContainerCreating");
    reveal_strlit("Unknown");
    reveal_strlit("Init:");
    reveal_strlit("[DELETED]");
    reveal_strlit("Active(");
    reveal_strlit("Running");
    reveal_strlit("Active");
    reveal_strlit("Bound");
    reveal_strlit("Complete");
    reveal_strlit("Succeeded");
    reveal_strlit("Ready");
    reveal_strlit("Scheduled");
    reveal_strlit("ClusterIP");
    reveal_strlit("NodePort");
    reveal_strlit("LoadBalancer");
    if s == "Running"@ {
        lemma_differ(s, "Failed"@, 0);
        lemma_differ(s, "Error"@, 0);
        lemma_differ(s, "OOMKilled"@, 0);
        lemma_differ(s, "NotReady"@, 0);
        lemma_differ(s, "Lost"@, 0);
        lemma_differ(s, "Evicted"@, 0);
        lemma_differ(s, "BackOff"@, 0);
        lemma_differ(s, "Pending"@, 0);
        lemma_differ(s, "Terminating"@, 0);
        lemma_differ(s, "ContainerCreating"@, 0);
        lemma_differ(s, "Unknown"@, 0);
        lemma_differ(s, "[DELETED]"@, 0);
        lemma_not_prefix("CrashLoop"@, s, 0);
        lemma_not_prefix("ErrImage"@, s, 0);
        lemma_not_prefix("ImagePull"@, s, 0);
        lemma_not_prefix("Init:Error"@, s, 0);
        lemma_not_prefix("Init:ErrImage"@, s, 0);
        lemma_not_prefix("Init:ImagePull"@, s, 0);
        lemma_not_prefix("Failed("@, s, 0);
        lemma_not_prefix("Init:"@, s, 0);
    }
    if s == "Active"@ {
        lemma_differ(s, "Failed"@, 0);
        lemma_differ(s, "Error"@, 0);
        lemma_differ(s, "OOMKilled"@, 0);
        lemma_differ(s, "NotReady"@, 0);
        lemma_differ(s, "Lost"@, 0);
        lemma_differ(s, "Evicted"@, 0);
        lemma_differ(s, "BackOff"@, 0);
        lemma_differ(s, "Pending"@, 0);
        lemma_differ(s, "Terminating"@, 0);
        lemma_differ(s, "ContainerCreating"@, 0);
        lemma_differ(s, "Unknown"@, 0);
        lemma_differ(s, "[DELETED]"@, 0);
        lemma_not_prefix("CrashLoop"@, s, 0);
        lemma_not_prefix("ErrImage"@, s, 0);
        lemma_not_prefix("ImagePull"@, s, 0);
        lemma_not_prefix("Init:Error"@, s, 0);
        lemma_not_prefix("Init:ErrImage"@, s, 0);
        lemma_not_prefix("Init:ImagePull"@, s, 0);
        lemma_not_prefix("Failed("@, s, 0);
        lemma_not_prefix("Init:"@, s, 0);
    }
    if s == "Bound"@ {
        lemma_differ(s, "Failed"@, 0);
        lemma_differ(s, "Error"@, 0);
        lemma_differ(s, "OOMKilled"@, 0);
        lemma_differ(s, "NotReady"@, 0);
        lemma_differ(s, "Lost"@, 0);
        lemma_differ(s, "Evicted"@, 0);
        lemma_differ(s, "BackOff"@, 1);
        lemma_differ(s, "Pending"@, 0);
        lemma_differ(s, "Terminating"@, 0);
        lemma_differ(s, "ContainerCreating"@, 0);
        lemma_differ(s, "Unknown"@, 0);
        lemma_differ(s, "[DELETED]"@, 0);
        lemma_not_prefix("CrashLoop"@, s, 0);
        lemma_not_prefix("ErrImage"@, s, 0);
        lemma_not_prefix("ImagePull"@, s, 0);
        lemma_not_prefix("Init:Error"@, s, 0);
        lemma_not_prefix("Init:ErrImage"@, s, 0);
        lemma_not_prefix("Init:ImagePull"@, s, 0);
        lemma_not_prefix("Failed("@, s, 0);
        lemma_not_prefix("Init:"@, s, 0);
    }
    if s == "Complete"@ {
        lemma_differ(s, "Failed"@, 0);
        lemma_differ(s, "Error"@, 0);
        lemma_differ(s, "OOMKilled"@, 0);
        lemma_differ(s, "NotReady"@, 0);
        lemma_differ(s, "Lost"@, 0);
        lemma_differ(s, "Evicted"@, 0);
        lemma_differ(s, "BackOff"@, 0);
        lemma_differ(s, "Pending"@, 0);
        lemma_differ(s, "Terminating"@, 0);
        lemma_differ(s, "ContainerCreating"@, 2);
        lemma_differ(s, "Unknown"@, 0);
        lemma_differ(s, "[DELETED]"@, 0);
        lemma_not_prefix("CrashLoop"@, s, 1);
        lemma_not_prefix("ErrImage"@, s, 0);
        lemma_not_prefix("ImagePull"@, s, 0);
        lemma_not_prefix("Init:Error"@, s, 0);
        lemma_not_prefix("Init:ErrImage"@, s, 0);
        lemma_not_prefix("Init:ImagePull"@, s, 0);
        lemma_not_prefix("Failed("@, s, 0);
        lemma_not_prefix("Init:"@, s, 0);
    }
    if s == "Succeeded"@ {
        lemma_differ(s, "Failed"@, 0);
        lemma_differ(s, "Error"@, 0);
        lemma_differ(s, "OOMKilled"@, 0);
        lemma_differ(s, "NotReady"@, 0);
        lemma_differ(s, "Lost"@, 0);
        lemma_differ(s, "Evicted"@, 0);
        lemma_differ(s, "BackOff"@, 0);
        lemma_differ(s, "Pending"@, 0);
        lemma_differ(s, "Terminating"@, 0);
        lemma_differ(s, "ContainerCreating"@, 0);
        lemma_differ(s, "Unknown"@, 0);
        lemma_differ(s, "[DELETED]"@, 0);
        lemma_not_prefix("CrashLoop"@, s, 0);
        lemma_not_prefix("ErrImage"@, s, 0);
        lemma_not_prefix("ImagePull"@, s, 0);
        lemma_not_prefix("Init:Error"@, s, 0);
        lemma_not_prefix("Init:ErrImage"@, s, 0);
        lemma_not_prefix("Init:ImagePull"@, s, 0);
        lemma_not_prefix("Failed("@, s, 0);
        lemma_not_prefix("Init:"@, s, 0);
    }
    if s == "Ready"@ {
        lemma_differ(s, "Failed"@, 0);
        lemma_differ(s, "Error"@, 0);
        lemma_differ(s, "OOMKilled"@, 0);
        lemma_differ(s, "NotReady"@, 0);
        lemma_differ(s, "Lost"@, 0);
        lemma_differ(s, "Evicted"@, 0);
        lemma_differ(s, "BackOff"@, 0);
        lemma_differ(s, "Pending"@, 0);
        lemma_differ(s, "Terminating"@, 0);
        lemma_differ(s, "ContainerCreating"@, 0);
        lemma_differ(s, "Unknown"@, 0);
        lemma_differ(s, "[DELETED]"@, 0);
        lemma_not_prefix("CrashLoop"@, s, 0);
        lemma_not_prefix("ErrImage"@, s, 0);
        lemma_not_prefix("ImagePull"@, s, 0);
        lemma_not_prefix("Init:Error"@, s, 0);
        lemma_not_prefix("Init:ErrImage"@, s, 0);
        lemma_not_prefix("Init:ImagePull"@, s, 0);
        lemma_not_prefix("Failed("@, s, 0);
        lemma_not_prefix("Init:"@, s, 0);
    }
    if s == "Scheduled"@ {
        lemma_differ(s, "Failed"@, 0);
        lemma_differ(s, "Error"@, 0);
        lemma_differ(s, "OOMKilled"@, 0);
        lemma_differ(s, "NotReady"@, 0);
        lemma_differ(s, "Lost"@, 0);
        lemma_differ(s, "Evicted"@, 0);
        lemma_differ(s, "BackOff"@, 0);
        lemma_differ(s, "Pending"@, 0);
        lemma_differ(s, "Terminating"@, 0);
        lemma_differ(s, "ContainerCreating"@, 0);
        lemma_differ(s, "Unknown"@, 0);
        lemma_differ(s, "[DELETED]"@, 0);
        lemma_not_prefix("CrashLoop"@, s, 0);
        lemma_not_prefix("ErrImage"@, s, 0);
        lemma_not_prefix("ImagePull"@, s, 0);
        lemma_not_prefix("Init:Error"@, s, 0);
        lemma_not_prefix("Init:ErrImage"@, s, 0);
        lemma_not_prefix("Init:ImagePull"@, s, 0);
        lemma_not_prefix("Failed("@, s, 0);
        lemma_not_prefix("Init:"@, s, 0);
    }
    if s == "ClusterIP"@ {
        lemma_differ(s, "Failed"@, 0);
        lemma_differ(s, "Error"@, 0);
        lemma_differ(s, "OOMKilled"@, 0);
        lemma_differ(s, "NotReady"@, 0);
        lemma_differ(s, "Lost"@, 0);
        lemma_differ(s, "Evicted"@, 0);
        lemma_differ(s, "BackOff"@, 0);
        lemma_differ(s, "Pending"@, 0);
        lemma_differ(s, "Terminating"@, 0);
        lemma_differ(s, "ContainerCreating"@, 1);
        lemma_differ(s, "Unknown"@, 0);
        lemma_differ(s, "[DELETED]"@, 0);
        lemma_not_prefix("CrashLoop"@, s, 1);
        lemma_not_prefix("ErrImage"@, s, 0);
        lemma_not_prefix("ImagePull"@, s, 0);
        lemma_not_prefix("Init:Error"@, s, 0);
        lemma_not_prefix("Init:ErrImage"@, s, 0);
        lemma_not_prefix("Init:ImagePull"@, s, 0);
        lemma_not_prefix("Failed("@, s, 0);
        lemma_not_prefix("Init:"@, s, 0);
    }
    if s == "NodePort"@ {
        lemma_differ(s, "Failed"@, 0);
        lemma_differ(s, "Error"@, 0);
        lemma_differ(s, "OOMKilled"@, 0);
        lemma_differ(s, "NotReady"@, 2);
        lemma_differ(s, "Lost"@, 0);
        lemma_differ(s, "Evicted"@, 0);
        lemma_differ(s, "BackOff"@, 0);
        lemma_differ(s, "Pending"@, 0);
        lemma_differ(s, "Terminating"@, 0);
        lemma_differ(s, "ContainerCreating"@, 0);
        lemma_differ(s, "Unknown"@, 0);
        lemma_differ(s, "[DELETED]"@, 0);
        lemma_not_prefix("CrashLoop"@, s, 0);
        lemma_not_prefix("ErrImage"@, s, 0);
        lemma_not_prefix("ImagePull"@, s, 0);
        lemma_not_prefix("Init:Error"@, s, 0);
        lemma_not_prefix("Init:ErrImage"@, s, 0);
        lemma_not_prefix("Init:ImagePull"@, s, 0);
        lemma_not_prefix("Failed("@, s, 0);
        lemma_not_prefix("Init:"@, s, 0);
    }
    if s == "LoadBalancer"@ {
        lemma_differ(s, "Failed"@, 0);
        lemma_differ(s, "Error"@, 0);
        lemma_differ(s, "OOMKilled"@, 0);
        lemma_differ(s, "NotReady"@, 0);
        lemma_differ(s, "Lost"@, 2);
        lemma_differ(s, "Evicted"@, 0);
        lemma_differ(s, "BackOff"@, 0);
        lemma_differ(s, "Pending"@, 0);
        lemma_differ(s, "Terminating"@, 0);
        lemma_differ(s, "ContainerCreating"@, 0);
        lemma_differ(s, "Unknown"@, 0);
        lemma_differ(s, "[DELETED]"@, 0);
        lemma_not_prefix("CrashLoop"@, s, 0);
        lemma_not_prefix("ErrImage"@, s, 0);
        lemma_not_prefix("ImagePull"@, s, 0);
        lemma_not_prefix("Init:Error"@, s, 0);
        lemma_not_prefix("Init:ErrImage"@, s, 0);
        lemma_not_prefix("Init:ImagePull"@, s, 0);
        lemma_not_prefix("Failed("@, s, 0);
        lemma_not_prefix("Init:"@, s, 0);
    }
    if is_prefix("Active("@, s) {
        lemma_prefix_chars("Active("@, s);
        assert(s[0] == 'A');
        lemma_differ(s, "Failed"@, 0);
        lemma_differ(s, "Error"@, 0);
        lemma_differ(s, "OOMKilled"@, 0);
        lemma_differ(s, "NotReady"@, 0);
        lemma_differ(s, "Lost"@, 0);
        lemma_differ(s, "Evicted"@, 0);
        lemma_differ(s, "BackOff"@, 0);
        lemma_differ(s, "Pending"@, 0);
        lemma_differ(s, "Terminating"@, 0);
        lemma_differ(s, "ContainerCreating"@, 0);
        lemma_differ(s, "Unknown"@, 0);
        lemma_differ(s, "[DELETED]"@, 0);
        lemma_not_prefix("CrashLoop"@, s, 0);
        lemma_not_prefix("ErrImage"@, s, 0);
        lemma_not_prefix("ImagePull"@, s, 0);
        lemma_not_prefix("Init:Error"@, s, 0);
        lemma_not_prefix("Init:ErrImage"@, s, 0);
        lemma_not_prefix("Init:ImagePull"@, s, 0);
        lemma_not_prefix("Failed("@, s, 0);
        lemma_not_prefix("Init:"@, s, 0);
    }
}

/// The status text is none of the statuses named in the classification and
/// starts with none of its prefixes.
pub open spec fn is_other_status(s: Seq<char>) -> bool {
    s != "Failed"@ && s != "Error"@ && s != "OOMKilled"@ && s != "NotReady"@ && s != "Lost"@ && s != "Evicted"@ && s != "BackOff"@ && s != "Pending"@ && s != "Terminating"@ && s != "ContainerCreating"@ && s != "Unknown"@ && s != "[DELETED]"@ && s != "Running"@ && s != "Active"@ && s != "Bound"@ && s != "Complete"@ && s != "Succeeded"@ && s != "Ready"@ && s != "Scheduled"@ && s != "ClusterIP"@ && s != "NodePort"@ && s != "LoadBalancer"@ && !is_prefix("CrashLoop"@, s) && !is_prefix("ErrImage"@, s) && !is_prefix("ImagePull"@, s) && !is_prefix("Init:"@, s) && !is_prefix("Failed("@, s) && !is_prefix("Active("@, s)
}

/// Any other status with a '/' is a ratio "<before>/<after>" (split at its
/// first '/'): healthy when both sides are equal, a warning otherwise; any
/// other status without a '/' is healthy.
pub proof fn law_ratio_and_other_statuses(s: Seq<char>, before: Seq<char>, after: Seq<char>)
    ensures
        (is_other_status(s) && s == before + "/"@ + after && !before.contains('/'))
            ==> classify_status(s) == if before == after {
            StatusHealth::Healthy
        } else {
            StatusHealth::Warning
        },
        (is_other_status(s) && !s.contains('/')) ==> classify_status(s) == StatusHealth::Healthy,
{
    reveal_strlit("Failed");
    reveal_strlit("Error");
    reveal_strlit("OOMKilled");
    reveal_strlit("NotReady");
    reveal_strlit("Lost");
    reveal_strlit("Evicted");
    reveal_strlit("BackOff");
    reveal_strlit("Pending");
    reveal_strlit("Terminating");
    reveal_strlit("ContainerCreating");
    reveal_strlit("Unknown");
    reveal_strlit("[DELETED]");
    reveal_strlit("Running");
    reveal_strlit("Active");
    reveal_strlit("Bound");
    reveal_strlit("Complete");
    reveal_strlit("Succeeded");
    reveal_strlit("Ready");
    reveal_strlit("Scheduled");
    reveal_strlit("ClusterIP");
    reveal_strlit("NodePort");
    reveal_strlit("LoadBalancer");
    reveal_strlit("CrashLoop");
    reveal_strlit("ErrImage");
    reveal_strlit("ImagePull");
    reveal_strlit("Init:");
    reveal_strlit("Failed(");
    reveal_strlit("Active(");
    reveal_strlit("Init:Error");
    reveal_strlit("Init:ErrImage");
    reveal_strlit("Init:ImagePull");
    reveal_strlit("/");
    if is_other_status(s) {
        assert("Init:Error"@.subrange(0, 5) =~= "Init:"@);
        assert("Init:ErrImage"@.subrange(0, 5) =~= "Init:"@);
        assert("Init:ImagePull"@.subrange(0, 5) =~= "Init:"@);
        lemma_not_prefix_ext("Init:"@, "Init:Error"@, s);
        lemma_not_prefix_ext("Init:"@, "Init:ErrImage"@, s);
        lemma_not_prefix_ext("Init:"@, "Init:ImagePull"@, s);
    }
    if s == before + "/"@ + after && !before.contains('/') {
        let i = before.len() as int;
        assert(s[i] == '/');
        assert forall|k: int| 0 <= k < i implies s[k] != '/' by {
            assert(s[k] == before[k]);
            if s[k] == '/' {
                assert(before[k] == '/');
            }
        }
        lemma_first_index_from(s, '/', 0);
        assert(first_index_of(s, '/') == i);
        assert(s.subrange(0, i) =~= before);
        assert(s.subrange(i + 1, s.len() as int) =~= after);
        assert(s.contains('/'));
    }
}

/// Not starting with `short` rules out starting with `long`, which starts
/// with `short`.
proof fn lemma_not_prefix_ext(short: Seq<char>, long: Seq<char>, s: Seq<char>)
    requires
        is_prefix(short, long),
        !is_prefix(short, s),
    ensures
        !is_prefix(long, s),
{
    if is_prefix(long, s) {
        assert(s.subrange(0, short.len() as int) =~= long.subrange(0, short.len() as int));
    }
}

} // verus!
