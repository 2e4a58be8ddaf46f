//! Counters for operation outcomes, registered lazily with a prometheus
//! registry, and a timing wrapper that records through them.

use vstd::prelude::*;
use vstd::string::*;

verus! {

// ---------------------------------------------------------------------------
// Outside items
// ---------------------------------------------------------------------------

/// A prometheus counter, shared with the registry it is registered in:
/// clones count into one value.
#[verifier::external_body]
pub struct SharedCounter {
    inner: prometheus::Counter,
}

#[verifier::external_type_specification]
#[verifier::external_body]
pub struct ExRegistry(prometheus::Registry);

#[verifier::external_type_specification]
#[verifier::external_body]
pub struct ExPrometheusError(prometheus::Error);

#[verifier::external_type_specification]
#[verifier::external_body]
pub struct ExMetricFamily(prometheus::proto::MetricFamily);

#[verifier::external_type_specification]
#[verifier::external_body]
pub struct ExInstant(std::time::Instant);

/// A prometheus metric name: `[a-zA-Z_:][a-zA-Z0-9_:]*`.
pub open spec fn valid_metric_name(s: Seq<char>) -> bool {
    &&& s.len() > 0
    &&& name_start_char(s[0], true)
    &&& forall|i: int| 1 <= i < s.len() ==> name_char(#[trigger] s[i], true)
}

/// A prometheus label name: `[a-zA-Z_][a-zA-Z0-9_]*`.
pub open spec fn valid_label_name(s: Seq<char>) -> bool {
    &&& s.len() > 0
    &&& name_start_char(s[0], false)
    &&& forall|i: int| 1 <= i < s.len() ==> name_char(#[trigger] s[i], false)
}

pub open spec fn name_start_char(c: char, colon: bool) -> bool {
    ('a' <= c <= 'z') || ('A' <= c <= 'Z') || c == '_' || (colon && c == ':')
}

pub open spec fn name_char(c: char, colon: bool) -> bool {
    name_start_char(c, colon) || ('0' <= c <= '9')
}

/// The UTF-8 encoding of one character.
pub open spec fn utf8_char(c: char) -> Seq<u8> {
    let n = c as u32;
    if n < 0x80 {
        seq![n as u8]
    } else if n < 0x800 {
        seq![(0xC0 | (n >> 6)) as u8, (0x80 | (n & 0x3F)) as u8]
    } else if n < 0x10000 {
        seq![(0xE0 | (n >> 12)) as u8, (0x80 | ((n >> 6) & 0x3F)) as u8, (0x80 | (n & 0x3F)) as u8]
    } else {
        seq![
            (0xF0 | (n >> 18)) as u8,
            (0x80 | ((n >> 12) & 0x3F)) as u8,
            (0x80 | ((n >> 6) & 0x3F)) as u8,
            (0x80 | (n & 0x3F)) as u8,
        ]
    }
}

/// The UTF-8 encoding of a text.
pub open spec fn utf8(s: Seq<char>) -> Seq<u8>
    decreases s.len(),
{
    if s.len() == 0 {
        Seq::empty()
    } else {
        utf8_char(s[0]) + utf8(s.drop_first())
    }
}

/// One step of 64-bit FNV-1a.
pub open spec fn fnv1a_step(h: u64, b: u8) -> u64 {
    (((h ^ (b as u64)) as nat * 0x100000001b3nat) % 0x10000000000000000nat) as u64
}

pub open spec fn fnv1a_from(h: u64, bytes: Seq<u8>) -> u64
    decreases bytes.len(),
{
    if bytes.len() == 0 {
        h
    } else {
        fnv1a_from(fnv1a_step(h, bytes[0]), bytes.drop_first())
    }
}

/// The 64-bit FNV-1a hash of `bytes`.
pub open spec fn fnv1a(bytes: Seq<u8>) -> u64 {
    fnv1a_from(0xcbf29ce484222325u64, bytes)
}

/// Each text in UTF-8, each followed by the byte `0xff`.
pub open spec fn separated(texts: Seq<Seq<char>>) -> Seq<u8>
    decreases texts.len(),
{
    if texts.len() == 0 {
        Seq::empty()
    } else {
        utf8(texts[0]) + seq![0xffu8] + separated(texts.drop_first())
    }
}

/// The id prometheus gives a descriptor: the hash of its name and its
/// constant label values, in the order of the label names.
pub open spec fn descriptor_id(name: Seq<char>, values: Seq<Seq<char>>) -> u64 {
    fnv1a(utf8(name) + seq![0xffu8] + separated(values))
}

/// The hash prometheus keeps per metric name: help text and label names.
pub open spec fn dimension_hash(help: Seq<char>, names: Seq<Seq<char>>) -> u64 {
    fnv1a(utf8(help) + seq![0xffu8] + separated(names))
}

/// `a` comes before `b` in byte order.
pub open spec fn bytes_less(a: Seq<u8>, b: Seq<u8>) -> bool {
    ||| exists|i: int| 0 <= i < a.len() && i < b.len() && a.take(i) == b.take(i) && #[trigger] a[i] < b[i]
    ||| (a.len() < b.len() && a == b.take(a.len() as int))
}

pub open spec fn label_names(labels: Seq<(String, String)>) -> Seq<Seq<char>> {
    labels.map_values(|p: (String, String)| p.0@)
}

pub open spec fn label_values(labels: Seq<(String, String)>) -> Seq<Seq<char>> {
    labels.map_values(|p: (String, String)| p.1@)
}

/// The ids of the descriptors a registry holds.
pub uninterp spec fn descriptor_ids(r: prometheus::Registry) -> Set<u64>;

/// The ids of the collectors a registry holds.
pub uninterp spec fn collector_ids(r: prometheus::Registry) -> Set<u64>;

/// The dimension hash a registry keeps for each metric name.
pub uninterp spec fn dimension_hashes(r: prometheus::Registry) -> Map<Seq<char>, u64>;

pub open spec fn registry_unchanged(a: prometheus::Registry, b: prometheus::Registry) -> bool {
    &&& descriptor_ids(b) == descriptor_ids(a)
    &&& collector_ids(b) == collector_ids(a)
    &&& dimension_hashes(b) == dimension_hashes(a)
}

/// What registering a new counter of one descriptor does to a registry,
/// and whether it succeeds (`ok`).
pub open spec fn registration(
    before: prometheus::Registry,
    after: prometheus::Registry,
    name: Seq<char>,
    help: Seq<char>,
    labels: Seq<(String, String)>,
    ok: bool,
) -> bool {
    let id = descriptor_id(name, label_values(labels));
    let dim = dimension_hash(help, label_names(labels));
    let dim_clash = dimension_hashes(before).contains_key(name) && dimension_hashes(before)[name] != dim;
    if !valid_metric_name(name) || descriptor_ids(before).contains(id) || dim_clash {
        !ok && registry_unchanged(before, after)
    } else if collector_ids(before).contains(id) {
        &&& !ok
        &&& descriptor_ids(after) == descriptor_ids(before)
        &&& collector_ids(after) == collector_ids(before)
        &&& dimension_hashes(after) == dimension_hashes(before).insert(name, dim)
    } else {
        &&& ok
        &&& descriptor_ids(after) == descriptor_ids(before).insert(id)
        &&& collector_ids(after) == collector_ids(before).insert(id)
        &&& dimension_hashes(after) == dimension_hashes(before).insert(name, dim)
    }
}

/// Relies on prometheus `Opts::new`, `Opts::const_labels`,
/// `GenericCounter::with_opts` and `Registry::register` (handed a clone of
/// the counter; clones share one value). Creating the counter (the outer
/// result) fails exactly on an invalid name, the help text being non-empty
/// and the label names valid and distinct. Registering (the inner result) a collector of one descriptor fails on
/// a known descriptor id, on a known name with another dimension hash (both
/// before any change), and on a known collector id (after the name's hash
/// is kept); otherwise it adds the descriptor and the collector.
#[verifier::external_body]
fn register_new_counter(
    registry: &mut prometheus::Registry,
    name: &str,
    help: &str,
    labels: Vec<(String, String)>,
) -> (r: Result<Result<SharedCounter, prometheus::Error>, prometheus::Error>)
    requires
        help@.len() > 0,
        forall|i: int| 0 <= i < labels@.len() ==> valid_label_name(#[trigger] labels@[i].0@),
        forall|i: int, j: int|
            0 <= i < j < labels@.len() ==> bytes_less(
                utf8(#[trigger] labels@[i].0@),
                utf8(#[trigger] labels@[j].0@),
            ),
    ensures
        registration(*old(registry), *final(registry), name@, help@, labels@, r matches Ok(Ok(_))),
        r is Err <==> !valid_metric_name(name@),
{
    let opts = prometheus::Opts::new(name, help).const_labels(labels.into_iter().collect());
    match prometheus::Counter::with_opts(opts) {
        Err(e) => Err(e),
        Ok(counter) => Ok(registry.register(Box::new(counter.clone())).map(|_| SharedCounter { inner: counter })),
    }
}

/// Relies on prometheus `GenericCounter::inc`.
#[verifier::external_body]
fn counter_inc(counter: &SharedCounter) {
    counter.inner.inc()
}

/// Relies on prometheus `GenericCounter::inc_by`, handed the nanoseconds as
/// seconds.
#[verifier::external_body]
fn counter_add_nanos(counter: &SharedCounter, nanos: u64) {
    counter.inner.inc_by(std::time::Duration::from_nanos(nanos).as_secs_f64())
}

/// Relies on prometheus `Registry::new`: an empty registry.
#[verifier::external_body]
fn new_registry() -> (r: prometheus::Registry)
    ensures
        descriptor_ids(r).is_empty(),
        collector_ids(r).is_empty(),
        dimension_hashes(r).dom().is_empty(),
{
    prometheus::Registry::new()
}

/// Relies on prometheus `Registry::gather`.
#[verifier::external_body]
fn gather(registry: &prometheus::Registry) -> Vec<prometheus::proto::MetricFamily> {
    registry.gather()
}

/// Relies on prometheus `TextEncoder::encode_to_string`.
#[verifier::external_body]
fn encode_text(families: &Vec<prometheus::proto::MetricFamily>) -> Result<
    String,
    prometheus::Error,
> {
    prometheus::TextEncoder::new().encode_to_string(families)
}

/// Relies on `std::time::Instant::now`.
#[verifier::external_body]
fn instant_now() -> std::time::Instant {
    std::time::Instant::now()
}

/// Relies on `std::time::Instant::elapsed`, read in nanoseconds.
#[verifier::external_body]
fn elapsed_nanos(start: &std::time::Instant) -> u128 {
    start.elapsed().as_nanos()
}

// ---------------------------------------------------------------------------
// Metric identities
// ---------------------------------------------------------------------------

/// The label value that stands for the error category of a success.
pub const NO_ERROR: &'static str = "no-error";

/// What a counter measures.
#[derive(Clone, Copy, Debug, PartialEq, Eq, Structural)]
pub enum MetricKind {
    /// Number of calls, exposed as `{name}_total`.
    Count,
    /// Time spent, exposed as `{name}_time_seconds`.
    ElapsedSeconds,
}

/// An amount to add to a counter.
#[derive(Clone, Copy, Debug, PartialEq, Eq, Structural)]
pub enum Delta {
    /// One more call.
    Count,
    /// Time spent, in nanoseconds.
    ElapsedNanos(u64),
}

/// A metric identity: base name, success flag, error category, kind.
pub type MetricKey = (Seq<char>, bool, Seq<char>, MetricKind);

pub open spec fn kind_of(d: Delta) -> MetricKind {
    match d {
        Delta::Count => MetricKind::Count,
        Delta::ElapsedNanos(_) => MetricKind::ElapsedSeconds,
    }
}

pub open spec fn amount_of(d: Delta) -> nat {
    match d {
        Delta::Count => 1,
        Delta::ElapsedNanos(n) => n as nat,
    }
}

/// The identity of a recording; a success carries no error category.
pub open spec fn metric_key(name: Seq<char>, success: bool, error_type: Seq<char>, kind: MetricKind) -> MetricKey {
    (name, success, if success { NO_ERROR@ } else { error_type }, kind)
}

pub open spec fn kind_suffix(kind: MetricKind) -> Seq<char> {
    match kind {
        MetricKind::Count => "_total"@,
        MetricKind::ElapsedSeconds => "_time_seconds"@,
    }
}

/// The name under which the counter of an identity is exposed.
pub open spec fn exposed_name(key: MetricKey) -> Seq<char> {
    key.0 + kind_suffix(key.3)
}

/// `a + b`, held at `u64::MAX`.
pub open spec fn saturating_sum(a: nat, b: nat) -> u64 {
    if a + b > u64::MAX {
        u64::MAX
    } else {
        (a + b) as u64
    }
}

/// The totals after adding `amount` to the counter of `key`.
pub open spec fn bumped(model: Map<MetricKey, u64>, key: MetricKey, amount: nat) -> Map<MetricKey, u64> {
    if model.contains_key(key) {
        model.insert(key, saturating_sum(model[key] as nat, amount))
    } else {
        model.insert(key, saturating_sum(0, amount))
    }
}

/// One recording: the amount is added, or, where no counter existed yet and
/// none could be registered, nothing changes.
pub open spec fn recorded(before: Map<MetricKey, u64>, after: Map<MetricKey, u64>, key: MetricKey, amount: nat) -> bool {
    ||| after == bumped(before, key, amount)
    ||| (after == before && !before.contains_key(key))
}

/// One finished call: a count and its time, recorded in that order under
/// the call's outcome and error category.
pub open spec fn call_recorded(
    before: Map<MetricKey, u64>,
    after: Map<MetricKey, u64>,
    name: Seq<char>,
    success: bool,
    error_type: Seq<char>,
    nanos: nat,
) -> bool {
    exists|mid: Map<MetricKey, u64>|
        recorded(before, mid, metric_key(name, success, error_type, MetricKind::Count), 1) && recorded(
            mid,
            after,
            metric_key(name, success, error_type, MetricKind::ElapsedSeconds),
            nanos,
        )
}

/// The outcome label of a recording.
pub open spec fn outcome_text(success: bool) -> Seq<char> {
    if success {
        "success"@
    } else {
        "error"@
    }
}

/// The label names of every counter of the store, in byte order.
pub open spec fn store_label_names() -> Seq<Seq<char>> {
    seq!["error_type"@, "outcome"@]
}

/// The descriptor id of the counter of an identity.
pub open spec fn key_descriptor_id(k: MetricKey) -> u64 {
    descriptor_id(exposed_name(k), seq![k.2, outcome_text(k.1)])
}

/// The dimension hash of the counters the store exposes under `name`.
pub open spec fn store_dimension_hash(name: Seq<char>) -> u64 {
    dimension_hash(name + " help"@, store_label_names())
}

/// Another identity of the model has the descriptor id of `key`, so the
/// registry would take its counter for a duplicate.
pub open spec fn collides(model: Map<MetricKey, u64>, key: MetricKey) -> bool {
    exists|k: MetricKey| #[trigger] model.contains_key(k) && k != key && key_descriptor_id(k) == key_descriptor_id(key)
}

/// A recording of `key` that cannot fail: its counter exists, or one can be
/// made and registered.
pub open spec fn fits(model: Map<MetricKey, u64>, key: MetricKey) -> bool {
    model.contains_key(key) || (valid_metric_name(exposed_name(key)) && !collides(model, key))
}

/// Both recordings of a call cannot fail.
pub open spec fn call_fits(model: Map<MetricKey, u64>, name: Seq<char>, success: bool, error_type: Seq<char>) -> bool {
    let ck = metric_key(name, success, error_type, MetricKind::Count);
    let tk = metric_key(name, success, error_type, MetricKind::ElapsedSeconds);
    fits(model, ck) && fits(bumped(model, ck, 1), tk)
}

/// A finished call as recorded: where both recordings fit, exactly one
/// more call and `nanos` more time.
pub open spec fn call_done(
    before: Map<MetricKey, u64>,
    after: Map<MetricKey, u64>,
    name: Seq<char>,
    success: bool,
    error_type: Seq<char>,
    nanos: nat,
) -> bool {
    &&& call_recorded(before, after, name, success, error_type, nanos)
    &&& call_fits(before, name, success, error_type) ==> after == bumped(
        bumped(before, metric_key(name, success, error_type, MetricKind::Count), 1),
        metric_key(name, success, error_type, MetricKind::ElapsedSeconds),
        nanos,
    )
}

/// Errors of the metric store.
#[derive(Clone, Copy, Debug, PartialEq, Eq, Structural)]
pub enum MetricError {
    /// The exposed name is not a valid prometheus metric name.
    InvalidName,
    /// The registry refused the new counter.
    Registration,
    /// The registry could not be rendered as text.
    Exposition,
}

// ---------------------------------------------------------------------------
// The store
// ---------------------------------------------------------------------------

struct CounterEntry {
    name: String,
    success: bool,
    error_type: String,
    kind: MetricKind,
    counter: SharedCounter,
    total: u64,
}

spec fn total_kept(totals: Map<MetricKey, u64>, e: CounterEntry) -> bool {
    totals.contains_key(entry_key(e)) && totals[entry_key(e)] == e.total
}

spec fn entry_key(e: CounterEntry) -> MetricKey {
    (e.name@, e.success, e.error_type@, e.kind)
}

proof fn lemma_registry_same_keys(reg: prometheus::Registry, a: Map<MetricKey, u64>, b: Map<MetricKey, u64>)
    requires
        registry_matches(reg, a),
        a.dom() == b.dom(),
    ensures
        registry_matches(reg, b),
{
    assert forall|k: MetricKey| #[trigger] b.contains_key(k) implies descriptor_ids(reg).contains(key_descriptor_id(k)) by {
        assert(a.contains_key(k));
    }
    assert forall|id: u64| #[trigger] descriptor_ids(reg).contains(id) implies exists|k: MetricKey|
        #[trigger] b.contains_key(k) && key_descriptor_id(k) == id by {
        let k = choose|k: MetricKey| #[trigger] a.contains_key(k) && key_descriptor_id(k) == id;
        assert(b.contains_key(k));
    }
}

proof fn lemma_label_order()
    ensures
        bytes_less(utf8("error_type"@), utf8("outcome"@)),
{
    reveal_strlit("error_type");
    reveal_strlit("outcome");
    let a = utf8("error_type"@);
    let b = utf8("outcome"@);
    assert(utf8_char('e') =~= seq![101u8]);
    assert(utf8_char('o') =~= seq![111u8]);
    assert(a == utf8_char('e') + utf8("error_type"@.drop_first()));
    assert(b == utf8_char('o') + utf8("outcome"@.drop_first()));
    assert(a[0] == 101u8);
    assert(b[0] == 111u8);
    assert(a.take(0) =~= b.take(0));
}

/// For an identity the model lacks, the registry knows its descriptor id
/// exactly when another identity has the same one, and the registry's
/// dimension hash of its name is the store's.
proof fn lemma_fresh_key(reg: prometheus::Registry, model: Map<MetricKey, u64>, key: MetricKey)
    requires
        registry_matches(reg, model),
        !model.contains_key(key),
    ensures
        descriptor_ids(reg).contains(key_descriptor_id(key)) <==> collides(model, key),
        collector_ids(reg).contains(key_descriptor_id(key)) <==> collides(model, key),
        !(dimension_hashes(reg).contains_key(exposed_name(key)) && dimension_hashes(reg)[exposed_name(key)]
            != store_dimension_hash(exposed_name(key))),
{
    let id = key_descriptor_id(key);
    if descriptor_ids(reg).contains(id) {
        let k = choose|k: MetricKey| #[trigger] model.contains_key(k) && key_descriptor_id(k) == id;
        assert(k != key);
        assert(collides(model, key));
    }
    if collides(model, key) {
        let k = choose|k: MetricKey| #[trigger] model.contains_key(k) && k != key && key_descriptor_id(k) == id;
        assert(descriptor_ids(reg).contains(key_descriptor_id(k)));
    }
}

/// Registering the counter of a new identity keeps the registry in step
/// with the model that gains the identity.
proof fn lemma_registry_insert(
    before: prometheus::Registry,
    after: prometheus::Registry,
    model: Map<MetricKey, u64>,
    key: MetricKey,
)
    requires
        registry_matches(before, model),
        descriptor_ids(after) == descriptor_ids(before).insert(key_descriptor_id(key)),
        collector_ids(after) == collector_ids(before).insert(key_descriptor_id(key)),
        dimension_hashes(after) == dimension_hashes(before).insert(
            exposed_name(key),
            store_dimension_hash(exposed_name(key)),
        ),
    ensures
        registry_matches(after, model.insert(key, 0)),
{
    let m = model.insert(key, 0);
    assert forall|id: u64| #[trigger] descriptor_ids(after).contains(id) implies exists|k: MetricKey|
        #[trigger] m.contains_key(k) && key_descriptor_id(k) == id by {
        if id == key_descriptor_id(key) {
            assert(m.contains_key(key));
        } else {
            assert(descriptor_ids(before).contains(id));
            let k = choose|k: MetricKey| #[trigger] model.contains_key(k) && key_descriptor_id(k) == id;
            assert(m.contains_key(k));
        }
    }
    assert forall|k: MetricKey| #[trigger] m.contains_key(k) implies descriptor_ids(after).contains(
        key_descriptor_id(k),
    ) by {
        if k != key {
            assert(model.contains_key(k));
        }
    }
}

/// The registry holds the descriptor of each identity of the model and no
/// other, one collector per descriptor, and the store's dimension hash for
/// each name.
pub open spec fn registry_matches(reg: prometheus::Registry, model: Map<MetricKey, u64>) -> bool {
    &&& forall|k: MetricKey| #[trigger] model.contains_key(k) ==> descriptor_ids(reg).contains(key_descriptor_id(k))
    &&& forall|id: u64|
        #[trigger] descriptor_ids(reg).contains(id) ==> exists|k: MetricKey|
            #[trigger] model.contains_key(k) && key_descriptor_id(k) == id
    &&& collector_ids(reg) == descriptor_ids(reg)
    &&& forall|n: Seq<char>|
        #[trigger] dimension_hashes(reg).contains_key(n) ==> dimension_hashes(reg)[n] == store_dimension_hash(n)
}

/// The counters of an application, each registered once with its registry.
pub struct MetricStore {
    registry: prometheus::Registry,
    entries: Vec<CounterEntry>,
    totals: Ghost<Map<MetricKey, u64>>,
}

impl MetricStore {
    /// The total of each identity recorded so far.
    pub closed spec fn model(&self) -> Map<MetricKey, u64> {
        self.totals@
    }

    /// One counter per identity, and the totals are those of the counters.
    pub closed spec fn wf(&self) -> bool {
        &&& forall|i: int, j: int|
            0 <= i < j < self.entries@.len() ==> entry_key(#[trigger] self.entries@[i]) != entry_key(
                #[trigger] self.entries@[j],
            )
        &&& forall|i: int|
            0 <= i < self.entries@.len() ==> #[trigger] total_kept(self.totals@, self.entries@[i])
        &&& forall|k: MetricKey|
            #[trigger] self.totals@.contains_key(k) ==> exists|i: int|
                0 <= i < self.entries@.len() && entry_key(#[trigger] self.entries@[i]) == k
        &&& registry_matches(self.registry, self.totals@)
    }

    proof fn lemma_wf_intro(&self)
        requires
            forall|i: int, j: int|
                0 <= i < j < self.entries@.len() ==> entry_key(#[trigger] self.entries@[i]) != entry_key(
                    #[trigger] self.entries@[j],
                ),
            forall|i: int|
                0 <= i < self.entries@.len() ==> #[trigger] total_kept(self.totals@, self.entries@[i]),
            forall|k: MetricKey|
                #[trigger] self.totals@.contains_key(k) ==> exists|i: int|
                    0 <= i < self.entries@.len() && entry_key(#[trigger] self.entries@[i]) == k,
            registry_matches(self.registry, self.totals@),
        ensures
            self.wf(),
    {
    }

    /// The ids of the descriptors the store's registry holds.
    pub closed spec fn descriptors(&self) -> Set<u64> {
        descriptor_ids(self.registry)
    }

    /// The number of counters.
    pub closed spec fn counter_count(&self) -> nat {
        self.entries@.len()
    }

    /// An empty store with a registry of its own.
    pub fn new() -> (r: MetricStore)
        ensures
            r.wf(),
            r.model() == Map::<MetricKey, u64>::empty(),
    {
        MetricStore { registry: new_registry(), entries: Vec::new(), totals: Ghost(Map::empty()) }
    }

    fn find(&self, name: &String, success: bool, error_type: &String, kind: MetricKind) -> (r: Option<usize>)
        requires
            self.wf(),
        ensures
            match r {
                Some(i) => i < self.entries@.len() && entry_key(self.entries@[i as int]) == (
                    name@,
                    success,
                    error_type@,
                    kind,
                ),
                None => !self.model().contains_key((name@, success, error_type@, kind)),
            },
    {
        let mut i: usize = 0;
        while i < self.entries.len()
            invariant
                0 <= i <= self.entries@.len(),
                forall|j: int|
                    0 <= j < i ==> entry_key(#[trigger] self.entries@[j]) != (
                        name@,
                        success,
                        error_type@,
                        kind,
                    ),
            decreases self.entries.len() - i,
        {
            let e = &self.entries[i];
            if e.success == success && e.kind == kind && e.name == *name && e.error_type
                == *error_type {
                return Some(i);
            }
            i = i + 1;
        }
        None
    }

    #[verifier::spinoff_prover]
    #[verifier::rlimit(40)]
    fn add_at(&mut self, i: usize, delta: Delta)
        requires
            old(self).wf(),
            i < old(self).entries@.len(),
            kind_of(delta) == old(self).entries@[i as int].kind,
        ensures
            final(self).wf(),
            final(self).entries@.len() == old(self).entries@.len(),
            final(self).model() == bumped(
                old(self).model(),
                entry_key(old(self).entries@[i as int]),
                amount_of(delta),
            ),
    {
        let ghost key = entry_key(self.entries@[i as int]);
        let old_total = self.entries[i].total;
        let amount: u64 = match delta {
            Delta::Count => {
                counter_inc(&self.entries[i].counter);
                1
            },
            Delta::ElapsedNanos(n) => {
                counter_add_nanos(&self.entries[i].counter, n);
                n
            },
        };
        let new_total = if old_total > u64::MAX - amount {
            u64::MAX
        } else {
            old_total + amount
        };
        self.entries[i].total = new_total;
        self.totals = Ghost(self.totals@.insert(key, new_total));
        proof {
            assert(total_kept(old(self).totals@, old(self).entries@[i as int]));
            assert(self.totals@.dom() =~= old(self).totals@.dom());
            assert(self.registry == old(self).registry);
            lemma_registry_same_keys(self.registry, old(self).totals@, self.totals@);
            assert(registry_matches(self.registry, self.totals@));
            assert(entry_key(self.entries@[i as int]) == key);
            assert forall|j: int| 0 <= j < self.entries@.len() && j != i implies #[trigger] self.entries@[j]
                == old(self).entries@[j] by {}
            assert forall|k: MetricKey| #[trigger] self.totals@.contains_key(k) implies exists|j: int|
                0 <= j < self.entries@.len() && entry_key(#[trigger] self.entries@[j]) == k by {
                if k != key {
                    let j = choose|j: int|
                        0 <= j < old(self).entries@.len() && entry_key(#[trigger] old(self).entries@[j]) == k;
                    assert(entry_key(self.entries@[j]) == k);
                } else {
                    assert(entry_key(self.entries@[i as int]) == k);
                }
            }
            assert forall|a: int|
                0 <= a < self.entries@.len() implies #[trigger] total_kept(self.totals@, self.entries@[a]) by {
                if a != i {
                    assert(old(self).entries@[a] == self.entries@[a]);
                    assert(total_kept(old(self).totals@, old(self).entries@[a]));
                    assert(entry_key(self.entries@[a]) != key) by {
                        if a < i {
                            assert(entry_key(old(self).entries@[a]) != entry_key(old(self).entries@[i as int]));
                        } else {
                            assert(entry_key(old(self).entries@[i as int]) != entry_key(old(self).entries@[a]));
                        }
                    }
                } else {
                    assert(self.entries@[a].total == new_total);
                }
            }
            self.lemma_wf_intro();
        }
    }

    /// Adds `delta` to the counter of the identity (`metric_name`, outcome,
    /// `error_type`, kind of `delta`), creating the counter and registering
    /// it on first use. A success carries the category `no-error`, whatever
    /// `error_type` says. A count is exposed as `{metric_name}_total`, time
    /// as `{metric_name}_time_seconds`. An identity already present is never
    /// registered again, so the registry never sees a duplicate.
    pub fn record_outcome(&mut self, metric_name: &str, success: bool, error_type: &str, delta: Delta) -> (r: Result<
        (),
        MetricError,
    >)
        requires
            old(self).wf(),
        ensures
            final(self).wf(),
            ({
                let key = metric_key(metric_name@, success, error_type@, kind_of(delta));
                &&& fits(old(self).model(), key) ==> r is Ok
                &&& r is Ok ==> final(self).model() == bumped(old(self).model(), key, amount_of(delta))
                &&& r is Err ==> final(self).model() == old(self).model() && !old(self).model().contains_key(key)
                &&& r matches Err(e) ==> e == MetricError::InvalidName || e == MetricError::Registration
                &&& r matches Err(e) ==> (e == MetricError::InvalidName <==> !valid_metric_name(exposed_name(key)))
                &&& !old(self).model().contains_key(key) && !valid_metric_name(exposed_name(key)) ==> r is Err
                &&& !old(self).model().contains_key(key) && collides(old(self).model(), key) ==> r is Err
            }),
    {
        let kind = match delta {
            Delta::Count => MetricKind::Count,
            Delta::ElapsedNanos(_) => MetricKind::ElapsedSeconds,
        };
        let name = String::from_str(metric_name);
        let category = if success {
            String::from_str(NO_ERROR)
        } else {
            String::from_str(error_type)
        };
        let ghost key = metric_key(metric_name@, success, error_type@, kind);
        assert(key == (name@, success, category@, kind));
        match self.find(&name, success, &category, kind) {
            Some(i) => {
                proof {
                    assert(total_kept(self.totals@, self.entries@[i as int]));
                }
                self.add_at(i, delta);
                Ok(())
            },
            None => {
                proof {
                    reveal_strlit(" help");
                    reveal_strlit("outcome");
                    reveal_strlit("error_type");
                }
                let suffix: &str = match kind {
                    MetricKind::Count => "_total",
                    MetricKind::ElapsedSeconds => "_time_seconds",
                };
                let exposed = name.clone().concat(suffix);
                let help = exposed.clone().concat(" help");
                let outcome: &str = if success {
                    "success"
                } else {
                    "error"
                };
                let mut labels: Vec<(String, String)> = Vec::new();
                labels.push((String::from_str("error_type"), category.clone()));
                labels.push((String::from_str("outcome"), String::from_str(outcome)));
                proof {
                    reveal_strlit("success");
                    reveal_strlit("error");
                    lemma_label_order();
                    assert(valid_label_name("outcome"@));
                    assert(valid_label_name("error_type"@));
                    assert(label_values(labels@) =~= seq![key.2, outcome_text(key.1)]);
                    assert(label_names(labels@) =~= store_label_names());
                    assert(exposed@ == exposed_name(key));
                    lemma_fresh_key(self.registry, self.totals@, key);
                    assert(descriptor_id(exposed@, label_values(labels@)) == key_descriptor_id(key));
                    assert(dimension_hash(help@, label_names(labels@)) == store_dimension_hash(exposed_name(key)));
                    assert(!old(self).model().contains_key(key));
                }
                let ghost before = self.registry;
                match register_new_counter(&mut self.registry, exposed.as_str(), help.as_str(), labels) {
                    Err(_) => {
                        assert(!valid_metric_name(exposed_name(key)));
                        Err(MetricError::InvalidName)
                    },
                    Ok(Err(_)) => {
                        assert(valid_metric_name(exposed_name(key)));
                        assert(collides(old(self).model(), key));
                        Err(MetricError::Registration)
                    },
                    Ok(Ok(counter)) => {
                            proof {
                                assert(descriptor_id(exposed@, label_values(labels@)) == key_descriptor_id(key));
                                assert(dimension_hash(help@, label_names(labels@)) == store_dimension_hash(exposed_name(key)));
                                assert(descriptor_ids(self.registry) == descriptor_ids(before).insert(key_descriptor_id(key)));
                                assert(collector_ids(self.registry) == collector_ids(before).insert(key_descriptor_id(key)));
                            }
                            let entry = CounterEntry {
                                name,
                                success,
                                error_type: category,
                                kind,
                                counter,
                                total: 0,
                            };
                            self.entries.push(entry);
                            self.totals = Ghost(self.totals@.insert(key, 0));
                            proof {
                                let n = self.entries@.len() - 1;
                                assert(entry_key(self.entries@[n]) == key);
                                assert forall|j: int| 0 <= j < n implies #[trigger] self.entries@[j]
                                    == old(self).entries@[j] && entry_key(self.entries@[j]) != key by {
                                    assert(total_kept(old(self).totals@, old(self).entries@[j]));
                                }
                                assert forall|k: MetricKey| #[trigger] self.totals@.contains_key(k) implies exists|j: int|
                                    0 <= j < self.entries@.len() && entry_key(#[trigger] self.entries@[j]) == k by {
                                    if k != key {
                                        let j = choose|j: int|
                                            0 <= j < old(self).entries@.len() && entry_key(
                                                #[trigger] old(self).entries@[j],
                                            ) == k;
                                        assert(entry_key(self.entries@[j]) == k);
                                    } else {
                                        assert(entry_key(self.entries@[n]) == k);
                                    }
                                }
                                assert forall|a: int, b: int|
                                    0 <= a < b < self.entries@.len() implies entry_key(
                                    #[trigger] self.entries@[a],
                                ) != entry_key(#[trigger] self.entries@[b]) by {
                                    if b < n {
                                        assert(entry_key(old(self).entries@[a]) != entry_key(
                                            old(self).entries@[b],
                                        ));
                                    }
                                }
                                assert forall|a: int| 0 <= a < self.entries@.len() implies #[trigger] total_kept(self.totals@, self.entries@[a]) by {
                                    if a < n {
                                        assert(total_kept(old(self).totals@, old(self).entries@[a]));
                                    }
                                }
                                lemma_registry_insert(before, self.registry, old(self).totals@, key);
                            }
                            let last = self.entries.len() - 1;
                            self.add_at(last, delta);
                            Ok(())
                    },
                }
            },
        }
    }

    /// The identity of the `i`-th counter.
    pub closed spec fn counter_identity(&self, i: int) -> MetricKey {
        entry_key(self.entries@[i])
    }

    /// The total of an identity, if it has a counter.
    pub fn value(&self, metric_name: &str, success: bool, error_type: &str, kind: MetricKind) -> (r: Option<u64>)
        requires
            self.wf(),
        ensures
            ({
                let key = metric_key(metric_name@, success, error_type@, kind);
                r == if self.model().contains_key(key) {
                    Some(self.model()[key])
                } else {
                    None::<u64>
                }
            }),
    {
        let name = String::from_str(metric_name);
        let category = if success {
            String::from_str(NO_ERROR)
        } else {
            String::from_str(error_type)
        };
        match self.find(&name, success, &category, kind) {
            Some(i) => {
                proof {
                    assert(total_kept(self.totals@, self.entries@[i as int]));
                }
                Some(self.entries[i].total)
            },
            None => None,
        }
    }

    /// The number of counters.
    pub fn len(&self) -> (r: usize)
        ensures
            r == self.counter_count(),
    {
        self.entries.len()
    }

    /// Renders every registered counter in the prometheus text format.
    pub fn render(&self) -> (r: Result<String, MetricError>)
        ensures
            r is Err ==> r == Err::<String, MetricError>(MetricError::Exposition),
    {
        let families = gather(&self.registry);
        match encode_text(&families) {
            Ok(text) => Ok(text),
            Err(_) => Err(MetricError::Exposition),
        }
    }

    /// Records one finished call of `name`: one more call, then
    /// `elapsed_nanos` more time, under the call's outcome and category.
    /// Recording never fails the call: a counter that cannot be made is
    /// left out.
    pub fn record_call(&mut self, name: &str, success: bool, error_type: &str, elapsed_nanos: u64)
        requires
            old(self).wf(),
        ensures
            final(self).wf(),
            call_done(old(self).model(), final(self).model(), name@, success, error_type@, elapsed_nanos as nat),
    {
        let ghost start = self.model();
        let _ = self.record_outcome(name, success, error_type, Delta::Count);
        let ghost mid = self.model();
        assert(call_fits(start, name@, success, error_type@) ==> mid == bumped(
            start,
            metric_key(name@, success, error_type@, MetricKind::Count),
            1,
        ));
        let _ = self.record_outcome(name, success, error_type, Delta::ElapsedNanos(elapsed_nanos));
        assert(recorded(
            mid,
            self.model(),
            metric_key(name@, success, error_type@, MetricKind::ElapsedSeconds),
            elapsed_nanos as nat,
        ));
    }

    /// Records a finished call of `name` from its result and the stopwatch
    /// started with it: a success as such, an error under the category
    /// `tag_of` gives for it.
    pub fn record_result<T, E, G: Fn(&E) -> String>(
        &mut self,
        name: &str,
        result: &Result<T, E>,
        watch: &Stopwatch,
        tag_of: G,
    )
        requires
            old(self).wf(),
            forall|e: &E| #[trigger] tag_of.requires((e,)),
        ensures
            final(self).wf(),
            match result {
                Ok(_) => exists|nanos: nat|
                    call_done(old(self).model(), final(self).model(), name@, true, NO_ERROR@, nanos),
                Err(e) => exists|tag: String, nanos: nat|
                    tag_of.ensures((e,), tag) && call_done(
                        old(self).model(),
                        final(self).model(),
                        name@,
                        false,
                        tag@,
                        nanos,
                    ),
            },
    {
        let nanos = watch.elapsed_nanos();
        match result {
            Ok(_) => {
                self.record_call(name, true, NO_ERROR, nanos);
            },
            Err(e) => {
                let tag = tag_of(e);
                self.record_call(name, false, tag.as_str(), nanos);
            },
        }
    }
}

/// Measures the time since it was started.
pub struct Stopwatch {
    start: std::time::Instant,
}

impl Stopwatch {
    pub fn start() -> Stopwatch {
        Stopwatch { start: instant_now() }
    }

    /// Nanoseconds since the start, held at `u64::MAX`.
    pub fn elapsed_nanos(&self) -> u64 {
        let spent = elapsed_nanos(&self.start);
        if spent > u64::MAX as u128 {
            u64::MAX
        } else {
            spent as u64
        }
    }
}

/// Gives the error category of a failed operation, for its metrics; a
/// caller hands `|e| e.error_tag()` to `timed` as its tagging function.
pub trait ErrorTagger {
    fn error_tag(&self) -> String;
}

/// Runs `operation`, then records under `name` one more call and the time
/// it took, tagged with the outcome and, for an error, the category `tag_of`
/// gives for it. The result of `operation` is handed back as it came.
pub fn timed<T, E, F: FnOnce() -> Result<T, E>, G: Fn(&E) -> String>(
    store: &mut MetricStore,
    name: &str,
    operation: F,
    tag_of: G,
) -> (r: Result<T, E>)
    requires
        old(store).wf(),
        operation.requires(()),
        forall|e: &E| #[trigger] tag_of.requires((e,)),
    ensures
        final(store).wf(),
        operation.ensures((), r),
        match r {
            Ok(_) => exists|nanos: nat|
                call_done(old(store).model(), final(store).model(), name@, true, NO_ERROR@, nanos),
            Err(e) => exists|tag: String, nanos: nat|
                tag_of.ensures((&e,), tag) && call_done(
                    old(store).model(),
                    final(store).model(),
                    name@,
                    false,
                    tag@,
                    nanos,
                ),
        },
{
    let watch = Stopwatch::start();
    let res = operation();
    store.record_result(name, &res, &watch, tag_of);
    res
}

/// A store never holds two counters of one identity, each identity it holds
/// a total of has exactly one counter, and its registry holds the descriptor
/// of each identity and no other descriptor.
pub proof fn lemma_one_counter_per_identity(store: &MetricStore)
    requires
        store.wf(),
    ensures
        forall|i: int, j: int|
            0 <= i < store.counter_count() && 0 <= j < store.counter_count() && store.counter_identity(i)
                == store.counter_identity(j) ==> i == j,
        forall|i: int|
            0 <= i < store.counter_count() ==> store.model().contains_key(#[trigger] store.counter_identity(i)),
        forall|k: MetricKey|
            #[trigger] store.model().contains_key(k) ==> exists|i: int|
                0 <= i < store.counter_count() && store.counter_identity(i) == k,
        forall|k: MetricKey|
            #[trigger] store.model().contains_key(k) ==> store.descriptors().contains(key_descriptor_id(k)),
        forall|id: u64|
            #[trigger] store.descriptors().contains(id) ==> exists|k: MetricKey|
                #[trigger] store.model().contains_key(k) && key_descriptor_id(k) == id,
{
    assert forall|i: int| 0 <= i < store.counter_count() implies store.model().contains_key(
        #[trigger] store.counter_identity(i),
    ) by {
        assert(total_kept(store.totals@, store.entries@[i]));
    }
    assert forall|id: u64| #[trigger] store.descriptors().contains(id) implies exists|k: MetricKey|
        #[trigger] store.model().contains_key(k) && key_descriptor_id(k) == id by {
        assert(descriptor_ids(store.registry).contains(id));
        let k = choose|k: MetricKey| #[trigger] store.totals@.contains_key(k) && key_descriptor_id(k) == id;
        assert(store.model().contains_key(k));
    }
    assert forall|i: int, j: int|
        0 <= i < store.counter_count() && 0 <= j < store.counter_count() && store.counter_identity(i)
            == store.counter_identity(j) implies i == j by {
        if i < j {
            assert(entry_key(store.entries@[i]) != entry_key(store.entries@[j]));
        } else if j < i {
            assert(entry_key(store.entries@[j]) != entry_key(store.entries@[i]));
        }
    }
    assert forall|k: MetricKey| #[trigger] store.model().contains_key(k) implies exists|i: int|
        0 <= i < store.counter_count() && store.counter_identity(i) == k by {
        let i = choose|i: int| 0 <= i < store.entries@.len() && entry_key(#[trigger] store.entries@[i]) == k;
        assert(store.counter_identity(i) == k);
    }
}


/// Counters other than the two of a call keep their totals; the call count
/// grows by one and the time does not shrink.
proof fn lemma_call_effect(
    before: Map<MetricKey, u64>,
    after: Map<MetricKey, u64>,
    name: Seq<char>,
    success: bool,
    error_type: Seq<char>,
    nanos: nat,
)
    requires
        call_recorded(before, after, name, success, error_type, nanos),
    ensures
        forall|k: MetricKey|
            k != metric_key(name, success, error_type, MetricKind::Count) && k != metric_key(
                name,
                success,
                error_type,
                MetricKind::ElapsedSeconds,
            ) ==> (#[trigger] after.contains_key(k) == before.contains_key(k)) && (before.contains_key(k)
                ==> after[k] == before[k]),
        ({
            let ck = metric_key(name, success, error_type, MetricKind::Count);
            before.contains_key(ck) ==> after.contains_key(ck) && after[ck] == saturating_sum(
                before[ck] as nat,
                1,
            )
        }),
        ({
            let tk = metric_key(name, success, error_type, MetricKind::ElapsedSeconds);
            before.contains_key(tk) ==> after.contains_key(tk) && after[tk] >= before[tk]
        }),
{
    let ck = metric_key(name, success, error_type, MetricKind::Count);
    let tk = metric_key(name, success, error_type, MetricKind::ElapsedSeconds);
    let mid = choose|mid: Map<MetricKey, u64>|
        recorded(before, mid, ck, 1) && recorded(mid, after, tk, nanos);
    assert(ck != tk);
}

/// Where both recordings of a call fit, the call's count is one more and
/// its time `nanos` more (both held at `u64::MAX`), and both counters exist.
pub proof fn lemma_call_exact(
    before: Map<MetricKey, u64>,
    after: Map<MetricKey, u64>,
    name: Seq<char>,
    success: bool,
    error_type: Seq<char>,
    nanos: nat,
)
    requires
        call_done(before, after, name, success, error_type, nanos),
        call_fits(before, name, success, error_type),
    ensures
        ({
            let ck = metric_key(name, success, error_type, MetricKind::Count);
            let tk = metric_key(name, success, error_type, MetricKind::ElapsedSeconds);
            &&& after.contains_key(ck)
            &&& after.contains_key(tk)
            &&& after[ck] == saturating_sum(if before.contains_key(ck) { before[ck] as nat } else { 0 }, 1)
            &&& after[tk] == saturating_sum(if before.contains_key(tk) { before[tk] as nat } else { 0 }, nanos)
        }),
{
    let ck = metric_key(name, success, error_type, MetricKind::Count);
    let tk = metric_key(name, success, error_type, MetricKind::ElapsedSeconds);
    assert(ck != tk);
}

/// A successful call adds exactly one to its call count where that counter
/// exists (held at the maximum), does not lower its time, and leaves every
/// error-tagged counter as it was.
pub proof fn lemma_success_call(
    before: Map<MetricKey, u64>,
    after: Map<MetricKey, u64>,
    name: Seq<char>,
    error_type: Seq<char>,
    nanos: nat,
)
    requires
        call_recorded(before, after, name, true, error_type, nanos),
    ensures
        forall|k: MetricKey|
            !k.1 ==> (#[trigger] after.contains_key(k) == before.contains_key(k)) && (before.contains_key(k)
                ==> after[k] == before[k]),
        ({
            let ck = metric_key(name, true, error_type, MetricKind::Count);
            before.contains_key(ck) && before[ck] < u64::MAX ==> after.contains_key(ck) && after[ck]
                == before[ck] + 1
        }),
        ({
            let tk = metric_key(name, true, error_type, MetricKind::ElapsedSeconds);
            before.contains_key(tk) ==> after.contains_key(tk) && after[tk] >= before[tk]
        }),
{
    lemma_call_effect(before, after, name, true, error_type, nanos);
}

/// A failed call changes only the two counters tagged with its error
/// category: one more call, and no less time.
pub proof fn lemma_error_call(
    before: Map<MetricKey, u64>,
    after: Map<MetricKey, u64>,
    name: Seq<char>,
    error_type: Seq<char>,
    nanos: nat,
)
    requires
        call_recorded(before, after, name, false, error_type, nanos),
    ensures
        forall|k: MetricKey|
            !(k.0 == name && !k.1 && k.2 == error_type) ==> (#[trigger] after.contains_key(k)
                == before.contains_key(k)) && (before.contains_key(k) ==> after[k] == before[k]),
        ({
            let ck = metric_key(name, false, error_type, MetricKind::Count);
            before.contains_key(ck) && before[ck] < u64::MAX ==> after.contains_key(ck) && after[ck]
                == before[ck] + 1
        }),
        ({
            let tk = metric_key(name, false, error_type, MetricKind::ElapsedSeconds);
            before.contains_key(tk) ==> after.contains_key(tk) && after[tk] >= before[tk]
        }),
{
    lemma_call_effect(before, after, name, false, error_type, nanos);
}

} // verus!
