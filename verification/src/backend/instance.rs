//! Instance management for plugins.
//!
//! A plugin process serves every instance of the plugin configured across a
//! Grafana server. An instance manager lazily creates one instance per unique
//! configuration, caches it, and recreates it when the configuration changes,
//! disposing of the previous instance. The cache it keeps, and the decision
//! of when a cached instance is served and when it is replaced, are here.
use std::sync::Arc;
use vstd::prelude::*;

use super::grafana_config::GrafanaConfig;

verus! {

/// A managed plugin instance.
///
/// Implement [`dispose`](Instance::dispose) to release resources held by the
/// instance when it is evicted from its cache (because its configuration
/// changed). The default implementation does nothing.
pub trait Instance: Send + Sync {
    /// Called when this instance is evicted, after the manager's dispose delay.
    fn dispose(&self) {
    }
}

/// A key under which instances are cached: two keys are the same key
/// exactly when their views are equal.
///
/// `String` and the integer types implement it here, with `same_key` proved;
/// an implementation for another key type is believed to meet the contract
/// of `same_key`.
pub trait CacheKey: View {
    /// Whether `self` and `other` are the same key.
    fn same_key(&self, other: &Self) -> (b: bool)
        ensures
            b == (self@ == other@),
    ;
}

impl CacheKey for String {
    fn same_key(&self, other: &Self) -> (b: bool) {
        *self == *other
    }
}

impl CacheKey for u64 {
    fn same_key(&self, other: &Self) -> (b: bool) {
        *self == *other
    }
}

impl CacheKey for i64 {
    fn same_key(&self, other: &Self) -> (b: bool) {
        *self == *other
    }
}

impl CacheKey for u32 {
    fn same_key(&self, other: &Self) -> (b: bool) {
        *self == *other
    }
}

impl CacheKey for i32 {
    fn same_key(&self, other: &Self) -> (b: bool) {
        *self == *other
    }
}

impl CacheKey for usize {
    fn same_key(&self, other: &Self) -> (b: bool) {
        *self == *other
    }
}

/// One cached instance: the key it is cached under, the context it was
/// created from, and the instance itself.
pub struct CacheEntry<K, C, I> {
    /// The key the instance is cached under.
    pub key: K,
    /// The context the instance was created from.
    pub context: C,
    /// The instance.
    pub instance: Arc<I>,
}

/// The map that a list of entries with distinct keys stands for, from each
/// key's view to the context and the instance cached under it.
pub open spec fn entries_by_key<K: View, C, I>(s: Seq<CacheEntry<K, C, I>>) -> Map<
    K::V,
    (C, Arc<I>),
> {
    Map::new(
        |k: K::V| exists|i: int| 0 <= i < s.len() && s[i].key@ == k,
        |k: K::V|
            {
                let e = s[choose|i: int| 0 <= i < s.len() && s[i].key@ == k];
                (e.context, e.instance)
            },
    )
}

/// No key occurs twice among the entries.
pub open spec fn entry_keys_distinct<K: View, C, I>(s: Seq<CacheEntry<K, C, I>>) -> bool {
    forall|i: int, j: int| 0 <= i < j < s.len() ==> s[i].key@ != s[j].key@
}

proof fn lemma_entry_value<K: View, C, I>(s: Seq<CacheEntry<K, C, I>>, i: int)
    requires
        entry_keys_distinct(s),
        0 <= i < s.len(),
    ensures
        entries_by_key(s).contains_key(s[i].key@),
        entries_by_key(s)[s[i].key@] == (s[i].context, s[i].instance),
{
    let k = s[i].key@;
    assert(exists|j: int| 0 <= j < s.len() && s[j].key@ == k);
    let j = choose|j: int| 0 <= j < s.len() && s[j].key@ == k;
    assert(j == i);
}

/// The position of the entry cached under `key`, if there is one.
fn position_in<K: CacheKey, C, I>(entries: &Vec<CacheEntry<K, C, I>>, key: &K) -> (r: Option<
    usize,
>)
    ensures
        match r {
            Some(j) => j < entries@.len() && entries@[j as int].key@ == key@,
            None => forall|x: int| 0 <= x < entries@.len() ==> entries@[x].key@ != key@,
        },
{
    let mut j: usize = 0;
    while j < entries.len()
        invariant
            j <= entries@.len(),
            forall|x: int| 0 <= x < j ==> entries@[x].key@ != key@,
        decreases entries.len() - j,
    {
        if entries[j].key.same_key(key) {
            return Some(j);
        }
        j += 1;
    }
    None
}

/// Caches one plugin instance per key, together with the context it was
/// created from.
pub struct InstanceCache<K: View, C, I> {
    entries: Vec<CacheEntry<K, C, I>>,
}

impl<K: View, C, I> View for InstanceCache<K, C, I> {
    type V = Map<K::V, (C, Arc<I>)>;

    /// For each cached key (by its view), the context and the instance
    /// cached under it.
    closed spec fn view(&self) -> Map<K::V, (C, Arc<I>)> {
        entries_by_key(self.entries@)
    }
}

/// The cache after `instance`, created from `context`, is stored under the
/// key whose view is `key`.
pub open spec fn stored<K, C, I>(
    m: Map<K, (C, Arc<I>)>,
    key: K,
    context: C,
    instance: Arc<I>,
) -> Map<K, (C, Arc<I>)> {
    m.insert(key, (context, instance))
}

impl<K: View, C, I> InstanceCache<K, C, I> {
    #[verifier::type_invariant]
    spec fn wf(self) -> bool {
        entry_keys_distinct(self.entries@)
    }
}

impl<K: CacheKey, C, I> InstanceCache<K, C, I> {
    /// An empty cache.
    pub fn new() -> (c: Self)
        ensures
            c@ == Map::<K::V, (C, Arc<I>)>::empty(),
    {
        let c = InstanceCache { entries: Vec::new() };
        assert(c@ =~= Map::<K::V, (C, Arc<I>)>::empty());
        c
    }

    /// The number of cached instances.
    pub fn len(&self) -> (n: usize)
        ensures
            n == self@.dom().len(),
    {
        proof {
            use_type_invariant(self);
            let keys = self.entries@.map_values(|e: CacheEntry<K, C, I>| e.key@);
            assert(keys.no_duplicates()) by {
                assert forall|i: int, j: int|
                    0 <= i < keys.len() && 0 <= j < keys.len() && i != j implies keys[i]
                    != keys[j] by {
                    assert(keys[i] == self.entries@[i].key@ && keys[j] == self.entries@[j].key@);
                    if i < j {
                        assert(self.entries@[i].key@ != self.entries@[j].key@);
                    } else {
                        assert(self.entries@[j].key@ != self.entries@[i].key@);
                    }
                }
            }
            keys.unique_seq_to_set();
            assert forall|k: K::V| #[trigger] self@.dom().contains(k) == keys.to_set().contains(
                k,
            ) by {
                if self@.dom().contains(k) {
                    let i = choose|i: int|
                        0 <= i < self.entries@.len() && self.entries@[i].key@ == k;
                    assert(keys[i] == k);
                }
                if keys.to_set().contains(k) {
                    let i = choose|i: int| 0 <= i < keys.len() && keys[i] == k;
                    assert(self.entries@[i].key@ == k);
                }
            }
            assert(self@.dom() =~= keys.to_set());
        }
        self.entries.len()
    }

    /// The entry cached under `key`, if there is one.
    pub fn lookup(&self, key: &K) -> (r: Option<&CacheEntry<K, C, I>>)
        ensures
            match r {
                Some(e) => self@.contains_key(key@) && e.key@ == key@ && (e.context, e.instance)
                    == self@[key@],
                None => !self@.contains_key(key@),
            },
    {
        proof {
            use_type_invariant(self);
        }
        match position_in(&self.entries, key) {
            Some(j) => {
                proof {
                    lemma_entry_value(self.entries@, j as int);
                }
                Some(&self.entries[j])
            },
            None => None,
        }
    }

    /// The instance to serve for a request whose key is `key`: the cached one,
    /// unless there is none or `needs_update` finds the context it was created
    /// from stale.
    pub fn current_instance<F: Fn(&C) -> bool>(&self, key: &K, needs_update: F) -> (r: Option<
        &Arc<I>,
    >)
        requires
            forall|c: &C| #[trigger] needs_update.requires((c,)),
        ensures
            match r {
                Some(i) => self@.contains_key(key@) && *i == self@[key@].1 && needs_update.ensures(
                    (&self@[key@].0,),
                    false,
                ),
                None => self@.contains_key(key@) ==> needs_update.ensures(
                    (&self@[key@].0,),
                    true,
                ),
            },
    {
        match self.lookup(key) {
            Some(entry) => {
                if needs_update(&entry.context) {
                    None
                } else {
                    Some(&entry.instance)
                }
            },
            None => None,
        }
    }

    /// Cache `instance`, created from `context`, under `key`, and hand back the
    /// instance it replaces, if any, so that it can be disposed of.
    pub fn store(&mut self, key: K, context: C, instance: Arc<I>) -> (previous: Option<Arc<I>>)
        ensures
            final(self)@ == stored(old(self)@, key@, context, instance),
            previous == (if old(self)@.contains_key(key@) {
                Some(old(self)@[key@].1)
            } else {
                None
            }),
    {
        proof {
            use_type_invariant(&*self);
        }
        let mut entries: Vec<CacheEntry<K, C, I>> = Vec::new();
        std::mem::swap(&mut entries, &mut self.entries);
        let ghost before = entries@;
        let ghost k = key@;
        let ghost target = stored(entries_by_key(before), key@, context, instance);
        match position_in(&entries, &key) {
            Some(j) => {
                let mut entry = CacheEntry { key, context, instance };
                let ghost new_entry = entry;
                proof {
                    lemma_entry_value(before, j as int);
                }
                entries.set_and_swap(j, &mut entry);
                proof {
                    assert(entries@ == before.update(j as int, new_entry));
                    assert forall|x: int, y: int|
                        0 <= x < y < entries@.len() implies entries@[x].key@
                        != entries@[y].key@ by {
                        if x != j && y != j {
                            assert(before[x].key@ != before[y].key@);
                        }
                    }
                    assert forall|q: K::V| #[trigger]
                        entries_by_key(entries@).contains_key(q) == target.contains_key(q) by {
                        if entries_by_key(before).contains_key(q) && q != k {
                            let x = choose|x: int| 0 <= x < before.len() && before[x].key@ == q;
                            assert(entries@[x].key@ == q);
                        }
                        if q == k {
                            assert(entries@[j as int].key@ == q);
                        }
                        if entries_by_key(entries@).contains_key(q) {
                            let x = choose|x: int|
                                0 <= x < entries@.len() && entries@[x].key@ == q;
                            if x != j {
                                assert(before[x].key@ == q);
                            }
                        }
                    }
                    assert forall|q: K::V| #[trigger]
                        entries_by_key(entries@).contains_key(q) implies entries_by_key(
                        entries@,
                    )[q] == target[q] by {
                        let x = choose|x: int|
                            0 <= x < entries@.len() && entries@[x].key@ == q;
                        lemma_entry_value(entries@, x);
                        if x != j {
                            lemma_entry_value(before, x);
                        }
                    }
                    assert(entries_by_key(entries@) =~= target);
                }
                self.entries = entries;
                Some(entry.instance)
            },
            None => {
                entries.push(CacheEntry { key, context, instance });
                proof {
                    assert forall|q: K::V| #[trigger]
                        entries_by_key(entries@).contains_key(q) == target.contains_key(q) by {
                        if entries_by_key(before).contains_key(q) {
                            let x = choose|x: int| 0 <= x < before.len() && before[x].key@ == q;
                            assert(entries@[x].key@ == q);
                        }
                        if q == k {
                            assert(entries@[before.len() as int].key@ == q);
                        }
                        if entries_by_key(entries@).contains_key(q) {
                            let x = choose|x: int|
                                0 <= x < entries@.len() && entries@[x].key@ == q;
                            if x < before.len() {
                                assert(before[x].key@ == q);
                            }
                        }
                    }
                    assert forall|q: K::V| #[trigger]
                        entries_by_key(entries@).contains_key(q) implies entries_by_key(
                        entries@,
                    )[q] == target[q] by {
                        let x = choose|x: int|
                            0 <= x < entries@.len() && entries@[x].key@ == q;
                        lemma_entry_value(entries@, x);
                        if x < before.len() {
                            lemma_entry_value(before, x);
                        }
                    }
                    assert(entries_by_key(entries@) =~= target);
                }
                self.entries = entries;
                None
            },
        }
    }
}

/// The character of the decimal digit `d`.
pub open spec fn digit_char(d: int) -> char {
    (d + 48) as char
}

/// The decimal representation of a natural number, without leading zeros.
pub open spec fn nat_decimal(n: nat) -> Seq<char>
    decreases n,
{
    if n < 10 {
        seq![digit_char(n as int)]
    } else {
        nat_decimal(n / 10) + seq![digit_char((n % 10) as int)]
    }
}

/// The decimal representation of an integer, with a leading `-` when negative.
pub open spec fn int_decimal(n: int) -> Seq<char> {
    if n < 0 {
        seq!['-'] + nat_decimal((-n) as nat)
    } else {
        nat_decimal(n as nat)
    }
}

fn digit_text(d: u64) -> (s: &'static str)
    requires
        d < 10,
    ensures
        s@ == seq![digit_char(d as int)],
{
    let digits = "0123456789";
    proof {
        reveal_strlit("0123456789");
    }
    assert(digits@[d as int] == digit_char(d as int));
    let s = digits.substring_char(d as usize, d as usize + 1);
    assert(s@ =~= seq![digit_char(d as int)]);
    s
}

/// The decimal representation of `n`.
pub fn u64_decimal(n: u64) -> (s: String)
    ensures
        s@ == nat_decimal(n as nat),
{
    let mut m: u64 = n;
    let mut tail = String::new();
    while m >= 10
        invariant
            nat_decimal(n as nat) == nat_decimal(m as nat) + tail@,
        decreases m,
    {
        let digit = digit_text(m % 10);
        let mut next = String::from_str(digit);
        next.append(tail.as_str());
        proof {
            assert(nat_decimal(m as nat) == nat_decimal((m / 10) as nat) + seq![
                digit_char((m % 10) as int),
            ]);
            assert(nat_decimal(n as nat) =~= nat_decimal((m / 10) as nat) + next@);
        }
        tail = next;
        m = m / 10;
    }
    let mut s = String::from_str(digit_text(m));
    s.append(tail.as_str());
    s
}

/// The decimal representation of `n`, with a leading `-` when it is negative.
pub fn i64_decimal(n: i64) -> (s: String)
    ensures
        s@ == int_decimal(n as int),
{
    if n < 0 {
        let magnitude: u64 = if n == i64::MIN {
            9223372036854775808u64
        } else {
            (-n) as u64
        };
        let digits = u64_decimal(magnitude);
        let mut s = String::from_str("-");
        s.append(digits.as_str());
        proof {
            reveal_strlit("-");
        }
        assert(s@ =~= seq!['-'] + nat_decimal((-n) as nat));
        s
    } else {
        u64_decimal(n as u64)
    }
}

/// What instance management reads of an app plugin request's context: the
/// plugin and organisation it is for, the last update time of the instance
/// settings (Unix milliseconds, when there are settings), and the Grafana
/// configuration it was sent with.
pub struct AppContext {
    /// The plugin ID.
    pub plugin_id: String,
    /// The organisation ID.
    pub org_id: i64,
    /// When the app instance settings were last updated, in Unix milliseconds,
    /// if the request carries instance settings.
    pub updated: Option<i64>,
    /// The Grafana configuration sent with the request, if any.
    pub grafana_config: Option<GrafanaConfig>,
}

/// The standard cache key of an app plugin instance: `"{plugin_id}#{org_id}"`.
pub open spec fn app_key(plugin_id: Seq<char>, org_id: int) -> Seq<char> {
    plugin_id + seq!['#'] + int_decimal(org_id)
}

/// The configuration views of two optional configurations coincide.
pub open spec fn same_optional_config(a: Option<GrafanaConfig>, b: Option<GrafanaConfig>) -> bool {
    match (a, b) {
        (Some(x), Some(y)) => x@ == y@,
        (None, None) => true,
        _ => false,
    }
}

/// Whether an instance created for `cached` is stale for `current`: the
/// settings' update time or the Grafana configuration differ.
pub open spec fn app_stale(current: AppContext, cached: AppContext) -> bool {
    current.updated != cached.updated || !same_optional_config(
        current.grafana_config,
        cached.grafana_config,
    )
}

/// The standard cache key for an app plugin instance: `"{plugin_id}#{org_id}"`.
///
/// Useful when implementing an instance provider's cache key for an app plugin.
pub fn app_instance_key(context: &AppContext) -> (key: String)
    ensures
        key@ == app_key(context.plugin_id@, context.org_id as int),
{
    let mut key = context.plugin_id.clone();
    key.append("#");
    let org = i64_decimal(context.org_id);
    key.append(org.as_str());
    proof {
        reveal_strlit("#");
    }
    assert(key@ =~= app_key(context.plugin_id@, context.org_id as int));
    key
}

/// The standard freshness check for an app plugin instance.
///
/// Returns `true` when the instance settings' update time or the Grafana
/// configuration differ between `current` and `cached`, meaning the instance
/// should be recreated.
pub fn app_needs_update(current: &AppContext, cached: &AppContext) -> (stale: bool)
    ensures
        stale == app_stale(*current, *cached),
{
    let updated_differs = match (current.updated, cached.updated) {
        (Some(a), Some(b)) => a != b,
        (None, None) => false,
        _ => true,
    };
    let config_differs = match (&current.grafana_config, &cached.grafana_config) {
        (Some(a), Some(b)) => !a.same_options(b),
        (None, None) => false,
        _ => true,
    };
    updated_differs || config_differs
}

/// An instance created for a context is never stale for that same context.
pub proof fn law_context_is_current_for_itself(context: AppContext)
    ensures
        !app_stale(context, context),
{
}

/// Staleness does not depend on which of the two contexts is the cached one.
pub proof fn law_staleness_is_symmetric(a: AppContext, b: AppContext)
    ensures
        app_stale(a, b) == app_stale(b, a),
{
}

/// Freshness carries over: an instance that is current for a context stays
/// current for every context that is current for that one.
pub proof fn law_freshness_is_transitive(a: AppContext, b: AppContext, c: AppContext)
    ensures
        !app_stale(a, b) && !app_stale(b, c) ==> !app_stale(a, c),
{
}

/// Staleness compares the update times and the whole configurations: with
/// different update times an instance is stale; with equal ones and both
/// configurations present, it is stale exactly when the configurations hold
/// different options (any key or value); when only one request carries a
/// configuration, it is stale.
pub proof fn law_staleness_compares_whole_configurations(current: AppContext, cached: AppContext)
    ensures
        current.updated != cached.updated ==> app_stale(current, cached),
        current.updated == cached.updated ==> match (current.grafana_config, cached.grafana_config) {
            (Some(x), Some(y)) => app_stale(current, cached) == (x@ != y@),
            (None, None) => !app_stale(current, cached),
            _ => app_stale(current, cached),
        },
{
}

/// Storing an instance under a key serves exactly that instance, with its
/// context, for the key, and leaves what every other key serves unchanged.
pub proof fn law_store_replaces_only_its_key<K, C, I>(
    m: Map<K, (C, Arc<I>)>,
    key: K,
    context: C,
    instance: Arc<I>,
    other: K,
)
    ensures
        stored(m, key, context, instance).contains_key(key),
        stored(m, key, context, instance)[key] == (context, instance),
        other != key ==> stored(m, key, context, instance).contains_key(other)
            == m.contains_key(other),
        other != key && m.contains_key(other) ==> stored(m, key, context, instance)[other]
            == m[other],
{
}

/// An app instance stored for a context is served again, unchanged, to a
/// later request with the same context: under the standard freshness check
/// it is not stale.
pub proof fn law_app_instance_reused_for_same_context<K>(
    m: Map<K, (AppContext, Arc<u8>)>,
    key: K,
    context: AppContext,
    instance: Arc<u8>,
)
    ensures
        stored(m, key, context, instance).contains_key(key),
        stored(m, key, context, instance)[key].1 == instance,
        !app_stale(context, stored(m, key, context, instance)[key].0),
{
}

proof fn lemma_digit_char_is_digit(d: int)
    requires
        0 <= d < 10,
    ensures
        '0' <= digit_char(d) <= '9',
        digit_char(d) as int == d + 48,
{
}

proof fn lemma_nat_decimal_digits(n: nat)
    ensures
        nat_decimal(n).len() >= 1,
        forall|i: int| 0 <= i < nat_decimal(n).len() ==> '0' <= #[trigger] nat_decimal(n)[i] <= '9',
    decreases n,
{
    if n < 10 {
        lemma_digit_char_is_digit(n as int);
    } else {
        lemma_nat_decimal_digits(n / 10);
        lemma_digit_char_is_digit((n % 10) as int);
        assert forall|i: int| 0 <= i < nat_decimal(n).len() implies '0' <= #[trigger] nat_decimal(
            n,
        )[i] <= '9' by {
            if i < nat_decimal(n / 10).len() {
                assert(nat_decimal(n)[i] == nat_decimal(n / 10)[i]);
            }
        }
    }
}

proof fn lemma_nat_decimal_injective(a: nat, b: nat)
    requires
        nat_decimal(a) == nat_decimal(b),
    ensures
        a == b,
    decreases a,
{
    lemma_nat_decimal_digits(a);
    lemma_nat_decimal_digits(b);
    let s = nat_decimal(a);
    if a < 10 {
        lemma_digit_char_is_digit(a as int);
        if b >= 10 {
            lemma_nat_decimal_digits(b / 10);
            assert(nat_decimal(b).len() >= 2);
        } else {
            lemma_digit_char_is_digit(b as int);
            assert(s[0] == digit_char(a as int));
            assert(nat_decimal(b)[0] == digit_char(b as int));
            assert(digit_char(a as int) == digit_char(b as int));
        }
    } else {
        lemma_nat_decimal_digits(a / 10);
        lemma_digit_char_is_digit((a % 10) as int);
        if b < 10 {
            assert(nat_decimal(a).len() >= 2);
        } else {
            lemma_nat_decimal_digits(b / 10);
            lemma_digit_char_is_digit((b % 10) as int);
            assert(s.last() == digit_char((a % 10) as int));
            assert(nat_decimal(b).last() == digit_char((b % 10) as int));
            assert(nat_decimal(a / 10) =~= s.drop_last());
            assert(nat_decimal(b / 10) =~= nat_decimal(b).drop_last());
            lemma_nat_decimal_injective(a / 10, b / 10);
            assert(digit_char((a % 10) as int) == digit_char((b % 10) as int));
            assert(a % 10 == b % 10);
            assert(a == 10 * (a / 10) + a % 10);
            assert(b == 10 * (b / 10) + b % 10);
        }
    }
}

proof fn lemma_int_decimal_injective(a: int, b: int)
    requires
        int_decimal(a) == int_decimal(b),
    ensures
        a == b,
{
    lemma_nat_decimal_digits((-a) as nat);
    lemma_nat_decimal_digits((-b) as nat);
    lemma_nat_decimal_digits(a as nat);
    lemma_nat_decimal_digits(b as nat);
    if a < 0 && b < 0 {
        assert(nat_decimal((-a) as nat) =~= int_decimal(a).drop_first());
        assert(nat_decimal((-b) as nat) =~= int_decimal(b).drop_first());
        lemma_nat_decimal_injective((-a) as nat, (-b) as nat);
    } else if a >= 0 && b >= 0 {
        lemma_nat_decimal_injective(a as nat, b as nat);
    } else if a < 0 {
        assert(int_decimal(a)[0] == '-');
        assert(int_decimal(b)[0] == nat_decimal(b as nat)[0]);
    } else {
        assert(int_decimal(b)[0] == '-');
        assert(int_decimal(a)[0] == nat_decimal(a as nat)[0]);
    }
}

proof fn lemma_int_decimal_has_no_hash(n: int)
    ensures
        forall|i: int| 0 <= i < int_decimal(n).len() ==> #[trigger] int_decimal(n)[i] != '#',
{
    if n < 0 {
        lemma_nat_decimal_digits((-n) as nat);
        assert forall|i: int| 0 <= i < int_decimal(n).len() implies #[trigger] int_decimal(n)[i]
            != '#' by {
            if i > 0 {
                assert(int_decimal(n)[i] == nat_decimal((-n) as nat)[i - 1]);
            }
        }
    } else {
        lemma_nat_decimal_digits(n as nat);
    }
}

/// Two app contexts get the same cache key exactly when they are for the
/// same plugin and the same organisation.
pub proof fn law_app_key_identifies_plugin_and_org(
    plugin_a: Seq<char>,
    org_a: int,
    plugin_b: Seq<char>,
    org_b: int,
)
    ensures
        app_key(plugin_a, org_a) == app_key(plugin_b, org_b) <==> (plugin_a == plugin_b && org_a
            == org_b),
{
    let ka = app_key(plugin_a, org_a);
    let kb = app_key(plugin_b, org_b);
    let da = int_decimal(org_a);
    let db = int_decimal(org_b);
    if ka == kb {
        lemma_int_decimal_has_no_hash(org_a);
        lemma_int_decimal_has_no_hash(org_b);
        let pa = plugin_a + seq!['#'];
        let pb = plugin_b + seq!['#'];
        assert(ka == pa + da && kb == pb + db);
        assert(ka.len() == kb.len());
        assert(ka[plugin_a.len() as int] == '#');
        assert(kb[plugin_b.len() as int] == '#');
        if plugin_a.len() < plugin_b.len() {
            let i = plugin_b.len() - plugin_a.len() - 1;
            assert(ka[plugin_b.len() as int] == (pa + da)[pa.len() + i]);
            assert(da[i] != '#');
        } else if plugin_b.len() < plugin_a.len() {
            let i = plugin_a.len() - plugin_b.len() - 1;
            assert(kb[plugin_a.len() as int] == (pb + db)[pb.len() + i]);
            assert(db[i] != '#');
        } else {
            assert(plugin_a =~= ka.take(plugin_a.len() as int));
            assert(plugin_b =~= kb.take(plugin_b.len() as int));
            assert(da =~= ka.skip(plugin_a.len() as int + 1));
            assert(db =~= kb.skip(plugin_b.len() as int + 1));
            lemma_int_decimal_injective(org_a, org_b);
        }
    }
}

} // verus!
