//! Configuration passed to the plugin by Grafana.
use vstd::prelude::*;

verus! {

/// The configuration key holding the URL of the Grafana instance.
pub const APP_URL: &'static str = "GF_APP_URL";

/// The configuration key holding the app plugin's service account client secret.
pub const APP_CLIENT_SECRET: &'static str = "GF_PLUGIN_APP_CLIENT_SECRET";

/// The configuration key holding the comma-separated enabled feature toggles.
pub const FEATURE_TOGGLES_ENABLE: &'static str = "GF_INSTANCE_FEATURE_TOGGLES_ENABLE";

/// Whether two strings hold the same characters.
pub fn str_equal(a: &str, b: &str) -> (res: bool)
    ensures
        res == (a@ == b@),
{
    let x = a.to_owned();
    let y = b.to_owned();
    x == y
}

/// The pieces of `s` between its commas, in order; a string without a comma
/// is a single piece, and consecutive commas give empty pieces.
pub open spec fn split_on_comma(s: Seq<char>) -> Seq<Seq<char>>
    decreases s.len(),
{
    if s.len() == 0 {
        seq![Seq::<char>::empty()]
    } else {
        let init = split_on_comma(s.drop_last());
        if s.last() == ',' {
            init.push(Seq::<char>::empty())
        } else {
            init.update(init.len() - 1, init.last().push(s.last()))
        }
    }
}

/// The views of a sequence of string slices.
pub open spec fn str_views<'a>(s: Seq<&'a str>) -> Seq<Seq<char>> {
    s.map_values(|p: &'a str| p@)
}

proof fn lemma_split_on_comma_nonempty(s: Seq<char>)
    ensures
        split_on_comma(s).len() >= 1,
    decreases s.len(),
{
    if s.len() > 0 {
        lemma_split_on_comma_nonempty(s.drop_last());
    }
}

/// Split `s` at every comma, keeping empty pieces, as `str::split(',')` does.
pub fn split_commas<'a>(s: &'a str) -> (pieces: Vec<&'a str>)
    ensures
        str_views(pieces@) == split_on_comma(s@),
{
    let n = s.unicode_len();
    let mut pieces: Vec<&'a str> = Vec::new();
    let mut start: usize = 0;
    let mut i: usize = 0;
    assert(s@.take(0) =~= Seq::<char>::empty());
    assert(str_views(pieces@).push(s@.subrange(0, 0)) =~= seq![Seq::<char>::empty()]);
    while i < n
        invariant
            n == s@.len(),
            start <= i <= n,
            split_on_comma(s@.take(i as int)) == str_views(pieces@).push(
                s@.subrange(start as int, i as int),
            ),
        decreases n - i,
    {
        let c = s.get_char(i);
        let ghost old_views = str_views(pieces@);
        proof {
            assert(s@.take(i + 1).drop_last() =~= s@.take(i as int));
            assert(s@.take(i + 1).last() == c);
            lemma_split_on_comma_nonempty(s@.take(i as int));
        }
        if c == ',' {
            let piece = s.substring_char(start, i);
            pieces.push(piece);
            proof {
                assert(str_views(pieces@) =~= old_views.push(s@.subrange(start as int, i as int)));
            }
            start = i + 1;
            assert(s@.subrange(start as int, start as int) =~= Seq::<char>::empty());
        } else {
            assert(s@.subrange(start as int, i + 1) =~= s@.subrange(start as int, i as int).push(c));
        }
        i += 1;
    }
    let last = s.substring_char(start, n);
    let ghost before = str_views(pieces@);
    pieces.push(last);
    assert(s@.take(n as int) =~= s@);
    assert(str_views(pieces@) =~= before.push(s@.subrange(start as int, n as int)));
    pieces
}

/// The error returned when Grafana does not provide a requested configuration option.
#[derive(Debug, Clone)]
pub struct ConfigError {
    key: String,
}

impl View for ConfigError {
    type V = Seq<char>;

    /// The key that was not provided.
    closed spec fn view(&self) -> Seq<char> {
        self.key@
    }
}

/// The human-readable description of a missing configuration key.
pub open spec fn config_error_text(key: Seq<char>) -> Seq<char> {
    "key "@ + key
        + " not found in Grafana config; a more recent version of Grafana may be required"@
}

impl ConfigError {
    /// The error for the missing configuration key `key`.
    pub fn from_key(key: String) -> (e: Self)
        ensures
            e@ == key@,
    {
        Self { key }
    }

    /// The key that was not provided.
    pub fn key(&self) -> (k: &str)
        ensures
            k@ == self@,
    {
        self.key.as_str()
    }

    /// The error's description, naming the missing key.
    pub fn message(&self) -> (m: String)
        ensures
            m@ == config_error_text(self@),
    {
        let mut m = String::from_str("key ");
        m.append(self.key.as_str());
        m.append(" not found in Grafana config; a more recent version of Grafana may be required");
        m
    }
}

/// The map that a list of key/value pairs with distinct keys stands for.
pub open spec fn entries_map(s: Seq<(String, String)>) -> Map<Seq<char>, Seq<char>> {
    Map::new(
        |k: Seq<char>| exists|i: int| 0 <= i < s.len() && s[i].0@ == k,
        |k: Seq<char>| s[choose|i: int| 0 <= i < s.len() && s[i].0@ == k].1@,
    )
}

/// No key occurs twice in the list.
pub open spec fn keys_distinct(s: Seq<(String, String)>) -> bool {
    forall|i: int, j: int| 0 <= i < j < s.len() ==> s[i].0@ != s[j].0@
}

/// The map built by inserting the pairs in order, a later pair replacing an
/// earlier one with the same key.
pub open spec fn pairs_inserted(s: Seq<(String, String)>) -> Map<Seq<char>, Seq<char>>
    decreases s.len(),
{
    if s.len() == 0 {
        Map::empty()
    } else {
        pairs_inserted(s.drop_last()).insert(s.last().0@, s.last().1@)
    }
}

proof fn lemma_entries_map_value(s: Seq<(String, String)>, i: int)
    requires
        keys_distinct(s),
        0 <= i < s.len(),
    ensures
        entries_map(s).contains_key(s[i].0@),
        entries_map(s)[s[i].0@] == s[i].1@,
{
    let k = s[i].0@;
    assert(exists|j: int| 0 <= j < s.len() && s[j].0@ == k);
    let j = choose|j: int| 0 <= j < s.len() && s[j].0@ == k;
    assert(j == i);
}

proof fn lemma_split_pieces_hold_no_comma(s: Seq<char>)
    ensures
        forall|i: int|
            0 <= i < split_on_comma(s).len() ==> !(#[trigger] split_on_comma(s)[i]).contains(','),
    decreases s.len(),
{
    if s.len() > 0 {
        let init = split_on_comma(s.drop_last());
        lemma_split_pieces_hold_no_comma(s.drop_last());
        lemma_split_on_comma_nonempty(s.drop_last());
        let pieces = split_on_comma(s);
        assert forall|i: int| 0 <= i < pieces.len() implies !(#[trigger] pieces[i]).contains(
            ',',
        ) by {
            if s.last() == ',' {
                if i < init.len() {
                    assert(pieces[i] == init[i]);
                } else {
                    assert(pieces[i] =~= Seq::<char>::empty());
                }
            } else if i < init.len() - 1 {
                assert(pieces[i] == init[i]);
            } else {
                let last = init[init.len() - 1];
                assert(pieces[i] == last.push(s.last()));
                assert(!last.contains(','));
                if pieces[i].contains(',') {
                    let j = choose|j: int| 0 <= j < pieces[i].len() && pieces[i][j] == ',';
                    if j < last.len() {
                        assert(last[j] == ',');
                    }
                }
            }
        }
    }
}

/// No enabled feature toggle name holds a comma: the toggle entry is split
/// at every comma.
pub proof fn law_toggle_names_hold_no_comma(m: Map<Seq<char>, Seq<char>>, name: Seq<char>)
    ensures
        enabled_toggles(m).contains(name) ==> !name.contains(','),
{
    if enabled_toggles(m).contains(name) {
        let pieces = split_on_comma(m[FEATURE_TOGGLES_ENABLE@]);
        lemma_split_pieces_hold_no_comma(m[FEATURE_TOGGLES_ENABLE@]);
        let i = choose|i: int| 0 <= i < pieces.len() && pieces[i] == name;
        assert(!pieces[i].contains(','));
    }
}

/// The position of the pair whose key is `key`, if there is one.
fn index_of_key(entries: &Vec<(String, String)>, key: &String) -> (r: Option<usize>)
    ensures
        match r {
            Some(j) => j < entries@.len() && entries@[j as int].0@ == key@,
            None => forall|x: int| 0 <= x < entries@.len() ==> entries@[x].0@ != key@,
        },
{
    let mut j: usize = 0;
    while j < entries.len()
        invariant
            j <= entries@.len(),
            forall|x: int| 0 <= x < j ==> entries@[x].0@ != key@,
        decreases entries.len() - j,
    {
        if entries[j].0 == *key {
            return Some(j);
        }
        j += 1;
    }
    None
}

/// Configuration passed to the plugin from Grafana.
pub struct GrafanaConfig {
    config: Vec<(String, String)>,
}

impl View for GrafanaConfig {
    type V = Map<Seq<char>, Seq<char>>;

    /// The configuration options, each key with its value.
    closed spec fn view(&self) -> Map<Seq<char>, Seq<char>> {
        entries_map(self.config@)
    }
}

/// The outcome of looking up `key` in a configuration.
pub open spec fn lookup_outcome(
    m: Map<Seq<char>, Seq<char>>,
    key: Seq<char>,
    r: Result<&String, ConfigError>,
) -> bool {
    match r {
        Ok(v) => m.contains_key(key) && v@ == m[key],
        Err(e) => !m.contains_key(key) && e@ == key,
    }
}

/// The feature toggles that a configuration enables: the comma-separated
/// pieces of its toggle entry, or none when the entry is absent or empty.
pub open spec fn enabled_toggles(m: Map<Seq<char>, Seq<char>>) -> Set<Seq<char>> {
    if m.contains_key(FEATURE_TOGGLES_ENABLE@) && m[FEATURE_TOGGLES_ENABLE@].len() > 0 {
        split_on_comma(m[FEATURE_TOGGLES_ENABLE@]).to_set()
    } else {
        Set::empty()
    }
}

impl GrafanaConfig {
    #[verifier::type_invariant]
    spec fn wf(self) -> bool {
        keys_distinct(self.config@)
    }

    /// Create a configuration from key/value pairs; where a key occurs more
    /// than once, the last value given for it is kept.
    pub fn new(entries: Vec<(String, String)>) -> (c: Self)
        ensures
            c@ == pairs_inserted(entries@),
    {
        let mut config: Vec<(String, String)> = Vec::new();
        let mut i: usize = 0;
        assert(entries_map(config@) =~= pairs_inserted(entries@.take(0)));
        while i < entries.len()
            invariant
                i <= entries.len(),
                keys_distinct(config@),
                entries_map(config@) == pairs_inserted(entries@.take(i as int)),
            decreases entries.len() - i,
        {
            let key = entries[i].0.clone();
            let value = entries[i].1.clone();
            let ghost before = config@;
            let ghost k = key@;
            let ghost v = value@;
            proof {
                assert(entries@.take(i + 1).drop_last() =~= entries@.take(i as int));
            }
            let found = index_of_key(&config, &key);
            if let Some(j) = found {
                config.set(j, (key, value));
                proof {
                    assert forall|x: int, y: int| 0 <= x < y < config@.len() implies config@[x].0@
                        != config@[y].0@ by {
                        if x != j && y != j {
                            assert(before[x].0@ != before[y].0@);
                        }
                    }
                    assert forall|q: Seq<char>| #[trigger]
                        entries_map(config@).contains_key(q) == entries_map(before).insert(
                            k,
                            v,
                        ).contains_key(q) by {
                        if entries_map(before).contains_key(q) && q != k {
                            let x = choose|x: int| 0 <= x < before.len() && before[x].0@ == q;
                            assert(config@[x].0@ == q);
                        }
                        if q == k {
                            assert(config@[j as int].0@ == q);
                        }
                        if entries_map(config@).contains_key(q) {
                            let x = choose|x: int| 0 <= x < config@.len() && config@[x].0@ == q;
                            if x != j {
                                assert(before[x].0@ == q);
                            }
                        }
                    }
                    assert forall|q: Seq<char>| #[trigger]
                        entries_map(config@).contains_key(q) implies entries_map(config@)[q]
                        == entries_map(before).insert(k, v)[q] by {
                        let x = choose|x: int| 0 <= x < config@.len() && config@[x].0@ == q;
                        lemma_entries_map_value(config@, x);
                        if x != j {
                            lemma_entries_map_value(before, x);
                        }
                    }
                    assert(entries_map(config@) =~= entries_map(before).insert(k, v));
                }
            } else {
                config.push((key, value));
                proof {
                    assert forall|q: Seq<char>| #[trigger]
                        entries_map(config@).contains_key(q) == entries_map(before).insert(
                            k,
                            v,
                        ).contains_key(q) by {
                        if entries_map(before).contains_key(q) {
                            let x = choose|x: int| 0 <= x < before.len() && before[x].0@ == q;
                            assert(config@[x].0@ == q);
                        }
                        if q == k {
                            assert(config@[before.len() as int].0@ == q);
                        }
                        if entries_map(config@).contains_key(q) {
                            let x = choose|x: int| 0 <= x < config@.len() && config@[x].0@ == q;
                            if x < before.len() {
                                assert(before[x].0@ == q);
                            }
                        }
                    }
                    assert forall|q: Seq<char>| #[trigger]
                        entries_map(config@).contains_key(q) implies entries_map(config@)[q]
                        == entries_map(before).insert(k, v)[q] by {
                        let x = choose|x: int| 0 <= x < config@.len() && config@[x].0@ == q;
                        lemma_entries_map_value(config@, x);
                        if x < before.len() {
                            lemma_entries_map_value(before, x);
                        }
                    }
                    assert(entries_map(config@) =~= entries_map(before).insert(k, v));
                }
            }
            i += 1;
        }
        assert(entries@.take(entries.len() as int) =~= entries@);
        GrafanaConfig { config }
    }

    /// The position of `key` in the stored pairs, if it is present.
    fn find(&self, key: &str) -> (r: Option<usize>)
        ensures
            match r {
                Some(i) => i < self.config@.len() && self.config@[i as int].0@ == key@
                    && self@.contains_key(key@) && self@[key@] == self.config@[i as int].1@,
                None => !self@.contains_key(key@),
            },
    {
        proof {
            use_type_invariant(self);
        }
        let k = key.to_owned();
        let r = index_of_key(&self.config, &k);
        if let Some(i) = r {
            proof {
                lemma_entries_map_value(self.config@, i as int);
            }
        }
        r
    }

    /// Get the value of a configuration option, if it was provided by Grafana.
    fn get(&self, key: &str) -> (r: Result<&String, ConfigError>)
        ensures
            lookup_outcome(self@, key@, r),
    {
        match self.find(key) {
            Some(i) => Ok(&self.config[i].1),
            None => Err(ConfigError::from_key(key.to_owned())),
        }
    }

    /// Return the URL of the Grafana instance.
    pub fn app_url(&self) -> (r: Result<&String, ConfigError>)
        ensures
            lookup_outcome(self@, APP_URL@, r),
    {
        self.get(APP_URL)
    }

    /// Return the client secret for the app plugin's service account, if set.
    ///
    /// Plugins can request a service account be created by Grafana at startup
    /// time by using the `iam` field of their `plugin.json` file. This method
    /// will then return the client secret for that service account, which can
    /// be used to authenticate with the Grafana API.
    pub fn plugin_app_client_secret(&self) -> (r: Result<&String, ConfigError>)
        ensures
            lookup_outcome(self@, APP_CLIENT_SECRET@, r),
    {
        self.get(APP_CLIENT_SECRET)
    }

    /// Return the set of Grafana feature toggles that are enabled for this instance.
    ///
    /// Feature toggles are passed by Grafana in the `GF_INSTANCE_FEATURE_TOGGLES_ENABLE`
    /// configuration entry as a comma-separated list. If the entry is absent or empty an
    /// empty set is returned (i.e. every feature reports as disabled).
    pub fn feature_toggles(&self) -> (t: FeatureToggles<'_>)
        ensures
            t@ == enabled_toggles(self@),
    {
        match self.find(FEATURE_TOGGLES_ENABLE) {
            Some(i) => {
                let value = self.config[i].1.as_str();
                if value.is_empty() {
                    FeatureToggles::none()
                } else {
                    FeatureToggles::from_pieces(split_commas(value))
                }
            },
            None => FeatureToggles::none(),
        }
    }
}

impl GrafanaConfig {
    /// Whether every key of `self` is in `other` with the same value.
    fn entries_within(&self, other: &Self) -> (r: bool)
        ensures
            r == (forall|k: Seq<char>| #[trigger]
                self@.contains_key(k) ==> other@.contains_key(k) && other@[k] == self@[k]),
    {
        proof {
            use_type_invariant(self);
        }
        let mut i: usize = 0;
        while i < self.config.len()
            invariant
                i <= self.config@.len(),
                keys_distinct(self.config@),
                forall|x: int|
                    0 <= x < i ==> #[trigger] other@.contains_key(self.config@[x].0@)
                        && other@[self.config@[x].0@] == self.config@[x].1@,
            decreases self.config.len() - i,
        {
            proof {
                lemma_entries_map_value(self.config@, i as int);
            }
            match other.find(self.config[i].0.as_str()) {
                Some(j) => {
                    if !(other.config[j].1 == self.config[i].1) {
                        proof {
                            let k = self.config@[i as int].0@;
                            assert(self@.contains_key(k) && !(other@[k] == self@[k]));
                        }
                        return false;
                    }
                },
                None => {
                    proof {
                        let k = self.config@[i as int].0@;
                        assert(self@.contains_key(k) && !other@.contains_key(k));
                    }
                    return false;
                },
            }
            i += 1;
        }
        proof {
            assert forall|k: Seq<char>| #[trigger] self@.contains_key(k) implies other@.contains_key(
                k,
            ) && other@[k] == self@[k] by {
                let x = choose|x: int| 0 <= x < self.config@.len() && self.config@[x].0@ == k;
                lemma_entries_map_value(self.config@, x);
            }
        }
        true
    }

    /// Whether the two configurations hold the same options with the same values.
    pub fn same_options(&self, other: &Self) -> (r: bool)
        ensures
            r == (self@ == other@),
    {
        let a = self.entries_within(other);
        let b = other.entries_within(self);
        proof {
            if a && b {
                assert(self@ =~= other@);
            }
        }
        a && b
    }
}

impl PartialEq for GrafanaConfig {
    fn eq(&self, other: &Self) -> (r: bool) {
        self.same_options(other)
    }
}

impl Eq for GrafanaConfig {
}

impl vstd::std_specs::cmp::PartialEqSpecImpl for GrafanaConfig {
    open spec fn obeys_eq_spec() -> bool {
        true
    }

    open spec fn eq_spec(&self, other: &Self) -> bool {
        self@ == other@
    }
}

impl Clone for GrafanaConfig {
    fn clone(&self) -> (c: Self)
        ensures
            c@ == self@,
    {
        proof {
            use_type_invariant(self);
        }
        let mut config: Vec<(String, String)> = Vec::new();
        let mut i: usize = 0;
        while i < self.config.len()
            invariant
                i <= self.config@.len(),
                config@.len() == i,
                forall|x: int| 0 <= x < i ==> config@[x].0@ == self.config@[x].0@ && config@[x].1@
                    == self.config@[x].1@,
            decreases self.config.len() - i,
        {
            config.push((self.config[i].0.clone(), self.config[i].1.clone()));
            i += 1;
        }
        proof {
            assert forall|x: int, y: int| 0 <= x < y < config@.len() implies config@[x].0@
                != config@[y].0@ by {
                assert(self.config@[x].0@ != self.config@[y].0@);
            }
            assert forall|q: Seq<char>| #[trigger]
                entries_map(config@).contains_key(q) == entries_map(self.config@).contains_key(q) by {
                if entries_map(config@).contains_key(q) {
                    let x = choose|x: int| 0 <= x < config@.len() && config@[x].0@ == q;
                    assert(self.config@[x].0@ == q);
                }
                if entries_map(self.config@).contains_key(q) {
                    let x = choose|x: int| 0 <= x < self.config@.len() && self.config@[x].0@ == q;
                    assert(config@[x].0@ == q);
                }
            }
            assert forall|q: Seq<char>| #[trigger]
                entries_map(config@).contains_key(q) implies entries_map(config@)[q]
                == entries_map(self.config@)[q] by {
                let x = choose|x: int| 0 <= x < config@.len() && config@[x].0@ == q;
                lemma_entries_map_value(config@, x);
                lemma_entries_map_value(self.config@, x);
            }
            assert(entries_map(config@) =~= entries_map(self.config@));
        }
        GrafanaConfig { config }
    }
}

/// Whether `s@` is among the views of `names`.
fn contains_name(names: &Vec<&str>, s: &str) -> (b: bool)
    ensures
        b == str_views(names@).contains(s@),
{
    let mut i: usize = 0;
    while i < names.len()
        invariant
            i <= names@.len(),
            forall|j: int| 0 <= j < i ==> names@[j]@ != s@,
        decreases names.len() - i,
    {
        if str_equal(names[i], s) {
            assert(str_views(names@)[i as int] == s@);
            return true;
        }
        i += 1;
    }
    proof {
        if str_views(names@).contains(s@) {
            let j = choose|j: int| 0 <= j < str_views(names@).len() && str_views(names@)[j] == s@;
            assert(names@[j]@ == s@);
        }
    }
    false
}

/// The names of `pieces`, each kept once, in the order they first occur.
fn distinct_names<'a>(pieces: Vec<&'a str>) -> (names: Vec<&'a str>)
    ensures
        str_views(names@).no_duplicates(),
        str_views(names@).to_set() == str_views(pieces@).to_set(),
{
    let mut names: Vec<&'a str> = Vec::new();
    let mut i: usize = 0;
    while i < pieces.len()
        invariant
            i <= pieces@.len(),
            str_views(names@).no_duplicates(),
            str_views(names@).to_set() == str_views(pieces@.take(i as int)).to_set(),
        decreases pieces.len() - i,
    {
        let piece = pieces[i];
        let ghost before = names@;
        proof {
            assert(str_views(pieces@.take(i + 1)) =~= str_views(pieces@.take(i as int)).push(
                piece@,
            ));
            str_views(pieces@.take(i as int)).lemma_push_to_set_commute(piece@);
        }
        if !contains_name(&names, piece) {
            names.push(piece);
            proof {
                assert(str_views(names@) =~= str_views(before).push(piece@));
                str_views(before).lemma_push_to_set_commute(piece@);
            }
        } else {
            proof {
                assert(str_views(names@).to_set().contains(piece@));
                assert(str_views(names@).to_set() =~= str_views(names@).to_set().insert(piece@));
            }
        }
        i += 1;
    }
    assert(pieces@.take(pieces@.len() as int) =~= pieces@);
    names
}

/// The set of Grafana feature toggles that are enabled for a plugin instance.
///
/// Obtained via [`GrafanaConfig::feature_toggles`].
#[derive(Debug)]
pub struct FeatureToggles<'a> {
    enabled: Vec<&'a str>,
}

impl<'a> View for FeatureToggles<'a> {
    type V = Set<Seq<char>>;

    /// The names of the enabled toggles.
    closed spec fn view(&self) -> Set<Seq<char>> {
        str_views(self.enabled@).to_set()
    }
}

impl<'a> FeatureToggles<'a> {
    #[verifier::type_invariant]
    spec fn wf(self) -> bool {
        str_views(self.enabled@).no_duplicates()
    }

    /// The toggles named by `pieces`.
    fn from_pieces(pieces: Vec<&'a str>) -> (t: Self)
        ensures
            t@ == str_views(pieces@).to_set(),
    {
        FeatureToggles { enabled: distinct_names(pieces) }
    }

    /// No toggle at all.
    fn none() -> (t: Self)
        ensures
            t@ == Set::<Seq<char>>::empty(),
    {
        let t = FeatureToggles { enabled: Vec::new() };
        assert(str_views(t.enabled@).to_set() =~= Set::<Seq<char>>::empty());
        t
    }

    /// Return `true` if the named feature toggle is enabled.
    pub fn is_enabled(&self, feature: &str) -> (b: bool)
        ensures
            b == self@.contains(feature@),
    {
        contains_name(&self.enabled, feature)
    }

    /// Return `true` if no feature toggles are enabled.
    pub fn is_empty(&self) -> (b: bool)
        ensures
            b == (self@ == Set::<Seq<char>>::empty()),
    {
        proof {
            if self.enabled@.len() > 0 {
                assert(str_views(self.enabled@)[0] == self.enabled@[0]@);
                assert(str_views(self.enabled@).contains(self.enabled@[0]@));
                assert(str_views(self.enabled@).to_set().contains(self.enabled@[0]@));
            } else {
                assert(str_views(self.enabled@).to_set() =~= Set::<Seq<char>>::empty());
            }
        }
        self.enabled.len() == 0
    }
}

impl<'a> Clone for FeatureToggles<'a> {
    fn clone(&self) -> (t: Self)
        ensures
            t@ == self@,
    {
        proof {
            use_type_invariant(self);
        }
        FeatureToggles { enabled: self.enabled.clone() }
    }
}

impl<'a> Default for FeatureToggles<'a> {
    /// No toggle enabled.
    fn default() -> (t: Self)
        ensures
            t@ == Set::<Seq<char>>::empty(),
    {
        FeatureToggles::none()
    }
}

} // verus!
