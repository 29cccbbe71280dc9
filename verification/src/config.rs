//! The strategy configuration: which strategy to run, on which symbols,
//! with which periods, read from a JSON object whose absent or ill-typed
//! members keep their defaults.  The floating-point thresholds of the
//! configuration are not held here.
use vstd::prelude::*;

verus! {

// ── Strategy selection ───────────────────────────────────────────

/// The strategies an engine can run.
#[derive(Clone, Copy, Debug, PartialEq, Eq, Structural)]
pub enum StrategyKind {
    EmaCross,
    Rsi,
    OrderBookImbalance,
    OrderFlow,
}

/// `"rsi"`, `"orderbook_imbalance"` or `"obi"`, `"orderflow"` or `"of"`;
/// any other name selects the EMA crossover.
pub open spec fn kind_of(name: Seq<char>) -> StrategyKind {
    if name == "rsi"@ {
        StrategyKind::Rsi
    } else if name == "orderbook_imbalance"@ || name == "obi"@ {
        StrategyKind::OrderBookImbalance
    } else if name == "orderflow"@ || name == "of"@ {
        StrategyKind::OrderFlow
    } else {
        StrategyKind::EmaCross
    }
}

impl StrategyKind {
    /// The strategy a configured name selects.
    pub fn from_name(name: &str) -> (k: StrategyKind)
        ensures
            k == kind_of(name@),
    {
        let s = name.to_owned();
        if s == "rsi".to_owned() {
            StrategyKind::Rsi
        } else if s == "orderbook_imbalance".to_owned() || s == "obi".to_owned() {
            StrategyKind::OrderBookImbalance
        } else if s == "orderflow".to_owned() || s == "of".to_owned() {
            StrategyKind::OrderFlow
        } else {
            StrategyKind::EmaCross
        }
    }
}

// ── The configuration ────────────────────────────────────────────

/// What a `StrategyConfig` holds, as mathematical values.
pub struct ConfigModel {
    pub strategy_type: Seq<char>,
    pub symbols: Seq<Seq<char>>,
    pub fast_period: usize,
    pub slow_period: usize,
    pub smoothing_period: usize,
    pub divergence_lookback: usize,
}

/// The strategy name, symbols and periods an engine is built with.
pub struct StrategyConfig {
    pub strategy_type: String,
    pub symbols: Vec<String>,
    pub fast_period: usize,
    pub slow_period: usize,
    pub smoothing_period: usize,
    pub divergence_lookback: usize,
}

impl View for StrategyConfig {
    type V = ConfigModel;

    open spec fn view(&self) -> ConfigModel {
        ConfigModel {
            strategy_type: self.strategy_type@,
            symbols: self.symbols@.map_values(|s: String| s@),
            fast_period: self.fast_period,
            slow_period: self.slow_period,
            smoothing_period: self.smoothing_period,
            divergence_lookback: self.divergence_lookback,
        }
    }
}

/// EMA crossover on EURUSD, fast period 12, slow period 26, smoothing
/// period 20, divergence lookback 50.
pub open spec fn default_model() -> ConfigModel {
    ConfigModel {
        strategy_type: "ema_cross"@,
        symbols: seq!["EURUSD"@],
        fast_period: 12,
        slow_period: 26,
        smoothing_period: 20,
        divergence_lookback: 50,
    }
}

impl Default for StrategyConfig {
    fn default() -> (c: Self)
        ensures
            c@ == default_model(),
    {
        let c = StrategyConfig {
            strategy_type: "ema_cross".to_owned(),
            symbols: vec!["EURUSD".to_owned()],
            fast_period: 12,
            slow_period: 26,
            smoothing_period: 20,
            divergence_lookback: 50,
        };
        assert(c@.symbols =~= seq!["EURUSD"@]);
        c
    }
}

// ── Members read from the JSON text ──────────────────────────────

/// What the JSON object gives for each configuration member, each member
/// as the accessor of its type reads it: `None` where the member is absent
/// or of another type.  `symbols` holds, for an array member, each
/// element as a string or `None` where the element is not one.
pub struct ConfigFields {
    pub strategy: Option<String>,
    pub symbols: Option<Vec<Option<String>>>,
    pub fast_period: Option<u64>,
    pub slow_period: Option<u64>,
    pub smoothing_period: Option<u64>,
    pub divergence_lookback: Option<u64>,
}

/// `ConfigFields` as mathematical values.
pub struct FieldsModel {
    pub strategy: Option<Seq<char>>,
    pub symbols: Option<Seq<Option<Seq<char>>>>,
    pub fast_period: Option<u64>,
    pub slow_period: Option<u64>,
    pub smoothing_period: Option<u64>,
    pub divergence_lookback: Option<u64>,
}

pub open spec fn opt_string_view(o: Option<String>) -> Option<Seq<char>> {
    match o {
        Some(s) => Some(s@),
        None => None,
    }
}

impl View for ConfigFields {
    type V = FieldsModel;

    open spec fn view(&self) -> FieldsModel {
        FieldsModel {
            strategy: opt_string_view(self.strategy),
            symbols: match self.symbols {
                Some(v) => Some(v@.map_values(|o: Option<String>| opt_string_view(o))),
                None => None,
            },
            fast_period: self.fast_period,
            slow_period: self.slow_period,
            smoothing_period: self.smoothing_period,
            divergence_lookback: self.divergence_lookback,
        }
    }
}

/// The strings among `items`, in order.
pub open spec fn strings_of(items: Seq<Option<Seq<char>>>) -> Seq<Seq<char>>
    decreases items.len(),
{
    if items.len() == 0 {
        Seq::empty()
    } else {
        let rest = strings_of(items.drop_last());
        match items.last() {
            Some(s) => rest.push(s),
            None => rest,
        }
    }
}

/// The number of strings among `items`.
pub open spec fn count_strings(items: Seq<Option<Seq<char>>>) -> nat
    decreases items.len(),
{
    if items.len() == 0 {
        0
    } else {
        count_strings(items.drop_last()) + if items.last() is Some {
            1nat
        } else {
            0nat
        }
    }
}

/// The strings of a list are kept one for one and in order: none from an
/// empty list, a string at the end is appended at the end, a non-string
/// adds nothing, the strings of two lists joined are those of each joined,
/// and there are as many as the list holds strings, each one of them.
pub proof fn lemma_strings_kept_in_order(
    items: Seq<Option<Seq<char>>>,
    more: Seq<Option<Seq<char>>>,
    x: Seq<char>,
)
    ensures
        strings_of(Seq::empty()) == Seq::<Seq<char>>::empty(),
        strings_of(items.push(Some(x))) == strings_of(items).push(x),
        strings_of(items.push(None)) == strings_of(items),
        strings_of(items + more) == strings_of(items) + strings_of(more),
        strings_of(items).len() == count_strings(items),
        forall|j: int| 0 <= j < strings_of(items).len() ==> items.contains(Some(#[trigger] strings_of(items)[j])),
    decreases more.len(),
{
    assert(items.push(Some(x)).drop_last() =~= items);
    assert(items.push(None::<Seq<char>>).drop_last() =~= items);
    lemma_strings_count(items);
    lemma_strings_are_items(items);
    if more.len() == 0 {
        assert(items + more =~= items);
        assert(strings_of(items) + strings_of(more) =~= strings_of(items));
    } else {
        let m0 = more.drop_last();
        lemma_strings_kept_in_order(items, m0, x);
        assert((items + more).drop_last() =~= items + m0);
        assert((items + more).last() == more.last());
        match more.last() {
            Some(y) => {
                assert(strings_of(items) + strings_of(more) =~= (strings_of(items) + strings_of(m0)).push(y));
            },
            None => {},
        }
    }
}

proof fn lemma_strings_count(items: Seq<Option<Seq<char>>>)
    ensures
        strings_of(items).len() == count_strings(items),
    decreases items.len(),
{
    if items.len() > 0 {
        lemma_strings_count(items.drop_last());
    }
}

proof fn lemma_strings_are_items(items: Seq<Option<Seq<char>>>)
    ensures
        forall|j: int| 0 <= j < strings_of(items).len() ==> items.contains(Some(#[trigger] strings_of(items)[j])),
    decreases items.len(),
{
    if items.len() > 0 {
        let rest = items.drop_last();
        lemma_strings_are_items(rest);
        assert forall|j: int| 0 <= j < strings_of(items).len() implies items.contains(Some(#[trigger] strings_of(items)[j])) by {
            if j < strings_of(rest).len() {
                let v = strings_of(rest)[j];
                assert(strings_of(items)[j] == v);
                assert(rest.contains(Some(v)));
                let m = choose|m: int| 0 <= m < rest.len() && rest[m] == Some(v);
                assert(items[m] == Some(v));
            } else {
                assert(items[items.len() - 1] == items.last());
            }
        }
    }
}

pub open spec fn override_period(base: usize, member: Option<u64>) -> usize {
    match member {
        Some(p) => p as usize,
        None => base,
    }
}

/// `base` with every member that the object gives in place of its own.
/// The symbol list is replaced only by a non-empty list of strings.
pub open spec fn apply_fields(base: ConfigModel, f: FieldsModel) -> ConfigModel {
    ConfigModel {
        strategy_type: match f.strategy {
            Some(s) => s,
            None => base.strategy_type,
        },
        symbols: match f.symbols {
            Some(items) => if strings_of(items).len() > 0 {
                strings_of(items)
            } else {
                base.symbols
            },
            None => base.symbols,
        },
        fast_period: override_period(base.fast_period, f.fast_period),
        slow_period: override_period(base.slow_period, f.slow_period),
        smoothing_period: override_period(base.smoothing_period, f.smoothing_period),
        divergence_lookback: override_period(base.divergence_lookback, f.divergence_lookback),
    }
}

/// Each member the object gives replaces the configured value, each
/// member it lacks keeps it: the name and the periods one for one, the
/// symbol list by the strings of the array when there is at least one.
pub proof fn lemma_fields_replace_members(base: ConfigModel, f: FieldsModel)
    ensures
        apply_fields(base, f).strategy_type == match f.strategy {
            Some(s) => s,
            None => base.strategy_type,
        },
        f.fast_period matches Some(p) ==> apply_fields(base, f).fast_period == p as usize,
        f.fast_period is None ==> apply_fields(base, f).fast_period == base.fast_period,
        f.slow_period matches Some(p) ==> apply_fields(base, f).slow_period == p as usize,
        f.slow_period is None ==> apply_fields(base, f).slow_period == base.slow_period,
        f.smoothing_period matches Some(p) ==> apply_fields(base, f).smoothing_period == p as usize,
        f.smoothing_period is None ==> apply_fields(base, f).smoothing_period == base.smoothing_period,
        f.divergence_lookback matches Some(p) ==> apply_fields(base, f).divergence_lookback
            == p as usize,
        f.divergence_lookback is None ==> apply_fields(base, f).divergence_lookback
            == base.divergence_lookback,
        f.symbols is Some && count_strings(f.symbols.unwrap()) > 0 ==> apply_fields(base, f).symbols
            == strings_of(f.symbols.unwrap()),
        (f.symbols is None || count_strings(f.symbols.unwrap()) == 0)
            ==> apply_fields(base, f).symbols == base.symbols,
{
    match f.symbols {
        Some(items) => {
            lemma_strings_count(items);
        },
        None => {},
    }
}

/// The listed names select their strategies; every other name selects the
/// EMA crossover.
pub proof fn lemma_strategy_names(name: Seq<char>)
    ensures
        kind_of("rsi"@) == StrategyKind::Rsi,
        kind_of("orderbook_imbalance"@) == StrategyKind::OrderBookImbalance,
        kind_of("obi"@) == StrategyKind::OrderBookImbalance,
        kind_of("orderflow"@) == StrategyKind::OrderFlow,
        kind_of("of"@) == StrategyKind::OrderFlow,
        kind_of("ema_cross"@) == StrategyKind::EmaCross,
        name != "rsi"@ && name != "orderbook_imbalance"@ && name != "obi"@ && name != "orderflow"@
            && name != "of"@ ==> kind_of(name) == StrategyKind::EmaCross,
{
    reveal_strlit("rsi");
    reveal_strlit("orderbook_imbalance");
    reveal_strlit("obi");
    reveal_strlit("orderflow");
    reveal_strlit("of");
    reveal_strlit("ema_cross");
    assert("orderbook_imbalance"@.len() != "rsi"@.len());
    assert("obi"@[0] != "rsi"@[0]);
    assert("orderflow"@.len() != "rsi"@.len());
    assert("orderflow"@.len() != "orderbook_imbalance"@.len());
    assert("orderflow"@.len() != "obi"@.len());
    assert("of"@.len() != "rsi"@.len());
    assert("of"@.len() != "orderbook_imbalance"@.len());
    assert("of"@.len() != "obi"@.len());
    assert("ema_cross"@.len() != "rsi"@.len());
    assert("ema_cross"@.len() != "orderbook_imbalance"@.len());
    assert("ema_cross"@.len() != "obi"@.len());
    assert("ema_cross"@[0] != "orderflow"@[0]);
    assert("ema_cross"@.len() != "of"@.len());
}

fn take_period(base: usize, member: Option<u64>) -> (p: usize)
    ensures
        p == override_period(base, member),
{
    match member {
        Some(p) => p as usize,
        None => base,
    }
}

impl StrategyConfig {
    /// This configuration with every member that `fields` gives in its
    /// place; a symbol list is taken only if it holds at least one string,
    /// and only its strings are kept.
    pub fn with_fields(self, fields: ConfigFields) -> (c: StrategyConfig)
        ensures
            c@ == apply_fields(self@, fields@),
    {
        let ghost f = fields@;
        let ghost base = self@;
        let mut c = self;
        match fields.strategy {
            Some(s) => {
                c.strategy_type = s;
            },
            None => {},
        }
        match fields.symbols {
            Some(items) => {
                let syms = string_items(&items);
                if syms.len() > 0 {
                    c.symbols = syms;
                }
            },
            None => {},
        }
        c.fast_period = take_period(c.fast_period, fields.fast_period);
        c.slow_period = take_period(c.slow_period, fields.slow_period);
        c.smoothing_period = take_period(c.smoothing_period, fields.smoothing_period);
        c.divergence_lookback = take_period(c.divergence_lookback, fields.divergence_lookback);
        c
    }
}

/// The strings among `items`, in order.
fn string_items(items: &Vec<Option<String>>) -> (r: Vec<String>)
    ensures
        r@.map_values(|s: String| s@) == strings_of(
            items@.map_values(|o: Option<String>| opt_string_view(o)),
        ),
{
    let ghost view = items@.map_values(|o: Option<String>| opt_string_view(o));
    let mut r: Vec<String> = Vec::new();
    let mut i: usize = 0;
    while i < items.len()
        invariant
            i <= items@.len(),
            view == items@.map_values(|o: Option<String>| opt_string_view(o)),
            r@.map_values(|s: String| s@) == strings_of(view.take(i as int)),
        decreases items@.len() - i,
    {
        assert(view.take(i + 1).drop_last() =~= view.take(i as int));
        match &items[i] {
            Some(s) => {
                r.push(s.clone());
            },
            None => {},
        }
        i = i + 1;
        assert(r@.map_values(|s: String| s@) =~= strings_of(view.take(i as int)));
    }
    assert(view.take(items@.len() as int) =~= view);
    r
}

} // verus!

verus! {

// ── Reading the JSON text ────────────────────────────────────────

#[verifier::external_type_specification]
#[verifier::external_body]
pub struct ExJsonValue(serde_json::Value);

/// Whether `serde_json::from_str::<serde_json::Value>` accepts `text`.
pub uninterp spec fn json_parses(text: Seq<char>) -> bool;

/// For a text that parses: `get(key)` on the parsed value, then `as_str`.
pub uninterp spec fn json_str_member(text: Seq<char>, key: Seq<char>) -> Option<Seq<char>>;

/// For a text that parses: `get(key)` on the parsed value, then `as_u64`.
pub uninterp spec fn json_u64_member(text: Seq<char>, key: Seq<char>) -> Option<u64>;

/// For a text that parses: `get(key)` on the parsed value, then
/// `as_array`, then the array's length.
pub uninterp spec fn json_array_len(text: Seq<char>, key: Seq<char>) -> Option<nat>;

/// For a text that parses: `get(key)` on the parsed value, then
/// `as_array`, then element `i`, then `as_str`.
pub uninterp spec fn json_array_str_at(text: Seq<char>, key: Seq<char>, i: int) -> Option<Seq<char>>;

/// A parsed JSON text, kept together with the text it was parsed from.
struct JsonDoc {
    value: serde_json::Value,
    text: Ghost<Seq<char>>,
}

impl JsonDoc {
    closed spec fn text(&self) -> Seq<char> {
        self.text@
    }
}

/// Calls `serde_json::from_str::<serde_json::Value>` on `text`.  Claimed:
/// the result is `Some` exactly when the name `json_parses` holds of the
/// text, and the document remembers the text it came from; nothing is
/// claimed of the parsed value beyond the names the member accessors use.
#[verifier::external_body]
fn parse_json(text: &str) -> (d: Option<JsonDoc>)
    ensures
        d is Some <==> json_parses(text@),
        d matches Some(doc) ==> doc.text() == text@,
{
    match serde_json::from_str::<serde_json::Value>(text) {
        Ok(value) => Some(JsonDoc { value, text: Ghost(text@) }),
        Err(_) => None,
    }
}

/// Calls `serde_json::Value::get(key)` and then `serde_json::Value::as_str`
/// on the parsed document.  Claimed: the string read is the name
/// `json_str_member` of the document's text and `key`.
#[verifier::external_body]
fn str_member(doc: &JsonDoc, key: &str) -> (r: Option<String>)
    ensures
        opt_string_view(r) == json_str_member(doc.text(), key@),
{
    match doc.value.get(key) {
        Some(m) => m.as_str().map(String::from),
        None => None,
    }
}

/// Calls `serde_json::Value::get(key)` and then `serde_json::Value::as_u64`
/// on the parsed document.  Claimed: the number read is the name
/// `json_u64_member` of the document's text and `key`.
#[verifier::external_body]
fn u64_member(doc: &JsonDoc, key: &str) -> (r: Option<u64>)
    ensures
        r == json_u64_member(doc.text(), key@),
{
    match doc.value.get(key) {
        Some(m) => m.as_u64(),
        None => None,
    }
}

/// Calls `serde_json::Value::get(key)` and then `serde_json::Value::as_array`
/// on the parsed document, and takes the array's length.  Claimed: the
/// length is the name `json_array_len` of the document's text and `key`.
#[verifier::external_body]
fn array_member_len(doc: &JsonDoc, key: &str) -> (r: Option<usize>)
    ensures
        match r {
            Some(n) => json_array_len(doc.text(), key@) == Some(n as nat),
            None => json_array_len(doc.text(), key@) is None,
        },
{
    match doc.value.get(key) {
        Some(m) => match m.as_array() {
            Some(a) => Some(a.len()),
            None => None,
        },
        None => None,
    }
}

/// Calls `serde_json::Value::get(key)`, `serde_json::Value::as_array`, and
/// `serde_json::Value::as_str` on element `i`.  Claimed: the string read is
/// the name `json_array_str_at` of the document's text, `key` and `i`; the
/// index is in bounds by the `requires`.
#[verifier::external_body]
fn array_member_str(doc: &JsonDoc, key: &str, i: usize) -> (r: Option<String>)
    requires
        json_array_len(doc.text(), key@) matches Some(n) && i < n,
    ensures
        opt_string_view(r) == json_array_str_at(doc.text(), key@, i as int),
{
    match doc.value.get(key) {
        Some(m) => match m.as_array() {
            Some(a) => a[i].as_str().map(String::from),
            None => None,
        },
        None => None,
    }
}

/// The array member `key` of a parsed text, each element as a string or
/// `None`.
pub open spec fn json_array_items(text: Seq<char>, key: Seq<char>) -> Option<Seq<Option<Seq<char>>>> {
    match json_array_len(text, key) {
        Some(n) => Some(Seq::new(n, |i: int| json_array_str_at(text, key, i))),
        None => None,
    }
}

/// The members of a parsed text that the configuration reads.
pub open spec fn json_fields(text: Seq<char>) -> FieldsModel {
    FieldsModel {
        strategy: json_str_member(text, "strategy"@),
        symbols: json_array_items(text, "symbols"@),
        fast_period: json_u64_member(text, "fast_period"@),
        slow_period: json_u64_member(text, "slow_period"@),
        smoothing_period: json_u64_member(text, "smoothing_period"@),
        divergence_lookback: json_u64_member(text, "divergence_lookback"@),
    }
}

/// The configuration a JSON text gives: the defaults, with the members of
/// the text in their place; a text that does not parse gives the defaults.
pub open spec fn config_from_json(text: Seq<char>) -> ConfigModel {
    if json_parses(text) {
        apply_fields(default_model(), json_fields(text))
    } else {
        default_model()
    }
}

fn array_items(doc: &JsonDoc, key: &str) -> (r: Option<Vec<Option<String>>>)
    ensures
        match r {
            Some(v) => json_array_items(doc.text(), key@) == Some(
                v@.map_values(|o: Option<String>| opt_string_view(o)),
            ),
            None => json_array_items(doc.text(), key@) is None,
        },
{
    match array_member_len(doc, key) {
        Some(n) => {
            let ghost want = Seq::new(n as nat, |i: int| json_array_str_at(doc.text(), key@, i));
            let mut v: Vec<Option<String>> = Vec::new();
            let mut i: usize = 0;
            while i < n
                invariant
                    i <= n,
                    json_array_len(doc.text(), key@) == Some(n as nat),
                    want == Seq::new(n as nat, |i: int| json_array_str_at(doc.text(), key@, i)),
                    v@.map_values(|o: Option<String>| opt_string_view(o)) == want.take(i as int),
                decreases n - i,
            {
                let item = array_member_str(doc, key, i);
                assert(want[i as int] == opt_string_view(item));
                let ghost before = v@;
                v.push(item);
                assert(v@ == before.push(item));
                assert(v@.map_values(|o: Option<String>| opt_string_view(o)) =~= before.map_values(
                    |o: Option<String>| opt_string_view(o),
                ).push(opt_string_view(item)));
                assert(want.take(i + 1) =~= want.take(i as int).push(want[i as int]));
                i = i + 1;
                assert(v@.map_values(|o: Option<String>| opt_string_view(o)) =~= want.take(
                    i as int,
                ));
            }
            assert(want.take(n as int) =~= want);
            Some(v)
        },
        None => None,
    }
}

fn read_fields(doc: &JsonDoc) -> (f: ConfigFields)
    ensures
        f@ == json_fields(doc.text()),
{
    ConfigFields {
        strategy: str_member(doc, "strategy"),
        symbols: array_items(doc, "symbols"),
        fast_period: u64_member(doc, "fast_period"),
        slow_period: u64_member(doc, "slow_period"),
        smoothing_period: u64_member(doc, "smoothing_period"),
        divergence_lookback: u64_member(doc, "divergence_lookback"),
    }
}

/// The configuration that `config_json` gives: the defaults, with each
/// member of the JSON object that has the right type in place of its own.
pub fn parse_config(config_json: &str) -> (c: StrategyConfig)
    ensures
        c@ == config_from_json(config_json@),
{
    let cfg = StrategyConfig::default();
    match parse_json(config_json) {
        Some(doc) => {
            let fields = read_fields(&doc);
            cfg.with_fields(fields)
        },
        None => cfg,
    }
}

} // verus!
