//! JSON values as the library holds them, and their exchange with `serde_json`.

use crate::text::comes_before;
use crate::text::opt_view;
use crate::text::precedes;
use crate::text::precedes_irreflexive;
use crate::text::precedes_total;
use crate::text::precedes_transitive;
use crate::text::same;
use vstd::prelude::*;

verus! {

/// A number of `serde_json`.
#[verifier::external_type_specification]
#[verifier::external_body]
pub struct ExNumber(serde_json::Number);

/// A value of `serde_json`.
#[verifier::external_type_specification]
#[verifier::external_body]
pub struct ExValue(serde_json::Value);

/// `Number::clone` gives an equal number.
pub assume_specification[ <serde_json::Number as Clone>::clone ](n: &serde_json::Number) -> (r:
    serde_json::Number)
    ensures
        r == *n,
;

/// The whole number that a number of `serde_json` is, where it is held as one.
pub uninterp spec fn whole_number(n: serde_json::Number) -> Option<int>;

/// `Number::as_u64` gives the number where it is held as a whole number that
/// fits a `u64`.
pub assume_specification[ serde_json::Number::as_u64 ](n: &serde_json::Number) -> (r: Option<u64>)
    ensures
        r == fitting_u64(whole_number(*n)),
;

/// `Number::as_i64` gives the number where it is held as a whole number that
/// fits an `i64`.
pub assume_specification[ serde_json::Number::as_i64 ](n: &serde_json::Number) -> (r: Option<i64>)
    ensures
        r == fitting_i64(whole_number(*n)),
;

/// A whole number as a `u64`, where it fits.
pub open spec fn fitting_u64(n: Option<int>) -> Option<u64> {
    match n {
        Some(k) if 0 <= k <= u64::MAX => Some(k as u64),
        _ => None,
    }
}

/// A whole number as an `i64`, where it fits.
pub open spec fn fitting_i64(n: Option<int>) -> Option<i64> {
    match n {
        Some(k) if i64::MIN <= k <= i64::MAX => Some(k as i64),
        _ => None,
    }
}

/// What a number of `serde_json` means.
pub open spec fn number_meaning(n: serde_json::Number) -> JsonView {
    match whole_number(n) {
        Some(k) => JsonView::Integer(k),
        None => JsonView::Decimal(n),
    }
}

/// What a JSON value means. A number that is not held as a whole one is carried
/// through unread. An object is its entries in ascending order of their keys.
#[verifier::ext_equal]
pub enum JsonView {
    Null,
    Bool(bool),
    Integer(int),
    Decimal(serde_json::Number),
    Text(Seq<char>),
    List(Seq<JsonView>),
    Object(Seq<(Seq<char>, JsonView)>),
}

/// A JSON value.
#[derive(Debug)]
pub enum Json {
    Null,
    Bool(bool),
    Unsigned(u64),
    Signed(i64),
    Number(serde_json::Number),
    Text(String),
    List(Vec<Json>),
    Object(JsonObject),
}

/// The entries of a JSON object, each key once, in ascending order of the keys.
#[derive(Debug)]
pub struct JsonObject {
    entries: Vec<(String, Json)>,
}

impl View for Json {
    type V = JsonView;

    open spec fn view(&self) -> JsonView
        decreases self,
    {
        match self {
            Json::Null => JsonView::Null,
            Json::Bool(b) => JsonView::Bool(*b),
            Json::Unsigned(n) => JsonView::Integer(*n as int),
            Json::Signed(n) => JsonView::Integer(*n as int),
            Json::Number(n) => number_meaning(*n),
            Json::Text(s) => JsonView::Text(s@),
            Json::List(items) => JsonView::List(
                Seq::new(
                    items@.len(),
                    |i: int|
                        if 0 <= i < items@.len() {
                            items@[i].view()
                        } else {
                            JsonView::Null
                        },
                ),
            ),
            Json::Object(object) => JsonView::Object(object.view()),
        }
    }
}

impl View for JsonObject {
    type V = Seq<(Seq<char>, JsonView)>;

    closed spec fn view(&self) -> Seq<(Seq<char>, JsonView)>
        decreases self,
    {
        Seq::new(
            self.entries@.len(),
            |i: int|
                if 0 <= i < self.entries@.len() {
                    (self.entries@[i].0@, self.entries@[i].1.view())
                } else {
                    (Seq::empty(), JsonView::Null)
                },
        )
    }
}

/// What `serde_json::Value` holds.
pub uninterp spec fn value_view(value: serde_json::Value) -> JsonView;

/// What `serde_json::from_str` makes of a text: the value, or the words of the
/// error.
pub uninterp spec fn json_read(text: Seq<char>) -> Result<JsonView, Seq<char>>;

/// The compact text that `serde_json` prints for a value.
pub uninterp spec fn json_print(value: JsonView) -> Seq<char>;

/// `serde_json::from_str`, read as a `serde_json::Value`. The result depends on
/// the text alone.
#[verifier::external_body]
fn read_value(text: &str) -> (r: Result<serde_json::Value, String>)
    ensures
        json_read(text@) == (match r {
            Ok(value) => Ok::<JsonView, Seq<char>>(value_view(value)),
            Err(words) => Err(words@),
        }),
{
    serde_json::from_str::<serde_json::Value>(text).map_err(|error| error.to_string())
}

/// Whether a value holds no number but whole ones, and its lists and objects
/// nest at most `depth` levels deep.
pub open spec fn plain_within(value: JsonView, depth: nat) -> bool
    decreases depth,
{
    match value {
        JsonView::Decimal(_) => false,
        JsonView::List(items) => depth > 0 && forall|i: int|
            0 <= i < items.len() ==> plain_within(#[trigger] items[i], (depth - 1) as nat),
        JsonView::Object(entries) => depth > 0 && forall|i: int|
            0 <= i < entries.len() ==> plain_within((#[trigger] entries[i]).1, (depth - 1) as nat),
        _ => true,
    }
}

/// Whether `serde_json::from_str` reads a value from a text.
pub open spec fn reads_as(text: Seq<char>, value: JsonView) -> bool {
    json_read(text) == Ok::<JsonView, Seq<char>>(value)
}

/// How deep lists and objects may nest in a text that `serde_json::from_str`
/// reads.
pub open spec fn depth_read() -> nat {
    127
}

/// `Value::to_string`: the compact text depends on what the value holds alone.
/// It is a single line, for a line feed within a string is escaped, and
/// `serde_json::from_str` reads the same value back where that value nests no
/// deeper than it reads and holds whole numbers only.
#[verifier::external_body]
fn print_value(value: &serde_json::Value) -> (r: String)
    ensures
        r@ == json_print(value_view(*value)),
        !r@.contains('\n'),
        plain_within(value_view(*value), depth_read()) ==> reads_as(r@, value_view(*value)),
{
    value.to_string()
}

/// A `serde_json::Value` opened by one level.
enum ValueNode {
    Null,
    Bool(bool),
    Unsigned(u64),
    Signed(i64),
    Number(serde_json::Number),
    Text(String),
    List(Vec<serde_json::Value>),
    Object(Vec<(String, serde_json::Value)>),
}

/// What an opened value holds.
spec fn node_view(node: ValueNode) -> JsonView {
    match node {
        ValueNode::Null => JsonView::Null,
        ValueNode::Bool(b) => JsonView::Bool(b),
        ValueNode::Unsigned(n) => JsonView::Integer(n as int),
        ValueNode::Signed(n) => JsonView::Integer(n as int),
        ValueNode::Number(n) => number_meaning(n),
        ValueNode::Text(s) => JsonView::Text(s@),
        ValueNode::List(items) => JsonView::List(
            items@.map_values(|item: serde_json::Value| value_view(item)),
        ),
        ValueNode::Object(entries) => JsonView::Object(
            entries@.map_values(|entry: (String, serde_json::Value)|
                (entry.0@, value_view(entry.1))),
        ),
    }
}

/// Whether the keys of an object's entries ascend strictly.
pub open spec fn ascending(entries: Seq<(Seq<char>, JsonView)>) -> bool {
    forall|i: int, j: int|
        0 <= i < j < entries.len() ==> precedes(#[trigger] entries[i].0, #[trigger] entries[j].0)
}

/// Tells the variants of a `serde_json::Value` apart. An object's entries come in
/// ascending order of their keys, as its `BTreeMap` keeps them.
#[verifier::external_body]
fn open_value(value: serde_json::Value) -> (r: ValueNode)
    ensures
        node_view(r) == value_view(value),
        node_view(r) matches JsonView::Object(entries) ==> ascending(entries),
{
    match value {
        serde_json::Value::Null => ValueNode::Null,
        serde_json::Value::Bool(b) => ValueNode::Bool(b),
        serde_json::Value::Number(n) => ValueNode::Number(n),
        serde_json::Value::String(s) => ValueNode::Text(s),
        serde_json::Value::Array(items) => ValueNode::List(items),
        serde_json::Value::Object(map) => ValueNode::Object(map.into_iter().collect()),
    }
}

/// Makes a `serde_json::Value` of its variant and what that variant holds.
#[verifier::external_body]
fn close_value(node: ValueNode) -> (r: serde_json::Value)
    requires
        node_view(node) matches JsonView::Object(entries) ==> ascending(entries),
    ensures
        value_view(r) == node_view(node),
{
    match node {
        ValueNode::Null => serde_json::Value::Null,
        ValueNode::Bool(b) => serde_json::Value::Bool(b),
        ValueNode::Unsigned(n) => serde_json::Value::Number(n.into()),
        ValueNode::Signed(n) => serde_json::Value::Number(n.into()),
        ValueNode::Number(n) => serde_json::Value::Number(n),
        ValueNode::Text(s) => serde_json::Value::String(s),
        ValueNode::List(items) => serde_json::Value::Array(items),
        ValueNode::Object(entries) => serde_json::Value::Object(entries.into_iter().collect()),
    }
}

/// The value that stands under `key`, if any.
pub open spec fn lookup(entries: Seq<(Seq<char>, JsonView)>, key: Seq<char>) -> Option<JsonView>
    decreases entries.len(),
{
    if entries.len() == 0 {
        None
    } else if entries[0].0 == key {
        Some(entries[0].1)
    } else {
        lookup(entries.drop_first(), key)
    }
}

/// The entries with `value` under `key`, in place of what stood there.
pub open spec fn put(
    entries: Seq<(Seq<char>, JsonView)>,
    key: Seq<char>,
    value: JsonView,
) -> Seq<(Seq<char>, JsonView)>
    decreases entries.len(),
{
    if entries.len() == 0 {
        seq![(key, value)]
    } else if entries[0].0 == key {
        seq![(key, value)] + entries.drop_first()
    } else if precedes(key, entries[0].0) {
        seq![(key, value)] + entries
    } else {
        seq![entries[0]] + put(entries.drop_first(), key, value)
    }
}

/// Whether an entry stands under another key.
pub open spec fn other_than(key: Seq<char>) -> spec_fn((Seq<char>, JsonView)) -> bool {
    |entry: (Seq<char>, JsonView)| entry.0 != key
}

/// The entries without the one under `key`.
pub open spec fn take_out(
    entries: Seq<(Seq<char>, JsonView)>,
    key: Seq<char>,
) -> Seq<(Seq<char>, JsonView)> {
    entries.filter(other_than(key))
}

/// An object without entries.
pub open spec fn no_entries() -> Seq<(Seq<char>, JsonView)> {
    Seq::empty()
}

impl JsonView {
    /// The value under `key`, where this is an object that has one.
    pub open spec fn get(self, key: Seq<char>) -> Option<JsonView> {
        match self {
            JsonView::Object(entries) => lookup(entries, key),
            _ => None,
        }
    }

    /// The number, where this is a whole number that fits a `u64`.
    pub open spec fn as_u64(self) -> Option<u64> {
        match self {
            JsonView::Integer(n) if 0 <= n <= u64::MAX => Some(n as u64),
            _ => None,
        }
    }

    /// The number, where this is a whole number that fits an `i64`.
    pub open spec fn as_i64(self) -> Option<i64> {
        match self {
            JsonView::Integer(n) if i64::MIN <= n <= i64::MAX => Some(n as i64),
            _ => None,
        }
    }

    /// The truth value, where this is one.
    pub open spec fn as_bool(self) -> Option<bool> {
        match self {
            JsonView::Bool(b) => Some(b),
            _ => None,
        }
    }

    /// The text, where this is one.
    pub open spec fn as_text(self) -> Option<Seq<char>> {
        match self {
            JsonView::Text(s) => Some(s),
            _ => None,
        }
    }
}

/// What stands under a key after a value was put under one: the value itself
/// under that key, and under every other key what stood there before.
pub proof fn lookup_after_put(
    entries: Seq<(Seq<char>, JsonView)>,
    key: Seq<char>,
    value: JsonView,
    other: Seq<char>,
)
    ensures
        lookup(put(entries, key, value), key) == Some(value),
        other != key ==> lookup(put(entries, key, value), other) == lookup(entries, other),
    decreases entries.len(),
{
    if entries.len() == 0 {
        assert(seq![(key, value)].drop_first() =~= entries);
    } else if entries[0].0 == key {
        assert((seq![(key, value)] + entries.drop_first()).drop_first() =~= entries.drop_first());
    } else if precedes(key, entries[0].0) {
        assert((seq![(key, value)] + entries).drop_first() =~= entries);
    } else {
        lookup_after_put(entries.drop_first(), key, value, other);
        let rest = put(entries.drop_first(), key, value);
        assert((seq![entries[0]] + rest).drop_first() =~= rest);
    }
}

/// What stands under a key after a value was put under one.
pub broadcast proof fn lookup_of_put(
    entries: Seq<(Seq<char>, JsonView)>,
    key: Seq<char>,
    value: JsonView,
    wanted: Seq<char>,
)
    ensures
        #[trigger] lookup(put(entries, key, value), wanted) == if wanted == key {
            Some(value)
        } else {
            lookup(entries, wanted)
        },
{
    lookup_after_put(entries, key, value, wanted);
}

/// Putting a value under a key adds one entry where the key was not there, and
/// none where it was.
pub broadcast proof fn len_of_put(
    entries: Seq<(Seq<char>, JsonView)>,
    key: Seq<char>,
    value: JsonView,
)
    requires
        ascending(entries),
    ensures
        ascending(put(entries, key, value)),
        #[trigger] put(entries, key, value).len() == entries.len() + if lookup(entries, key)
            is Some {
            0int
        } else {
            1
        },
    decreases entries.len(),
{
    put_keeps_order(entries, key, value);
    if entries.len() > 0 {
        if entries[0].0 != key && !precedes(key, entries[0].0) {
            assert(ascending(entries.drop_first())) by {
                assert forall|i: int, j: int| 0 <= i < j < entries.drop_first().len() implies precedes(
                    (#[trigger] entries.drop_first()[i]).0,
                    (#[trigger] entries.drop_first()[j]).0,
                ) by {
                    assert(entries.drop_first()[i] == entries[i + 1]);
                    assert(entries.drop_first()[j] == entries[j + 1]);
                }
            }
            len_of_put(entries.drop_first(), key, value);
        } else if entries[0].0 != key {
            assert forall|i: int| 0 <= i < entries.len() implies (#[trigger] entries[i]).0
                != key by {
                precedes_irreflexive(key);
                if i > 0 {
                    precedes_transitive(key, entries[0].0, entries[i].0);
                }
            }
            lemma_none_behind(entries, key);
        }
    }
}

/// A key that no entry has leads to nothing.
proof fn lemma_none_behind(entries: Seq<(Seq<char>, JsonView)>, key: Seq<char>)
    requires
        forall|i: int| 0 <= i < entries.len() ==> (#[trigger] entries[i]).0 != key,
    ensures
        lookup(entries, key) is None,
    decreases entries.len(),
{
    if entries.len() > 0 {
        assert forall|i: int| 0 <= i < entries.drop_first().len() implies (
        #[trigger] entries.drop_first()[i]).0 != key by {
            assert(entries.drop_first()[i] == entries[i + 1]);
        }
        lemma_none_behind(entries.drop_first(), key);
    }
}

/// Taking a key out leaves nothing under it, and every other key as it was.
pub proof fn lookup_after_take_out(
    entries: Seq<(Seq<char>, JsonView)>,
    key: Seq<char>,
    other: Seq<char>,
)
    ensures
        lookup(take_out(entries, key), key) is None,
        other != key ==> lookup(take_out(entries, key), other) == lookup(entries, other),
    decreases entries.len(),
{
    let kept = other_than(key);
    if entries.len() > 0 {
        let rest = entries.drop_first();
        lookup_after_take_out(rest, key, other);
        assert(entries =~= seq![entries[0]] + rest);
        Seq::filter_distributes_over_add(seq![entries[0]], rest, kept);
        reveal(Seq::filter);
        assert(seq![entries[0]].drop_last() =~= Seq::<(Seq<char>, JsonView)>::empty());
        if entries[0].0 != key {
            assert(take_out(entries, key) =~= seq![entries[0]] + take_out(rest, key));
            assert(take_out(entries, key).drop_first() =~= take_out(rest, key));
        } else {
            let first = seq![entries[0]];
            assert(first.last() == entries[0]);
            assert(first.filter(kept) == first.drop_last().filter(kept));
            assert(first.drop_last().filter(kept) =~= no_entries());
            assert(take_out(entries, key) =~= take_out(rest, key));
        }
    } else {
        reveal(Seq::filter);
        assert(take_out(entries, key) =~= entries);
    }
}

/// Putting a value under a key keeps the keys in ascending order.
pub proof fn put_keeps_order(
    entries: Seq<(Seq<char>, JsonView)>,
    key: Seq<char>,
    value: JsonView,
)
    requires
        ascending(entries),
    ensures
        ascending(put(entries, key, value)),
        forall|i: int|
            0 <= i < put(entries, key, value).len() ==> (#[trigger] put(
                entries,
                key,
                value,
            )[i]).0 == key || exists|j: int|
                0 <= j < entries.len() && (#[trigger] entries[j]).0 == put(
                    entries,
                    key,
                    value,
                )[i].0,
    decreases entries.len(),
{
    let result = put(entries, key, value);
    if entries.len() == 0 {
    } else if entries[0].0 == key {
        let rest = entries.drop_first();
        assert forall|i: int| 0 <= i < result.len() implies (#[trigger] result[i]).0
            == entries[i].0 by {
            if i > 0 {
                assert(result[i] == rest[i - 1]);
            }
        }
    } else if precedes(key, entries[0].0) {
        assert forall|i: int, j: int| 0 <= i < j < result.len() implies precedes(
            #[trigger] result[i].0,
            #[trigger] result[j].0,
        ) by {
            assert(result[j] == entries[j - 1]);
            if i == 0 {
                if j > 1 {
                    precedes_transitive(key, entries[0].0, entries[j - 1].0);
                }
            } else {
                assert(result[i] == entries[i - 1]);
            }
        }
        assert forall|i: int| 0 < i < result.len() implies exists|j: int|
            0 <= j < entries.len() && (#[trigger] entries[j]).0 == (#[trigger] result[i]).0 by {
            assert(entries[i - 1] == result[i]);
        }
    } else {
        let rest = entries.drop_first();
        assert forall|i: int, j: int| 0 <= i < j < rest.len() implies precedes(
            #[trigger] rest[i].0,
            #[trigger] rest[j].0,
        ) by {
            assert(rest[i] == entries[i + 1]);
            assert(rest[j] == entries[j + 1]);
        }
        put_keeps_order(rest, key, value);
        let tail = put(rest, key, value);
        assert(forall|i: int| 0 < i < result.len() ==> #[trigger] result[i] == tail[i - 1]);
        assert forall|i: int| 0 < i < result.len() implies (#[trigger] result[i]).0 == key
            || exists|j: int| 1 <= j < entries.len() && (#[trigger] entries[j]).0 == result[i].0 by {
            assert(result[i] == tail[i - 1]);
            if tail[i - 1].0 != key {
                let j = choose|j: int|
                    0 <= j < rest.len() && (#[trigger] rest[j]).0 == tail[i - 1].0;
                assert(entries[j + 1] == rest[j]);
            }
        }
        assert forall|i: int, j: int| 0 <= i < j < result.len() implies precedes(
            #[trigger] result[i].0,
            #[trigger] result[j].0,
        ) by {
            if i > 0 {
                assert(result[i] == tail[i - 1]);
                assert(result[j] == tail[j - 1]);
            } else if result[j].0 == key {
                precedes_total(entries[0].0, key);
            }
        }
        assert(entries[0] == result[0]);
    }
}

proof fn lemma_put_skips(
    entries: Seq<(Seq<char>, JsonView)>,
    key: Seq<char>,
    value: JsonView,
    at: int,
)
    requires
        0 <= at <= entries.len(),
        forall|j: int| 0 <= j < at ==> precedes((#[trigger] entries[j]).0, key),
    ensures
        put(entries, key, value) == entries.take(at) + put(entries.skip(at), key, value),
    decreases at,
{
    if at == 0 {
        assert(entries.skip(0) =~= entries);
        assert(entries.take(0) + put(entries, key, value) =~= put(entries, key, value));
    } else {
        let rest = entries.drop_first();
        assert forall|j: int| 0 <= j < at - 1 implies precedes((#[trigger] rest[j]).0, key) by {
            assert(rest[j] == entries[j + 1]);
        }
        lemma_put_skips(rest, key, value, at - 1);
        assert(precedes(entries[0].0, key));
        precedes_irreflexive(key);
        if precedes(key, entries[0].0) {
            precedes_transitive(key, entries[0].0, key);
        }
        assert(rest.skip(at - 1) =~= entries.skip(at));
        assert(entries.take(at) =~= seq![entries[0]] + rest.take(at - 1));
        assert(put(entries, key, value) =~= entries.take(at) + put(
            entries.skip(at),
            key,
            value,
        ));
    }
}

impl JsonObject {
    #[verifier::type_invariant]
    closed spec fn in_order(self) -> bool {
        ascending(self@)
    }

    /// An object without entries.
    pub fn new() -> (r: JsonObject)
        ensures
            r@ == no_entries(),
    {
        let entries: Vec<(String, Json)> = Vec::new();
        let object = JsonObject { entries };
        assert(object@ =~= no_entries());
        object
    }

    /// How many entries the object has.
    pub fn len(&self) -> (r: usize)
        ensures
            r == self@.len(),
    {
        self.entries.len()
    }

    /// The value of the entry at a position.
    pub fn value_at(&self, i: usize) -> (r: &Json)
        requires
            i < self@.len(),
        ensures
            r@ == self@[i as int].1,
    {
        &self.entries[i].1
    }

    /// The value under a key.
    pub fn get(&self, key: &str) -> (r: Option<&Json>)
        ensures
            match r {
                Some(value) => lookup(self@, key@) == Some(value@),
                None => lookup(self@, key@) is None,
            },
    {
        let mut i: usize = 0;
        assert(self@.skip(0) =~= self@);
        while i < self.entries.len()
            invariant
                i <= self.entries@.len(),
                lookup(self@, key@) == lookup(self@.skip(i as int), key@),
            decreases self.entries@.len() - i,
        {
            assert(self@.skip(i as int)[0] == self@[i as int]);
            if same(self.entries[i].0.as_str(), key) {
                return Some(&self.entries[i].1);
            }
            assert(self@.skip(i as int).drop_first() =~= self@.skip(i + 1));
            i += 1;
        }
        None
    }

    /// The object with `value` under `key`, in place of what stood there.
    pub fn with(self, key: &str, value: Json) -> (r: JsonObject)
        ensures
            r@ == put(self@, key@, value@),
    {
        proof {
            use_type_invariant(&self);
        }
        let ghost before = self@;
        let ghost given = value@;
        let mut entries = self.entries;
        let mut at: usize = 0;
        while at < entries.len() && comes_before(entries[at].0.as_str(), key)
            invariant
                at <= entries@.len(),
                before == (JsonObject { entries })@,
                forall|j: int| 0 <= j < at ==> precedes((#[trigger] before[j]).0, key@),
            decreases entries@.len() - at,
        {
            assert(before[at as int].0 == entries@[at as int].0@);
            at += 1;
        }
        let ghost rest = before.skip(at as int);
        proof {
            lemma_put_skips(before, key@, given, at as int);
            put_keeps_order(before, key@, given);
            if at < before.len() {
                assert(rest[0] == before[at as int]);
                assert(before[at as int].0 == entries@[at as int].0@);
                precedes_total(rest[0].0, key@);
            }
        }
        if at < entries.len() && same(entries[at].0.as_str(), key) {
            let (name, _) = entries.remove(at);
            entries.insert(at, (name, value));
        } else {
            entries.insert(at, (key.to_owned(), value));
        }
        proof {
            assert((JsonObject { entries })@ =~= before.take(at as int) + put(rest, key@, given));
        }
        JsonObject { entries }
    }

    /// The object without the entry under `key`.
    pub fn without(self, key: &str) -> (r: JsonObject)
        ensures
            r@ == take_out(self@, key@),
    {
        proof {
            use_type_invariant(&self);
        }
        let ghost before = self@;
        let ghost kept = other_than(key@);
        let mut out: Vec<(String, Json)> = Vec::new();
        let entries = self.entries;
        proof {
            reveal(Seq::filter);
            assert(before.take(0) =~= no_entries());
            assert((JsonObject { entries: out })@ =~= no_entries());
        }
        for entry in it: entries
            invariant
                it.seq() == entries@,
                before == (JsonObject { entries })@,
                kept == other_than(key@),
                (JsonObject { entries: out })@ == before.take(it.index() as int).filter(kept),
        {
            let ghost at = it.index() as int;
            let ghost sofar = (JsonObject { entries: out })@;
            proof {
                assert(before.take(at + 1) =~= before.take(at).push(before[at]));
                before.take(at).lemma_filter_push(before[at], kept);
            }
            if !same(entry.0.as_str(), key) {
                let ghost last = entry;
                out.push(entry);
                assert((JsonObject { entries: out })@ =~= sofar.push(before[at]));
            }
        }
        proof {
            assert(before.take(before.len() as int) =~= before);
            lemma_filter_ascending(before, kept);
        }
        JsonObject { entries: out }
    }
}

proof fn lemma_filter_ascending(
    entries: Seq<(Seq<char>, JsonView)>,
    kept: spec_fn((Seq<char>, JsonView)) -> bool,
)
    requires
        ascending(entries),
    ensures
        ascending(entries.filter(kept)),
        forall|i: int|
            0 <= i < entries.filter(kept).len() ==> exists|j: int|
                0 <= j < entries.len() && entries[j] == #[trigger] entries.filter(kept)[i],
    decreases entries.len(),
{
    reveal(Seq::filter);
    if entries.len() > 0 {
        let front = entries.drop_last();
        assert forall|i: int, j: int| 0 <= i < j < front.len() implies precedes(
            #[trigger] front[i].0,
            #[trigger] front[j].0,
        ) by {
            assert(front[i] == entries[i]);
            assert(front[j] == entries[j]);
        }
        lemma_filter_ascending(front, kept);
        let result = entries.filter(kept);
        let sofar = front.filter(kept);
        assert forall|i: int| 0 <= i < sofar.len() implies exists|j: int|
            0 <= j < entries.len() - 1 && entries[j] == #[trigger] sofar[i] by {
            let j = choose|j: int| 0 <= j < front.len() && front[j] == sofar[i];
            assert(entries[j] == front[j]);
        }
        assert forall|i: int| 0 <= i < result.len() implies exists|j: int|
            0 <= j < entries.len() && entries[j] == #[trigger] result[i] by {
            if i < sofar.len() {
                assert(result[i] == sofar[i]);
            } else {
                assert(entries[entries.len() - 1] == result[i]);
            }
        }
        assert forall|i: int, j: int| 0 <= i < j < result.len() implies precedes(
            #[trigger] result[i].0,
            #[trigger] result[j].0,
        ) by {
            assert(result[i] == sofar[i]);
            if j < sofar.len() {
                assert(result[j] == sofar[j]);
            } else {
                let k = choose|k: int| 0 <= k < entries.len() - 1 && entries[k] == sofar[i];
                assert(precedes(entries[k].0, entries[entries.len() - 1].0));
            }
        }
    }
}

/// The views of a list of JSON values.
pub open spec fn json_views(items: Seq<Json>) -> Seq<JsonView> {
    items.map_values(|item: Json| item@)
}

/// The view of an optional JSON value.
pub open spec fn opt_json(value: Option<Json>) -> Option<JsonView> {
    match value {
        Some(v) => Some(v@),
        None => None,
    }
}

impl Clone for Json {
    fn clone(&self) -> (r: Json)
        ensures
            r@ == self@,
        decreases self,
    {
        match self {
            Json::Null => Json::Null,
            Json::Bool(b) => Json::Bool(*b),
            Json::Unsigned(n) => Json::Unsigned(*n),
            Json::Signed(n) => Json::Signed(*n),
            Json::Number(n) => Json::Number(n.clone()),
            Json::Text(s) => Json::Text(s.clone()),
            Json::List(items) => {
                let mut out: Vec<Json> = Vec::new();
                for i in 0..items.len()
                    invariant
                        decreases_to!(self => items),
                        out@.len() == i,
                        forall|j: int| 0 <= j < i ==> (#[trigger] out@[j])@ == items@[j]@,
                {
                    assert(decreases_to!(items => items@));
                    assert(decreases_to!(items@ => items@[i as int]));
                    out.push(items[i].clone());
                }
                let copy = Json::List(out);
                assert(copy@->List_0 =~= self@->List_0);
                copy
            },
            Json::Object(object) => Json::Object(object.clone()),
        }
    }
}

impl Clone for JsonObject {
    fn clone(&self) -> (r: JsonObject)
        ensures
            r@ == self@,
        decreases self,
    {
        proof {
            use_type_invariant(self);
        }
        let mut entries: Vec<(String, Json)> = Vec::new();
        for i in 0..self.entries.len()
            invariant
                entries@.len() == i,
                forall|j: int|
                    0 <= j < i ==> (#[trigger] entries@[j]).0@ == self.entries@[j].0@
                        && entries@[j].1@ == self.entries@[j].1@,
        {
            assert(decreases_to!(self => self.entries));
            assert(decreases_to!(self.entries => self.entries@));
            assert(decreases_to!(self.entries@ => self.entries@[i as int]));
            let entry = &self.entries[i];
            entries.push((entry.0.clone(), entry.1.clone()));
        }
        proof {
            assert((JsonObject { entries })@ =~= self@);
        }
        JsonObject { entries }
    }
}

impl Json {
    /// A text value.
    pub fn text(s: &str) -> (r: Json)
        ensures
            r@ == JsonView::Text(s@),
    {
        Json::Text(s.to_owned())
    }

    /// A text value, or null.
    pub fn optional_text(s: &Option<String>) -> (r: Json)
        ensures
            r@ == optional_text_view(opt_view(*s)),
    {
        match s {
            Some(t) => Json::Text(t.clone()),
            None => Json::Null,
        }
    }

    /// A copy of an optional value, or null.
    pub fn or_null(value: &Option<Json>) -> (r: Json)
        ensures
            r@ == or_null_view(opt_json(*value)),
    {
        match value {
            Some(v) => v.clone(),
            None => Json::Null,
        }
    }

    /// The value under `key`, where this is an object that has one.
    pub fn get(&self, key: &str) -> (r: Option<&Json>)
        ensures
            match r {
                Some(value) => self@.get(key@) == Some(value@),
                None => self@.get(key@) is None,
            },
    {
        match self {
            Json::Object(object) => object.get(key),
            _ => None,
        }
    }

    /// The number, where this is a whole number that fits a `u64`.
    pub fn as_u64(&self) -> (r: Option<u64>)
        ensures
            r == self@.as_u64(),
    {
        match self {
            Json::Unsigned(n) => Some(*n),
            Json::Signed(n) if *n >= 0 => Some(*n as u64),
            Json::Number(n) => n.as_u64(),
            _ => None,
        }
    }

    /// The number, where this is a whole number that fits an `i64`.
    pub fn as_i64(&self) -> (r: Option<i64>)
        ensures
            r == self@.as_i64(),
    {
        match self {
            Json::Unsigned(n) if *n <= 0x7fff_ffff_ffff_ffff => Some(*n as i64),
            Json::Signed(n) => Some(*n),
            Json::Number(n) => n.as_i64(),
            _ => None,
        }
    }

    /// The truth value, where this is one.
    pub fn as_bool(&self) -> (r: Option<bool>)
        ensures
            r == self@.as_bool(),
    {
        match self {
            Json::Bool(b) => Some(*b),
            _ => None,
        }
    }

    /// The text, where this is one.
    pub fn as_str(&self) -> (r: Option<&str>)
        ensures
            match r {
                Some(s) => self@.as_text() == Some(s@),
                None => self@.as_text() is None,
            },
    {
        match self {
            Json::Text(s) => Some(s.as_str()),
            _ => None,
        }
    }

    /// Whether this is null.
    pub fn is_null(&self) -> (r: bool)
        ensures
            r == (self@ == JsonView::Null),
    {
        match self {
            Json::Null => true,
            _ => false,
        }
    }

    /// Whether this is an object.
    pub fn is_object(&self) -> (r: bool)
        ensures
            r == (self@ is Object),
    {
        match self {
            Json::Object(_) => true,
            _ => false,
        }
    }

    /// Takes over a `serde_json::Value`.
    pub fn from_value(value: serde_json::Value) -> (r: Json)
        ensures
            r@ == value_view(value),
        decreases value_view(value),
    {
        match open_value(value) {
            ValueNode::Null => Json::Null,
            ValueNode::Bool(b) => Json::Bool(b),
            ValueNode::Unsigned(n) => Json::Unsigned(n),
            ValueNode::Signed(n) => Json::Signed(n),
            ValueNode::Number(n) => match (n.as_u64(), n.as_i64()) {
                (Some(u), _) => Json::Unsigned(u),
                (None, Some(i)) => Json::Signed(i),
                (None, None) => Json::Number(n),
            },
            ValueNode::Text(s) => Json::Text(s),
            ValueNode::List(items) => {
                let ghost all = value_view(value)->List_0;
                let mut out: Vec<Json> = Vec::new();
                for item in it: items
                    invariant
                        it.seq() == items@,
                        value_view(value) == JsonView::List(all),
                        all == items@.map_values(|item: serde_json::Value| value_view(item)),
                        out@.len() == it.index(),
                        forall|j: int| 0 <= j < it.index() ==> (#[trigger] out@[j])@ == all[j],
                {
                    proof {
                        assert(decreases_to!(value_view(value) => value_view(value)->List_0));
                        assert(decreases_to!(all => all[it.index() as int]));
                    }
                    out.push(Json::from_value(item));
                }
                let result = Json::List(out);
                assert(result@->List_0 =~= all);
                result
            },
            ValueNode::Object(entries) => {
                let ghost all = value_view(value)->Object_0;
                let mut out: Vec<(String, Json)> = Vec::new();
                for entry in it: entries
                    invariant
                        it.seq() == entries@,
                        value_view(value) == JsonView::Object(all),
                        all == entries@.map_values(
                            |entry: (String, serde_json::Value)| (entry.0@, value_view(entry.1)),
                        ),
                        out@.len() == it.index(),
                        forall|j: int|
                            0 <= j < it.index() ==> ((#[trigger] out@[j]).0@, out@[j].1@)
                                == all[j],
                {
                    proof {
                        assert(decreases_to!(value_view(value) => value_view(value)->Object_0));
                        assert(decreases_to!(all => all[it.index() as int]));
                        assert(decreases_to!(all[it.index() as int] => all[it.index() as int].1));
                    }
                    out.push((entry.0, Json::from_value(entry.1)));
                }
                proof {
                    assert((JsonObject { entries: out })@ =~= all);
                }
                Json::Object(JsonObject { entries: out })
            },
        }
    }

    /// Hands the value over as a `serde_json::Value`.
    pub fn into_value(self) -> (r: serde_json::Value)
        ensures
            value_view(r) == self@,
        decreases self@,
    {
        let ghost whole = self@;
        let node = match self {
            Json::Null => ValueNode::Null,
            Json::Bool(b) => ValueNode::Bool(b),
            Json::Unsigned(n) => ValueNode::Unsigned(n),
            Json::Signed(n) => ValueNode::Signed(n),
            Json::Number(n) => ValueNode::Number(n),
            Json::Text(s) => ValueNode::Text(s),
            Json::List(items) => {
                let ghost all = whole->List_0;
                let mut out: Vec<serde_json::Value> = Vec::new();
                for item in it: items
                    invariant
                        it.seq() == items@,
                        whole == self@,
                        whole == JsonView::List(all),
                        all =~= json_views(items@),
                        out@.len() == it.index(),
                        forall|j: int|
                            0 <= j < it.index() ==> value_view(#[trigger] out@[j]) == all[j],
                {
                    proof {
                        assert(decreases_to!(whole => whole->List_0));
                        assert(decreases_to!(all => all[it.index() as int]));
                    }
                    out.push(item.into_value());
                }
                assert(out@.map_values(|item: serde_json::Value| value_view(item)) =~= all);
                ValueNode::List(out)
            },
            Json::Object(object) => {
                proof {
                    use_type_invariant(&object);
                }
                let ghost all = whole->Object_0;
                let entries = object.entries;
                let mut out: Vec<(String, serde_json::Value)> = Vec::new();
                for entry in it: entries
                    invariant
                        it.seq() == entries@,
                        whole == self@,
                        whole == JsonView::Object(all),
                        all == (JsonObject { entries })@,
                        out@.len() == it.index(),
                        forall|j: int|
                            0 <= j < it.index() ==> ((#[trigger] out@[j]).0@, value_view(
                                out@[j].1,
                            )) == all[j],
                {
                    proof {
                        assert(decreases_to!(whole => whole->Object_0));
                        assert(decreases_to!(all => all[it.index() as int]));
                        assert(decreases_to!(all[it.index() as int] => all[it.index() as int].1));
                    }
                    out.push((entry.0, entry.1.into_value()));
                }
                assert(out@.map_values(
                    |entry: (String, serde_json::Value)| (entry.0@, value_view(entry.1)),
                ) =~= all);
                ValueNode::Object(out)
            },
        };
        close_value(node)
    }

    /// Reads a JSON text.
    pub fn parse(text: &str) -> (r: Result<Json, String>)
        ensures
            json_read(text@) == (match r {
                Ok(value) => Ok::<JsonView, Seq<char>>(value@),
                Err(words) => Err(words@),
            }),
    {
        match read_value(text) {
            Ok(value) => Ok(Json::from_value(value)),
            Err(words) => Err(words),
        }
    }

    /// The compact JSON text of the value.
    pub fn to_text(&self) -> (r: String)
        ensures
            r@ == json_print(self@),
            !r@.contains('\n'),
            plain_within(self@, depth_read()) ==> reads_as(r@, self@),
    {
        print_value(&self.clone().into_value())
    }
}

/// A text value, or null.
pub open spec fn optional_text_view(s: Option<Seq<char>>) -> JsonView {
    match s {
        Some(t) => JsonView::Text(t),
        None => JsonView::Null,
    }
}

/// An optional value, or null.
pub open spec fn or_null_view(value: Option<JsonView>) -> JsonView {
    match value {
        Some(v) => v,
        None => JsonView::Null,
    }
}

/// A copy of a list of JSON values.
pub fn copy_items(items: &Vec<Json>) -> (r: Vec<Json>)
    ensures
        json_views(r@) == json_views(items@),
{
    let mut out: Vec<Json> = Vec::new();
    for i in 0..items.len()
        invariant
            out@.len() == i,
            forall|j: int| 0 <= j < i ==> (#[trigger] out@[j])@ == items@[j]@,
    {
        out.push(items[i].clone());
    }
    assert(json_views(out@) =~= json_views(items@));
    out
}

/// Whether the values of an object's entries are plain within a depth.
pub open spec fn entries_plain_within(entries: Seq<(Seq<char>, JsonView)>, depth: nat) -> bool {
    forall|i: int| 0 <= i < entries.len() ==> plain_within((#[trigger] entries[i]).1, depth)
}

/// Entries that are plain within a depth stay so with one more such value.
pub proof fn put_keeps_plain(
    entries: Seq<(Seq<char>, JsonView)>,
    key: Seq<char>,
    value: JsonView,
    depth: nat,
)
    requires
        entries_plain_within(entries, depth),
        plain_within(value, depth),
    ensures
        entries_plain_within(put(entries, key, value), depth),
    decreases entries.len(),
{
    if entries.len() > 0 {
        let rest = entries.drop_first();
        assert forall|i: int| 0 <= i < rest.len() implies plain_within(
            (#[trigger] rest[i]).1,
            depth,
        ) by {
            assert(rest[i] == entries[i + 1]);
        }
        put_keeps_plain(rest, key, value, depth);
        assert(plain_within(entries[0].1, depth));
    }
}

/// A value is read as what it is and as nothing else: a whole number as a number,
/// where it fits, a truth value as such, and a text as its characters.
pub proof fn values_are_read_as_what_they_are(value: JsonView, n: int, b: bool, s: Seq<char>)
    ensures
        value.as_u64() matches Some(k) ==> value == JsonView::Integer(k as int),
        0 <= n <= u64::MAX ==> JsonView::Integer(n).as_u64() == Some(n as u64),
        value.as_i64() matches Some(k) ==> value == JsonView::Integer(k as int),
        i64::MIN <= n <= i64::MAX ==> JsonView::Integer(n).as_i64() == Some(n as i64),
        value.as_bool() == Some(b) <==> value == JsonView::Bool(b),
        value.as_text() == Some(s) <==> value == JsonView::Text(s),
        !(value is Object) ==> value.get(s) is None,
{
}

} // verus!
