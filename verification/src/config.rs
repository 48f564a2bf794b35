//! The settings of a session: what the workspace's configuration file and the
//! environment say together.

use crate::decimal::digits;
use crate::decimal::digits_are_worth_the_number;
use crate::decimal::worth;
use crate::failure::Failure;
use crate::json::json_read;
use crate::json::value_view;
use crate::json::Json;
use crate::json::JsonView;
use crate::model::retention_label;
use crate::text::around;
use crate::text::around_two;
use crate::text::ascii_lower;
use crate::text::chars_of;
use crate::text::ends_in;
use crate::text::ends_with;
use crate::text::is_white;
use crate::text::join;
use crate::text::joined;
use crate::text::joining_is_associative;
use crate::text::middle_occurs;
use crate::text::occurs;
use crate::text::occurs_at;
use crate::text::opt_view;
use crate::text::parts_occur_in_joined;
use crate::text::same;
use crate::text::string_of;
use crate::text::to_ascii_lowercase;
use crate::text::trim;
use crate::text::trim_start;
use crate::text::trimmed;
use crate::text::trimmed_text_is_bare;
use crate::text::views;
use vstd::prelude::*;

verus! {

/// Where the configuration lies below the workspace root.
pub const FERRIX_CONFIG_PATH: &'static str = ".ferrix/config.json";

/// The provider where none is named.
pub const DEFAULT_PROVIDER: &'static str = "openai-compatible";

/// The model where none is named.
pub const DEFAULT_MODEL: &'static str = "gpt-5.5";

/// The base URL of OpenAI's API.
pub const OPENAI_API_BASE: &'static str = "https://api.openai.com/v1";

/// The base URL of OpenRouter's API.
pub const OPENROUTER_API_BASE: &'static str = "https://openrouter.ai/api/v1";

/// A single precision number: its bits by IEEE 754, and the text that it is
/// shown as.
#[derive(Debug)]
pub struct Float32 {
    pub bits: u32,
    pub shown: String,
}

impl Clone for Float32 {
    fn clone(&self) -> (r: Float32)
        ensures
            r@ == self@,
    {
        Float32 { bits: self.bits, shown: self.shown.clone() }
    }
}

/// What a number holds.
#[verifier::ext_equal]
pub struct FloatView {
    pub bits: u32,
    pub shown: Seq<char>,
}

impl View for Float32 {
    type V = FloatView;

    open spec fn view(&self) -> FloatView {
        FloatView { bits: self.bits, shown: self.shown@ }
    }
}

/// The view of an optional number.
pub open spec fn opt_float(n: Option<Float32>) -> Option<FloatView> {
    match n {
        Some(f) => Some(f@),
        None => None,
    }
}

/// The value of an environment variable: its text, and what that text is as a
/// number, or the words of why it is none.
#[derive(Debug)]
pub struct EnvValue {
    pub text: String,
    pub number: Result<Float32, String>,
}

/// What such a value holds.
#[verifier::ext_equal]
pub struct EnvValueView {
    pub text: Seq<char>,
    pub number: Result<FloatView, Seq<char>>,
}

impl View for EnvValue {
    type V = EnvValueView;

    open spec fn view(&self) -> EnvValueView {
        EnvValueView { text: self.text@, number: number_view(self.number) }
    }
}

/// The view of a number that may not be one.
pub open spec fn number_view(number: Result<Float32, String>) -> Result<FloatView, Seq<char>> {
    match number {
        Ok(f) => Ok(f@),
        Err(words) => Err(words@),
    }
}

/// The environment variables that are set to something.
#[derive(Debug)]
pub struct Environment {
    entries: Vec<(String, EnvValue)>,
}

/// The values under their names, later entries in place of earlier ones.
pub open spec fn env_map(entries: Seq<(String, EnvValue)>) -> Map<Seq<char>, EnvValueView>
    decreases entries.len(),
{
    if entries.len() == 0 {
        Map::empty()
    } else {
        env_map(entries.drop_last()).insert(entries.last().0@, entries.last().1@)
    }
}

impl View for Environment {
    type V = Map<Seq<char>, EnvValueView>;

    closed spec fn view(&self) -> Map<Seq<char>, EnvValueView> {
        env_map(self.entries@)
    }
}

/// The text of a variable.
pub open spec fn env_text(env: Map<Seq<char>, EnvValueView>, name: Seq<char>) -> Option<Seq<char>> {
    if env.contains_key(name) {
        Some(env[name].text)
    } else {
        None
    }
}

/// An environment after a variable was read: white space around the value does
/// not count, and an empty value counts as none.
pub open spec fn env_with(
    env: Map<Seq<char>, EnvValueView>,
    name: Seq<char>,
    raw: Seq<char>,
    number: Result<FloatView, Seq<char>>,
) -> Map<Seq<char>, EnvValueView> {
    if trimmed(raw).len() == 0 {
        env
    } else {
        env.insert(name, EnvValueView { text: trimmed(raw), number })
    }
}

impl Environment {
    /// An environment in which nothing is set.
    pub fn new() -> (r: Environment)
        ensures
            r@ == Map::<Seq<char>, EnvValueView>::empty(),
    {
        Environment { entries: Vec::new() }
    }

    /// Takes in a variable, given what its trimmed value is as a number.
    pub fn set(&mut self, name: &str, raw: &str, number: Result<Float32, String>)
        ensures
            final(self)@ == env_with(old(self)@, name@, raw@, number_view(number)),
    {
        let text = trim(raw);
        if text.as_str().is_empty() {
            return ;
        }
        let ghost before = self.entries@;
        self.entries.push((name.to_owned(), EnvValue { text, number }));
        assert(self.entries@.drop_last() =~= before);
    }

    /// The value of a variable.
    pub fn value(&self, name: &str) -> (r: Option<&EnvValue>)
        ensures
            match r {
                Some(value) => self@.contains_key(name@) && self@[name@] == value@,
                None => !self@.contains_key(name@),
            },
    {
        let mut i: usize = self.entries.len();
        assert(self.entries@.take(i as int) =~= self.entries@);
        while i > 0
            invariant
                i <= self.entries@.len(),
                self@.contains_key(name@) == env_map(self.entries@.take(i as int)).contains_key(
                    name@,
                ),
                self@.contains_key(name@) ==> self@[name@] == env_map(
                    self.entries@.take(i as int),
                )[name@],
            decreases i,
        {
            let ghost upto = self.entries@.take(i as int);
            assert(upto.drop_last() =~= self.entries@.take(i - 1));
            i -= 1;
            if same(self.entries[i].0.as_str(), name) {
                return Some(&self.entries[i].1);
            }
        }
        None
    }

    /// The text of a variable.
    pub fn get(&self, name: &str) -> (r: Option<String>)
        ensures
            opt_view(r) == env_text(self@, name@),
    {
        match self.value(name) {
            Some(value) => Some(value.text.clone()),
            None => None,
        }
    }
}

/// How long the provider keeps a cached prompt.
#[derive(Debug, Clone, Copy, PartialEq, Eq, Structural)]
pub enum PromptCacheRetention {
    InMemory,
    Hours24,
}

/// How hard a model should think.
#[derive(Debug, Clone, Copy, PartialEq, Eq, Structural)]
pub enum ReasoningEffort {
    NoEffort,
    Minimal,
    Low,
    Medium,
    High,
    Xhigh,
}

/// The kinds of provider.
#[derive(Debug, Clone, Copy, PartialEq, Eq, Structural)]
pub enum ProviderKind {
    OpenRouter,
    OpenAiCompatible,
}

/// A name as it is compared: trimmed, in lower case.
pub open spec fn folded(value: Seq<char>) -> Seq<char> {
    ascii_lower(trimmed(value))
}

fn fold(value: &str) -> (r: String)
    ensures
        r@ == folded(value@),
{
    to_ascii_lowercase(trim(value).as_str())
}

/// The kind that a provider's name stands for.
pub open spec fn kind_of(provider: Seq<char>) -> ProviderKind {
    if folded(provider) == "openrouter"@ {
        ProviderKind::OpenRouter
    } else {
        ProviderKind::OpenAiCompatible
    }
}

/// Tells a provider's kind by its name.
pub fn provider_kind(provider: &str) -> (r: ProviderKind)
    ensures
        r == kind_of(provider@),
{
    if same(fold(provider).as_str(), "openrouter") {
        ProviderKind::OpenRouter
    } else {
        ProviderKind::OpenAiCompatible
    }
}

/// The truth value that a text stands for.
pub open spec fn bool_named(value: Seq<char>) -> Result<bool, Seq<Seq<char>>> {
    let word = folded(value);
    if word == "1"@ || word == "true"@ || word == "yes"@ || word == "on"@ {
        Ok(true)
    } else if word == "0"@ || word == "false"@ || word == "no"@ || word == "off"@ {
        Ok(false)
    } else {
        Err(seq!["invalid boolean `"@ + word + "`; expected true or false"@])
    }
}

/// Reads a truth value.
pub fn parse_bool(value: &str) -> (r: Result<bool, Failure>)
    ensures
        bool_named(value@) == (match r {
            Ok(b) => Ok::<bool, Seq<Seq<char>>>(b),
            Err(failure) => Err(failure@),
        }),
{
    let word = fold(value);
    let w = word.as_str();
    if same(w, "1") || same(w, "true") || same(w, "yes") || same(w, "on") {
        Ok(true)
    } else if same(w, "0") || same(w, "false") || same(w, "no") || same(w, "off") {
        Ok(false)
    } else {
        Err(Failure::new(around("invalid boolean `", w, "`; expected true or false")))
    }
}

/// A setting that is a truth value: by the environment, else by the
/// configuration, else false.
pub open spec fn bool_setting(
    name: Seq<char>,
    env_value: Option<Seq<char>>,
    config_value: Option<bool>,
) -> Result<bool, Seq<Seq<char>>> {
    match env_value {
        Some(value) => match bool_named(value) {
            Ok(b) => Ok(b),
            Err(chain) => Err(seq!["invalid "@ + name + " `"@ + value + "`"@] + chain),
        },
        None => Ok(config_value == Some(true)),
    }
}

/// Reads a setting that is a truth value.
pub fn parse_bool_option(name: &str, env_value: Option<String>, config_value: Option<bool>) -> (r:
    Result<bool, Failure>)
    ensures
        bool_setting(name@, opt_view(env_value), config_value) == (match r {
            Ok(b) => Ok::<bool, Seq<Seq<char>>>(b),
            Err(failure) => Err(failure@),
        }),
{
    match env_value {
        Some(value) => match parse_bool(value.as_str()) {
            Ok(b) => Ok(b),
            Err(failure) => Err(
                failure.context(around_two("invalid ", name, " `", value.as_str(), "`")),
            ),
        },
        None => match config_value {
            Some(b) => Ok(b),
            None => Ok(false),
        },
    }
}

/// The retention that a text stands for.
pub open spec fn retention_named(value: Seq<char>) -> Result<PromptCacheRetention, Seq<Seq<char>>> {
    let word = folded(value);
    if word == "in_memory"@ {
        Ok(PromptCacheRetention::InMemory)
    } else if word == "24h"@ {
        Ok(PromptCacheRetention::Hours24)
    } else {
        Err(
            seq![
                "invalid FERRIX_PROMPT_CACHE_RETENTION `"@ + word
                    + "`; expected in_memory or 24h"@,
            ],
        )
    }
}

/// Reads a retention.
pub fn parse_prompt_cache_retention(value: &str) -> (r: Result<PromptCacheRetention, Failure>)
    ensures
        retention_named(value@) == (match r {
            Ok(retention) => Ok::<PromptCacheRetention, Seq<Seq<char>>>(retention),
            Err(failure) => Err(failure@),
        }),
{
    let word = fold(value);
    let w = word.as_str();
    if same(w, "in_memory") {
        Ok(PromptCacheRetention::InMemory)
    } else if same(w, "24h") {
        Ok(PromptCacheRetention::Hours24)
    } else {
        Err(
            Failure::new(
                around(
                    "invalid FERRIX_PROMPT_CACHE_RETENTION `",
                    w,
                    "`; expected in_memory or 24h",
                ),
            ),
        )
    }
}

/// The effort that a text stands for.
pub open spec fn effort_named(value: Seq<char>) -> Result<ReasoningEffort, Seq<Seq<char>>> {
    let word = folded(value);
    if word == "none"@ {
        Ok(ReasoningEffort::NoEffort)
    } else if word == "minimal"@ {
        Ok(ReasoningEffort::Minimal)
    } else if word == "low"@ {
        Ok(ReasoningEffort::Low)
    } else if word == "medium"@ {
        Ok(ReasoningEffort::Medium)
    } else if word == "high"@ {
        Ok(ReasoningEffort::High)
    } else if word == "xhigh"@ {
        Ok(ReasoningEffort::Xhigh)
    } else {
        Err(
            seq![
                "invalid FERRIX_REASONING_EFFORT `"@ + word
                    + "`; expected one of none, minimal, low, medium, high, xhigh"@,
            ],
        )
    }
}

/// Reads an effort.
pub fn parse_reasoning_effort(value: &str) -> (r: Result<ReasoningEffort, Failure>)
    ensures
        effort_named(value@) == (match r {
            Ok(effort) => Ok::<ReasoningEffort, Seq<Seq<char>>>(effort),
            Err(failure) => Err(failure@),
        }),
{
    let word = fold(value);
    let w = word.as_str();
    if same(w, "none") {
        Ok(ReasoningEffort::NoEffort)
    } else if same(w, "minimal") {
        Ok(ReasoningEffort::Minimal)
    } else if same(w, "low") {
        Ok(ReasoningEffort::Low)
    } else if same(w, "medium") {
        Ok(ReasoningEffort::Medium)
    } else if same(w, "high") {
        Ok(ReasoningEffort::High)
    } else if same(w, "xhigh") {
        Ok(ReasoningEffort::Xhigh)
    } else {
        Err(
            Failure::new(
                around(
                    "invalid FERRIX_REASONING_EFFORT `",
                    w,
                    "`; expected one of none, minimal, low, medium, high, xhigh",
                ),
            ),
        )
    }
}

/// Whether a character is a decimal digit.
pub open spec fn is_digit(c: char) -> bool {
    '0' <= c && c <= '9'
}

/// The number that digits write, read on from `start`, or the words of what is
/// wrong with them: the first character that is no digit, or the first digit
/// with which the number grows too large.
pub open spec fn digits_read(s: Seq<char>, start: nat) -> Result<nat, Seq<char>>
    decreases s.len(),
{
    if s.len() == 0 {
        Ok(start)
    } else if !is_digit(s[0]) {
        Err("invalid digit found in string"@)
    } else {
        let next = 10 * start + (s[0] as u32 - '0' as u32) as nat;
        if next > u32::MAX {
            Err("number too large to fit in target type"@)
        } else {
            digits_read(s.drop_first(), next)
        }
    }
}

/// The number that a text writes: decimal digits, with a plus sign before them
/// or without.
pub open spec fn u32_read(s: Seq<char>) -> Result<nat, Seq<char>> {
    if s.len() == 0 {
        Err("cannot parse integer from empty string"@)
    } else if s[0] == '+' {
        if s.len() == 1 {
            Err("invalid digit found in string"@)
        } else {
            digits_read(s.drop_first(), 0)
        }
    } else {
        digits_read(s, 0)
    }
}

/// Reads a number.
pub fn parse_u32(s: &str) -> (r: Result<u32, String>)
    ensures
        u32_read(s@) == (match r {
            Ok(n) => Ok::<nat, Seq<char>>(n as nat),
            Err(words) => Err(words@),
        }),
{
    let chars = chars_of(s);
    if chars.len() == 0 {
        return Err("cannot parse integer from empty string".to_owned());
    }
    let mut at: usize = 0;
    assert(s@.skip(0) =~= s@);
    if chars[0] == '+' {
        if chars.len() == 1 {
            return Err("invalid digit found in string".to_owned());
        }
        at = 1;
        assert(s@.skip(1) =~= s@.drop_first());
    }
    let mut total: u32 = 0;
    while at < chars.len()
        invariant
            chars@ == s@,
            at <= chars@.len(),
            u32_read(s@) == digits_read(s@.skip(at as int), total as nat),
        decreases chars@.len() - at,
    {
        let c = chars[at];
        assert(s@.skip(at as int)[0] == c);
        assert(s@.skip(at as int).drop_first() =~= s@.skip(at + 1));
        if !('0' <= c && c <= '9') {
            return Err("invalid digit found in string".to_owned());
        }
        let next: u64 = 10 * (total as u64) + (c as u32 - '0' as u32) as u64;
        if next > u32::MAX as u64 {
            return Err("number too large to fit in target type".to_owned());
        }
        total = next as u32;
        at += 1;
    }
    Ok(total)
}

proof fn read_numbers_fit(s: Seq<char>, start: nat)
    requires
        start <= u32::MAX,
    ensures
        digits_read(s, start) matches Ok(n) ==> n <= u32::MAX,
    decreases s.len(),
{
    if s.len() > 0 && is_digit(s[0]) {
        let next = 10 * start + (s[0] as u32 - '0' as u32) as nat;
        if next <= u32::MAX {
            read_numbers_fit(s.drop_first(), next);
        }
    }
}

/// The words for a number that is not a positive integer.
pub open spec fn not_positive(name: Seq<char>, value: Seq<char>) -> Seq<char> {
    "invalid "@ + name + " `"@ + value + "`; expected a positive integer"@
}

/// A setting that is a positive number: by the environment, else by the
/// configuration.
pub open spec fn u32_setting(
    name: Seq<char>,
    env_value: Option<Seq<char>>,
    config_value: Option<u32>,
) -> Result<Option<u32>, Seq<Seq<char>>> {
    match env_value {
        Some(value) => match u32_read(value) {
            Ok(n) => if n == 0 {
                Err(seq![not_positive(name, "0"@)])
            } else {
                Ok(Some(n as u32))
            },
            Err(words) => Err(seq![not_positive(name, value), words]),
        },
        None => if config_value == Some(0u32) {
            Err(seq![not_positive(name, "0"@)])
        } else {
            Ok(config_value)
        },
    }
}

/// Reads a setting that is a positive number.
pub fn parse_u32_option(name: &str, env_value: Option<String>, config_value: Option<u32>) -> (r:
    Result<Option<u32>, Failure>)
    ensures
        u32_setting(name@, opt_view(env_value), config_value) == (match r {
            Ok(n) => Ok::<Option<u32>, Seq<Seq<char>>>(n),
            Err(failure) => Err(failure@),
        }),
{
    let value = match env_value {
        Some(text) => match parse_u32(text.as_str()) {
            Ok(n) => Some(n),
            Err(words) => {
                return Err(
                    Failure::caused(
                        around_two(
                            "invalid ",
                            name,
                            " `",
                            text.as_str(),
                            "`; expected a positive integer",
                        ),
                        words,
                    ),
                );
            },
        },
        None => config_value,
    };
    match value {
        Some(n) if n == 0 => Err(
            Failure::new(
                around_two("invalid ", name, " `", "0", "`; expected a positive integer"),
            ),
        ),
        _ => Ok(value),
    }
}

/// The bits of the largest temperature, two.
pub const TEMPERATURE_MAX_BITS: u32 = 0x4000_0000;

/// The bits of the largest share of probability, one.
pub const TOP_P_MAX_BITS: u32 = 0x3f80_0000;

/// Whether a number lies between zero and the largest allowed. The bits of
/// numbers from zero up are in the order of the numbers; those of infinity and
/// of what is not a number lie above, and so do those of negative numbers, of
/// which only the negative zero is not below zero.
pub open spec fn in_range(bits: u32, max_bits: u32) -> bool {
    bits <= max_bits || bits == 0x8000_0000
}

/// The words for a number out of range.
pub open spec fn out_of_range(name: Seq<char>, value: Seq<char>, max: Seq<char>) -> Seq<char> {
    "invalid "@ + name + " `"@ + value + "`; expected a number between 0 and "@ + max
}

/// A setting that is a number from zero up: by the environment, else by the
/// configuration.
pub open spec fn float_setting(
    name: Seq<char>,
    env_value: Option<EnvValueView>,
    config_value: Option<FloatView>,
    max_bits: u32,
    max: Seq<char>,
) -> Result<Option<FloatView>, Seq<Seq<char>>> {
    let value = match env_value {
        Some(given) => match given.number {
            Ok(n) => Ok(Some(n)),
            Err(words) => Err(seq![out_of_range(name, given.text, max), words]),
        },
        None => Ok(config_value),
    };
    match value {
        Ok(Some(n)) => if in_range(n.bits, max_bits) {
            Ok(Some(n))
        } else {
            Err(seq![out_of_range(name, n.shown, max)])
        },
        _ => value,
    }
}

/// The view of an optional value.
pub open spec fn opt_env_value(value: Option<&EnvValue>) -> Option<EnvValueView> {
    match value {
        Some(v) => Some(v@),
        None => None,
    }
}

fn range_message(name: &str, value: &str, max: &str) -> (r: String)
    ensures
        r@ == out_of_range(name@, value@, max@),
{
    let mut words = around_two(
        "invalid ",
        name,
        " `",
        value,
        "`; expected a number between 0 and ",
    );
    words.push_str(max);
    words
}

/// Reads a setting that is a number from zero up to a largest one.
pub fn parse_f32_range_option(
    name: &str,
    env_value: Option<&EnvValue>,
    config_value: Option<Float32>,
    max_bits: u32,
    max: &str,
) -> (r: Result<Option<Float32>, Failure>)
    ensures
        float_setting(name@, opt_env_value(env_value), opt_float(config_value), max_bits, max@) == (
        match r {
            Ok(n) => Ok::<Option<FloatView>, Seq<Seq<char>>>(opt_float(n)),
            Err(failure) => Err(failure@),
        }),
{
    let value = match env_value {
        Some(given) => match &given.number {
            Ok(n) => Some(n.clone()),
            Err(words) => {
                return Err(
                    Failure::caused(range_message(name, given.text.as_str(), max), words.clone()),
                );
            },
        },
        None => config_value,
    };
    match value {
        Some(n) => {
            if n.bits <= max_bits || n.bits == 0x8000_0000 {
                Ok(Some(n))
            } else {
                Err(Failure::new(range_message(name, n.shown.as_str(), max)))
            }
        },
        None => Ok(None),
    }
}

/// A text without the slashes at its end.
pub open spec fn without_slashes(s: Seq<char>) -> Seq<char>
    decreases s.len(),
{
    if s.len() > 0 && s.last() == '/' {
        without_slashes(s.drop_last())
    } else {
        s
    }
}

fn trim_slashes(s: &str) -> (r: String)
    ensures
        r@ == without_slashes(s@),
{
    let chars = chars_of(s);
    let mut end: usize = chars.len();
    assert(s@.take(end as int) =~= s@);
    while end > 0 && chars[end - 1] == '/'
        invariant
            chars@ == s@,
            end <= chars@.len(),
            without_slashes(s@) == without_slashes(s@.take(end as int)),
        decreases end,
    {
        assert(s@.take(end as int).drop_last() =~= s@.take(end - 1));
        end -= 1;
    }
    assert(s@.subrange(0, end as int) =~= s@.take(end as int));
    string_of(&chars, 0, end)
}

/// The base URL that a text names, with neither slashes nor the name of the
/// Responses endpoint at its end.
pub open spec fn api_base_of(base_url: Seq<char>) -> Result<Seq<char>, Seq<Seq<char>>> {
    let url = without_slashes(base_url);
    if url.len() == 0 {
        Err(seq!["FERRIX_BASE_URL must not be empty"@])
    } else if ends_in(url, "/chat/completions"@) {
        Err(
            seq![
                "FERRIX_BASE_URL must point to a Responses API base URL, not a chat completions endpoint"@,
            ],
        )
    } else if ends_in(url, "/responses"@) {
        Ok(url.take(url.len() - "/responses"@.len()))
    } else {
        Ok(url)
    }
}

/// Normalises a base URL.
pub fn normalize_api_base(base_url: &str) -> (r: Result<String, Failure>)
    ensures
        api_base_of(base_url@) == (match r {
            Ok(base) => Ok::<Seq<char>, Seq<Seq<char>>>(base@),
            Err(failure) => Err(failure@),
        }),
{
    let url = trim_slashes(base_url);
    if url.as_str().is_empty() {
        return Err(Failure::new("FERRIX_BASE_URL must not be empty".to_owned()));
    }
    if ends_with(url.as_str(), "/chat/completions") {
        return Err(
            Failure::new(
                "FERRIX_BASE_URL must point to a Responses API base URL, not a chat completions endpoint".to_owned(),
            ),
        );
    }
    if ends_with(url.as_str(), "/responses") {
        let chars = chars_of(url.as_str());
        proof {
            reveal_strlit("/responses");
        }
        let end: usize = chars.len() - 10;
        assert(url@.subrange(0, end as int) =~= url@.take(end as int));
        return Ok(string_of(&chars, 0, end));
    }
    Ok(url)
}

/// The Responses endpoint below a base URL.
pub open spec fn endpoint_of(base_url: Seq<char>) -> Seq<char> {
    let url = without_slashes(base_url);
    if ends_in(url, "/responses"@) {
        url
    } else {
        url + "/responses"@
    }
}

/// The Responses endpoint below a base URL.
pub fn responses_endpoint(base_url: &str) -> (r: String)
    ensures
        r@ == endpoint_of(base_url@),
{
    let mut url = trim_slashes(base_url);
    if !ends_with(url.as_str(), "/responses") {
        url.push_str("/responses");
    }
    url
}

proof fn lemma_no_slash_left(s: Seq<char>)
    ensures
        without_slashes(s).len() > 0 ==> without_slashes(s).last() != '/',
        without_slashes(without_slashes(s)) == without_slashes(s),
    decreases s.len(),
{
    if s.len() > 0 && s.last() == '/' {
        lemma_no_slash_left(s.drop_last());
    }
}

/// The endpoint of a base URL normalises to that URL without the slashes at its
/// end, and so does the base URL itself unless it is refused. A base URL that
/// names the endpoint already normalises as the endpoint does.
pub proof fn endpoint_normalizes_to_base(base: Seq<char>)
    ensures
        ({
            let url = without_slashes(base);
            &&& !ends_in(url, "/responses"@) ==> api_base_of(endpoint_of(base)) == Ok::<
                Seq<char>,
                Seq<Seq<char>>,
            >(url)
            &&& !ends_in(url, "/responses"@) && url.len() > 0 && !ends_in(
                url,
                "/chat/completions"@,
            ) ==> api_base_of(base) == Ok::<Seq<char>, Seq<Seq<char>>>(url)
            &&& ends_in(url, "/responses"@) ==> api_base_of(endpoint_of(base)) == api_base_of(base)
        }),
{
    reveal_strlit("/responses");
    reveal_strlit("/chat/completions");
    lemma_no_slash_left(base);
    let normal = without_slashes(base);
    let suffix = "/responses"@;
    let url = normal + suffix;
    assert(suffix.last() == 's');
    assert(url.last() == 's');
    assert(without_slashes(url) == url);
    assert(url.subrange(url.len() - suffix.len(), url.len() as int) =~= suffix);
    assert(url.take(url.len() - suffix.len()) =~= normal);
    let chat = "/chat/completions"@;
    if ends_in(url, chat) {
        let tail = url.subrange(url.len() - chat.len(), url.len() as int);
        assert(tail[chat.len() - 3] == chat[chat.len() - 3]);
        assert(tail[chat.len() - 3] == url[url.len() - 3]);
        assert(url[url.len() - 3] == suffix[suffix.len() - 3]);
        assert(false);
    }
}

/// The headers by which a program makes itself known to OpenRouter.
#[derive(Debug)]
pub struct OpenRouterConfig {
    pub referer: Option<String>,
    pub title: Option<String>,
    pub categories: Option<String>,
}

/// What these settings hold.
#[verifier::ext_equal]
pub struct OpenRouterView {
    pub referer: Option<Seq<char>>,
    pub title: Option<Seq<char>>,
    pub categories: Option<Seq<char>>,
}

impl View for OpenRouterConfig {
    type V = OpenRouterView;

    open spec fn view(&self) -> OpenRouterView {
        OpenRouterView {
            referer: opt_view(self.referer),
            title: opt_view(self.title),
            categories: opt_view(self.categories),
        }
    }
}

impl Default for OpenRouterConfig {
    fn default() -> (r: OpenRouterConfig)
        ensures
            r@ == no_openrouter(),
    {
        OpenRouterConfig { referer: None, title: None, categories: None }
    }
}

/// Settings for OpenRouter that say nothing.
pub open spec fn no_openrouter() -> OpenRouterView {
    OpenRouterView { referer: None, title: None, categories: None }
}

/// How the provider is to cache prompts.
#[derive(Debug)]
pub struct PromptCacheConfig {
    pub retention: Option<PromptCacheRetention>,
    pub key: Option<String>,
    pub store_responses: bool,
}

/// What these settings hold.
#[verifier::ext_equal]
pub struct PromptCacheView {
    pub retention: Option<PromptCacheRetention>,
    pub key: Option<Seq<char>>,
    pub store_responses: bool,
}

impl View for PromptCacheConfig {
    type V = PromptCacheView;

    open spec fn view(&self) -> PromptCacheView {
        PromptCacheView {
            retention: self.retention,
            key: opt_view(self.key),
            store_responses: self.store_responses,
        }
    }
}

impl Default for PromptCacheConfig {
    fn default() -> (r: PromptCacheConfig)
        ensures
            r@ == (PromptCacheView { retention: None, key: None, store_responses: false }),
    {
        PromptCacheConfig { retention: None, key: None, store_responses: false }
    }
}

/// What the configuration file says of the prompt cache.
#[derive(Debug)]
pub struct WorkspacePromptCacheConfig {
    pub retention: Option<PromptCacheRetention>,
    pub key: Option<String>,
    pub store_responses: Option<bool>,
}

impl Default for WorkspacePromptCacheConfig {
    fn default() -> (r: WorkspacePromptCacheConfig)
        ensures
            r.retention is None,
            r.key is None,
            r.store_responses is None,
    {
        WorkspacePromptCacheConfig { retention: None, key: None, store_responses: None }
    }
}

/// What the configuration file says of the model.
#[derive(Debug)]
pub struct WorkspaceModelConfig {
    pub provider: Option<String>,
    pub name: Option<String>,
    pub base_url: Option<String>,
    pub reasoning_effort: Option<ReasoningEffort>,
    pub max_output_tokens: Option<u32>,
    pub temperature: Option<Float32>,
    pub top_p: Option<Float32>,
    pub openrouter: Option<OpenRouterConfig>,
    pub prompt_cache: Option<WorkspacePromptCacheConfig>,
}

impl Default for WorkspaceModelConfig {
    fn default() -> (r: WorkspaceModelConfig)
        ensures
            workspace_view(Some(r)) == workspace_view(None),
    {
        WorkspaceModelConfig {
            provider: None,
            name: None,
            base_url: None,
            reasoning_effort: None,
            max_output_tokens: None,
            temperature: None,
            top_p: None,
            openrouter: None,
            prompt_cache: None,
        }
    }
}

/// What the configuration file says of the model, where a part that is missing
/// says nothing.
#[verifier::ext_equal]
pub struct WorkspaceModelView {
    pub provider: Option<Seq<char>>,
    pub name: Option<Seq<char>>,
    pub base_url: Option<Seq<char>>,
    pub reasoning_effort: Option<ReasoningEffort>,
    pub max_output_tokens: Option<u32>,
    pub temperature: Option<FloatView>,
    pub top_p: Option<FloatView>,
    pub openrouter: OpenRouterView,
    pub retention: Option<PromptCacheRetention>,
    pub cache_key: Option<Seq<char>>,
    pub store_responses: Option<bool>,
}

/// The view of the file's part on the model.
pub open spec fn workspace_view(workspace_model: Option<WorkspaceModelConfig>) -> WorkspaceModelView {
    match workspace_model {
        Some(model) => WorkspaceModelView {
            provider: opt_view(model.provider),
            name: opt_view(model.name),
            base_url: opt_view(model.base_url),
            reasoning_effort: model.reasoning_effort,
            max_output_tokens: model.max_output_tokens,
            temperature: opt_float(model.temperature),
            top_p: opt_float(model.top_p),
            openrouter: match model.openrouter {
                Some(openrouter) => openrouter@,
                None => no_openrouter(),
            },
            retention: match model.prompt_cache {
                Some(cache) => cache.retention,
                None => None,
            },
            cache_key: match model.prompt_cache {
                Some(cache) => opt_view(cache.key),
                None => None,
            },
            store_responses: match model.prompt_cache {
                Some(cache) => cache.store_responses,
                None => None,
            },
        },
        None => WorkspaceModelView {
            provider: None,
            name: None,
            base_url: None,
            reasoning_effort: None,
            max_output_tokens: None,
            temperature: None,
            top_p: None,
            openrouter: no_openrouter(),
            retention: None,
            cache_key: None,
            store_responses: None,
        },
    }
}

/// What the configuration file says of the terminal.
#[derive(Debug)]
pub struct WorkspaceUiConfig {
    pub status_line: Option<bool>,
    pub color: Option<bool>,
}

/// The settings of the model.
#[derive(Debug)]
pub struct ModelConfig {
    pub provider: String,
    pub model: String,
    pub api_base: String,
    pub endpoint: String,
    pub api_key: Option<String>,
    pub api_key_env_var: &'static str,
    pub reasoning_effort: Option<ReasoningEffort>,
    pub max_output_tokens: Option<u32>,
    pub temperature: Option<Float32>,
    pub top_p: Option<Float32>,
    pub openrouter: OpenRouterConfig,
    pub prompt_cache: PromptCacheConfig,
}

/// What the settings of the model hold.
#[verifier::ext_equal]
pub struct ModelConfigView {
    pub provider: Seq<char>,
    pub model: Seq<char>,
    pub api_base: Seq<char>,
    pub endpoint: Seq<char>,
    pub api_key: Option<Seq<char>>,
    pub api_key_env_var: Seq<char>,
    pub reasoning_effort: Option<ReasoningEffort>,
    pub max_output_tokens: Option<u32>,
    pub temperature: Option<FloatView>,
    pub top_p: Option<FloatView>,
    pub openrouter: OpenRouterView,
    pub prompt_cache: PromptCacheView,
}

impl View for ModelConfig {
    type V = ModelConfigView;

    open spec fn view(&self) -> ModelConfigView {
        ModelConfigView {
            provider: self.provider@,
            model: self.model@,
            api_base: self.api_base@,
            endpoint: self.endpoint@,
            api_key: opt_view(self.api_key),
            api_key_env_var: self.api_key_env_var@,
            reasoning_effort: self.reasoning_effort,
            max_output_tokens: self.max_output_tokens,
            temperature: opt_float(self.temperature),
            top_p: opt_float(self.top_p),
            openrouter: self.openrouter@,
            prompt_cache: self.prompt_cache@,
        }
    }
}

/// The first of two texts that there is.
pub open spec fn either(first: Option<Seq<char>>, second: Option<Seq<char>>) -> Option<Seq<char>> {
    match first {
        Some(_) => first,
        None => second,
    }
}

/// A text, or a default in place of none.
pub open spec fn or_default(value: Option<Seq<char>>, default: Seq<char>) -> Seq<char> {
    match value {
        Some(text) => text,
        None => default,
    }
}

fn first_text(first: Option<String>, second: Option<String>) -> (r: Option<String>)
    ensures
        opt_view(r) == either(opt_view(first), opt_view(second)),
{
    match first {
        Some(text) => Some(text),
        None => second,
    }
}

fn text_or(value: Option<String>, default: &str) -> (r: String)
    ensures
        r@ == or_default(opt_view(value), default@),
{
    match value {
        Some(text) => text,
        None => default.to_owned(),
    }
}

/// The base URL of a provider where none is named.
pub open spec fn default_base(kind: ProviderKind) -> Seq<char> {
    match kind {
        ProviderKind::OpenRouter => OPENROUTER_API_BASE@,
        ProviderKind::OpenAiCompatible => OPENAI_API_BASE@,
    }
}

/// The environment variable that holds a provider's key.
pub open spec fn key_variable(kind: ProviderKind) -> Seq<char> {
    match kind {
        ProviderKind::OpenRouter => "OPENROUTER_API_KEY"@,
        ProviderKind::OpenAiCompatible => "OPENAI_API_KEY"@,
    }
}

/// The effort: by the environment, else by the file.
pub open spec fn effort_setting(
    env_value: Option<Seq<char>>,
    config_value: Option<ReasoningEffort>,
) -> Result<Option<ReasoningEffort>, Seq<Seq<char>>> {
    match env_value {
        Some(value) => match effort_named(value) {
            Ok(effort) => Ok(Some(effort)),
            Err(chain) => Err(chain),
        },
        None => Ok(config_value),
    }
}

/// The retention: by the environment, else by the file.
pub open spec fn retention_setting(
    env_value: Option<Seq<char>>,
    config_value: Option<PromptCacheRetention>,
) -> Result<Option<PromptCacheRetention>, Seq<Seq<char>>> {
    match env_value {
        Some(value) => match retention_named(value) {
            Ok(retention) => Ok(Some(retention)),
            Err(chain) => Err(chain),
        },
        None => Ok(config_value),
    }
}

/// A variable's value, where it is set.
pub open spec fn env_entry(env: Map<Seq<char>, EnvValueView>, name: Seq<char>) -> Option<
    EnvValueView,
> {
    if env.contains_key(name) {
        Some(env[name])
    } else {
        None
    }
}

/// The settings of the model by the file and the environment, which goes before
/// the file. The first setting that is wrong, in this order, is reported.
pub open spec fn model_settings(
    file: WorkspaceModelView,
    env: Map<Seq<char>, EnvValueView>,
) -> Result<ModelConfigView, Seq<Seq<char>>> {
    let provider = or_default(
        either(env_text(env, "FERRIX_MODEL_PROVIDER"@), file.provider),
        DEFAULT_PROVIDER@,
    );
    let kind = kind_of(provider);
    let model = or_default(either(env_text(env, "FERRIX_MODEL"@), file.name), DEFAULT_MODEL@);
    let base_url = or_default(
        either(env_text(env, "FERRIX_BASE_URL"@), file.base_url),
        default_base(kind),
    );
    let effort = effort_setting(env_text(env, "FERRIX_REASONING_EFFORT"@), file.reasoning_effort);
    let retention = retention_setting(
        env_text(env, "FERRIX_PROMPT_CACHE_RETENTION"@),
        file.retention,
    );
    let store = bool_setting(
        "FERRIX_STORE_RESPONSES"@,
        env_text(env, "FERRIX_STORE_RESPONSES"@),
        file.store_responses,
    );
    let tokens = u32_setting(
        "FERRIX_MAX_OUTPUT_TOKENS"@,
        env_text(env, "FERRIX_MAX_OUTPUT_TOKENS"@),
        file.max_output_tokens,
    );
    let temperature = float_setting(
        "FERRIX_TEMPERATURE"@,
        env_entry(env, "FERRIX_TEMPERATURE"@),
        file.temperature,
        TEMPERATURE_MAX_BITS,
        "2"@,
    );
    let top_p = float_setting(
        "FERRIX_TOP_P"@,
        env_entry(env, "FERRIX_TOP_P"@),
        file.top_p,
        TOP_P_MAX_BITS,
        "1"@,
    );
    match (api_base_of(base_url), effort, retention, store, tokens, temperature, top_p) {
        (Err(chain), _, _, _, _, _, _) => Err(chain),
        (_, Err(chain), _, _, _, _, _) => Err(chain),
        (_, _, Err(chain), _, _, _, _) => Err(chain),
        (_, _, _, Err(chain), _, _, _) => Err(chain),
        (_, _, _, _, Err(chain), _, _) => Err(chain),
        (_, _, _, _, _, Err(chain), _) => Err(chain),
        (_, _, _, _, _, _, Err(chain)) => Err(chain),
        (
            Ok(api_base),
            Ok(reasoning_effort),
            Ok(retention),
            Ok(store_responses),
            Ok(max_output_tokens),
            Ok(temperature),
            Ok(top_p),
        ) => Ok(
            ModelConfigView {
                provider,
                model,
                api_base,
                endpoint: endpoint_of(api_base),
                api_key: env_text(env, key_variable(kind)),
                api_key_env_var: key_variable(kind),
                reasoning_effort,
                max_output_tokens,
                temperature,
                top_p,
                openrouter: OpenRouterView {
                    referer: either(
                        env_text(env, "FERRIX_OPENROUTER_REFERER"@),
                        file.openrouter.referer,
                    ),
                    title: either(
                        env_text(env, "FERRIX_OPENROUTER_TITLE"@),
                        file.openrouter.title,
                    ),
                    categories: either(
                        env_text(env, "FERRIX_OPENROUTER_CATEGORIES"@),
                        file.openrouter.categories,
                    ),
                },
                prompt_cache: PromptCacheView {
                    retention,
                    key: either(env_text(env, "FERRIX_PROMPT_CACHE_KEY"@), file.cache_key),
                    store_responses,
                },
            },
        ),
    }
}

impl ModelConfig {
    /// The settings by what a configuration says and the environment.
    pub fn from_workspace(config: FerrixConfig, env: &Environment) -> (r: Result<
        ModelConfig,
        Failure,
    >)
        ensures
            model_settings(workspace_view(config.model), env@) == (match r {
                Ok(settings) => Ok::<ModelConfigView, Seq<Seq<char>>>(settings@),
                Err(failure) => Err(failure@),
            }),
    {
        ModelConfig::from_parts(config.model, env)
    }

    /// The settings by what the file says of the model and the environment.
    pub fn from_parts(workspace_model: Option<WorkspaceModelConfig>, env: &Environment) -> (r:
        Result<ModelConfig, Failure>)
        ensures
            model_settings(workspace_view(workspace_model), env@) == (match r {
                Ok(settings) => Ok::<ModelConfigView, Seq<Seq<char>>>(settings@),
                Err(failure) => Err(failure@),
            }),
    {
        let workspace_model = match workspace_model {
            Some(model) => model,
            None => WorkspaceModelConfig::default(),
        };
        let mut openrouter = match workspace_model.openrouter {
            Some(openrouter) => openrouter,
            None => OpenRouterConfig::default(),
        };
        let provider = text_or(
            first_text(env.get("FERRIX_MODEL_PROVIDER"), workspace_model.provider),
            DEFAULT_PROVIDER,
        );
        let kind = provider_kind(provider.as_str());
        let model = text_or(
            first_text(env.get("FERRIX_MODEL"), workspace_model.name),
            DEFAULT_MODEL,
        );
        let default_base_url = match kind {
            ProviderKind::OpenRouter => OPENROUTER_API_BASE,
            ProviderKind::OpenAiCompatible => OPENAI_API_BASE,
        };
        let base_url = text_or(
            first_text(env.get("FERRIX_BASE_URL"), workspace_model.base_url),
            default_base_url,
        );
        let api_base = match normalize_api_base(base_url.as_str()) {
            Ok(base) => base,
            Err(failure) => {
                return Err(failure);
            },
        };
        let endpoint = responses_endpoint(api_base.as_str());
        let api_key_env_var = match kind {
            ProviderKind::OpenRouter => "OPENROUTER_API_KEY",
            ProviderKind::OpenAiCompatible => "OPENAI_API_KEY",
        };
        let api_key = env.get(api_key_env_var);
        openrouter.referer = first_text(env.get("FERRIX_OPENROUTER_REFERER"), openrouter.referer);
        openrouter.title = first_text(env.get("FERRIX_OPENROUTER_TITLE"), openrouter.title);
        openrouter.categories = first_text(
            env.get("FERRIX_OPENROUTER_CATEGORIES"),
            openrouter.categories,
        );
        let reasoning_effort = match env.get("FERRIX_REASONING_EFFORT") {
            Some(value) => match parse_reasoning_effort(value.as_str()) {
                Ok(effort) => Some(effort),
                Err(failure) => {
                    return Err(failure);
                },
            },
            None => workspace_model.reasoning_effort,
        };
        let prompt_cache = match workspace_model.prompt_cache {
            Some(cache) => cache,
            None => WorkspacePromptCacheConfig::default(),
        };
        let retention = match env.get("FERRIX_PROMPT_CACHE_RETENTION") {
            Some(value) => match parse_prompt_cache_retention(value.as_str()) {
                Ok(retention) => Some(retention),
                Err(failure) => {
                    return Err(failure);
                },
            },
            None => prompt_cache.retention,
        };
        let key = first_text(env.get("FERRIX_PROMPT_CACHE_KEY"), prompt_cache.key);
        let store_responses = match parse_bool_option(
            "FERRIX_STORE_RESPONSES",
            env.get("FERRIX_STORE_RESPONSES"),
            prompt_cache.store_responses,
        ) {
            Ok(store) => store,
            Err(failure) => {
                return Err(failure);
            },
        };
        let max_output_tokens = match parse_u32_option(
            "FERRIX_MAX_OUTPUT_TOKENS",
            env.get("FERRIX_MAX_OUTPUT_TOKENS"),
            workspace_model.max_output_tokens,
        ) {
            Ok(tokens) => tokens,
            Err(failure) => {
                return Err(failure);
            },
        };
        let temperature = match parse_f32_range_option(
            "FERRIX_TEMPERATURE",
            env.value("FERRIX_TEMPERATURE"),
            workspace_model.temperature,
            TEMPERATURE_MAX_BITS,
            "2",
        ) {
            Ok(temperature) => temperature,
            Err(failure) => {
                return Err(failure);
            },
        };
        let top_p = match parse_f32_range_option(
            "FERRIX_TOP_P",
            env.value("FERRIX_TOP_P"),
            workspace_model.top_p,
            TOP_P_MAX_BITS,
            "1",
        ) {
            Ok(top_p) => top_p,
            Err(failure) => {
                return Err(failure);
            },
        };
        Ok(
            ModelConfig {
                provider,
                model,
                api_base,
                endpoint,
                api_key,
                api_key_env_var,
                reasoning_effort,
                max_output_tokens,
                temperature,
                top_p,
                openrouter,
                prompt_cache: PromptCacheConfig { retention, key, store_responses },
            },
        )
    }

    /// The settings with a key for the prompt cache, unless they have one.
    pub fn with_prompt_cache_key(self, key: Option<String>) -> (r: ModelConfig)
        ensures
            r@ == (ModelConfigView {
                prompt_cache: PromptCacheView {
                    key: either(self@.prompt_cache.key, opt_view(key)),
                    ..self@.prompt_cache
                },
                ..self@
            }),
    {
        let mut settings = self;
        if settings.prompt_cache.key.is_none() {
            settings.prompt_cache.key = key;
        }
        settings
    }
}

/// The settings of the terminal.
#[derive(Debug, Clone, Copy, PartialEq, Eq, Structural)]
pub struct UiConfig {
    pub status_line: bool,
    pub color: bool,
}

/// A switch that the file may set, on where it says nothing.
pub open spec fn on_unless(value: Option<bool>) -> Option<bool> {
    match value {
        Some(_) => value,
        None => Some(true),
    }
}

/// The settings of the terminal by the file and the environment. `NO_COLOR`
/// turns color off whatever else is set.
pub open spec fn ui_settings(
    workspace_ui: Option<WorkspaceUiConfig>,
    env: Map<Seq<char>, EnvValueView>,
) -> Result<UiConfig, Seq<Seq<char>>> {
    let file_status = match workspace_ui {
        Some(ui) => ui.status_line,
        None => None,
    };
    let file_color = match workspace_ui {
        Some(ui) => ui.color,
        None => None,
    };
    match bool_setting(
        "FERRIX_STATUS_LINE"@,
        env_text(env, "FERRIX_STATUS_LINE"@),
        on_unless(file_status),
    ) {
        Err(chain) => Err(chain),
        Ok(status_line) => if env.contains_key("NO_COLOR"@) {
            Ok(UiConfig { status_line, color: false })
        } else {
            match bool_setting(
                "FERRIX_COLOR"@,
                env_text(env, "FERRIX_COLOR"@),
                on_unless(file_color),
            ) {
                Err(chain) => Err(chain),
                Ok(color) => Ok(UiConfig { status_line, color }),
            }
        },
    }
}

fn switch_on_unless(value: Option<bool>) -> (r: Option<bool>)
    ensures
        r == on_unless(value),
{
    match value {
        Some(b) => Some(b),
        None => Some(true),
    }
}

impl UiConfig {
    /// The settings by what a configuration says and the environment.
    pub fn from_workspace(config: FerrixConfig, env: &Environment) -> (r: Result<UiConfig, Failure>)
        ensures
            ui_settings(config.ui, env@) == (match r {
                Ok(settings) => Ok::<UiConfig, Seq<Seq<char>>>(settings),
                Err(failure) => Err(failure@),
            }),
    {
        UiConfig::from_parts(config.ui, env)
    }

    /// The settings by what the file says of the terminal and the environment.
    pub fn from_parts(workspace_ui: Option<WorkspaceUiConfig>, env: &Environment) -> (r: Result<
        UiConfig,
        Failure,
    >)
        ensures
            ui_settings(workspace_ui, env@) == (match r {
                Ok(settings) => Ok::<UiConfig, Seq<Seq<char>>>(settings),
                Err(failure) => Err(failure@),
            }),
    {
        let file_status = match &workspace_ui {
            Some(ui) => ui.status_line,
            None => None,
        };
        let file_color = match &workspace_ui {
            Some(ui) => ui.color,
            None => None,
        };
        let status_line = match parse_bool_option(
            "FERRIX_STATUS_LINE",
            env.get("FERRIX_STATUS_LINE"),
            switch_on_unless(file_status),
        ) {
            Ok(b) => b,
            Err(failure) => {
                return Err(failure);
            },
        };
        if env.value("NO_COLOR").is_some() {
            return Ok(UiConfig { status_line, color: false });
        }
        match parse_bool_option(
            "FERRIX_COLOR",
            env.get("FERRIX_COLOR"),
            switch_on_unless(file_color),
        ) {
            Ok(color) => Ok(UiConfig { status_line, color }),
            Err(failure) => Err(failure),
        }
    }
}

/// What the configuration file says.
#[derive(Debug)]
pub struct FerrixConfig {
    pub model: Option<WorkspaceModelConfig>,
    pub ui: Option<WorkspaceUiConfig>,
}

/// A validator of `jsonschema`, built for a schema.
#[verifier::external_type_specification]
#[verifier::external_body]
pub struct ExValidator(jsonschema::Validator);

/// The schema that a validator was built for.
pub uninterp spec fn validator_schema(validator: jsonschema::Validator) -> JsonView;

/// Whether `jsonschema` builds a validator for a schema.
pub uninterp spec fn schema_builds(schema: JsonView) -> bool;

/// What is wrong with a value by a schema: for each fault the place in the value
/// and the words.
pub uninterp spec fn schema_faults(schema: JsonView, value: JsonView) -> Seq<
    (Seq<char>, Seq<char>),
>;

/// Whether a value conforms to a schema: nothing is wrong with it.
pub open spec fn conforms(schema: JsonView, value: JsonView) -> bool {
    schema_faults(schema, value).len() == 0
}

/// The views of a list of faults.
pub open spec fn fault_views(faults: Seq<(String, String)>) -> Seq<(Seq<char>, Seq<char>)> {
    faults.map_values(|fault: (String, String)| (fault.0@, fault.1@))
}

/// `jsonschema::validator_for`. Whether it succeeds depends on the schema
/// alone. What an error says is left open: of several references that lead out
/// of the schema, any may be the one that is reported.
#[verifier::external_body]
fn build_validator(schema: &serde_json::Value) -> (r: Result<jsonschema::Validator, String>)
    ensures
        r is Ok <==> schema_builds(value_view(*schema)),
        r matches Ok(validator) ==> validator_schema(validator) == value_view(*schema),
{
    jsonschema::validator_for(schema).map_err(|error| error.to_string())
}

/// `Validator::iter_errors`, each error as its `instance_path` and its words. The
/// errors, their words and their order depend on the schema and the value alone.
#[verifier::external_body]
fn schema_errors(validator: &jsonschema::Validator, value: &serde_json::Value) -> (r: Vec<
    (String, String),
>)
    ensures
        fault_views(r@) == schema_faults(validator_schema(*validator), value_view(*value)),
{
    validator
        .iter_errors(value)
        .map(|error| (error.instance_path().to_string(), error.to_string()))
        .collect()
}

/// The line for a fault.
pub open spec fn fault_line(fault: (Seq<char>, Seq<char>)) -> Seq<char> {
    fault.0 + ": "@ + fault.1
}

/// The lines for a list of faults.
pub open spec fn fault_lines(faults: Seq<(Seq<char>, Seq<char>)>) -> Seq<Seq<char>> {
    faults.map_values(|fault: (Seq<char>, Seq<char>)| fault_line(fault))
}

/// What is said of a configuration with these faults.
pub open spec fn faults_report(faults: Seq<(Seq<char>, Seq<char>)>) -> Seq<char> {
    "invalid Ferrix config:\n"@ + joined(fault_lines(faults), "\n"@)
}

/// Reports the faults of a configuration, a line each, where there are any.
pub fn report_faults(faults: Vec<(String, String)>) -> (r: Result<(), Failure>)
    ensures
        match r {
            Ok(_) => faults@.len() == 0,
            Err(failure) => faults@.len() > 0 && failure@ == seq![
                faults_report(fault_views(faults@)),
            ],
        },
{
    if faults.len() == 0 {
        return Ok(());
    }
    let mut lines: Vec<String> = Vec::new();
    for i in 0..faults.len()
        invariant
            lines@.len() == i,
            forall|j: int|
                0 <= j < i ==> (#[trigger] lines@[j])@ == fault_line(
                    (faults@[j].0@, faults@[j].1@),
                ),
    {
        let fault = &faults[i];
        lines.push(around(fault.0.as_str(), ": ", fault.1.as_str()));
    }
    assert(views(lines@) =~= fault_lines(fault_views(faults@)));
    let mut words: String = "invalid Ferrix config:\n".to_owned();
    words.push_str(join(&lines, "\n").as_str());
    Err(Failure::new(words))
}

/// Whether a chain of messages says that the schema itself is wrong.
pub open spec fn tells_bad_schema(chain: Seq<Seq<char>>) -> bool {
    chain.len() == 2 && chain[0] == "failed to build config schema"@
}

/// Checks a configuration against a schema. What is wrong with the configuration
/// is reported in full.
pub fn validate_ferrix_config(config: &Json, schema: &Json) -> (r: Result<(), Failure>)
    ensures
        r is Ok <==> schema_builds(schema@) && conforms(schema@, config@),
        r matches Err(failure) ==> if schema_builds(schema@) {
            failure@ == seq![faults_report(schema_faults(schema@, config@))]
        } else {
            tells_bad_schema(failure@)
        },
{
    let validator = match build_validator(&schema.clone().into_value()) {
        Ok(validator) => validator,
        Err(words) => {
            return Err(Failure::caused("failed to build config schema".to_owned(), words));
        },
    };
    let faults = schema_errors(&validator, &config.clone().into_value());
    assert(fault_views(faults@).len() == faults@.len());
    report_faults(faults)
}

/// Reads a configuration and checks it against a schema. `path` names the file
/// in what is said where that fails.
pub fn check_config(path: &str, contents: &str, schema: &Json) -> (r: Result<Json, Failure>)
    ensures
        match json_read(contents@) {
            Err(words) => r matches Err(failure) && failure@ == seq![
                "failed to parse `"@ + path@ + "`"@,
                words,
            ],
            Ok(value) => {
                &&& r is Ok <==> schema_builds(schema@) && conforms(schema@, value)
                &&& r matches Ok(config) ==> config@ == value
                &&& r matches Err(failure) ==> failure@.len() > 0 && failure@[0]
                    == "failed to validate `"@ + path@ + "`"@ && if schema_builds(schema@) {
                    failure@.drop_first() == seq![faults_report(schema_faults(schema@, value))]
                } else {
                    tells_bad_schema(failure@.drop_first())
                }
            },
        },
{
    let config = match Json::parse(contents) {
        Ok(config) => config,
        Err(words) => {
            return Err(Failure::caused(around("failed to parse `", path, "`"), words));
        },
    };
    match validate_ferrix_config(&config, schema) {
        Ok(_) => Ok(config),
        Err(failure) => {
            let ghost inner = failure@;
            let outer = failure.context(around("failed to validate `", path, "`"));
            assert(outer@.drop_first() =~= inner);
            Err(outer)
        },
    }
}

/// What the environment says goes before what the file says.
pub proof fn environment_goes_before_file(
    file: WorkspaceModelView,
    env: Map<Seq<char>, EnvValueView>,
)
    ensures
        model_settings(file, env) matches Ok(settings) ==> {
            &&& env.contains_key("FERRIX_MODEL_PROVIDER"@) ==> settings.provider
                == env["FERRIX_MODEL_PROVIDER"@].text
            &&& env.contains_key("FERRIX_MODEL"@) ==> settings.model == env["FERRIX_MODEL"@].text
            &&& env.contains_key("FERRIX_BASE_URL"@) ==> Ok::<Seq<char>, Seq<Seq<char>>>(
                settings.api_base,
            ) == api_base_of(env["FERRIX_BASE_URL"@].text)
            &&& env.contains_key("FERRIX_PROMPT_CACHE_KEY"@) ==> settings.prompt_cache.key == Some(
                env["FERRIX_PROMPT_CACHE_KEY"@].text,
            )
            &&& env.contains_key("FERRIX_REASONING_EFFORT"@) ==> (
            settings.reasoning_effort matches Some(effort) && effort_named(
                env["FERRIX_REASONING_EFFORT"@].text,
            ) == Ok::<ReasoningEffort, Seq<Seq<char>>>(effort))
            &&& env.contains_key("FERRIX_STORE_RESPONSES"@) ==> bool_named(
                env["FERRIX_STORE_RESPONSES"@].text,
            ) == Ok::<bool, Seq<Seq<char>>>(settings.prompt_cache.store_responses)
            &&& env.contains_key("FERRIX_TEMPERATURE"@) ==> (
            settings.temperature matches Some(n) && env["FERRIX_TEMPERATURE"@].number == Ok::<
                FloatView,
                Seq<char>,
            >(n))
            &&& env.contains_key("FERRIX_TOP_P"@) ==> (settings.top_p matches Some(n)
                && env["FERRIX_TOP_P"@].number == Ok::<FloatView, Seq<char>>(n))
            &&& env.contains_key("FERRIX_MAX_OUTPUT_TOKENS"@) ==> (
            settings.max_output_tokens matches Some(n) && u32_read(
                env["FERRIX_MAX_OUTPUT_TOKENS"@].text,
            ) == Ok::<nat, Seq<char>>(n as nat))
            &&& env.contains_key("FERRIX_PROMPT_CACHE_RETENTION"@) ==> (
            settings.prompt_cache.retention matches Some(retention) && retention_named(
                env["FERRIX_PROMPT_CACHE_RETENTION"@].text,
            ) == Ok::<PromptCacheRetention, Seq<Seq<char>>>(retention))
            &&& env.contains_key("FERRIX_OPENROUTER_REFERER"@) ==> settings.openrouter.referer
                == Some(env["FERRIX_OPENROUTER_REFERER"@].text)
            &&& env.contains_key("FERRIX_OPENROUTER_TITLE"@) ==> settings.openrouter.title == Some(
                env["FERRIX_OPENROUTER_TITLE"@].text,
            )
            &&& env.contains_key("FERRIX_OPENROUTER_CATEGORIES"@)
                ==> settings.openrouter.categories == Some(
                env["FERRIX_OPENROUTER_CATEGORIES"@].text,
            )
        },
{
    match env_text(env, "FERRIX_MAX_OUTPUT_TOKENS"@) {
        Some(value) => {
            read_numbers_fit(value, 0);
            if value.len() > 0 {
                read_numbers_fit(value.drop_first(), 0);
            }
        },
        None => {},
    }
}

/// Settings that are accepted are within their ranges, whether they come from
/// the file or from the environment.
pub proof fn accepted_settings_are_in_range(
    file: WorkspaceModelView,
    env: Map<Seq<char>, EnvValueView>,
)
    ensures
        model_settings(file, env) matches Ok(settings) ==> {
            &&& settings.max_output_tokens != Some(0u32)
            &&& settings.temperature matches Some(n) ==> in_range(n.bits, TEMPERATURE_MAX_BITS)
            &&& settings.top_p matches Some(n) ==> in_range(n.bits, TOP_P_MAX_BITS)
            &&& settings.endpoint == endpoint_of(settings.api_base)
            &&& settings.api_key_env_var == key_variable(kind_of(settings.provider))
            &&& settings.api_key == env_text(env, settings.api_key_env_var)
        },
{
    match env_text(env, "FERRIX_MAX_OUTPUT_TOKENS"@) {
        Some(value) => {
            read_numbers_fit(value, 0);
            if value.len() > 0 {
                read_numbers_fit(value.drop_first(), 0);
            }
        },
        None => {},
    }
}

/// `NO_COLOR` turns color off, whatever else is set.
pub proof fn no_color_goes_first(
    workspace_ui: Option<WorkspaceUiConfig>,
    env: Map<Seq<char>, EnvValueView>,
)
    requires
        env.contains_key("NO_COLOR"@),
    ensures
        ui_settings(workspace_ui, env) matches Ok(settings) ==> !settings.color,
{
}

/// The environment variables that the settings depend on.
pub open spec fn variable_names() -> Seq<Seq<char>> {
    seq![
        "FERRIX_MODEL_PROVIDER"@,
        "FERRIX_MODEL"@,
        "FERRIX_BASE_URL"@,
        "OPENROUTER_API_KEY"@,
        "OPENAI_API_KEY"@,
        "FERRIX_OPENROUTER_REFERER"@,
        "FERRIX_OPENROUTER_TITLE"@,
        "FERRIX_OPENROUTER_CATEGORIES"@,
        "FERRIX_REASONING_EFFORT"@,
        "FERRIX_PROMPT_CACHE_RETENTION"@,
        "FERRIX_PROMPT_CACHE_KEY"@,
        "FERRIX_STORE_RESPONSES"@,
        "FERRIX_MAX_OUTPUT_TOKENS"@,
        "FERRIX_TEMPERATURE"@,
        "FERRIX_TOP_P"@,
        "FERRIX_STATUS_LINE"@,
        "FERRIX_COLOR"@,
        "NO_COLOR"@,
    ]
}

/// The environment variables that the settings depend on.
pub fn environment_variables() -> (r: Vec<&'static str>)
    ensures
        r@.map_values(|name: &'static str| name@) == variable_names(),
{
    let names: Vec<&'static str> = vec![
        "FERRIX_MODEL_PROVIDER",
        "FERRIX_MODEL",
        "FERRIX_BASE_URL",
        "OPENROUTER_API_KEY",
        "OPENAI_API_KEY",
        "FERRIX_OPENROUTER_REFERER",
        "FERRIX_OPENROUTER_TITLE",
        "FERRIX_OPENROUTER_CATEGORIES",
        "FERRIX_REASONING_EFFORT",
        "FERRIX_PROMPT_CACHE_RETENTION",
        "FERRIX_PROMPT_CACHE_KEY",
        "FERRIX_STORE_RESPONSES",
        "FERRIX_MAX_OUTPUT_TOKENS",
        "FERRIX_TEMPERATURE",
        "FERRIX_TOP_P",
        "FERRIX_STATUS_LINE",
        "FERRIX_COLOR",
        "NO_COLOR",
    ];
    assert(names@.map_values(|name: &'static str| name@) =~= variable_names());
    names
}

/// Whether two environments have the same value for a variable.
pub open spec fn agree_on(
    a: Map<Seq<char>, EnvValueView>,
    b: Map<Seq<char>, EnvValueView>,
    name: Seq<char>,
) -> bool {
    env_entry(a, name) == env_entry(b, name)
}

/// The settings depend on no other variables than those that are named for
/// them.
pub proof fn settings_depend_on_named_variables(
    file: WorkspaceModelView,
    workspace_ui: Option<WorkspaceUiConfig>,
    a: Map<Seq<char>, EnvValueView>,
    b: Map<Seq<char>, EnvValueView>,
)
    requires
        forall|i: int|
            0 <= i < variable_names().len() ==> agree_on(a, b, #[trigger] variable_names()[i]),
    ensures
        model_settings(file, a) == model_settings(file, b),
        ui_settings(workspace_ui, a) == ui_settings(workspace_ui, b),
{
    let names = variable_names();
    assert(agree_on(a, b, names[0]));
    assert(agree_on(a, b, names[1]));
    assert(agree_on(a, b, names[2]));
    assert(agree_on(a, b, names[3]));
    assert(agree_on(a, b, names[4]));
    assert(agree_on(a, b, names[5]));
    assert(agree_on(a, b, names[6]));
    assert(agree_on(a, b, names[7]));
    assert(agree_on(a, b, names[8]));
    assert(agree_on(a, b, names[9]));
    assert(agree_on(a, b, names[10]));
    assert(agree_on(a, b, names[11]));
    assert(agree_on(a, b, names[12]));
    assert(agree_on(a, b, names[13]));
    assert(agree_on(a, b, names[14]));
    assert(agree_on(a, b, names[15]));
    assert(agree_on(a, b, names[16]));
    assert(agree_on(a, b, names[17]));
}

/// What a text or a number is where there may be another in its place.
pub open spec fn said<A>(first: Option<A>, second: Option<A>) -> Option<A> {
    if first is Some {
        first
    } else {
        second
    }
}

/// Where the environment is silent, the file is heard, and where both are, the
/// default is taken: for each setting from the part of the file that names it.
pub proof fn file_goes_before_defaults(
    file: WorkspaceModelView,
    env: Map<Seq<char>, EnvValueView>,
)
    ensures
        model_settings(file, env) matches Ok(settings) ==> {
            &&& !env.contains_key("FERRIX_MODEL_PROVIDER"@) ==> Some(settings.provider) == said(
                file.provider,
                Some("openai-compatible"@),
            )
            &&& !env.contains_key("FERRIX_MODEL"@) ==> Some(settings.model) == said(
                file.name,
                Some("gpt-5.5"@),
            )
            &&& !env.contains_key("FERRIX_BASE_URL"@) ==> Ok::<Seq<char>, Seq<Seq<char>>>(
                settings.api_base,
            ) == api_base_of(
                match file.base_url {
                    Some(url) => url,
                    None => if folded(settings.provider) == "openrouter"@ {
                        "https://openrouter.ai/api/v1"@
                    } else {
                        "https://api.openai.com/v1"@
                    },
                },
            )
            &&& !env.contains_key("FERRIX_REASONING_EFFORT"@) ==> settings.reasoning_effort
                == file.reasoning_effort
            &&& !env.contains_key("FERRIX_MAX_OUTPUT_TOKENS"@) ==> settings.max_output_tokens
                == file.max_output_tokens
            &&& !env.contains_key("FERRIX_TEMPERATURE"@) ==> settings.temperature
                == file.temperature
            &&& !env.contains_key("FERRIX_TOP_P"@) ==> settings.top_p == file.top_p
            &&& !env.contains_key("FERRIX_OPENROUTER_REFERER"@) ==> settings.openrouter.referer
                == file.openrouter.referer
            &&& !env.contains_key("FERRIX_OPENROUTER_TITLE"@) ==> settings.openrouter.title
                == file.openrouter.title
            &&& !env.contains_key("FERRIX_OPENROUTER_CATEGORIES"@)
                ==> settings.openrouter.categories == file.openrouter.categories
            &&& !env.contains_key("FERRIX_PROMPT_CACHE_RETENTION"@)
                ==> settings.prompt_cache.retention == file.retention
            &&& !env.contains_key("FERRIX_PROMPT_CACHE_KEY"@) ==> settings.prompt_cache.key
                == file.cache_key
            &&& !env.contains_key("FERRIX_STORE_RESPONSES"@)
                ==> settings.prompt_cache.store_responses == (file.store_responses == Some(true))
        },
{
}

/// The key for the model comes from the environment alone: from OpenRouter's
/// variable where the provider is named OpenRouter, however that is spelled, and
/// from OpenAI's otherwise.
pub proof fn keys_come_from_the_providers_variable(
    file: WorkspaceModelView,
    env: Map<Seq<char>, EnvValueView>,
)
    ensures
        model_settings(file, env) matches Ok(settings) ==> {
            let name = if folded(settings.provider) == "openrouter"@ {
                "OPENROUTER_API_KEY"@
            } else {
                "OPENAI_API_KEY"@
            };
            &&& settings.api_key_env_var == name
            &&& env.contains_key(name) ==> settings.api_key == Some(env[name].text)
            &&& !env.contains_key(name) ==> settings.api_key is None
        },
{
}

/// The file is read part by part: what is missing from it says nothing, and what
/// stands in it is said as it stands.
pub proof fn files_are_read_part_by_part(model: WorkspaceModelConfig)
    ensures
        ({
            let file = workspace_view(Some(model));
            &&& model.provider matches Some(text) ==> file.provider == Some(text@)
            &&& model.provider is None ==> file.provider is None
            &&& model.name matches Some(text) ==> file.name == Some(text@)
            &&& model.name is None ==> file.name is None
            &&& model.base_url matches Some(text) ==> file.base_url == Some(text@)
            &&& model.base_url is None ==> file.base_url is None
            &&& file.reasoning_effort == model.reasoning_effort
            &&& file.max_output_tokens == model.max_output_tokens
            &&& model.temperature matches Some(n) ==> (file.temperature matches Some(m) && m.bits
                == n.bits && m.shown == n.shown@)
            &&& model.temperature is None ==> file.temperature is None
            &&& model.top_p matches Some(n) ==> (file.top_p matches Some(m) && m.bits == n.bits
                && m.shown == n.shown@)
            &&& model.top_p is None ==> file.top_p is None
            &&& model.openrouter matches Some(openrouter) ==> file.openrouter.referer == opt_view(
                openrouter.referer,
            ) && file.openrouter.title == opt_view(openrouter.title) && file.openrouter.categories
                == opt_view(openrouter.categories)
            &&& model.openrouter is None ==> file.openrouter.referer is None
                && file.openrouter.title is None && file.openrouter.categories is None
            &&& model.prompt_cache matches Some(cache) ==> file.retention == cache.retention
                && file.cache_key == opt_view(cache.key) && file.store_responses
                == cache.store_responses
            &&& model.prompt_cache is None ==> file.retention is None && file.cache_key is None
                && file.store_responses is None
        }),
{
}

/// Settings are refused where one of them is wrong, wherever it comes from: a base
/// URL that is none, a word that names no effort, no retention or no truth value,
/// or a number that cannot be read or is out of its range.
pub proof fn wrong_settings_are_refused(
    file: WorkspaceModelView,
    env: Map<Seq<char>, EnvValueView>,
)
    ensures
        env.contains_key("FERRIX_BASE_URL"@) && api_base_of(env["FERRIX_BASE_URL"@].text) is Err
            ==> model_settings(file, env) is Err,
        env.contains_key("FERRIX_REASONING_EFFORT"@) && effort_named(
            env["FERRIX_REASONING_EFFORT"@].text,
        ) is Err ==> model_settings(file, env) is Err,
        env.contains_key("FERRIX_PROMPT_CACHE_RETENTION"@) && retention_named(
            env["FERRIX_PROMPT_CACHE_RETENTION"@].text,
        ) is Err ==> model_settings(file, env) is Err,
        env.contains_key("FERRIX_STORE_RESPONSES"@) && bool_named(
            env["FERRIX_STORE_RESPONSES"@].text,
        ) is Err ==> model_settings(file, env) is Err,
        env.contains_key("FERRIX_MAX_OUTPUT_TOKENS"@) && u32_read(
            env["FERRIX_MAX_OUTPUT_TOKENS"@].text,
        ) is Err ==> model_settings(file, env) is Err,
        env.contains_key("FERRIX_MAX_OUTPUT_TOKENS"@) && u32_read(
            env["FERRIX_MAX_OUTPUT_TOKENS"@].text,
        ) == Ok::<nat, Seq<char>>(0) ==> model_settings(file, env) is Err,
        !env.contains_key("FERRIX_MAX_OUTPUT_TOKENS"@) && file.max_output_tokens == Some(0u32)
            ==> model_settings(file, env) is Err,
        env.contains_key("FERRIX_TEMPERATURE"@) && env["FERRIX_TEMPERATURE"@].number is Err
            ==> model_settings(file, env) is Err,
        env.contains_key("FERRIX_TOP_P"@) && env["FERRIX_TOP_P"@].number is Err
            ==> model_settings(file, env) is Err,
        env.contains_key("FERRIX_TEMPERATURE"@) ==> (
        env["FERRIX_TEMPERATURE"@].number matches Ok(n) ==> (n.bits > 0x4000_0000 && n.bits
            != 0x8000_0000 ==> model_settings(file, env) is Err)),
        env.contains_key("FERRIX_TOP_P"@) ==> (env["FERRIX_TOP_P"@].number matches Ok(n) ==> (n.bits
            > 0x3f80_0000 && n.bits != 0x8000_0000 ==> model_settings(file, env) is Err)),
        !env.contains_key("FERRIX_TEMPERATURE"@) ==> (file.temperature matches Some(n) ==> (n.bits
            > 0x4000_0000 && n.bits != 0x8000_0000 ==> model_settings(file, env) is Err)),
        !env.contains_key("FERRIX_TOP_P"@) ==> (file.top_p matches Some(n) ==> (n.bits > 0x3f80_0000
            && n.bits != 0x8000_0000 ==> model_settings(file, env) is Err)),
{
}

/// Where the environment is silent, settings that are in their ranges are accepted
/// whenever the base URL is one.
pub proof fn right_settings_are_accepted(file: WorkspaceModelView)
    requires
        file.base_url matches Some(url) ==> api_base_of(url) is Ok,
        file.max_output_tokens != Some(0u32),
        file.temperature matches Some(n) ==> n.bits <= 0x4000_0000 || n.bits == 0x8000_0000,
        file.top_p matches Some(n) ==> n.bits <= 0x3f80_0000 || n.bits == 0x8000_0000,
    ensures
        model_settings(file, Map::empty()) is Ok,
{
    lemma_default_bases_are_bases();
}

#[verifier::rlimit(40)]
proof fn lemma_default_bases_are_bases()
    ensures
        api_base_of(OPENAI_API_BASE@) is Ok,
        api_base_of(OPENROUTER_API_BASE@) is Ok,
{
    reveal_strlit("https://api.openai.com/v1");
    reveal_strlit("https://openrouter.ai/api/v1");
    reveal_strlit("/chat/completions");
    let chat = "/chat/completions"@;
    let a = OPENAI_API_BASE@;
    assert(a.last() == '1');
    assert(without_slashes(a) == a);
    if ends_in(a, chat) {
        assert(a.subrange(a.len() - chat.len(), a.len() as int)[chat.len() - 1] == a.last());
        assert(chat[chat.len() - 1] == 's');
        assert(false);
    }
    let b = OPENROUTER_API_BASE@;
    assert(b.last() == '1');
    assert(without_slashes(b) == b);
    if ends_in(b, chat) {
        assert(b.subrange(b.len() - chat.len(), b.len() as int)[chat.len() - 1] == b.last());
        assert(chat[chat.len() - 1] == 's');
        assert(false);
    }
}

proof fn lemma_plain_word_is_folded(word: Seq<char>)
    requires
        word.len() > 0,
        forall|i: int|
            0 <= i < word.len() ==> 33 <= (#[trigger] word[i]) as u32 && word[i] as u32 <= 126
                && !('A' <= word[i] <= 'Z'),
    ensures
        folded(word) == word,
{
    assert(!is_white(word[0]));
    assert(trim_start(word) == word);
    assert(!is_white(word[word.len() - 1]));
    assert(trimmed(word) == word);
    assert(ascii_lower(word) =~= word);
}

/// Words are read without regard to case and to white space around them: two texts
/// that differ in nothing else are accepted or refused together, and read as the
/// same.
pub proof fn words_are_read_without_case(a: Seq<char>, b: Seq<char>)
    requires
        ascii_lower(trimmed(a)) == ascii_lower(trimmed(b)),
    ensures
        bool_named(a) == bool_named(b),
        effort_named(a) == effort_named(b),
        retention_named(a) == retention_named(b),
        kind_of(a) == kind_of(b),
{
}

/// The word for an effort.
pub open spec fn effort_word(effort: ReasoningEffort) -> Seq<char> {
    match effort {
        ReasoningEffort::NoEffort => "none"@,
        ReasoningEffort::Minimal => "minimal"@,
        ReasoningEffort::Low => "low"@,
        ReasoningEffort::Medium => "medium"@,
        ReasoningEffort::High => "high"@,
        ReasoningEffort::Xhigh => "xhigh"@,
    }
}

/// Each effort has a word that reads as it, and a text reads as an effort exactly
/// where that word is what it comes to in lower case and without white space
/// around it. Any other text is refused, and named.
pub proof fn efforts_are_read_by_their_word(value: Seq<char>, effort: ReasoningEffort)
    ensures
        effort_named(effort_word(effort)) == Ok::<ReasoningEffort, Seq<Seq<char>>>(effort),
        effort_named(value) == Ok::<ReasoningEffort, Seq<Seq<char>>>(effort) <==> folded(value)
            == effort_word(effort),
        effort_named(value) matches Err(chain) ==> chain.len() == 1 && occurs(
            chain[0],
            folded(value),
        ),
{
    reveal_strlit("none");
    reveal_strlit("minimal");
    reveal_strlit("low");
    reveal_strlit("medium");
    reveal_strlit("high");
    reveal_strlit("xhigh");
    assert("none"@.len() == 4 && "minimal"@.len() == 7 && "low"@.len() == 3 && "medium"@.len() == 6
        && "high"@.len() == 4 && "xhigh"@.len() == 5);
    assert("none"@[0] == 'n' && "high"@[0] == 'h');
    lemma_plain_word_is_folded(effort_word(effort));
    middle_occurs(
        "invalid FERRIX_REASONING_EFFORT `"@,
        folded(value),
        "`; expected one of none, minimal, low, medium, high, xhigh"@,
    );
}

/// Each retention has a name that reads as it, and a text reads as a retention
/// exactly where that name is what it comes to in lower case and without white
/// space around it. Any other text is refused, and named.
pub proof fn retentions_are_read_by_their_name(value: Seq<char>, retention: PromptCacheRetention)
    ensures
        retention_named(retention_label(retention)) == Ok::<
            PromptCacheRetention,
            Seq<Seq<char>>,
        >(retention),
        retention_named(value) == Ok::<PromptCacheRetention, Seq<Seq<char>>>(retention) <==> folded(
            value,
        ) == retention_label(retention),
        retention_named(value) matches Err(chain) ==> chain.len() == 1 && occurs(
            chain[0],
            folded(value),
        ),
{
    reveal_strlit("in_memory");
    reveal_strlit("24h");
    assert("in_memory"@.len() == 9 && "24h"@.len() == 3);
    lemma_plain_word_is_folded(retention_label(retention));
    middle_occurs(
        "invalid FERRIX_PROMPT_CACHE_RETENTION `"@,
        folded(value),
        "`; expected in_memory or 24h"@,
    );
}

/// The words that stand for a truth value.
pub open spec fn words_for(b: bool) -> Seq<Seq<char>> {
    if b {
        seq!["1"@, "true"@, "yes"@, "on"@]
    } else {
        seq!["0"@, "false"@, "no"@, "off"@]
    }
}

/// A text reads as a truth value exactly where what it comes to in lower case and
/// without white space around it is one of the words for that value. Any other
/// text is refused, and named.
pub proof fn truth_values_are_read_by_their_words(value: Seq<char>, b: bool)
    ensures
        bool_named(value) == Ok::<bool, Seq<Seq<char>>>(b) <==> words_for(b).contains(
            folded(value),
        ),
        bool_named(value) matches Err(chain) ==> chain.len() == 1 && occurs(
            chain[0],
            folded(value),
        ),
{
    let word = folded(value);
    reveal_strlit("1");
    reveal_strlit("true");
    reveal_strlit("yes");
    reveal_strlit("on");
    reveal_strlit("0");
    reveal_strlit("false");
    reveal_strlit("no");
    reveal_strlit("off");
    assert("1"@.len() == 1 && "true"@.len() == 4 && "yes"@.len() == 3 && "on"@.len() == 2
        && "0"@.len() == 1 && "false"@.len() == 5 && "no"@.len() == 2 && "off"@.len() == 3);
    assert("1"@[0] == '1' && "0"@[0] == '0' && "yes"@[0] == 'y' && "off"@[0] == 'o' && "on"@[0]
        == 'o' && "no"@[0] == 'n');
    let words = words_for(b);
    assert(words.len() == 4);
    if words.contains(word) {
        let i = choose|i: int| 0 <= i < 4 && words[i] == word;
        assert(i == 0 || i == 1 || i == 2 || i == 3);
    }
    if bool_named(value) == Ok::<bool, Seq<Seq<char>>>(b) {
        assert(words[0] == word || words[1] == word || words[2] == word || words[3] == word);
    }
    middle_occurs("invalid boolean `"@, word, "`; expected true or false"@);
}

proof fn lemma_on_unless_off(value: Option<bool>)
    ensures
        on_unless(value) == Some(true) <==> value != Some(false),
{
    match value {
        Some(b) => {
            if b {
                assert(value == Some(true));
            } else {
                assert(value == Some(false));
            }
        },
        None => {},
    }
}

/// A switch of the terminal is on unless the file turns it off, and the environment
/// goes before the file; a word that is no truth value is refused.
pub proof fn switches_are_on_unless_turned_off(
    workspace_ui: Option<WorkspaceUiConfig>,
    env: Map<Seq<char>, EnvValueView>,
)
    ensures
        ui_settings(workspace_ui, env) matches Ok(settings) ==> {
            &&& env.contains_key("FERRIX_STATUS_LINE"@) ==> bool_named(
                env["FERRIX_STATUS_LINE"@].text,
            ) == Ok::<bool, Seq<Seq<char>>>(settings.status_line)
            &&& !env.contains_key("FERRIX_STATUS_LINE"@) ==> (settings.status_line <==> !(
            workspace_ui is Some && workspace_ui->Some_0.status_line == Some(false)))
            &&& !env.contains_key("NO_COLOR"@) && env.contains_key("FERRIX_COLOR"@) ==> bool_named(
                env["FERRIX_COLOR"@].text,
            ) == Ok::<bool, Seq<Seq<char>>>(settings.color)
            &&& !env.contains_key("NO_COLOR"@) && !env.contains_key("FERRIX_COLOR"@) ==> (
            settings.color <==> !(workspace_ui is Some && workspace_ui->Some_0.color == Some(
                false,
            )))
        },
        ui_settings(workspace_ui, env) is Err <==> {
            ||| env.contains_key("FERRIX_STATUS_LINE"@) && bool_named(
                env["FERRIX_STATUS_LINE"@].text,
            ) is Err
            ||| !env.contains_key("NO_COLOR"@) && env.contains_key("FERRIX_COLOR"@) && bool_named(
                env["FERRIX_COLOR"@].text,
            ) is Err
        },
{
    match workspace_ui {
        Some(ui) => {
            lemma_on_unless_off(ui.status_line);
            lemma_on_unless_off(ui.color);
        },
        None => {},
    }
}

/// A variable is kept under its name without the white space around its value, in
/// place of what it was before; one that is blank is not kept; and the others stay
/// as they are.
pub proof fn variables_are_kept_trimmed(
    env: Map<Seq<char>, EnvValueView>,
    name: Seq<char>,
    raw: Seq<char>,
    number: Result<FloatView, Seq<char>>,
    other: Seq<char>,
)
    ensures
        ({
            let after = env_with(env, name, raw, number);
            let blank = forall|i: int| 0 <= i < raw.len() ==> is_white(#[trigger] raw[i]);
            &&& blank ==> after == env
            &&& !blank ==> env_text(after, name) == Some(trimmed(raw)) && after[name].number
                == number
            &&& other != name ==> env_text(after, other) == env_text(env, other)
        }),
{
    trimmed_text_is_bare(raw);
}

proof fn lemma_digits_read(s: Seq<char>, c: char, start: nat)
    ensures
        digits_read(s.push(c), start) == (match digits_read(s, start) {
            Err(words) => Err::<nat, Seq<char>>(words),
            Ok(n) => if !is_digit(c) {
                Err("invalid digit found in string"@)
            } else if 10 * n + (c as u32 - '0' as u32) as nat > u32::MAX {
                Err("number too large to fit in target type"@)
            } else {
                Ok((10 * n + (c as u32 - '0' as u32)) as nat)
            },
        }),
    decreases s.len(),
{
    let all = s.push(c);
    if s.len() == 0 {
        assert(all.drop_first() =~= Seq::empty());
        assert(all[0] == c);
        if is_digit(c) {
            let next = 10 * start + (c as u32 - '0' as u32) as nat;
            assert(digits_read(all.drop_first(), next) == Ok::<nat, Seq<char>>(next));
        }
    } else {
        assert(all[0] == s[0]);
        assert(all.drop_first() =~= s.drop_first().push(c));
        if is_digit(s[0]) {
            let next = 10 * start + (s[0] as u32 - '0' as u32) as nat;
            if next <= u32::MAX {
                lemma_digits_read(s.drop_first(), c, next);
            }
        }
    }
}

proof fn lemma_digits_read_back(n: nat)
    requires
        n <= u32::MAX,
    ensures
        digits_read(digits(n), 0) == Ok::<nat, Seq<char>>(n),
    decreases n,
{
    digits_are_worth_the_number(n);
    if n < 10 {
        let s = digits(n);
        assert(s =~= Seq::<char>::empty().push(s[0]));
        lemma_digits_read(Seq::empty(), s[0], 0);
        assert(s[0] as u32 == 48 + n);
        assert(digits_read(Seq::empty(), 0) == Ok::<nat, Seq<char>>(0));
    } else {
        lemma_digits_read_back(n / 10);
        let s = digits(n);
        let c = s.last();
        assert(s =~= digits(n / 10).push(c));
        assert(c as u32 == 48 + n % 10);
        assert('0' <= s[s.len() - 1] && s[s.len() - 1] <= '9');
        lemma_digits_read(digits(n / 10), c, 0);
    }
}

/// A number is read back from its decimal digits, with a plus sign before them or
/// without.
pub proof fn numbers_are_read_back(n: nat)
    requires
        n <= u32::MAX,
    ensures
        u32_read(digits(n)) == Ok::<nat, Seq<char>>(n),
        u32_read(seq!['+'] + digits(n)) == Ok::<nat, Seq<char>>(n),
{
    lemma_digits_read_back(n);
    digits_are_worth_the_number(n);
    assert('0' <= digits(n)[0]);
    let signed = seq!['+'] + digits(n);
    assert(signed.drop_first() =~= digits(n));
}

proof fn lemma_read_digits_are_worth(s: Seq<char>, start: nat)
    ensures
        digits_read(s, start) is Ok ==> forall|i: int|
            0 <= i < s.len() ==> '0' <= #[trigger] s[i] && s[i] <= '9',
        start == 0 ==> (digits_read(s, start) matches Ok(n) ==> n == worth(s)),
    decreases s.len(),
{
    if s.len() > 0 {
        let front = s.drop_last();
        let c = s.last();
        assert(s =~= front.push(c));
        lemma_read_digits_are_worth(front, start);
        lemma_digits_read(front, c, start);
        if digits_read(s, start) is Ok {
            assert forall|i: int| 0 <= i < s.len() implies '0' <= #[trigger] s[i] && s[i]
                <= '9' by {
                if i < front.len() {
                    assert(front[i] == s[i]);
                }
            }
        }
    }
}

/// A text that is read as a number holds nothing but decimal digits behind at most
/// one plus sign, and the number is what the digits are worth.
pub proof fn read_numbers_are_worth_their_digits(s: Seq<char>)
    ensures
        u32_read(s) matches Ok(n) ==> {
            let from: int = if s[0] == '+' {
                1
            } else {
                0
            };
            &&& s.len() > from
            &&& forall|i: int| from <= i < s.len() ==> '0' <= #[trigger] s[i] && s[i] <= '9'
            &&& n == worth(s.skip(from))
            &&& n <= u32::MAX
        },
{
    if u32_read(s) is Ok {
        if s[0] == '+' {
            let rest = s.skip(1);
            assert(s.drop_first() =~= rest);
            lemma_read_digits_are_worth(rest, 0);
            read_numbers_fit(rest, 0);
            assert forall|i: int| 1 <= i < s.len() implies '0' <= #[trigger] s[i] && s[i]
                <= '9' by {
                assert(rest[i - 1] == s[i]);
            }
        } else {
            assert(s.skip(0) =~= s);
            lemma_read_digits_are_worth(s, 0);
            read_numbers_fit(s, 0);
        }
    }
}

proof fn lemma_without_slashes(s: Seq<char>) -> (count: nat)
    ensures
        count <= s.len(),
        without_slashes(s) == s.take(s.len() - count),
        forall|i: int| s.len() - count <= i < s.len() ==> #[trigger] s[i] == '/',
        without_slashes(s).len() > 0 ==> without_slashes(s).last() != '/',
    decreases s.len(),
{
    if s.len() > 0 && s.last() == '/' {
        let count = lemma_without_slashes(s.drop_last());
        let front = s.drop_last();
        assert(front.take(front.len() - count) =~= s.take(s.len() - (count + 1)));
        assert forall|i: int| s.len() - (count + 1) <= i < s.len() implies #[trigger] s[i]
            == '/' by {
            if i < front.len() {
                assert(front[i] == s[i]);
            }
        }
        count + 1
    } else {
        assert(s.take(s.len() as int) =~= s);
        0
    }
}

/// Slashes at the end of a base URL do not count, neither for the base nor for the
/// endpoint. Without them, a URL that names the Responses endpoint stands for what
/// is before that name, a URL of chat completions and an empty one are refused, and
/// any other stands for itself. The endpoint ends in its name, and begins with the
/// URL.
pub proof fn base_urls_are_read(base: Seq<char>)
    ensures
        api_base_of(base.push('/')) == api_base_of(base),
        endpoint_of(base.push('/')) == endpoint_of(base),
        base.len() == 0 ==> api_base_of(base) is Err,
        base.len() > 0 && base.last() != '/' ==> {
            &&& ends_in(base, "/chat/completions"@) ==> api_base_of(base) is Err
            &&& ends_in(base, "/responses"@) ==> (api_base_of(base) matches Ok(url) && url
                + "/responses"@ == base) && endpoint_of(base) == base
            &&& !ends_in(base, "/chat/completions"@) && !ends_in(base, "/responses"@)
                ==> api_base_of(base) == Ok::<Seq<char>, Seq<Seq<char>>>(base)
            &&& !ends_in(base, "/responses"@) ==> endpoint_of(base) == base + "/responses"@
        },
        ends_in(endpoint_of(base), "/responses"@),
{
    assert(base.push('/').drop_last() =~= base);
    reveal_strlit("/responses");
    reveal_strlit("/chat/completions");
    let suffix = "/responses"@;
    let chat = "/chat/completions"@;
    let url = without_slashes(base);
    assert((url + suffix).subrange(url.len() as int, (url + suffix).len() as int) =~= suffix);
    if base.len() > 0 && base.last() != '/' {
        assert(url == base);
        if ends_in(base, suffix) {
            let at = base.len() - suffix.len();
            assert(base.take(at) + base.subrange(at, base.len() as int) =~= base);
            if ends_in(base, chat) {
                let tail = base.subrange(base.len() - chat.len(), base.len() as int);
                assert(tail[chat.len() - 3] == chat[chat.len() - 3]);
                let end = base.subrange(at, base.len() as int);
                assert(end[suffix.len() - 3] == suffix[suffix.len() - 3]);
                assert(false);
            }
        }
    }
}

/// The base URL is what is left of a text without slashes at its end: only slashes
/// are taken away, and none is left there.
pub proof fn only_slashes_are_taken_away(s: Seq<char>)
    ensures
        exists|count: nat|
            #![trigger s.take(s.len() - count)]
            count <= s.len() && without_slashes(s) == s.take(s.len() - count) && forall|i: int|
                s.len() - count <= i < s.len() ==> #[trigger] s[i] == '/',
        without_slashes(s).len() > 0 ==> without_slashes(s).last() != '/',
{
    let count = lemma_without_slashes(s);
    assert(without_slashes(s) == s.take(s.len() - count));
}

/// The report on a configuration tells every fault: where it is and what it is.
pub proof fn reports_tell_every_fault(faults: Seq<(Seq<char>, Seq<char>)>, i: int)
    requires
        0 <= i < faults.len(),
    ensures
        occurs(faults_report(faults), faults[i].0 + ": "@ + faults[i].1),
{
    let lines = fault_lines(faults);
    let list = joined(lines, "\n"@);
    let lead = "invalid Ferrix config:\n"@;
    parts_occur_in_joined(lines, "\n"@, i);
    assert(lines[i] == faults[i].0 + ": "@ + faults[i].1);
    let at = choose|at: int| occurs_at(list, lines[i], at);
    let whole = faults_report(faults);
    let from = lead.len() + at;
    assert(whole.subrange(from, from + lines[i].len()) =~= list.subrange(
        at,
        at + lines[i].len(),
    ));
    assert(occurs_at(whole, lines[i], from));
}

/// A setting that is refused is named, with the value that it has.
pub proof fn refusals_name_the_setting(
    name: Seq<char>,
    value: Seq<char>,
    number: Result<FloatView, Seq<char>>,
    config_bool: Option<bool>,
    config_u32: Option<u32>,
    config_float: Option<FloatView>,
    max_bits: u32,
    max: Seq<char>,
)
    ensures
        bool_setting(name, Some(value), config_bool) matches Err(chain) ==> chain.len() == 2
            && occurs(chain[0], name) && occurs(chain[0], value),
        u32_setting(name, Some(value), config_u32) matches Err(chain) ==> chain.len() >= 1
            && occurs(chain[0], name) && (chain.len() > 1 ==> occurs(chain[0], value)),
        float_setting(
            name,
            Some(EnvValueView { text: value, number }),
            config_float,
            max_bits,
            max,
        ) matches Err(chain) ==> chain.len() >= 1 && occurs(chain[0], name) && (chain.len() > 1
            ==> occurs(chain[0], value)),
{
    let lead = "invalid "@;
    let between = " `"@;
    lemma_pair_is_named(lead, name, between, value, "`"@);
    lemma_pair_is_named(lead, name, between, value, "`; expected a positive integer"@);
    lemma_pair_is_named(lead, name, between, "0"@, "`; expected a positive integer"@);
    let end = "`; expected a number between 0 and "@;
    lemma_pair_is_named(lead, name, between, value, end + max);
    joining_is_associative(lead + name + between + value, end, max);
    match number {
        Ok(n) => {
            lemma_pair_is_named(lead, name, between, n.shown, end + max);
            joining_is_associative(lead + name + between + n.shown, end, max);
        },
        Err(_) => {},
    }
}

proof fn lemma_pair_is_named(
    lead: Seq<char>,
    name: Seq<char>,
    between: Seq<char>,
    value: Seq<char>,
    end: Seq<char>,
)
    ensures
        occurs(lead + name + between + value + end, name),
        occurs(lead + name + between + value + end, value),
{
    middle_occurs(lead + name + between, value, end);
    middle_occurs(lead, name, between + value + end);
    joining_is_associative(lead + name, between + value, end);
    joining_is_associative(lead + name, between, value);
}

/// Of two texts the first counts where there is one, and a default where there is
/// none.
pub proof fn the_first_that_is_said_counts(
    first: Option<Seq<char>>,
    second: Option<Seq<char>>,
    default: Seq<char>,
)
    ensures
        first is Some ==> either(first, second) == first,
        first is None ==> either(first, second) == second,
        first matches Some(text) ==> or_default(first, default) == text,
        first is None ==> or_default(first, default) == default,
{
}

/// A configuration conforms to a schema exactly where nothing is found wrong with
/// it.
pub proof fn conforming_means_without_faults(schema: JsonView, value: JsonView)
    ensures
        conforms(schema, value) <==> schema_faults(schema, value) == Seq::<
            (Seq<char>, Seq<char>),
        >::empty(),
{
    if conforms(schema, value) {
        assert(schema_faults(schema, value) =~= Seq::empty());
    }
}

/// What the settings of a model hold is what their fields hold, each by itself.
pub proof fn settings_hold_their_fields(config: ModelConfig)
    ensures
        config@.provider == config.provider@,
        config@.model == config.model@,
        config@.api_base == config.api_base@,
        config@.endpoint == config.endpoint@,
        config.api_key matches Some(key) ==> config@.api_key == Some(key@),
        config.api_key is None ==> config@.api_key is None,
        config@.api_key_env_var == config.api_key_env_var@,
        config@.reasoning_effort == config.reasoning_effort,
        config@.max_output_tokens == config.max_output_tokens,
        config.temperature matches Some(n) ==> config@.temperature == Some(n@),
        config.temperature is None ==> config@.temperature is None,
        config.top_p matches Some(n) ==> config@.top_p == Some(n@),
        config.top_p is None ==> config@.top_p is None,
        config@.openrouter.referer == opt_view(config.openrouter.referer),
        config@.openrouter.title == opt_view(config.openrouter.title),
        config@.openrouter.categories == opt_view(config.openrouter.categories),
        config@.prompt_cache.retention == config.prompt_cache.retention,
        config@.prompt_cache.key == opt_view(config.prompt_cache.key),
        config@.prompt_cache.store_responses == config.prompt_cache.store_responses,
{
}

} // verus!
