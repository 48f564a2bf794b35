//! MCP servers and their tools: the configuration, the search over tools, and
//! the results of calls.

use crate::json::json_print;
use crate::json::len_of_put;
use crate::json::lookup_of_put;
use crate::json::no_entries;
use crate::json::opt_json;
use crate::json::optional_text_view;
use crate::json::or_null_view;
use crate::json::put;
use crate::json::Json;
use crate::json::JsonObject;
use crate::json::JsonView;
use crate::text::around;
use crate::text::around_two;
use crate::text::comes_before;
use crate::text::contains;
use crate::text::copy_opt;
use crate::text::is_blank;
use crate::text::is_white;
use crate::text::join;
use crate::text::joined;
use crate::text::joining_is_associative;
use crate::text::middle_occurs;
use crate::text::occurs;
use crate::text::opt_view;
use crate::text::parts_occur_in_joined;
use crate::text::precedes;
use crate::text::precedes_irreflexive;
use crate::text::precedes_total;
use crate::text::precedes_transitive;
use crate::text::same;
use crate::text::split_whitespace;
use crate::text::trimmed;
use crate::text::trimmed_text_is_bare;
use crate::text::views;
use crate::text::words;
use crate::tools::resolve_path;
use crate::tools::resolved;
use vstd::prelude::*;

verus! {

/// Where the MCP configuration lies below the workspace root.
pub const MCP_CONFIG_PATH: &'static str = ".ferrix/mcp.json";

/// How many matches a search returns where the caller names no limit.
pub const DEFAULT_SEARCH_LIMIT: usize = 10;

/// How many matches a search returns at most.
pub const MAX_SEARCH_LIMIT: usize = 50;

/// What a text is in lower case by the rules of Unicode.
pub uninterp spec fn lowercase(s: Seq<char>) -> Seq<char>;

/// `str::to_lowercase`. Its result depends on the text alone.
#[verifier::external_body]
fn to_lowercase(s: &str) -> (r: String)
    ensures
        r@ == lowercase(s@),
{
    s.to_lowercase()
}

/// A tool as an MCP server describes it.
#[derive(Debug)]
pub struct McpTool {
    pub name: String,
    pub title: Option<String>,
    pub description: Option<String>,
    pub input_schema: Json,
}

/// What a tool's description holds.
#[verifier::ext_equal]
pub struct McpToolView {
    pub name: Seq<char>,
    pub title: Option<Seq<char>>,
    pub description: Option<Seq<char>>,
    pub input_schema: JsonView,
}

impl View for McpTool {
    type V = McpToolView;

    open spec fn view(&self) -> McpToolView {
        McpToolView {
            name: self.name@,
            title: opt_view(self.title),
            description: opt_view(self.description),
            input_schema: self.input_schema@,
        }
    }
}

/// A tool together with the server that offers it.
#[derive(Debug)]
pub struct McpToolEntry {
    pub server: String,
    pub tool: McpTool,
}

/// What an entry holds.
#[verifier::ext_equal]
pub struct McpToolEntryView {
    pub server: Seq<char>,
    pub tool: McpToolView,
}

impl View for McpToolEntry {
    type V = McpToolEntryView;

    open spec fn view(&self) -> McpToolEntryView {
        McpToolEntryView { server: self.server@, tool: self.tool@ }
    }
}

/// The views of a list of entries.
pub open spec fn entry_views(entries: Seq<McpToolEntry>) -> Seq<McpToolEntryView> {
    entries.map_values(|entry: McpToolEntry| entry@)
}

/// A tool that a search found.
#[derive(Debug)]
pub struct McpToolSearchResult {
    pub server: String,
    pub tool: String,
    pub qualified_name: String,
    pub title: Option<String>,
    pub description: Option<String>,
    pub input_schema: Json,
    pub score: u64,
}

/// What a found tool holds.
#[verifier::ext_equal]
pub struct MatchView {
    pub server: Seq<char>,
    pub tool: Seq<char>,
    pub qualified_name: Seq<char>,
    pub title: Option<Seq<char>>,
    pub description: Option<Seq<char>>,
    pub input_schema: JsonView,
    pub score: nat,
}

impl View for McpToolSearchResult {
    type V = MatchView;

    open spec fn view(&self) -> MatchView {
        MatchView {
            server: self.server@,
            tool: self.tool@,
            qualified_name: self.qualified_name@,
            title: opt_view(self.title),
            description: opt_view(self.description),
            input_schema: self.input_schema@,
            score: self.score as nat,
        }
    }
}

/// The views of a list of found tools.
pub open spec fn match_views(found: Seq<McpToolSearchResult>) -> Seq<MatchView> {
    found.map_values(|m: McpToolSearchResult| m@)
}

/// The parts of a tool's description in lower case, as a search reads them.
#[derive(Debug)]
pub struct LoweredTool {
    pub haystack: String,
    pub name: String,
    pub title: String,
    pub description: String,
}

/// What the lowered parts hold.
#[verifier::ext_equal]
pub struct LoweredView {
    pub haystack: Seq<char>,
    pub name: Seq<char>,
    pub title: Seq<char>,
    pub description: Seq<char>,
}

impl View for LoweredTool {
    type V = LoweredView;

    open spec fn view(&self) -> LoweredView {
        LoweredView {
            haystack: self.haystack@,
            name: self.name@,
            title: self.title@,
            description: self.description@,
        }
    }
}

/// A text, or the empty text in place of none.
pub open spec fn or_empty(s: Option<Seq<char>>) -> Seq<char> {
    match s {
        Some(t) => t,
        None => Seq::empty(),
    }
}

/// The text that a search looks through: server, name, title and description
/// with a blank between neighbours.
pub open spec fn haystack_text(entry: McpToolEntryView) -> Seq<char> {
    entry.server + " "@ + entry.tool.name + " "@ + or_empty(entry.tool.title) + " "@ + or_empty(
        entry.tool.description,
    )
}

/// An entry's texts in lower case.
pub open spec fn lowered(entry: McpToolEntryView) -> LoweredView {
    LoweredView {
        haystack: lowercase(haystack_text(entry)),
        name: lowercase(entry.tool.name),
        title: lowercase(or_empty(entry.tool.title)),
        description: lowercase(or_empty(entry.tool.description)),
    }
}

/// The terms of a query: its words in lower case.
pub open spec fn query_terms(query: Seq<char>) -> Seq<Seq<char>> {
    words(query).map_values(|word: Seq<char>| lowercase(word))
}

/// Whether each term stands somewhere in the haystack.
pub open spec fn has_all_terms(haystack: Seq<char>, terms: Seq<Seq<char>>) -> bool {
    forall|i: int| 0 <= i < terms.len() ==> occurs(haystack, #[trigger] terms[i])
}

/// What one term adds to a tool's score: most where it is the tool's name,
/// less where it is part of the name, of the title or of the description.
pub open spec fn term_score(texts: LoweredView, term: Seq<char>) -> nat {
    if texts.name == term {
        100
    } else if occurs(texts.name, term) {
        60
    } else if occurs(texts.title, term) {
        30
    } else if occurs(texts.description, term) {
        15
    } else {
        1
    }
}

/// The sum of what the terms add.
pub open spec fn terms_score(texts: LoweredView, terms: Seq<Seq<char>>) -> nat
    decreases terms.len(),
{
    if terms.len() == 0 {
        0
    } else {
        terms_score(texts, terms.drop_last()) + term_score(texts, terms.last())
    }
}

/// A tool's score for a list of terms. Without terms each tool has the same.
pub open spec fn score_of(texts: LoweredView, terms: Seq<Seq<char>>) -> nat {
    if terms.len() == 0 {
        1
    } else {
        terms_score(texts, terms)
    }
}

/// What a search reports of an entry with the given texts in lower case.
pub open spec fn match_of(
    entry: McpToolEntryView,
    texts: LoweredView,
    terms: Seq<Seq<char>>,
) -> Option<MatchView> {
    if has_all_terms(texts.haystack, terms) {
        Some(
            MatchView {
                server: entry.server,
                tool: entry.tool.name,
                qualified_name: entry.server + "/"@ + entry.tool.name,
                title: entry.tool.title,
                description: entry.tool.description,
                input_schema: entry.tool.input_schema,
                score: score_of(texts, terms),
            },
        )
    } else {
        None
    }
}

/// The tools that hold every term, in the order of the entries.
pub open spec fn matches_of(entries: Seq<McpToolEntryView>, terms: Seq<Seq<char>>) -> Seq<MatchView>
    decreases entries.len(),
{
    if entries.len() == 0 {
        Seq::empty()
    } else {
        let before = matches_of(entries.drop_last(), terms);
        match match_of(entries.last(), lowered(entries.last()), terms) {
            Some(found) => before.push(found),
            None => before,
        }
    }
}

/// Whether `a` stands strictly ahead of `b`: by the higher score, then by the
/// server's name, then by the tool's.
pub open spec fn ahead(a: MatchView, b: MatchView) -> bool {
    ||| a.score > b.score
    ||| a.score == b.score && precedes(a.server, b.server)
    ||| a.score == b.score && a.server == b.server && precedes(a.tool, b.tool)
}

/// A ranked list with one more match, behind those that it is not ahead of.
pub open spec fn ranked_insert(ranked: Seq<MatchView>, m: MatchView) -> Seq<MatchView>
    decreases ranked.len(),
{
    if ranked.len() > 0 && ahead(m, ranked.last()) {
        ranked_insert(ranked.drop_last(), m).push(ranked.last())
    } else {
        ranked.push(m)
    }
}

/// The matches in ranked order. Those of equal rank keep their order.
pub open spec fn ranked(found: Seq<MatchView>) -> Seq<MatchView>
    decreases found.len(),
{
    if found.len() == 0 {
        found
    } else {
        ranked_insert(ranked(found.drop_last()), found.last())
    }
}

/// The first `limit` items of a list, or the whole list.
pub open spec fn first_of(found: Seq<MatchView>, limit: nat) -> Seq<MatchView> {
    if found.len() <= limit {
        found
    } else {
        found.take(limit as int)
    }
}

/// How many matches a search may return.
pub open spec fn effective_limit(limit: Option<usize>) -> nat {
    let wanted = match limit {
        Some(n) => n,
        None => DEFAULT_SEARCH_LIMIT,
    };
    if wanted < MAX_SEARCH_LIMIT {
        wanted as nat
    } else {
        MAX_SEARCH_LIMIT as nat
    }
}

/// Whether no item stands ahead of one before it.
pub open spec fn in_rank_order(found: Seq<MatchView>) -> bool {
    forall|i: int, j: int| 0 <= i < j < found.len() ==> !ahead(#[trigger] found[j], #[trigger] found[i])
}

/// Of two matches at most one is ahead of the other.
proof fn lemma_ahead_asymmetric(a: MatchView, b: MatchView)
    requires
        ahead(a, b),
    ensures
        !ahead(b, a),
{
    precedes_irreflexive(a.server);
    precedes_irreflexive(a.tool);
    if precedes(a.server, b.server) && precedes(b.server, a.server) {
        precedes_transitive(a.server, b.server, a.server);
    }
    if precedes(a.tool, b.tool) && precedes(b.tool, a.tool) {
        precedes_transitive(a.tool, b.tool, a.tool);
    }
}

/// If `c` is not ahead of `b`, and `b` not ahead of `a`, then `c` is not ahead
/// of `a`.
proof fn lemma_not_ahead_transitive(a: MatchView, b: MatchView, c: MatchView)
    requires
        !ahead(b, a),
        !ahead(c, b),
    ensures
        !ahead(c, a),
{
    precedes_total(a.server, b.server);
    precedes_total(b.server, c.server);
    precedes_total(a.tool, b.tool);
    precedes_total(b.tool, c.tool);
    if ahead(c, a) {
        precedes_irreflexive(a.server);
        precedes_irreflexive(a.tool);
        if precedes(c.server, a.server) && precedes(a.server, b.server) {
            precedes_transitive(c.server, a.server, b.server);
        }
        if precedes(c.server, a.server) && precedes(b.server, c.server) {
            precedes_transitive(b.server, c.server, a.server);
        }
        if precedes(a.server, b.server) && precedes(b.server, c.server) {
            precedes_transitive(a.server, b.server, c.server);
            if precedes(c.server, a.server) {
                precedes_transitive(a.server, c.server, a.server);
            }
        }
        if precedes(c.tool, a.tool) && precedes(a.tool, b.tool) {
            precedes_transitive(c.tool, a.tool, b.tool);
        }
        if precedes(c.tool, a.tool) && precedes(b.tool, c.tool) {
            precedes_transitive(b.tool, c.tool, a.tool);
        }
    }
}

proof fn lemma_insert_keeps_rank_order(list: Seq<MatchView>, m: MatchView)
    requires
        in_rank_order(list),
    ensures
        in_rank_order(ranked_insert(list, m)),
        ranked_insert(list, m).to_multiset() == list.to_multiset().insert(m),
        ranked_insert(list, m).len() == list.len() + 1,
        forall|b: MatchView|
            (forall|i: int| 0 <= i < list.len() ==> !ahead(b, #[trigger] list[i])) && !ahead(b, m)
                ==> (forall|i: int|
                0 <= i < list.len() + 1 ==> !ahead(b, #[trigger] ranked_insert(list, m)[i])),
    decreases list.len(),
{
    broadcast use vstd::seq_lib::group_to_multiset_ensures;

    if list.len() > 0 && ahead(m, list.last()) {
        let last = list.last();
        let front = list.drop_last();
        lemma_insert_keeps_rank_order(front, m);
        let inserted = ranked_insert(front, m);
        lemma_ahead_asymmetric(m, last);
        assert(forall|i: int| 0 <= i < front.len() ==> !ahead(last, #[trigger] front[i]));
        assert(in_rank_order(inserted.push(last)));
        assert(front.push(last) =~= list);
        assert(inserted.push(last).to_multiset() =~= list.to_multiset().insert(m));
        assert forall|b: MatchView|
            (forall|i: int| 0 <= i < list.len() ==> !ahead(b, #[trigger] list[i])) && !ahead(b, m)
            implies (forall|i: int|
            0 <= i < list.len() + 1 ==> !ahead(b, #[trigger] ranked_insert(list, m)[i])) by {
            assert forall|i: int| 0 <= i < front.len() implies !ahead(b, #[trigger] front[i]) by {
                assert(front[i] == list[i]);
            }
            assert(!ahead(b, list[list.len() - 1]));
        }
    } else if list.len() > 0 {
        let last = list.last();
        assert forall|i: int| 0 <= i < list.len() implies !ahead(m, #[trigger] list[i]) by {
            if i < list.len() - 1 {
                assert(!ahead(list[list.len() - 1], list[i]));
                lemma_not_ahead_transitive(list[i], last, m);
            }
        }
        assert(in_rank_order(list.push(m)));
    } else {
        assert(in_rank_order(list.push(m)));
    }
}

/// Ranking puts the matches in rank order and neither drops nor adds one.
pub proof fn ranked_is_ordered_permutation(found: Seq<MatchView>)
    ensures
        in_rank_order(ranked(found)),
        ranked(found).to_multiset() == found.to_multiset(),
        ranked(found).len() == found.len(),
    decreases found.len(),
{
    broadcast use vstd::seq_lib::group_to_multiset_ensures;

    if found.len() > 0 {
        ranked_is_ordered_permutation(found.drop_last());
        lemma_insert_keeps_rank_order(ranked(found.drop_last()), found.last());
        assert(found.drop_last().push(found.last()) =~= found);
    }
}

/// Whether two matches are of one rank, neither ahead of the other.
pub open spec fn of_rank(rank: MatchView) -> spec_fn(MatchView) -> bool {
    |m: MatchView| !ahead(m, rank) && !ahead(rank, m)
}

proof fn lemma_insert_keeps_ties(list: Seq<MatchView>, m: MatchView, rank: MatchView)
    ensures
        ranked_insert(list, m).filter(of_rank(rank)) == list.push(m).filter(of_rank(rank)),
    decreases list.len(),
{
    reveal(Seq::filter);
    let tied = of_rank(rank);
    assert(list.push(m).drop_last() =~= list);
    if list.len() > 0 && ahead(m, list.last()) {
        let last = list.last();
        let front = list.drop_last();
        lemma_insert_keeps_ties(front, m, rank);
        assert(front.push(m).drop_last() =~= front);
        assert(ranked_insert(front, m).push(last).drop_last() =~= ranked_insert(front, m));
        let shorter = front.filter(tied);
        assert(list.filter(tied) == if tied(last) {
            shorter.push(last)
        } else {
            shorter
        });
        assert(front.push(m).filter(tied) == if tied(m) {
            shorter.push(m)
        } else {
            shorter
        });
        if tied(m) && tied(last) {
            lemma_not_ahead_transitive(last, rank, m);
        }
    }
}

/// Matches of one rank come out of the ranking in the order in which they went
/// in.
pub proof fn ranked_keeps_ties_in_order(found: Seq<MatchView>, rank: MatchView)
    ensures
        ranked(found).filter(of_rank(rank)) == found.filter(of_rank(rank)),
    decreases found.len(),
{
    reveal(Seq::filter);
    if found.len() > 0 {
        let front = found.drop_last();
        ranked_keeps_ties_in_order(front, rank);
        lemma_insert_keeps_ties(ranked(front), found.last(), rank);
        assert(ranked(front).push(found.last()).drop_last() =~= ranked(front));
    }
}

/// What a search found.
#[derive(Debug)]
pub struct McpSearchOutput {
    pub query: String,
    pub matches: Vec<McpToolSearchResult>,
    pub total_tools: usize,
}

/// What the output of a search holds.
#[verifier::ext_equal]
pub struct SearchView {
    pub query: Seq<char>,
    pub matches: Seq<MatchView>,
    pub total_tools: nat,
}

impl View for McpSearchOutput {
    type V = SearchView;

    open spec fn view(&self) -> SearchView {
        SearchView {
            query: self.query@,
            matches: match_views(self.matches@),
            total_tools: self.total_tools as nat,
        }
    }
}

/// What a search over `entries` finds.
pub open spec fn search_result(
    entries: Seq<McpToolEntryView>,
    query: Seq<char>,
    limit: Option<usize>,
) -> SearchView {
    SearchView {
        query,
        matches: first_of(
            ranked(matches_of(entries, query_terms(query))),
            effective_limit(limit),
        ),
        total_tools: entries.len(),
    }
}

/// The terms of a query.
pub fn search_terms(query: &str) -> (r: Vec<String>)
    ensures
        views(r@) == query_terms(query@),
{
    let parts = split_whitespace(query);
    let mut terms: Vec<String> = Vec::new();
    for i in 0..parts.len()
        invariant
            views(parts@) == words(query@),
            terms@.len() == i,
            forall|j: int| 0 <= j < i ==> (#[trigger] terms@[j])@ == lowercase(parts@[j]@),
    {
        terms.push(to_lowercase(parts[i].as_str()));
    }
    assert(views(terms@) =~= query_terms(query@)) by {
        assert forall|j: int| 0 <= j < terms@.len() implies views(terms@)[j] == query_terms(
            query@,
        )[j] by {
            assert(views(parts@)[j] == parts@[j]@);
        }
    }
    terms
}

/// A text, or the empty text in place of none.
fn text_or_empty(s: &Option<String>) -> (r: String)
    ensures
        r@ == or_empty(opt_view(*s)),
{
    match s {
        Some(t) => t.clone(),
        None => String::new(),
    }
}

impl LoweredTool {
    /// What the terms of a query add up to.
    pub fn score(&self, query_terms: &[String]) -> (r: u64)
        requires
            100 * query_terms@.len() <= u64::MAX,
        ensures
            r == score_of(self@, views(query_terms@)),
    {
        if query_terms.len() == 0 {
            return 1;
        }
        let ghost terms = views(query_terms@);
        let mut total: u64 = 0;
        assert(terms.take(0) =~= Seq::<Seq<char>>::empty());
        for i in 0..query_terms.len()
            invariant
                terms == views(query_terms@),
                100 * query_terms@.len() <= u64::MAX,
                total == terms_score(self@, terms.take(i as int)),
                total <= 100 * i,
        {
            let term = query_terms[i].as_str();
            let points: u64 = if same(self.name.as_str(), term) {
                100
            } else if contains(self.name.as_str(), term) {
                60
            } else if contains(self.title.as_str(), term) {
                30
            } else if contains(self.description.as_str(), term) {
                15
            } else {
                1
            };
            proof {
                let upto = terms.take(i + 1);
                assert(upto.drop_last() =~= terms.take(i as int));
                assert(upto.last() == term@);
            }
            total += points;
        }
        assert(terms.take(terms.len() as int) =~= terms);
        total
    }

    /// Whether each term stands in the haystack.
    pub fn has_all(&self, query_terms: &[String]) -> (r: bool)
        ensures
            r == has_all_terms(self.haystack@, views(query_terms@)),
    {
        let ghost terms = views(query_terms@);
        for i in 0..query_terms.len()
            invariant
                terms == views(query_terms@),
                forall|j: int| 0 <= j < i ==> occurs(self.haystack@, #[trigger] terms[j]),
        {
            assert(terms[i as int] == query_terms@[i as int]@);
            if !contains(self.haystack.as_str(), query_terms[i].as_str()) {
                return false;
            }
        }
        true
    }
}

impl McpToolEntry {
    /// The entry's texts in lower case.
    pub fn lowered(&self) -> (r: LoweredTool)
        ensures
            r@ == lowered(self@),
    {
        let title = text_or_empty(&self.tool.title);
        let description = text_or_empty(&self.tool.description);
        LoweredTool {
            haystack: self.haystack(),
            name: to_lowercase(self.tool.name.as_str()),
            title: to_lowercase(title.as_str()),
            description: to_lowercase(description.as_str()),
        }
    }

    /// The text in lower case that a search looks through.
    pub fn haystack(&self) -> (r: String)
        ensures
            r@ == lowercase(haystack_text(self@)),
    {
        let mut text: String = self.server.clone();
        text.push_str(" ");
        text.push_str(self.tool.name.as_str());
        text.push_str(" ");
        text.push_str(text_or_empty(&self.tool.title).as_str());
        text.push_str(" ");
        text.push_str(text_or_empty(&self.tool.description).as_str());
        to_lowercase(text.as_str())
    }

    /// The tool's score for the terms of a query.
    pub fn score(&self, query_terms: &[String]) -> (r: u64)
        requires
            100 * query_terms@.len() <= u64::MAX,
        ensures
            r == score_of(lowered(self@), views(query_terms@)),
    {
        self.lowered().score(query_terms)
    }

    /// What a search reports of the tool, given its texts in lower case.
    pub fn match_lowered(&self, texts: &LoweredTool, query_terms: &[String]) -> (r: Option<
        McpToolSearchResult,
    >)
        requires
            100 * query_terms@.len() <= u64::MAX,
        ensures
            match_of(self@, texts@, views(query_terms@)) == (match r {
                Some(found) => Some(found@),
                None => None,
            }),
            r matches Some(found) ==> {
                &&& found.server@ == self.server@
                &&& found.tool@ == self.tool.name@
                &&& opt_view(found.title) == opt_view(self.tool.title)
                &&& opt_view(found.description) == opt_view(self.tool.description)
                &&& found.input_schema@ == self.tool.input_schema@
            },
    {
        if !texts.has_all(query_terms) {
            return None;
        }
        Some(
            McpToolSearchResult {
                server: self.server.clone(),
                tool: self.tool.name.clone(),
                qualified_name: around(self.server.as_str(), "/", self.tool.name.as_str()),
                title: copy_opt(&self.tool.title),
                description: copy_opt(&self.tool.description),
                input_schema: self.tool.input_schema.clone(),
                score: texts.score(query_terms),
            },
        )
    }

    /// What a search reports of the tool.
    pub fn search_match(&self, query_terms: &[String]) -> (r: Option<McpToolSearchResult>)
        requires
            100 * query_terms@.len() <= u64::MAX,
        ensures
            match_of(self@, lowered(self@), views(query_terms@)) == (match r {
                Some(found) => Some(found@),
                None => None,
            }),
    {
        self.match_lowered(&self.lowered(), query_terms)
    }
}

impl McpToolSearchResult {
    /// Whether this match stands strictly ahead of another.
    pub fn is_ahead(&self, other: &McpToolSearchResult) -> (r: bool)
        ensures
            r == ahead(self@, other@),
    {
        if self.score != other.score {
            return self.score > other.score;
        }
        if same(self.server.as_str(), other.server.as_str()) {
            proof {
                precedes_irreflexive(self.server@);
            }
            comes_before(self.tool.as_str(), other.tool.as_str())
        } else {
            comes_before(self.server.as_str(), other.server.as_str())
        }
    }
}

/// Puts one more match into a ranked list, behind those that it is not ahead
/// of.
fn insert_ranked(list: &mut Vec<McpToolSearchResult>, m: McpToolSearchResult)
    ensures
        match_views(final(list)@) == ranked_insert(match_views(old(list)@), m@),
{
    let ghost before = match_views(list@);
    let ghost given = m@;
    let mut at: usize = list.len();
    assert(before.take(at as int) =~= before);
    assert(ranked_insert(before, given) =~= ranked_insert(before.take(at as int), given)
        + before.skip(at as int));
    while at > 0 && m.is_ahead(&list[at - 1])
        invariant
            at <= list@.len(),
            m@ == given,
            before == match_views(list@),
            ranked_insert(before, given) == ranked_insert(before.take(at as int), given)
                + before.skip(at as int),
        decreases at,
    {
        proof {
            let upto = before.take(at as int);
            assert(upto.last() == list@[at - 1]@);
            assert(upto.drop_last() =~= before.take(at - 1));
            assert(ranked_insert(upto.drop_last(), given).push(upto.last()) + before.skip(
                at as int,
            ) =~= ranked_insert(before.take(at - 1), given) + before.skip(at - 1));
        }
        at -= 1;
    }
    proof {
        let upto = before.take(at as int);
        if at > 0 {
            assert(upto.last() == list@[at - 1]@);
        }
        assert(ranked_insert(upto, given) == upto.push(given));
    }
    list.insert(at, m);
    assert(match_views(list@) =~= before.take(at as int).push(given) + before.skip(at as int));
}

/// Ranks matches and keeps the first `limit` of them.
pub fn rank(found: Vec<McpToolSearchResult>, limit: usize) -> (r: Vec<McpToolSearchResult>)
    ensures
        match_views(r@) == first_of(ranked(match_views(found@)), limit as nat),
{
    let ghost all = match_views(found@);
    let mut list: Vec<McpToolSearchResult> = Vec::new();
    assert(all.take(0) =~= Seq::<MatchView>::empty());
    assert(match_views(list@) =~= ranked(all.take(0)));
    for m in it: found
        invariant
            all == match_views(found@),
            it.seq() == found@,
            match_views(list@) == ranked(all.take(it.index() as int)),
    {
        proof {
            let upto = all.take(it.index() + 1);
            assert(upto.drop_last() =~= all.take(it.index() as int));
            assert(upto.last() == m@);
        }
        insert_ranked(&mut list, m);
    }
    assert(all.take(all.len() as int) =~= all);
    let ghost whole = match_views(list@);
    list.truncate(limit);
    assert(match_views(list@) =~= first_of(whole, limit as nat));
    list
}

/// What can go wrong between the workspace and its MCP servers.
#[derive(Debug)]
pub enum McpError {
    EmptyServerName,
    EmptyCommand { server: String },
    DuplicateServer { server: String },
    ArgumentsNotObject,
    UnknownTool { server: String, tool: String },
    UnknownServer { server: String },
    CallFailed { server: String, tool: String },
    SpawnFailed { server: String },
    InitializeFailed { server: String },
    ListFailed { server: String },
    ConfigUnreadable { path: String },
    ConfigUnparsable { path: String },
}

/// What an error holds.
#[verifier::ext_equal]
pub enum McpErrorView {
    EmptyServerName,
    EmptyCommand { server: Seq<char> },
    DuplicateServer { server: Seq<char> },
    ArgumentsNotObject,
    UnknownTool { server: Seq<char>, tool: Seq<char> },
    UnknownServer { server: Seq<char> },
    CallFailed { server: Seq<char>, tool: Seq<char> },
    SpawnFailed { server: Seq<char> },
    InitializeFailed { server: Seq<char> },
    ListFailed { server: Seq<char> },
    ConfigUnreadable { path: Seq<char> },
    ConfigUnparsable { path: Seq<char> },
}

impl View for McpError {
    type V = McpErrorView;

    open spec fn view(&self) -> McpErrorView {
        match self {
            McpError::EmptyServerName => McpErrorView::EmptyServerName,
            McpError::EmptyCommand { server } => McpErrorView::EmptyCommand { server: server@ },
            McpError::DuplicateServer { server } => McpErrorView::DuplicateServer {
                server: server@,
            },
            McpError::ArgumentsNotObject => McpErrorView::ArgumentsNotObject,
            McpError::UnknownTool { server, tool } => McpErrorView::UnknownTool {
                server: server@,
                tool: tool@,
            },
            McpError::UnknownServer { server } => McpErrorView::UnknownServer { server: server@ },
            McpError::CallFailed { server, tool } => McpErrorView::CallFailed {
                server: server@,
                tool: tool@,
            },
            McpError::SpawnFailed { server } => McpErrorView::SpawnFailed { server: server@ },
            McpError::InitializeFailed { server } => McpErrorView::InitializeFailed {
                server: server@,
            },
            McpError::ListFailed { server } => McpErrorView::ListFailed { server: server@ },
            McpError::ConfigUnreadable { path } => McpErrorView::ConfigUnreadable { path: path@ },
            McpError::ConfigUnparsable { path } => McpErrorView::ConfigUnparsable { path: path@ },
        }
    }
}

impl McpErrorView {
    /// The words of an error.
    pub open spec fn message(self) -> Seq<char> {
        match self {
            McpErrorView::EmptyServerName => "MCP server name must not be empty"@,
            McpErrorView::EmptyCommand { server } => "MCP server `"@ + server
                + "` command must not be empty"@,
            McpErrorView::DuplicateServer { server } => "duplicate MCP server `"@ + server + "`"@,
            McpErrorView::ArgumentsNotObject => "MCP tool arguments must be a JSON object"@,
            McpErrorView::UnknownTool { server, tool } => "unknown MCP tool `"@ + server + "/"@
                + tool + "`"@,
            McpErrorView::UnknownServer { server } => "unknown MCP server `"@ + server + "`"@,
            McpErrorView::CallFailed { server, tool } => "MCP tool `"@ + server + "/"@ + tool
                + "` failed"@,
            McpErrorView::SpawnFailed { server } => "failed to spawn MCP server `"@ + server
                + "`"@,
            McpErrorView::InitializeFailed { server } => "failed to initialize MCP server `"@
                + server + "`"@,
            McpErrorView::ListFailed { server } => "failed to list MCP tools for `"@ + server
                + "`"@,
            McpErrorView::ConfigUnreadable { path } => "failed to read MCP config `"@ + path
                + "`"@,
            McpErrorView::ConfigUnparsable { path } => "failed to parse MCP config `"@ + path
                + "`"@,
        }
    }
}

impl McpError {
    /// The words of the error.
    pub fn message(&self) -> (r: String)
        ensures
            r@ == self@.message(),
    {
        match self {
            McpError::EmptyServerName => "MCP server name must not be empty".to_owned(),
            McpError::EmptyCommand { server } => around(
                "MCP server `",
                server.as_str(),
                "` command must not be empty",
            ),
            McpError::DuplicateServer { server } => around(
                "duplicate MCP server `",
                server.as_str(),
                "`",
            ),
            McpError::ArgumentsNotObject => "MCP tool arguments must be a JSON object".to_owned(),
            McpError::UnknownTool { server, tool } => around_two(
                "unknown MCP tool `",
                server.as_str(),
                "/",
                tool.as_str(),
                "`",
            ),
            McpError::UnknownServer { server } => around(
                "unknown MCP server `",
                server.as_str(),
                "`",
            ),
            McpError::CallFailed { server, tool } => around_two(
                "MCP tool `",
                server.as_str(),
                "/",
                tool.as_str(),
                "` failed",
            ),
            McpError::SpawnFailed { server } => around(
                "failed to spawn MCP server `",
                server.as_str(),
                "`",
            ),
            McpError::InitializeFailed { server } => around(
                "failed to initialize MCP server `",
                server.as_str(),
                "`",
            ),
            McpError::ListFailed { server } => around(
                "failed to list MCP tools for `",
                server.as_str(),
                "`",
            ),
            McpError::ConfigUnreadable { path } => around(
                "failed to read MCP config `",
                path.as_str(),
                "`",
            ),
            McpError::ConfigUnparsable { path } => around(
                "failed to parse MCP config `",
                path.as_str(),
                "`",
            ),
        }
    }
}

/// The connected servers, by name, and the tools that they offer.
#[derive(Debug)]
pub struct McpRegistry {
    servers: Vec<String>,
    tools: Vec<McpToolEntry>,
}

/// What a registry holds.
#[verifier::ext_equal]
pub struct McpRegistryView {
    pub servers: Seq<Seq<char>>,
    pub tools: Seq<McpToolEntryView>,
}

impl View for McpRegistry {
    type V = McpRegistryView;

    closed spec fn view(&self) -> McpRegistryView {
        McpRegistryView { servers: views(self.servers@), tools: entry_views(self.tools@) }
    }
}

/// The tools of one server as entries.
pub open spec fn entries_of(server: Seq<char>, tools: Seq<McpTool>) -> Seq<McpToolEntryView> {
    tools.map_values(|tool: McpTool| McpToolEntryView { server, tool: tool@ })
}

/// Whether an entry is the named tool of the named server.
pub open spec fn is_entry(entry: McpToolEntryView, server: Seq<char>, tool: Seq<char>) -> bool {
    entry.server == server && entry.tool.name == tool
}

/// What is said to a call before it is sent: its arguments, or why it is
/// refused.
pub open spec fn call_check(
    registry: McpRegistryView,
    server: Seq<char>,
    tool: Seq<char>,
    arguments: JsonView,
) -> Result<JsonView, McpErrorView> {
    if !(arguments is Object) {
        Err(McpErrorView::ArgumentsNotObject)
    } else if !exists|i: int|
        0 <= i < registry.tools.len() && is_entry(#[trigger] registry.tools[i], server, tool) {
        Err(McpErrorView::UnknownTool { server, tool })
    } else if !registry.servers.contains(server) {
        Err(McpErrorView::UnknownServer { server })
    } else {
        Ok(arguments)
    }
}

impl McpRegistry {
    /// A registry without servers.
    pub fn empty() -> (r: McpRegistry)
        ensures
            r@ == (McpRegistryView { servers: Seq::empty(), tools: Seq::empty() }),
    {
        let r = McpRegistry { servers: Vec::new(), tools: Vec::new() };
        assert(r@ =~= McpRegistryView { servers: Seq::empty(), tools: Seq::empty() });
        r
    }

    /// A registry of tools whose servers are not connected.
    pub fn from_tools(tools: Vec<McpToolEntry>) -> (r: McpRegistry)
        ensures
            r@ == (McpRegistryView { servers: Seq::empty(), tools: entry_views(tools@) }),
    {
        let r = McpRegistry { servers: Vec::new(), tools };
        assert(r@ =~= McpRegistryView { servers: Seq::empty(), tools: entry_views(tools@) });
        r
    }

    /// Takes in a server that was connected, with the tools that it offers.
    pub fn add_server(&mut self, server: String, tools: Vec<McpTool>)
        ensures
            final(self)@ == with_server(old(self)@, server@, tools@),
    {
        let ghost before = self@;
        let ghost added = entries_of(server@, tools@);
        for tool in it: tools
            invariant
                it.seq() == tools@,
                added == entries_of(server@, tools@),
                self@.servers == before.servers,
                self@.tools == before.tools + added.take(it.index() as int),
        {
            let ghost upto = self@.tools;
            let entry = McpToolEntry { server: server.clone(), tool };
            proof {
                assert(entry@ =~= added[it.index() as int]);
            }
            self.tools.push(entry);
            assert(self@.tools =~= upto.push(added[it.index() as int]));
        }
        self.servers.push(server);
        assert(self@.servers =~= before.servers.push(server@));
        assert(added.take(added.len() as int) =~= added);
    }

    /// How many servers are connected.
    pub fn server_count(&self) -> (r: usize)
        ensures
            r == self@.servers.len(),
    {
        self.servers.len()
    }

    /// How many tools the servers offer.
    pub fn tool_count(&self) -> (r: usize)
        ensures
            r == self@.tools.len(),
    {
        self.tools.len()
    }

    /// Finds the tools that hold every word of a query, best first.
    pub fn search(&self, query: &str, limit: Option<usize>) -> (r: McpSearchOutput)
        requires
            100 * words(query@).len() <= u64::MAX,
        ensures
            r@ == search_result(self@.tools, query@, limit),
    {
        let wanted: usize = match limit {
            Some(n) => n,
            None => DEFAULT_SEARCH_LIMIT,
        };
        let cap: usize = if wanted < MAX_SEARCH_LIMIT {
            wanted
        } else {
            MAX_SEARCH_LIMIT
        };
        let terms = search_terms(query);
        let ghost entries = self@.tools;
        assert(views(terms@).len() == terms@.len());
        let mut found: Vec<McpToolSearchResult> = Vec::new();
        assert(entries.take(0) =~= Seq::<McpToolEntryView>::empty());
        assert(match_views(found@) =~= matches_of(entries.take(0), views(terms@)));
        for i in 0..self.tools.len()
            invariant
                entries == self@.tools,
                100 * terms@.len() <= u64::MAX,
                match_views(found@) == matches_of(entries.take(i as int), views(terms@)),
        {
            let ghost before = match_views(found@);
            proof {
                let upto = entries.take(i + 1);
                assert(upto.drop_last() =~= entries.take(i as int));
                assert(upto.last() == self.tools@[i as int]@);
            }
            match self.tools[i].search_match(terms.as_slice()) {
                Some(m) => {
                    let ghost given = m@;
                    found.push(m);
                    assert(match_views(found@) =~= before.push(given));
                },
                None => {},
            }
        }
        assert(entries.take(entries.len() as int) =~= entries);
        McpSearchOutput {
            query: query.to_owned(),
            matches: rank(found, cap),
            total_tools: self.tools.len(),
        }
    }

    /// Checks a call before it is sent. The arguments come back where the tool
    /// and its server are known.
    pub fn check_call(&self, server_name: &str, tool_name: &str, arguments: Json) -> (r: Result<
        Json,
        McpError,
    >)
        ensures
            call_check(self@, server_name@, tool_name@, arguments@) == (match r {
                Ok(given) => Ok::<JsonView, McpErrorView>(given@),
                Err(error) => Err(error@),
            }),
    {
        if !arguments.is_object() {
            return Err(McpError::ArgumentsNotObject);
        }
        let mut known: bool = false;
        for i in 0..self.tools.len()
            invariant
                known <==> exists|j: int|
                    0 <= j < i && is_entry(#[trigger] self@.tools[j], server_name@, tool_name@),
        {
            let entry = &self.tools[i];
            assert(self@.tools[i as int] == entry@);
            if same(entry.server.as_str(), server_name) && same(
                entry.tool.name.as_str(),
                tool_name,
            ) {
                known = true;
            }
        }
        if !known {
            return Err(
                McpError::UnknownTool { server: server_name.to_owned(), tool: tool_name.to_owned() },
            );
        }
        let mut connected: bool = false;
        for i in 0..self.servers.len()
            invariant
                connected <==> exists|j: int|
                    0 <= j < i && #[trigger] self@.servers[j] == server_name@,
        {
            assert(self@.servers[i as int] == self.servers@[i as int]@);
            if same(self.servers[i].as_str(), server_name) {
                connected = true;
            }
        }
        if !connected {
            return Err(McpError::UnknownServer { server: server_name.to_owned() });
        }
        Ok(arguments)
    }
}

/// A registry with one more server and its tools.
pub open spec fn with_server(
    registry: McpRegistryView,
    server: Seq<char>,
    tools: Seq<McpTool>,
) -> McpRegistryView {
    McpRegistryView {
        servers: registry.servers.push(server),
        tools: registry.tools + entries_of(server, tools),
    }
}

/// Each tool of a server that was taken in can be called there, and what could be
/// called before still can.
pub proof fn tools_taken_in_can_be_called(
    registry: McpRegistryView,
    server: Seq<char>,
    tools: Seq<McpTool>,
    at: int,
    arguments: JsonView,
    other_server: Seq<char>,
    other_tool: Seq<char>,
)
    requires
        arguments is Object,
        0 <= at < tools.len(),
    ensures
        call_check(with_server(registry, server, tools), server, tools[at].name@, arguments)
            == Ok::<JsonView, McpErrorView>(arguments),
        call_check(registry, other_server, other_tool, arguments) is Ok ==> call_check(
            with_server(registry, server, tools),
            other_server,
            other_tool,
            arguments,
        ) is Ok,
{
    let after = with_server(registry, server, tools);
    assert(after.servers[registry.servers.len() as int] == server);
    assert(is_entry(
        after.tools[registry.tools.len() + at],
        server,
        tools[at].name@,
    ));
    if call_check(registry, other_server, other_tool, arguments) is Ok {
        let i = choose|i: int|
            0 <= i < registry.tools.len() && is_entry(
                #[trigger] registry.tools[i],
                other_server,
                other_tool,
            );
        assert(is_entry(after.tools[i], other_server, other_tool));
        let j = choose|j: int|
            0 <= j < registry.servers.len() && registry.servers[j] == other_server;
        assert(after.servers[j] == other_server);
    }
}

/// A search returns no more matches than the limit allows, each of them a tool
/// that holds every term of the query, in rank order; and where the limit leaves
/// room, every such tool.
pub proof fn search_is_bounded_and_ordered(
    entries: Seq<McpToolEntryView>,
    query: Seq<char>,
    limit: Option<usize>,
)
    ensures
        ({
            let all = matches_of(entries, query_terms(query));
            let found = search_result(entries, query, limit).matches;
            &&& found.len() <= effective_limit(limit) <= MAX_SEARCH_LIMIT
            &&& in_rank_order(found)
            &&& forall|i: int| 0 <= i < found.len() ==> all.contains(#[trigger] found[i])
            &&& all.len() <= effective_limit(limit) ==> found.to_multiset() == all.to_multiset()
        }),
{
    broadcast use vstd::seq_lib::group_to_multiset_ensures;

    let all = matches_of(entries, query_terms(query));
    let found = search_result(entries, query, limit).matches;
    ranked_is_ordered_permutation(all);
    assert forall|i: int| 0 <= i < found.len() implies all.contains(#[trigger] found[i]) by {
        assert(found[i] == ranked(all)[i]);
        assert(ranked(all).contains(found[i]));
        assert(ranked(all).to_multiset().count(found[i]) > 0);
        assert(all.to_multiset().count(found[i]) > 0);
    }
}

/// A tool is among the matches exactly where its entry holds every term.
pub proof fn matches_are_the_entries_with_every_term(
    entries: Seq<McpToolEntryView>,
    terms: Seq<Seq<char>>,
    m: MatchView,
)
    ensures
        matches_of(entries, terms).contains(m) <==> exists|i: int|
            0 <= i < entries.len() && match_of(
                #[trigger] entries[i],
                lowered(entries[i]),
                terms,
            ) == Some(m),
    decreases entries.len(),
{
    if entries.len() > 0 {
        let front = entries.drop_last();
        let last = entries.last();
        matches_are_the_entries_with_every_term(front, terms, m);
        let before = matches_of(front, terms);
        let all = matches_of(entries, terms);
        if all.contains(m) {
            let at = choose|at: int| 0 <= at < all.len() && all[at] == m;
            if at < before.len() {
                assert(before[at] == m);
                let i = choose|i: int|
                    0 <= i < front.len() && match_of(
                        #[trigger] front[i],
                        lowered(front[i]),
                        terms,
                    ) == Some(m);
                assert(entries[i] == front[i]);
            } else {
                assert(entries[entries.len() - 1] == last);
            }
        }
        if exists|i: int|
            0 <= i < entries.len() && match_of(
                #[trigger] entries[i],
                lowered(entries[i]),
                terms,
            ) == Some(m) {
            let i = choose|i: int|
                0 <= i < entries.len() && match_of(
                    #[trigger] entries[i],
                    lowered(entries[i]),
                    terms,
                ) == Some(m);
            if i < front.len() {
                assert(front[i] == entries[i]);
                assert(before.contains(m));
                let at = choose|at: int| 0 <= at < before.len() && before[at] == m;
                assert(all[at] == m);
            } else {
                assert(all[all.len() - 1] == m);
            }
        }
    }
}

/// The JSON object of a match.
pub open spec fn match_json(m: MatchView) -> JsonView {
    let e = no_entries();
    let e = put(e, "server"@, JsonView::Text(m.server));
    let e = put(e, "tool"@, JsonView::Text(m.tool));
    let e = put(e, "qualified_name"@, JsonView::Text(m.qualified_name));
    let e = put(e, "title"@, optional_text_view(m.title));
    let e = put(e, "description"@, optional_text_view(m.description));
    let e = put(e, "input_schema"@, m.input_schema);
    let e = put(e, "score"@, JsonView::Integer(m.score as int));
    JsonView::Object(e)
}

/// The JSON object of a search's output.
pub open spec fn search_json(output: SearchView) -> JsonView {
    let e = no_entries();
    let e = put(e, "query"@, JsonView::Text(output.query));
    let e = put(
        e,
        "matches"@,
        JsonView::List(output.matches.map_values(|m: MatchView| match_json(m))),
    );
    let e = put(e, "total_tools"@, JsonView::Integer(output.total_tools as int));
    JsonView::Object(e)
}

impl McpToolSearchResult {
    /// The match as a JSON object.
    pub fn to_json(&self) -> (r: Json)
        ensures
            r@ == match_json(self@),
    {
        Json::Object(
            JsonObject::new().with("server", Json::text(self.server.as_str())).with(
                "tool",
                Json::text(self.tool.as_str()),
            ).with("qualified_name", Json::text(self.qualified_name.as_str())).with(
                "title",
                Json::optional_text(&self.title),
            ).with("description", Json::optional_text(&self.description)).with(
                "input_schema",
                self.input_schema.clone(),
            ).with("score", Json::Unsigned(self.score)),
        )
    }
}

impl McpSearchOutput {
    /// The output as a JSON object.
    pub fn to_json(&self) -> (r: Json)
        ensures
            r@ == search_json(self@),
    {
        let mut items: Vec<Json> = Vec::new();
        for i in 0..self.matches.len()
            invariant
                items@.len() == i,
                forall|j: int|
                    0 <= j < i ==> (#[trigger] items@[j])@ == match_json(self.matches@[j]@),
        {
            items.push(self.matches[i].to_json());
        }
        let list = Json::List(items);
        proof {
            assert(list@->List_0 =~= self@.matches.map_values(|m: MatchView| match_json(m)));
        }
        Json::Object(
            JsonObject::new().with("query", Json::text(self.query.as_str())).with(
                "matches",
                list,
            ).with("total_tools", Json::Unsigned(self.total_tools as u64)),
        )
    }
}

/// One piece of what a tool replied: its JSON form, and its text where it is
/// text.
#[derive(Debug)]
pub struct McpContent {
    pub value: Json,
    pub text: Option<String>,
}

/// What a tool replied. `content_text` is the JSON text of the content as it
/// came, where it can be written.
#[derive(Debug)]
pub struct McpCallResult {
    pub content: Vec<McpContent>,
    pub content_text: Option<String>,
    pub structured_content: Option<Json>,
    pub is_error: Option<bool>,
    pub meta: Option<Json>,
}

/// A tool's reply as the agent uses it.
#[derive(Debug)]
pub struct McpCallOutput {
    pub server: String,
    pub tool: String,
    pub ok: bool,
    pub content: String,
    pub data: Json,
}

/// What such a reply holds.
#[verifier::ext_equal]
pub struct CallOutputView {
    pub server: Seq<char>,
    pub tool: Seq<char>,
    pub ok: bool,
    pub content: Seq<char>,
    pub data: JsonView,
}

impl View for McpCallOutput {
    type V = CallOutputView;

    open spec fn view(&self) -> CallOutputView {
        CallOutputView {
            server: self.server@,
            tool: self.tool@,
            ok: self.ok,
            content: self.content@,
            data: self.data@,
        }
    }
}

/// The texts among the pieces of a reply, in order.
pub open spec fn texts_of(contents: Seq<McpContent>) -> Seq<Seq<char>>
    decreases contents.len(),
{
    if contents.len() == 0 {
        Seq::empty()
    } else {
        let before = texts_of(contents.drop_last());
        match contents.last().text {
            Some(text) => before.push(text@),
            None => before,
        }
    }
}

/// Whether a reply counts as a success: it does unless it says otherwise.
pub open spec fn reply_ok(result: McpCallResult) -> bool {
    result.is_error != Some(true)
}

/// The text of a reply: its structured content in JSON, else its texts, a line
/// each, else its content as it came.
pub open spec fn reply_text(result: McpCallResult) -> Seq<char> {
    match result.structured_content {
        Some(value) => json_print(value@),
        None => {
            let texts = texts_of(result.content@);
            if texts.len() > 0 {
                joined(texts, "\n"@)
            } else {
                or_empty(opt_view(result.content_text))
            }
        },
    }
}

/// The JSON object of a reply.
pub open spec fn reply_json(
    server: Seq<char>,
    tool: Seq<char>,
    result: McpCallResult,
) -> JsonView {
    let e = no_entries();
    let e = put(e, "server"@, JsonView::Text(server));
    let e = put(e, "tool"@, JsonView::Text(tool));
    let e = put(e, "ok"@, JsonView::Bool(reply_ok(result)));
    let e = put(
        e,
        "content"@,
        JsonView::List(result.content@.map_values(|piece: McpContent| piece.value@)),
    );
    let e = put(e, "structured_content"@, or_null_view(opt_json(result.structured_content)));
    let e = put(e, "meta"@, or_null_view(opt_json(result.meta)));
    JsonView::Object(e)
}

/// What the agent makes of a reply.
pub open spec fn normalized(
    server: Seq<char>,
    tool: Seq<char>,
    result: McpCallResult,
) -> CallOutputView {
    CallOutputView {
        server,
        tool,
        ok: reply_ok(result),
        content: reply_text(result),
        data: reply_json(server, tool, result),
    }
}

/// The texts among the pieces of a reply.
pub fn text_content(contents: &[McpContent]) -> (r: Vec<String>)
    ensures
        views(r@) == texts_of(contents@),
{
    let mut out: Vec<String> = Vec::new();
    assert(contents@.take(0) =~= Seq::<McpContent>::empty());
    assert(views(out@) =~= texts_of(contents@.take(0)));
    for i in 0..contents.len()
        invariant
            views(out@) == texts_of(contents@.take(i as int)),
    {
        let ghost before = views(out@);
        proof {
            let upto = contents@.take(i + 1);
            assert(upto.drop_last() =~= contents@.take(i as int));
            assert(upto.last() == contents@[i as int]);
        }
        match &contents[i].text {
            Some(text) => {
                out.push(text.clone());
                assert(views(out@) =~= before.push(text@));
            },
            None => {},
        }
    }
    assert(contents@.take(contents@.len() as int) =~= contents@);
    out
}

/// Brings a reply into the form that the agent uses.
pub fn normalize_call_result(server: &str, tool: &str, result: McpCallResult) -> (r: McpCallOutput)
    ensures
        r@ == normalized(server@, tool@, result),
{
    let ok: bool = match result.is_error {
        Some(failed) => !failed,
        None => true,
    };
    let texts = text_content(result.content.as_slice());
    assert(views(texts@).len() == texts@.len());
    let content = match &result.structured_content {
        Some(value) => value.to_text(),
        None => {
            if texts.len() > 0 {
                join(&texts, "\n")
            } else {
                text_or_empty(&result.content_text)
            }
        },
    };
    let mut pieces: Vec<Json> = Vec::new();
    for i in 0..result.content.len()
        invariant
            pieces@.len() == i,
            forall|j: int| 0 <= j < i ==> (#[trigger] pieces@[j])@ == result.content@[j].value@,
    {
        pieces.push(result.content[i].value.clone());
    }
    let list = Json::List(pieces);
    proof {
        assert(list@->List_0 =~= result.content@.map_values(|piece: McpContent| piece.value@));
    }
    let data = Json::Object(
        JsonObject::new().with("server", Json::text(server)).with("tool", Json::text(tool)).with(
            "ok",
            Json::Bool(ok),
        ).with("content", list).with(
            "structured_content",
            Json::or_null(&result.structured_content),
        ).with("meta", Json::or_null(&result.meta)),
    );
    McpCallOutput { server: server.to_owned(), tool: tool.to_owned(), ok, content, data }
}

/// What comes of a call that was sent: the reply, or none where the server did
/// not answer.
pub fn finish_call(server_name: &str, tool_name: &str, reply: Option<McpCallResult>) -> (r: Result<
    McpCallOutput,
    McpError,
>)
    ensures
        match reply {
            Some(result) => r matches Ok(output) && output@ == normalized(
                server_name@,
                tool_name@,
                result,
            ),
            None => r matches Err(error) && error@ == (McpErrorView::CallFailed {
                server: server_name@,
                tool: tool_name@,
            }),
        },
{
    match reply {
        Some(result) => Ok(normalize_call_result(server_name, tool_name, result)),
        None => Err(
            McpError::CallFailed { server: server_name.to_owned(), tool: tool_name.to_owned() },
        ),
    }
}

/// What a server tells the model of how its tools are to be used.
#[derive(Debug)]
pub struct McpServerInstructions {
    pub server: String,
    pub instructions: String,
}

/// A server as the configuration describes it.
#[derive(Debug)]
pub struct McpServerConfig {
    pub name: String,
    pub command: String,
    pub args: Vec<String>,
    pub env: Vec<(String, String)>,
    pub cwd: Option<String>,
    pub disabled: bool,
}

/// The MCP configuration of a workspace.
#[derive(Debug)]
pub struct McpConfig {
    pub servers: Vec<McpServerConfig>,
}

/// What is wrong with a server, given those before it in the configuration.
pub open spec fn server_fault(servers: Seq<McpServerConfig>, at: int) -> Option<McpErrorView> {
    let server = servers[at];
    if trimmed(server.name@).len() == 0 {
        Some(McpErrorView::EmptyServerName)
    } else if trimmed(server.command@).len() == 0 {
        Some(McpErrorView::EmptyCommand { server: server.name@ })
    } else if exists|j: int| 0 <= j < at && #[trigger] servers[j].name@ == server.name@ {
        Some(McpErrorView::DuplicateServer { server: server.name@ })
    } else {
        None
    }
}

impl McpServerConfig {
    /// A server with a name and a command, and the defaults for the rest.
    pub fn new(name: String, command: String) -> (r: McpServerConfig)
        ensures
            r.name == name,
            r.command == command,
            r.args@.len() == 0,
            r.env@.len() == 0,
            r.cwd is None,
            !r.disabled,
    {
        McpServerConfig {
            name,
            command,
            args: Vec::new(),
            env: Vec::new(),
            cwd: None,
            disabled: false,
        }
    }

    /// The directory that the server runs in, where the configuration names
    /// one.
    pub fn working_directory(&self, workspace_root: &str) -> (r: Option<String>)
        ensures
            opt_view(r) == (match self.cwd {
                Some(cwd) => Some(resolved(workspace_root@, cwd@)),
                None => None,
            }),
    {
        match &self.cwd {
            Some(cwd) => Some(resolve_path(workspace_root, cwd.as_str())),
            None => None,
        }
    }
}

impl McpConfig {
    /// Checks each server in turn. The first fault is reported.
    pub fn validate(&self) -> (r: Result<(), McpError>)
        ensures
            match r {
                Ok(_) => forall|i: int|
                    0 <= i < self.servers@.len() ==> #[trigger] server_fault(self.servers@, i) is None,
                Err(error) => exists|i: int|
                    0 <= i < self.servers@.len() && #[trigger] server_fault(self.servers@, i)
                        == Some(error@) && forall|j: int|
                        0 <= j < i ==> #[trigger] server_fault(self.servers@, j) is None,
            },
    {
        for i in 0..self.servers.len()
            invariant
                forall|j: int| 0 <= j < i ==> #[trigger] server_fault(self.servers@, j) is None,
        {
            let server = &self.servers[i];
            if is_blank(server.name.as_str()) {
                assert(server_fault(self.servers@, i as int) is Some);
                return Err(McpError::EmptyServerName);
            }
            if is_blank(server.command.as_str()) {
                assert(server_fault(self.servers@, i as int) is Some);
                return Err(McpError::EmptyCommand { server: server.name.clone() });
            }
            for j in 0..i
                invariant
                    i < self.servers@.len(),
                    *server == self.servers@[i as int],
                    forall|k: int| 0 <= k < j ==> #[trigger] self.servers@[k].name@ != server.name@,
                    forall|k: int| 0 <= k < i ==> #[trigger] server_fault(self.servers@, k) is None,
                    trimmed(server.name@).len() > 0,
                    trimmed(server.command@).len() > 0,
            {
                if same(self.servers[j].name.as_str(), server.name.as_str()) {
                    assert(self.servers@[j as int].name@ == server.name@);
                    assert(server_fault(self.servers@, i as int) is Some);
                    return Err(McpError::DuplicateServer { server: server.name.clone() });
                }
            }
        }
        Ok(())
    }
}

/// Whether a server is to be connected.
pub open spec fn is_enabled() -> spec_fn(McpServerConfig) -> bool {
    |server: McpServerConfig| !server.disabled
}

impl McpConfig {
    /// The servers that are to be connected, in their order.
    pub fn enabled_servers(self) -> (r: Vec<McpServerConfig>)
        ensures
            r@ == self.servers@.filter(is_enabled()),
    {
        let ghost all = self.servers@;
        let mut out: Vec<McpServerConfig> = Vec::new();
        proof {
            reveal(Seq::filter);
            assert(all.take(0).filter(is_enabled()) =~= Seq::<McpServerConfig>::empty());
        }
        for server in it: self.servers
            invariant
                it.seq() == all,
                out@ == all.take(it.index() as int).filter(is_enabled()),
        {
            proof {
                reveal(Seq::filter);
                let upto = all.take(it.index() + 1);
                assert(upto.drop_last() =~= all.take(it.index() as int));
                assert(upto.last() == server);
            }
            if !server.disabled {
                out.push(server);
            }
        }
        assert(all.take(all.len() as int) =~= all);
        out
    }
}

/// A configuration without faults names each server once, with a name and a
/// command that are not blank.
pub proof fn valid_servers_are_distinct(servers: Seq<McpServerConfig>)
    requires
        forall|i: int| 0 <= i < servers.len() ==> #[trigger] server_fault(servers, i) is None,
    ensures
        forall|i: int, j: int|
            0 <= i < j < servers.len() ==> (#[trigger] servers[i]).name@ != (
            #[trigger] servers[j]).name@,
        forall|i: int|
            0 <= i < servers.len() ==> trimmed((#[trigger] servers[i]).name@).len() > 0 && trimmed(
                servers[i].command@,
            ).len() > 0,
{
    assert forall|i: int, j: int| 0 <= i < j < servers.len() implies (#[trigger] servers[i]).name@
        != (#[trigger] servers[j]).name@ by {
        assert(server_fault(servers, j) is None);
        assert(servers[i].name@ == servers[i].name@);
    }
    assert forall|i: int| 0 <= i < servers.len() implies trimmed((#[trigger] servers[i]).name@).len()
        > 0 && trimmed(servers[i].command@).len() > 0 by {
        assert(server_fault(servers, i) is None);
    }
}

/// Whether a match tells an entry: its server, its tool, both joined by a slash, and
/// all that the server says of the tool.
pub open spec fn tells_entry(m: MatchView, entry: McpToolEntryView) -> bool {
    &&& m.server == entry.server
    &&& m.tool == entry.tool.name
    &&& m.qualified_name == entry.server + "/"@ + entry.tool.name
    &&& m.title == entry.tool.title
    &&& m.description == entry.tool.description
    &&& m.input_schema == entry.tool.input_schema
}

/// Whether the words of a query, in lower case, all stand in what an entry says in
/// lower case: its server, its name, its title and its description.
pub open spec fn answers_query(entry: McpToolEntryView, query: Seq<char>) -> bool {
    let title = match entry.tool.title {
        Some(text) => text,
        None => Seq::empty(),
    };
    let description = match entry.tool.description {
        Some(text) => text,
        None => Seq::empty(),
    };
    forall|k: int|
        0 <= k < words(query).len() ==> occurs(
            lowercase(
                entry.server + " "@ + entry.tool.name + " "@ + title + " "@ + description,
            ),
            lowercase(#[trigger] words(query)[k]),
        )
}

proof fn lemma_terms_of_query(entry: McpToolEntryView, query: Seq<char>)
    ensures
        has_all_terms(lowered(entry).haystack, query_terms(query)) <==> answers_query(
            entry,
            query,
        ),
{
    let haystack = lowered(entry).haystack;
    let terms = query_terms(query);
    assert(terms.len() == words(query).len());
    assert(forall|k: int| 0 <= k < terms.len() ==> terms[k] == lowercase(words(query)[k]));
    if has_all_terms(haystack, terms) {
        assert forall|k: int| 0 <= k < words(query).len() implies occurs(
            haystack,
            lowercase(#[trigger] words(query)[k]),
        ) by {
            assert(terms[k] == lowercase(words(query)[k]));
        }
    }
    if answers_query(entry, query) {
        assert forall|k: int| 0 <= k < terms.len() implies occurs(haystack, #[trigger] terms[k]) by {
            assert(terms[k] == lowercase(words(query)[k]));
        }
    }
}

/// Every match of a search stems from a tool of the registry that answers the
/// query, and tells that tool as the registry has it: its server, its name, its
/// title, its description and the schema of its arguments.
pub proof fn matches_tell_tools_of_the_registry(
    entries: Seq<McpToolEntryView>,
    query: Seq<char>,
    limit: Option<usize>,
    i: int,
)
    requires
        0 <= i < search_result(entries, query, limit).matches.len(),
    ensures
        exists|j: int|
            0 <= j < entries.len() && answers_query(#[trigger] entries[j], query) && tells_entry(
                search_result(entries, query, limit).matches[i],
                entries[j],
            ),
{
    let m = search_result(entries, query, limit).matches[i];
    let terms = query_terms(query);
    search_is_bounded_and_ordered(entries, query, limit);
    assert(matches_of(entries, terms).contains(m));
    matches_are_the_entries_with_every_term(entries, terms, m);
    let j = choose|j: int|
        0 <= j < entries.len() && match_of(#[trigger] entries[j], lowered(entries[j]), terms)
            == Some(m);
    lemma_terms_of_query(entries[j], query);
    assert(answers_query(entries[j], query));
}

/// Every tool of the registry that answers the query is among the matches, where a
/// search finds fewer than it may return.
pub proof fn tools_that_answer_are_found(
    entries: Seq<McpToolEntryView>,
    query: Seq<char>,
    limit: Option<usize>,
    j: int,
)
    requires
        0 <= j < entries.len(),
        answers_query(entries[j], query),
        search_result(entries, query, limit).matches.len() < (match limit {
            Some(n) => if n < 50 {
                n as int
            } else {
                50
            },
            None => 10,
        }),
    ensures
        exists|i: int|
            0 <= i < search_result(entries, query, limit).matches.len() && tells_entry(
                #[trigger] search_result(entries, query, limit).matches[i],
                entries[j],
            ),
{
    broadcast use vstd::seq_lib::group_to_multiset_ensures;

    let terms = query_terms(query);
    let all = matches_of(entries, terms);
    let found = search_result(entries, query, limit).matches;
    lemma_terms_of_query(entries[j], query);
    let m = match_of(entries[j], lowered(entries[j]), terms)->Some_0;
    matches_are_the_entries_with_every_term(entries, terms, m);
    assert(all.contains(m));
    ranked_is_ordered_permutation(all);
    search_is_bounded_and_ordered(entries, query, limit);
    assert(all.to_multiset().count(m) > 0);
    assert(found.to_multiset().count(m) > 0);
    assert(found.contains(m));
    let i = choose|i: int| 0 <= i < found.len() && found[i] == m;
    assert(tells_entry(search_result(entries, query, limit).matches[i], entries[j]));
}

/// A search tells its query and how many tools there are. It returns no more
/// matches than were asked for, ten where no number is given, and fifty at most;
/// the higher scores first, among equals the server that goes first by name, and
/// of one server the tool that does.
pub proof fn searches_are_limited_and_ranked(
    entries: Seq<McpToolEntryView>,
    query: Seq<char>,
    limit: Option<usize>,
    i: int,
    j: int,
)
    ensures
        ({
            let result = search_result(entries, query, limit);
            &&& result.query == query
            &&& result.total_tools == entries.len()
            &&& result.matches.len() <= entries.len()
            &&& result.matches.len() <= 50
            &&& limit matches Some(n) ==> result.matches.len() <= n
            &&& limit is None ==> result.matches.len() <= 10
            &&& 0 <= i < j < result.matches.len() ==> {
                let a = result.matches[i];
                let b = result.matches[j];
                &&& a.score >= b.score
                &&& a.score == b.score ==> !precedes(b.server, a.server)
                &&& a.score == b.score && a.server == b.server ==> !precedes(b.tool, a.tool)
            }
        }),
{
    let terms = query_terms(query);
    search_is_bounded_and_ordered(entries, query, limit);
    ranked_is_ordered_permutation(matches_of(entries, terms));
    lemma_no_more_matches(entries, terms);
    let found = search_result(entries, query, limit).matches;
    if 0 <= i < j < found.len() {
        assert(!ahead(found[j], found[i]));
    }
}

proof fn lemma_no_more_matches(entries: Seq<McpToolEntryView>, terms: Seq<Seq<char>>)
    ensures
        matches_of(entries, terms).len() <= entries.len(),
    decreases entries.len(),
{
    if entries.len() > 0 {
        lemma_no_more_matches(entries.drop_last(), terms);
    }
}

/// What a term adds to a tool's score depends on the best place in which it
/// stands, and each place counts for more than the next: the whole name, a part of
/// the name, the title, the description, and anywhere else. One more term adds
/// just that to the score of the terms before it.
pub proof fn terms_add_to_the_score(
    texts: LoweredView,
    terms: Seq<Seq<char>>,
    term: Seq<char>,
)
    ensures
        ({
            let added = score_of(texts, seq![term]);
            &&& texts.name == term <==> added == 100
            &&& texts.name != term && occurs(texts.name, term) <==> added == 60
            &&& texts.name != term && !occurs(texts.name, term) && occurs(texts.title, term)
                <==> added == 30
            &&& texts.name != term && !occurs(texts.name, term) && !occurs(texts.title, term)
                && occurs(texts.description, term) <==> added == 15
            &&& texts.name != term && !occurs(texts.name, term) && !occurs(texts.title, term)
                && !occurs(texts.description, term) <==> added == 1
            &&& terms.len() > 0 ==> score_of(texts, terms.push(term)) == score_of(texts, terms)
                + added
        }),
        score_of(texts, Seq::empty()) == 1,
{
    let one = seq![term];
    assert(one.drop_last() =~= Seq::empty());
    assert(one.last() == term);
    assert(terms_score(texts, Seq::empty()) == 0);
    assert(terms.push(term).drop_last() =~= terms);
}

/// An entry's texts are read in lower case, each for itself.
pub proof fn lowered_texts_are_the_entrys(entry: McpToolEntryView)
    ensures
        lowered(entry).name == lowercase(entry.tool.name),
        lowered(entry).title == lowercase(
            match entry.tool.title {
                Some(text) => text,
                None => Seq::empty(),
            },
        ),
        lowered(entry).description == lowercase(
            match entry.tool.description {
                Some(text) => text,
                None => Seq::empty(),
            },
        ),
{
}

/// A match is scored by its entry's texts and the terms of the query.
pub proof fn matches_carry_their_score(
    entry: McpToolEntryView,
    texts: LoweredView,
    terms: Seq<Seq<char>>,
)
    ensures
        match_of(entry, texts, terms) is Some <==> forall|k: int|
            0 <= k < terms.len() ==> occurs(texts.haystack, #[trigger] terms[k]),
        match_of(entry, texts, terms) matches Some(m) ==> m.score == score_of(texts, terms)
            && tells_entry(m, entry),
{
}

/// A match is written down whole, each part under its name; what the server does
/// not say is null.
pub proof fn matches_are_written_whole(m: MatchView)
    ensures
        ({
            let record = match_json(m);
            &&& record.get("server"@) == Some(JsonView::Text(m.server))
            &&& record.get("tool"@) == Some(JsonView::Text(m.tool))
            &&& record.get("qualified_name"@) == Some(JsonView::Text(m.qualified_name))
            &&& record.get("title"@) == Some(
                match m.title {
                    Some(text) => JsonView::Text(text),
                    None => JsonView::Null,
                },
            )
            &&& record.get("description"@) == Some(
                match m.description {
                    Some(text) => JsonView::Text(text),
                    None => JsonView::Null,
                },
            )
            &&& record.get("input_schema"@) == Some(m.input_schema)
            &&& record.get("score"@) == Some(JsonView::Integer(m.score as int))
            &&& record->Object_0.len() == 7
        }),
{
    broadcast use lookup_of_put, len_of_put;

    reveal_strlit("server");
    reveal_strlit("tool");
    reveal_strlit("qualified_name");
    reveal_strlit("title");
    reveal_strlit("description");
    reveal_strlit("input_schema");
    reveal_strlit("score");
    assert("server"@.len() == 6 && "tool"@.len() == 4 && "qualified_name"@.len() == 14
        && "title"@.len() == 5 && "description"@.len() == 11 && "input_schema"@.len() == 12
        && "score"@.len() == 5);
    assert("title"@[0] == 't' && "score"@[0] == 's');
}

/// What a search found is written down whole: the query, the matches one by one,
/// and how many tools there are.
pub proof fn searches_are_written_whole(output: SearchView)
    ensures
        ({
            let record = search_json(output);
            &&& record.get("query"@) == Some(JsonView::Text(output.query))
            &&& record.get("total_tools"@) == Some(JsonView::Integer(output.total_tools as int))
            &&& record.get("matches"@) matches Some(JsonView::List(list)) && list.len()
                == output.matches.len() && forall|i: int|
                0 <= i < list.len() ==> #[trigger] list[i] == match_json(output.matches[i])
            &&& record->Object_0.len() == 3
        }),
{
    broadcast use lookup_of_put, len_of_put;

    reveal_strlit("query");
    reveal_strlit("matches");
    reveal_strlit("total_tools");
    assert("query"@.len() == 5 && "matches"@.len() == 7 && "total_tools"@.len() == 11);
}

proof fn lemma_texts_of(contents: Seq<McpContent>, i: int)
    requires
        0 <= i < contents.len(),
        contents[i].text is Some,
    ensures
        texts_of(contents).contains(contents[i].text->Some_0@),
    decreases contents.len(),
{
    let front = contents.drop_last();
    if i < front.len() {
        lemma_texts_of(front, i);
        assert(front[i] == contents[i]);
        let text = contents[i].text->Some_0@;
        let before = texts_of(front);
        let k = choose|k: int| 0 <= k < before.len() && before[k] == text;
        assert(texts_of(contents)[k] == text);
    } else {
        assert(texts_of(contents).last() == contents[i].text->Some_0@);
    }
}

proof fn lemma_no_texts(contents: Seq<McpContent>)
    ensures
        texts_of(contents).len() == 0 <==> forall|i: int|
            0 <= i < contents.len() ==> (#[trigger] contents[i]).text is None,
        (forall|i: int| 0 <= i < contents.len() ==> (#[trigger] contents[i]).text is Some)
            ==> texts_of(contents).len() == contents.len() && forall|i: int|
            0 <= i < contents.len() ==> #[trigger] texts_of(contents)[i]
                == contents[i].text->Some_0@,
    decreases contents.len(),
{
    if contents.len() > 0 {
        let front = contents.drop_last();
        lemma_no_texts(front);
        assert(forall|i: int| 0 <= i < front.len() ==> front[i] == contents[i]);
        assert(contents[contents.len() - 1] == contents.last());
        if texts_of(front).len() > 0 {
            let i = choose|i: int| 0 <= i < front.len() && (#[trigger] front[i]).text is Some;
            assert(contents[i].text is Some);
        }
    }
}

/// A tool's reply comes out as it was given: a success unless it says that it is an
/// error; as text the structured content, where there is one, else all its texts,
/// a line each, else the content as it came; and in the data the server, the tool
/// and every piece of the reply, each under its name.
pub proof fn replies_come_out_as_given(server: Seq<char>, tool: Seq<char>, result: McpCallResult)
    ensures
        ({
            let output = normalized(server, tool, result);
            &&& output.server == server
            &&& output.tool == tool
            &&& !output.ok <==> result.is_error == Some(true)
            &&& result.structured_content matches Some(value) ==> output.content == json_print(
                value@,
            )
            &&& result.structured_content is None && (forall|i: int|
                0 <= i < result.content@.len() ==> (#[trigger] result.content@[i]).text is None)
                ==> (match result.content_text {
                Some(text) => output.content == text@,
                None => output.content.len() == 0,
            })
            &&& result.structured_content is None ==> forall|i: int|
                0 <= i < result.content@.len() && (#[trigger] result.content@[i]).text is Some
                    ==> occurs(output.content, result.content@[i].text->Some_0@)
            &&& result.structured_content is None && result.content@.len() == 1
                && result.content@[0].text is Some ==> output.content
                == result.content@[0].text->Some_0@
            &&& result.structured_content is None && result.content@.len() == 2
                && result.content@[0].text is Some && result.content@[1].text is Some
                ==> output.content == result.content@[0].text->Some_0@ + "\n"@
                + result.content@[1].text->Some_0@
        }),
{
    let contents = result.content@;
    lemma_no_texts(contents);
    let texts = texts_of(contents);
    if result.structured_content is None {
        assert forall|i: int| 0 <= i < contents.len() && (#[trigger] contents[i]).text
            is Some implies occurs(
            normalized(server, tool, result).content,
            contents[i].text->Some_0@,
        ) by {
            lemma_texts_of(contents, i);
            let k = choose|k: int| 0 <= k < texts.len() && texts[k] == contents[i].text->Some_0@;
            parts_occur_in_joined(texts, "\n"@, k);
        }
        if contents.len() == 2 && contents[0].text is Some && contents[1].text is Some {
            assert(texts.drop_last().len() == 1);
            assert(texts.drop_last()[0] == texts[0]);
            assert(joined(texts.drop_last(), "\n"@) == texts[0]);
        }
    }
}

/// The data of a reply tells the server, the tool, whether it is a success, each
/// piece of the content in its order, the structured content and the meta data;
/// what the reply does not have is null.
pub proof fn replies_are_written_whole(server: Seq<char>, tool: Seq<char>, result: McpCallResult)
    ensures
        ({
            let data = normalized(server, tool, result).data;
            &&& data.get("server"@) == Some(JsonView::Text(server))
            &&& data.get("tool"@) == Some(JsonView::Text(tool))
            &&& data.get("ok"@) == Some(JsonView::Bool(result.is_error != Some(true)))
            &&& data.get("content"@) matches Some(JsonView::List(pieces)) && pieces.len()
                == result.content@.len() && forall|i: int|
                0 <= i < pieces.len() ==> #[trigger] pieces[i] == result.content@[i].value@
            &&& data.get("structured_content"@) == Some(
                match result.structured_content {
                    Some(value) => value@,
                    None => JsonView::Null,
                },
            )
            &&& data.get("meta"@) == Some(
                match result.meta {
                    Some(value) => value@,
                    None => JsonView::Null,
                },
            )
            &&& data->Object_0.len() == 6
        }),
{
    broadcast use lookup_of_put, len_of_put;

    reveal_strlit("server");
    reveal_strlit("tool");
    reveal_strlit("ok");
    reveal_strlit("content");
    reveal_strlit("structured_content");
    reveal_strlit("meta");
    assert("server"@.len() == 6 && "tool"@.len() == 4 && "ok"@.len() == 2 && "content"@.len() == 7
        && "structured_content"@.len() == 18 && "meta"@.len() == 4);
    assert("tool"@[0] == 't' && "meta"@[0] == 'm');
}

/// A call is sent exactly where its arguments are an object, its tool is one of the
/// registry under the server that it names, and that server is connected; and it
/// is sent with the arguments as they are. Any other call is refused, and the
/// refusal names what was not found.
pub proof fn calls_are_sent_to_known_tools(
    registry: McpRegistryView,
    server: Seq<char>,
    tool: Seq<char>,
    arguments: JsonView,
)
    ensures
        ({
            let known = exists|i: int|
                0 <= i < registry.tools.len() && (#[trigger] registry.tools[i]).server == server
                    && registry.tools[i].tool.name == tool;
            let checked = call_check(registry, server, tool, arguments);
            &&& checked is Ok <==> arguments is Object && known && registry.servers.contains(
                server,
            )
            &&& checked matches Ok(sent) ==> sent == arguments
            &&& !(arguments is Object) ==> checked == Err::<JsonView, McpErrorView>(
                McpErrorView::ArgumentsNotObject,
            )
            &&& arguments is Object && !known ==> checked == Err::<JsonView, McpErrorView>(
                McpErrorView::UnknownTool { server, tool },
            )
            &&& arguments is Object && known && !registry.servers.contains(server) ==> checked
                == Err::<JsonView, McpErrorView>(McpErrorView::UnknownServer { server })
        }),
{
    if exists|i: int|
        0 <= i < registry.tools.len() && is_entry(#[trigger] registry.tools[i], server, tool) {
        let i = choose|i: int|
            0 <= i < registry.tools.len() && is_entry(#[trigger] registry.tools[i], server, tool);
        assert(registry.tools[i].server == server);
    }
    if exists|i: int|
        0 <= i < registry.tools.len() && (#[trigger] registry.tools[i]).server == server
            && registry.tools[i].tool.name == tool {
        let i = choose|i: int|
            0 <= i < registry.tools.len() && (#[trigger] registry.tools[i]).server == server
                && registry.tools[i].tool.name == tool;
        assert(is_entry(registry.tools[i], server, tool));
    }
}

/// A server is taken in with all its tools, in their order and as it describes them,
/// behind the servers and tools that were there.
pub proof fn servers_are_taken_in_whole(
    registry: McpRegistryView,
    server: Seq<char>,
    tools: Seq<McpTool>,
)
    ensures
        ({
            let after = with_server(registry, server, tools);
            let count = registry.tools.len() as int;
            &&& after.servers.len() == registry.servers.len() + 1
            &&& after.servers.drop_last() == registry.servers
            &&& after.servers.last() == server
            &&& after.tools.len() == count + tools.len()
            &&& after.tools.take(count) == registry.tools
            &&& forall|i: int|
                0 <= i < tools.len() ==> (#[trigger] after.tools[count + i]).server == server
                    && after.tools[count + i].tool == tools[i]@
        }),
{
    let after = with_server(registry, server, tools);
    assert(after.servers.drop_last() =~= registry.servers);
    assert(after.tools.take(registry.tools.len() as int) =~= registry.tools);
}

/// A server is at fault exactly where its name or its command is blank, or where a
/// server before it has its name.
pub proof fn faults_are_blank_or_double_names(servers: Seq<McpServerConfig>, at: int)
    requires
        0 <= at < servers.len(),
    ensures
        ({
            let blank_name = forall|k: int|
                0 <= k < servers[at].name@.len() ==> is_white(#[trigger] servers[at].name@[k]);
            let blank_command = forall|k: int|
                0 <= k < servers[at].command@.len() ==> is_white(
                    #[trigger] servers[at].command@[k],
                );
            let double = exists|j: int|
                0 <= j < at && (#[trigger] servers[j]).name@ == servers[at].name@;
            &&& server_fault(servers, at) is Some <==> blank_name || blank_command || double
            &&& blank_name <==> server_fault(servers, at) == Some(McpErrorView::EmptyServerName)
            &&& server_fault(servers, at) matches Some(McpErrorView::EmptyCommand { server })
                ==> blank_command && server == servers[at].name@
            &&& server_fault(servers, at) matches Some(McpErrorView::DuplicateServer { server })
                ==> double && server == servers[at].name@
            &&& !blank_name && blank_command ==> server_fault(servers, at) is Some
                && server_fault(servers, at)->Some_0 is EmptyCommand
            &&& server_fault(servers, at) matches Some(error) ==> error is EmptyServerName
                || error is EmptyCommand || error is DuplicateServer
        }),
{
    trimmed_text_is_bare(servers[at].name@);
    trimmed_text_is_bare(servers[at].command@);
    if exists|j: int| 0 <= j < at && (#[trigger] servers[j]).name@ == servers[at].name@ {
        let j = choose|j: int| 0 <= j < at && (#[trigger] servers[j]).name@ == servers[at].name@;
        assert(servers[j].name@ == servers[at].name@);
    }
}

/// The servers to be connected are those that are not disabled, and no others.
pub proof fn disabled_servers_are_left_out(
    servers: Seq<McpServerConfig>,
    server: McpServerConfig,
)
    ensures
        servers.filter(is_enabled()).contains(server) <==> servers.contains(server)
            && !server.disabled,
{
    let kept = servers.filter(is_enabled());
    if servers.contains(server) && !server.disabled {
        let i = choose|i: int| 0 <= i < servers.len() && servers[i] == server;
        servers.lemma_filter_contains(is_enabled(), i);
    }
    if kept.contains(server) {
        let k = choose|k: int| 0 <= k < kept.len() && kept[k] == server;
        servers.lemma_filter_pred(is_enabled(), k);
        servers.lemma_filter_contains_rev(is_enabled(), server);
    }
}

/// What an error of an MCP server is about, as far as it says.
pub open spec fn mcp_subject(error: McpErrorView) -> Option<Seq<char>> {
    match error {
        McpErrorView::EmptyServerName => None,
        McpErrorView::ArgumentsNotObject => None,
        McpErrorView::EmptyCommand { server } => Some(server),
        McpErrorView::DuplicateServer { server } => Some(server),
        McpErrorView::UnknownTool { server, tool } => Some(server + "/"@ + tool),
        McpErrorView::UnknownServer { server } => Some(server),
        McpErrorView::CallFailed { server, tool } => Some(server + "/"@ + tool),
        McpErrorView::SpawnFailed { server } => Some(server),
        McpErrorView::InitializeFailed { server } => Some(server),
        McpErrorView::ListFailed { server } => Some(server),
        McpErrorView::ConfigUnreadable { path } => Some(path),
        McpErrorView::ConfigUnparsable { path } => Some(path),
    }
}

proof fn lemma_pair_occurs(lead: Seq<char>, server: Seq<char>, tool: Seq<char>, end: Seq<char>)
    ensures
        occurs(lead + server + "/"@ + tool + end, server + "/"@ + tool),
{
    middle_occurs(lead, server + "/"@ + tool, end);
    joining_is_associative(lead, server + "/"@, tool);
    joining_is_associative(lead, server, "/"@);
}

/// The words of an error name the server, the tool or the file that it is about.
pub proof fn mcp_errors_name_their_subject(error: McpErrorView)
    ensures
        mcp_subject(error) matches Some(subject) ==> occurs(error.message(), subject),
{
    match error {
        McpErrorView::EmptyCommand { server } => middle_occurs(
            "MCP server `"@,
            server,
            "` command must not be empty"@,
        ),
        McpErrorView::DuplicateServer { server } => middle_occurs(
            "duplicate MCP server `"@,
            server,
            "`"@,
        ),
        McpErrorView::UnknownTool { server, tool } => lemma_pair_occurs(
            "unknown MCP tool `"@,
            server,
            tool,
            "`"@,
        ),
        McpErrorView::UnknownServer { server } => middle_occurs(
            "unknown MCP server `"@,
            server,
            "`"@,
        ),
        McpErrorView::CallFailed { server, tool } => lemma_pair_occurs(
            "MCP tool `"@,
            server,
            tool,
            "` failed"@,
        ),
        McpErrorView::SpawnFailed { server } => middle_occurs(
            "failed to spawn MCP server `"@,
            server,
            "`"@,
        ),
        McpErrorView::InitializeFailed { server } => middle_occurs(
            "failed to initialize MCP server `"@,
            server,
            "`"@,
        ),
        McpErrorView::ListFailed { server } => middle_occurs(
            "failed to list MCP tools for `"@,
            server,
            "`"@,
        ),
        McpErrorView::ConfigUnreadable { path } => middle_occurs(
            "failed to read MCP config `"@,
            path,
            "`"@,
        ),
        McpErrorView::ConfigUnparsable { path } => middle_occurs(
            "failed to parse MCP config `"@,
            path,
            "`"@,
        ),
        _ => {},
    }
}

/// What an entry and a match hold is what their fields hold, each by itself.
pub proof fn entries_and_matches_hold_their_fields(
    entry: McpToolEntry,
    found: McpToolSearchResult,
    output: McpSearchOutput,
)
    ensures
        entry@.server == entry.server@,
        entry@.tool.name == entry.tool.name@,
        entry.tool.title matches Some(text) ==> entry@.tool.title == Some(text@),
        entry.tool.title is None ==> entry@.tool.title is None,
        entry.tool.description matches Some(text) ==> entry@.tool.description == Some(text@),
        entry.tool.description is None ==> entry@.tool.description is None,
        entry@.tool.input_schema == entry.tool.input_schema@,
        found@.server == found.server@,
        found@.tool == found.tool@,
        found@.qualified_name == found.qualified_name@,
        found.title matches Some(text) ==> found@.title == Some(text@),
        found.title is None ==> found@.title is None,
        found.description matches Some(text) ==> found@.description == Some(text@),
        found.description is None ==> found@.description is None,
        found@.input_schema == found.input_schema@,
        found@.score == found.score,
        output@.query == output.query@,
        output@.matches.len() == output.matches@.len(),
        forall|i: int|
            0 <= i < output.matches@.len() ==> #[trigger] output@.matches[i]
                == output.matches@[i]@,
        output@.total_tools == output.total_tools,
{
}

/// What the model is told of a search tells tools of the registry: for each match
/// there is a tool that answers the query, and the server, the name, the
/// description and the schema that are written down are that tool's.
pub proof fn searches_tell_tools_of_the_registry(
    entries: Seq<McpToolEntryView>,
    query: Seq<char>,
    limit: Option<usize>,
    i: int,
)
    ensures
        search_json(search_result(entries, query, limit)).get("matches"@) matches Some(
            JsonView::List(list),
        ) && (0 <= i < list.len() ==> exists|j: int|
            0 <= j < entries.len() && answers_query(#[trigger] entries[j], query) && list[i].get(
                "server"@,
            ) == Some(JsonView::Text(entries[j].server)) && list[i].get("tool"@) == Some(
                JsonView::Text(entries[j].tool.name),
            ) && list[i].get("description"@) == Some(
                match entries[j].tool.description {
                    Some(text) => JsonView::Text(text),
                    None => JsonView::Null,
                },
            ) && list[i].get("input_schema"@) == Some(entries[j].tool.input_schema)),
{
    let output = search_result(entries, query, limit);
    searches_are_written_whole(output);
    if 0 <= i < output.matches.len() {
        matches_tell_tools_of_the_registry(entries, query, limit, i);
        matches_are_written_whole(output.matches[i]);
        let j = choose|j: int|
            0 <= j < entries.len() && answers_query(#[trigger] entries[j], query) && tells_entry(
                output.matches[i],
                entries[j],
            );
        assert(answers_query(entries[j], query));
    }
}

proof fn lemma_texts_of_joined(first: Seq<McpContent>, second: Seq<McpContent>)
    ensures
        texts_of(first + second) == texts_of(first) + texts_of(second),
    decreases second.len(),
{
    let all = first + second;
    if second.len() == 0 {
        assert(all =~= first);
        assert(texts_of(first) + texts_of(second) =~= texts_of(first));
    } else {
        lemma_texts_of_joined(first, second.drop_last());
        assert(all.drop_last() =~= first + second.drop_last());
        assert(all.last() == second.last());
        assert(texts_of(all) =~= texts_of(first) + texts_of(second));
    }
}

/// The texts of a reply are those of its pieces, in their order: a piece that is text
/// gives its own, any other none, and pieces behind one another give theirs behind
/// one another.
pub proof fn texts_come_piece_by_piece(
    piece: McpContent,
    first: Seq<McpContent>,
    second: Seq<McpContent>,
)
    ensures
        texts_of(first + second) == texts_of(first) + texts_of(second),
        piece.text matches Some(text) ==> texts_of(seq![piece]) == seq![text@],
        piece.text is None ==> texts_of(seq![piece]).len() == 0,
{
    lemma_texts_of_joined(first, second);
    assert(seq![piece].drop_last() =~= Seq::empty());
    assert(texts_of(seq![piece].drop_last()) =~= Seq::empty());
    if piece.text is Some {
        assert(texts_of(seq![piece]) =~= seq![piece.text->Some_0@]);
    }
}

/// A match is ahead of another by its score, then by its server's name, then by its
/// tool's; of two matches that differ in one of these, one is ahead, and never both.
pub proof fn one_of_two_matches_is_ahead(a: MatchView, b: MatchView)
    ensures
        a.score > b.score ==> ahead(a, b),
        a.score == b.score && precedes(a.server, b.server) ==> ahead(a, b),
        a.score == b.score && a.server == b.server && precedes(a.tool, b.tool) ==> ahead(a, b),
        ahead(a, b) ==> !ahead(b, a),
        !ahead(a, b) && !ahead(b, a) ==> a.score == b.score && a.server == b.server && a.tool
            == b.tool,
{
    if ahead(a, b) {
        lemma_ahead_asymmetric(a, b);
    }
    precedes_total(a.server, b.server);
    precedes_total(a.tool, b.tool);
}

} // verus!
