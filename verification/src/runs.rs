//! The record of a run: one JSON event a line.

use crate::json::depth_read;
use crate::json::entries_plain_within;
use crate::json::json_print;
use crate::json::len_of_put;
use crate::json::lookup_after_put;
use crate::json::lookup_of_put;
use crate::json::no_entries;
use crate::json::plain_within;
use crate::json::put;
use crate::json::put_keeps_plain;
use crate::json::reads_as;
use crate::json::Json;
use crate::json::JsonObject;
use crate::json::JsonView;
use crate::text::joining_is_associative;
use crate::tools::resolve_path;
use crate::tools::resolved;
use vstd::prelude::*;

verus! {

/// Whether a character is a hexadecimal digit in lower case.
pub open spec fn is_hex(c: char) -> bool {
    ('0' <= c && c <= '9') || ('a' <= c && c <= 'f')
}

/// Whether a text is a version 4 UUID in its usual form: groups of lower case
/// hexadecimal digits with hyphens between them.
pub open spec fn is_uuid_v4(s: Seq<char>) -> bool {
    &&& s.len() == 36
    &&& s[8] == '-' && s[13] == '-' && s[18] == '-' && s[23] == '-'
    &&& forall|i: int|
        0 <= i < 36 && i != 8 && i != 13 && i != 18 && i != 23 ==> is_hex(#[trigger] s[i])
    &&& s[14] == '4'
    &&& s[19] == '8' || s[19] == '9' || s[19] == 'a' || s[19] == 'b'
}

/// `Uuid::new_v4`, written out by its `Display`. It is drawn at random: what is
/// claimed is the form that every such identifier has.
#[verifier::external_body]
pub(crate) fn fresh_id() -> (r: String)
    ensures
        is_uuid_v4(r@),
{
    uuid::Uuid::new_v4().to_string()
}

/// Where the events of a run are kept.
#[derive(Debug)]
pub struct RunRecorder {
    run_id: String,
    turn_id: String,
    path: String,
}

/// What a recorder holds.
#[verifier::ext_equal]
pub struct RecorderView {
    pub run_id: Seq<char>,
    pub turn_id: Seq<char>,
    pub path: Seq<char>,
}

impl View for RunRecorder {
    type V = RecorderView;

    closed spec fn view(&self) -> RecorderView {
        RecorderView { run_id: self.run_id@, turn_id: self.turn_id@, path: self.path@ }
    }
}

/// The directory that holds the runs of a workspace.
pub open spec fn runs_path(workspace_root: Seq<char>) -> Seq<char> {
    resolved(resolved(workspace_root, ".ferrix"@), "runs"@)
}

/// A recorder for the given identifiers.
pub open spec fn recorder_for(
    workspace_root: Seq<char>,
    run_id: Seq<char>,
    turn_id: Seq<char>,
) -> RecorderView {
    RecorderView {
        run_id,
        turn_id,
        path: resolved(runs_path(workspace_root), run_id + ".jsonl"@),
    }
}

/// The JSON object of an event.
pub open spec fn event_json(
    recorder: RecorderView,
    timestamp_ms: nat,
    kind: Seq<char>,
    payload: JsonView,
) -> JsonView {
    let e = no_entries();
    let e = put(e, "timestamp_ms"@, JsonView::Integer(timestamp_ms as int));
    let e = put(e, "run_id"@, JsonView::Text(recorder.run_id));
    let e = put(e, "turn_id"@, JsonView::Text(recorder.turn_id));
    let e = put(e, "kind"@, JsonView::Text(kind));
    let e = put(e, "payload"@, payload);
    JsonView::Object(e)
}

/// The directory that holds the runs of a workspace.
pub fn runs_directory(workspace_root: &str) -> (r: String)
    ensures
        r@ == runs_path(workspace_root@),
{
    resolve_path(resolve_path(workspace_root, ".ferrix").as_str(), "runs")
}

impl RunRecorder {
    /// A recorder for a new run, with a fresh identifier for the run and one
    /// for its turn.
    pub fn new(workspace_root: &str) -> (r: RunRecorder)
        ensures
            is_uuid_v4(r@.run_id),
            is_uuid_v4(r@.turn_id),
            r@ == recorder_for(workspace_root@, r@.run_id, r@.turn_id),
    {
        RunRecorder::with_ids(workspace_root, fresh_id(), fresh_id())
    }

    /// A recorder for a run and a turn with given identifiers.
    pub fn with_ids(workspace_root: &str, run_id: String, turn_id: String) -> (r: RunRecorder)
        ensures
            r@ == recorder_for(workspace_root@, run_id@, turn_id@),
    {
        let mut file: String = run_id.clone();
        file.push_str(".jsonl");
        let path = resolve_path(runs_directory(workspace_root).as_str(), file.as_str());
        RunRecorder { run_id, turn_id, path }
    }

    /// The identifier of the run.
    pub fn run_id(&self) -> (r: &str)
        ensures
            r@ == self@.run_id,
    {
        self.run_id.as_str()
    }

    /// The file that the events go to.
    pub fn path(&self) -> (r: &str)
        ensures
            r@ == self@.path,
    {
        self.path.as_str()
    }

    /// The line that records an event. It is a single line, and reading it back
    /// gives the event, unless the payload nests too deep or holds a number
    /// that is not whole.
    pub fn record(&self, timestamp_ms: u64, kind: &str, payload: Json) -> (r: String)
        ensures
            r@ == json_print(event_json(self@, timestamp_ms as nat, kind@, payload@)).push('\n'),
            !r@.drop_last().contains('\n'),
            plain_within(payload@, (depth_read() - 1) as nat) ==> reads_as(
                r@.drop_last(),
                event_json(self@, timestamp_ms as nat, kind@, payload@),
            ),
    {
        let ghost given = payload@;
        let event = Json::Object(
            JsonObject::new().with("timestamp_ms", Json::Unsigned(timestamp_ms)).with(
                "run_id",
                Json::text(self.run_id.as_str()),
            ).with("turn_id", Json::text(self.turn_id.as_str())).with("kind", Json::text(kind)).with(
                "payload",
                payload,
            ),
        );
        let mut line = event.to_text();
        proof {
            if plain_within(given, (depth_read() - 1) as nat) {
                event_is_plain(self@, timestamp_ms as nat, kind@, given);
            }
            assert(line@.push('\n').drop_last() =~= line@);
        }
        line.push('\n');
        line
    }
}

/// An event is plain where its payload is.
proof fn event_is_plain(
    recorder: RecorderView,
    timestamp_ms: nat,
    kind: Seq<char>,
    payload: JsonView,
)
    requires
        plain_within(payload, (depth_read() - 1) as nat),
    ensures
        plain_within(event_json(recorder, timestamp_ms, kind, payload), depth_read()),
{
    let depth = (depth_read() - 1) as nat;
    let t = JsonView::Integer(timestamp_ms as int);
    let e1 = put(no_entries(), "timestamp_ms"@, t);
    let e2 = put(e1, "run_id"@, JsonView::Text(recorder.run_id));
    let e3 = put(e2, "turn_id"@, JsonView::Text(recorder.turn_id));
    let e4 = put(e3, "kind"@, JsonView::Text(kind));
    assert(entries_plain_within(no_entries(), depth));
    put_keeps_plain(no_entries(), "timestamp_ms"@, t, depth);
    put_keeps_plain(e1, "run_id"@, JsonView::Text(recorder.run_id), depth);
    put_keeps_plain(e2, "turn_id"@, JsonView::Text(recorder.turn_id), depth);
    put_keeps_plain(e3, "kind"@, JsonView::Text(kind), depth);
    put_keeps_plain(e4, "payload"@, payload, depth);
}

/// An event gives back what it was made of: its time, its run and turn, its kind
/// and its payload.
pub proof fn event_keeps_its_parts(
    recorder: RecorderView,
    timestamp_ms: nat,
    kind: Seq<char>,
    payload: JsonView,
)
    ensures
        ({
            let event = event_json(recorder, timestamp_ms, kind, payload);
            &&& event.get("timestamp_ms"@) == Some(JsonView::Integer(timestamp_ms as int))
            &&& event.get("run_id"@) == Some(JsonView::Text(recorder.run_id))
            &&& event.get("turn_id"@) == Some(JsonView::Text(recorder.turn_id))
            &&& event.get("kind"@) == Some(JsonView::Text(kind))
            &&& event.get("payload"@) == Some(payload)
        }),
{
    reveal_strlit("timestamp_ms");
    reveal_strlit("run_id");
    reveal_strlit("turn_id");
    reveal_strlit("kind");
    reveal_strlit("payload");
    assert("turn_id"@[0] == 't' && "payload"@[0] == 'p' && "run_id"@[0] == 'r');
    let t = JsonView::Integer(timestamp_ms as int);
    let run = JsonView::Text(recorder.run_id);
    let turn = JsonView::Text(recorder.turn_id);
    let k = JsonView::Text(kind);
    let e1 = put(no_entries(), "timestamp_ms"@, t);
    let e2 = put(e1, "run_id"@, run);
    let e3 = put(e2, "turn_id"@, turn);
    let e4 = put(e3, "kind"@, k);
    lookup_after_put(no_entries(), "timestamp_ms"@, t, "timestamp_ms"@);
    lookup_after_put(e1, "run_id"@, run, "timestamp_ms"@);
    lookup_after_put(e2, "turn_id"@, turn, "timestamp_ms"@);
    lookup_after_put(e2, "turn_id"@, turn, "run_id"@);
    lookup_after_put(e3, "kind"@, k, "timestamp_ms"@);
    lookup_after_put(e3, "kind"@, k, "run_id"@);
    lookup_after_put(e3, "kind"@, k, "turn_id"@);
    lookup_after_put(e4, "payload"@, payload, "timestamp_ms"@);
    lookup_after_put(e4, "payload"@, payload, "run_id"@);
    lookup_after_put(e4, "payload"@, payload, "turn_id"@);
    lookup_after_put(e4, "payload"@, payload, "kind"@);
}

/// A recorder keeps its run and its turn, and writes to a file of its own: below the
/// workspace, among the runs, under the name of the run.
pub proof fn runs_have_their_own_file(
    workspace_root: Seq<char>,
    run_id: Seq<char>,
    turn_id: Seq<char>,
)
    requires
        workspace_root.len() > 0,
        workspace_root.last() != '/',
        run_id.len() > 0,
        run_id[0] != '/',
    ensures
        ({
            let recorder = recorder_for(workspace_root, run_id, turn_id);
            &&& recorder.run_id == run_id
            &&& recorder.turn_id == turn_id
            &&& recorder.path == workspace_root + "/.ferrix/runs/"@ + run_id + ".jsonl"@
        }),
{
    reveal_strlit(".ferrix");
    reveal_strlit("runs");
    reveal_strlit("/.ferrix/runs/");
    let hidden = resolved(workspace_root, ".ferrix"@);
    assert(".ferrix"@[0] == '.' && ".ferrix"@[6] == 'x');
    assert(hidden == workspace_root.push('/') + ".ferrix"@);
    assert(hidden.last() == 'x');
    let directory = resolved(hidden, "runs"@);
    assert("runs"@[0] == 'r' && "runs"@[3] == 's');
    assert(directory == hidden.push('/') + "runs"@);
    assert(directory.last() == 's');
    let file = run_id + ".jsonl"@;
    assert(file[0] == run_id[0]);
    assert(resolved(directory, file) == directory.push('/') + file);
    assert(directory.push('/') =~= workspace_root + "/.ferrix/runs/"@);
    joining_is_associative(workspace_root + "/.ferrix/runs/"@, run_id, ".jsonl"@);
}

/// An event holds its five parts and nothing else.
pub proof fn events_hold_nothing_else(
    recorder: RecorderView,
    timestamp_ms: nat,
    kind: Seq<char>,
    payload: JsonView,
)
    ensures
        event_json(recorder, timestamp_ms, kind, payload)->Object_0.len() == 5,
{
    broadcast use lookup_of_put, len_of_put;

    reveal_strlit("timestamp_ms");
    reveal_strlit("run_id");
    reveal_strlit("turn_id");
    reveal_strlit("kind");
    reveal_strlit("payload");
    assert("timestamp_ms"@.len() == 12 && "run_id"@.len() == 6 && "turn_id"@.len() == 7
        && "kind"@.len() == 4 && "payload"@.len() == 7);
    assert("turn_id"@[0] == 't' && "payload"@[0] == 'p');
}

/// The runs of a workspace are kept below its root, each root's in a directory of
/// its own.
pub proof fn runs_are_kept_below_the_root(workspace_root: Seq<char>)
    requires
        workspace_root.len() > 0,
        workspace_root.last() != '/',
    ensures
        runs_path(workspace_root) == workspace_root + "/.ferrix/runs"@,
{
    reveal_strlit(".ferrix");
    reveal_strlit("runs");
    reveal_strlit("/.ferrix/runs");
    let hidden = resolved(workspace_root, ".ferrix"@);
    assert(".ferrix"@[0] == '.' && ".ferrix"@[6] == 'x');
    assert(hidden == workspace_root.push('/') + ".ferrix"@);
    assert(hidden.last() == 'x');
    assert("runs"@[0] == 'r');
    assert(runs_path(workspace_root) =~= workspace_root + "/.ferrix/runs"@);
}

} // verus!
