//! The results of reading, writing and editing files.

use crate::decimal::decimal;
use crate::decimal::digits;
use crate::json::len_of_put;
use crate::json::lookup_of_put;
use crate::json::no_entries;
use crate::json::put;
use crate::json::Json;
use crate::json::JsonObject;
use crate::json::JsonView;
use crate::text::around;
use crate::text::around_two;
use crate::text::count_matches;
use crate::text::count_places;
use crate::text::is_only_place;
use crate::text::match_count;
use crate::text::match_count_finds_occurrence;
use crate::text::matches_are_places;
use crate::text::middle_occurs;
use crate::text::occurs;
use crate::text::occurs_at;
use crate::text::one_match_is_replaced;
use crate::text::opt_view;
use crate::text::place_count;
use crate::text::place_count_tells;
use crate::text::replace;
use crate::text::replaced;
use crate::text::stands_once;
use crate::tools::answer;
use crate::tools::answer_call;
use crate::tools::answers_call;
use crate::tools::resolve_path;
use crate::tools::resolved;
use crate::tools::ToolCall;
use crate::tools::ToolCallView;
use crate::tools::ToolError;
use crate::tools::ToolErrorView;
use crate::tools::ToolResult;
use crate::tools::ToolResultView;
use vstd::prelude::*;
use vstd::utf8::encode_utf8;

verus! {

/// How many bytes a text takes in UTF-8.
pub open spec fn byte_len(s: Seq<char>) -> usize {
    encode_utf8(s).len() as usize
}

/// The view of what a tool's work came to.
pub open spec fn outcome_view(outcome: Result<ToolResult, ToolError>) -> Result<
    ToolResultView,
    ToolErrorView,
> {
    match outcome {
        Ok(result) => Ok(result@),
        Err(error) => Err(error@),
    }
}

/// The JSON object that names a file and counts bytes.
pub open spec fn file_json(path: Seq<char>, bytes: usize) -> JsonView {
    let e = no_entries();
    let e = put(e, "path"@, JsonView::Text(path));
    let e = put(e, "bytes"@, JsonView::Integer(bytes as int));
    JsonView::Object(e)
}

fn file_data(path: &str, bytes: usize) -> (r: Json)
    ensures
        r@ == file_json(path@, bytes),
{
    Json::Object(
        JsonObject::new().with("path", Json::text(path)).with("bytes", Json::Unsigned(bytes as u64)),
    )
}

/// The result of reading a file.
pub open spec fn read_outcome(
    call: ToolCallView,
    path: Seq<char>,
    contents: Option<Seq<char>>,
) -> Result<ToolResultView, ToolErrorView> {
    match contents {
        Some(text) => Ok(answer(call, true, text, file_json(path, byte_len(text)))),
        None => Err(ToolErrorView::ReadFailed { path }),
    }
}

/// The result of reading a file, given its contents where it could be read as
/// UTF-8.
pub fn read_file(
    workspace_root: &str,
    call: &ToolCall,
    path: &str,
    contents: Option<String>,
) -> (r: Result<ToolResult, ToolError>)
    ensures
        outcome_view(r) == read_outcome(
            call@,
            resolved(workspace_root@, path@),
            opt_view(contents),
        ),
{
    let path = resolve_path(workspace_root, path);
    match contents {
        Some(text) => {
            let data = file_data(path.as_str(), text.as_str().len());
            Ok(answer_call(call, true, text, data))
        },
        None => Err(ToolError::ReadFailed { path }),
    }
}

/// Whether directories are to be made before a file is written: only where that
/// is asked for, and where the path has a parent.
pub fn makes_directories(create_dirs: Option<bool>, has_parent: bool) -> (r: bool)
    ensures
        r == (create_dirs == Some(true) && has_parent),
{
    match create_dirs {
        Some(wanted) => wanted && has_parent,
        None => false,
    }
}

/// How writing a file ended. A directory that could not be made is named.
#[derive(Debug)]
pub enum WriteOutcome {
    Written,
    CreateFailed { parent: String },
    WriteFailed,
}

/// The result of writing a file.
pub open spec fn write_outcome(
    call: ToolCallView,
    path: Seq<char>,
    contents: Seq<char>,
    outcome: WriteOutcome,
) -> Result<ToolResultView, ToolErrorView> {
    match outcome {
        WriteOutcome::Written => Ok(
            answer(
                call,
                true,
                "wrote "@ + digits(byte_len(contents) as nat) + " bytes to `"@ + path + "`"@,
                file_json(path, byte_len(contents)),
            ),
        ),
        WriteOutcome::CreateFailed { parent } => Err(
            ToolErrorView::CreateFailed { path: parent@ },
        ),
        WriteOutcome::WriteFailed => Err(ToolErrorView::WriteFailed { path }),
    }
}

/// The result of writing a file, given how the writing ended.
pub fn write_file(
    workspace_root: &str,
    call: &ToolCall,
    path: &str,
    contents: &str,
    outcome: WriteOutcome,
) -> (r: Result<ToolResult, ToolError>)
    ensures
        outcome_view(r) == write_outcome(
            call@,
            resolved(workspace_root@, path@),
            contents@,
            outcome,
        ),
{
    let path = resolve_path(workspace_root, path);
    match outcome {
        WriteOutcome::Written => {
            let bytes: usize = contents.len();
            let content = around_two(
                "wrote ",
                decimal(bytes as u128).as_str(),
                " bytes to `",
                path.as_str(),
                "`",
            );
            Ok(answer_call(call, true, content, file_data(path.as_str(), bytes)))
        },
        WriteOutcome::CreateFailed { parent } => Err(ToolError::CreateFailed { path: parent }),
        WriteOutcome::WriteFailed => Err(ToolError::WriteFailed { path }),
    }
}

/// Refuses an edit of the empty text.
pub fn check_edit(old: &str) -> (r: Result<(), ToolError>)
    ensures
        r is Ok <==> old@.len() > 0,
        r matches Err(error) ==> error@ == ToolErrorView::EmptyOldText,
{
    if old.is_empty() {
        return Err(ToolError::EmptyOldText);
    }
    Ok(())
}

/// How often a text that stands in a file at more than one position is said to
/// match: the matches one behind the other, or the positions where these
/// overlap.
pub open spec fn reported_count(text: Seq<char>, old: Seq<char>) -> nat {
    if match_count(text, old) > 1 {
        match_count(text, old)
    } else {
        place_count(text, old)
    }
}

/// The contents of a file after an edit. The text to replace must stand in the
/// file at one position and no other.
pub open spec fn edited(
    path: Seq<char>,
    contents: Option<Seq<char>>,
    old: Seq<char>,
    new: Seq<char>,
) -> Result<Seq<char>, ToolErrorView> {
    if old.len() == 0 {
        Err(ToolErrorView::EmptyOldText)
    } else {
        match contents {
            None => Err(ToolErrorView::ReadFailed { path }),
            Some(text) => {
                if !occurs(text, old) {
                    Err(ToolErrorView::TextNotFound { path })
                } else if !stands_once(text, old) {
                    Err(ToolErrorView::TextAmbiguous { count: reported_count(text, old), path })
                } else {
                    Ok(replaced(text, old, new))
                }
            },
        }
    }
}

/// Edits the contents of a file, given where it could be read as UTF-8.
pub fn edit_contents(
    workspace_root: &str,
    path: &str,
    contents: Option<String>,
    old: &str,
    new: &str,
) -> (r: Result<String, ToolError>)
    ensures
        edited(resolved(workspace_root@, path@), opt_view(contents), old@, new@) == (match r {
            Ok(text) => Ok::<Seq<char>, ToolErrorView>(text@),
            Err(error) => Err(error@),
        }),
{
    if old.is_empty() {
        return Err(ToolError::EmptyOldText);
    }
    let path = resolve_path(workspace_root, path);
    match contents {
        None => Err(ToolError::ReadFailed { path }),
        Some(text) => {
            let places: usize = count_places(text.as_str(), old);
            proof {
                place_count_tells(text@, old@);
            }
            if places == 0 {
                Err(ToolError::TextNotFound { path })
            } else if places > 1 {
                let matches: usize = count_matches(text.as_str(), old);
                let count: usize = if matches > 1 {
                    matches
                } else {
                    places
                };
                Err(ToolError::TextAmbiguous { count, path })
            } else {
                Ok(replace(text.as_str(), old, new))
            }
        },
    }
}

/// An edit that succeeds found its text at one position and no other, put the
/// new text in its place and left what stands before and behind it as it was.
pub proof fn edit_changes_one_stretch(
    path: Seq<char>,
    contents: Seq<char>,
    old: Seq<char>,
    new: Seq<char>,
)
    requires
        edited(path, Some(contents), old, new) is Ok,
    ensures
        exists|at: int| #[trigger]
            is_only_place(contents, old, at) && edited(path, Some(contents), old, new) == Ok::<
                Seq<char>,
                ToolErrorView,
            >(contents.take(at) + new + contents.skip(at + old.len())),
{
    place_count_tells(contents, old);
    matches_are_places(contents, old);
    match_count_finds_occurrence(contents, old);
    one_match_is_replaced(contents, old, new);
    let at = choose|at: int| #[trigger]
        occurs_at(contents, old, at) && replaced(contents, old, new) == contents.take(at) + new
            + contents.skip(at + old.len());
    let only = choose|only: int| #[trigger] is_only_place(contents, old, only);
    assert(at == only);
}

/// An edit succeeds exactly where its text is not empty and stands in the file
/// at one position and no other.
pub proof fn edit_needs_one_place(
    path: Seq<char>,
    contents: Seq<char>,
    old: Seq<char>,
    new: Seq<char>,
)
    ensures
        edited(path, Some(contents), old, new) is Ok <==> old.len() > 0 && stands_once(
            contents,
            old,
        ),
        edited(path, Some(contents), old, new) matches Err(ToolErrorView::TextAmbiguous { count, .. })
            ==> count > 1,
{
    if old.len() > 0 {
        place_count_tells(contents, old);
        if stands_once(contents, old) {
            let only = choose|only: int| #[trigger] is_only_place(contents, old, only);
            assert(occurs_at(contents, old, only));
        }
    }
}

/// The result of an edit whose contents were to be written back.
pub open spec fn edit_outcome(call: ToolCallView, path: Seq<char>, written: bool) -> Result<
    ToolResultView,
    ToolErrorView,
> {
    if written {
        let e = no_entries();
        let e = put(e, "path"@, JsonView::Text(path));
        let e = put(e, "replacements"@, JsonView::Integer(1));
        Ok(answer(call, true, "edited `"@ + path + "`"@, JsonView::Object(e)))
    } else {
        Err(ToolErrorView::WriteFailed { path })
    }
}

/// The result of an edit, given whether its contents could be written back.
pub fn edit_file(workspace_root: &str, call: &ToolCall, path: &str, written: bool) -> (r: Result<
    ToolResult,
    ToolError,
>)
    ensures
        outcome_view(r) == edit_outcome(call@, resolved(workspace_root@, path@), written),
{
    let path = resolve_path(workspace_root, path);
    if !written {
        return Err(ToolError::WriteFailed { path });
    }
    let data = Json::Object(
        JsonObject::new().with("path", Json::text(path.as_str())).with(
            "replacements",
            Json::Unsigned(1),
        ),
    );
    Ok(answer_call(call, true, around("edited `", path.as_str(), "`"), data))
}

/// Whether a result, where there is one, answers a call.
pub open spec fn answers(outcome: Result<ToolResultView, ToolErrorView>, call: ToolCallView) -> bool {
    outcome matches Ok(result) ==> result.ok && answers_call(result, call)
}

/// What comes of reading, writing and editing a file answers the call that asked
/// for it, and succeeds unless it is an error.
pub proof fn file_results_answer_their_call(
    call: ToolCallView,
    path: Seq<char>,
    contents: Option<Seq<char>>,
    written: Seq<char>,
    outcome: WriteOutcome,
    edited: bool,
)
    ensures
        answers(read_outcome(call, path, contents), call),
        answers(write_outcome(call, path, written, outcome), call),
        answers(edit_outcome(call, path, edited), call),
{
}

/// Reading a file gives its text as it is, and in the data the file's path and
/// how many bytes the text takes; a file that cannot be read gives an error that
/// names it.
pub proof fn reads_give_the_contents(
    call: ToolCallView,
    path: Seq<char>,
    contents: Option<Seq<char>>,
)
    requires
        contents matches Some(text) ==> encode_utf8(text).len() <= usize::MAX,
    ensures
        contents matches Some(text) ==> (read_outcome(call, path, contents) matches Ok(result)
            && result.ok && result.content == text && tells_file(
            result.data,
            path,
            encode_utf8(text).len(),
        )),
        contents is None ==> read_outcome(call, path, contents) == Err::<
            ToolResultView,
            ToolErrorView,
        >(ToolErrorView::ReadFailed { path }),
{
    if contents is Some {
        lemma_file_json(path, byte_len(contents->Some_0));
    }
}

/// Whether data tells a file and a number of bytes, and nothing else.
pub open spec fn tells_file(data: JsonView, path: Seq<char>, bytes: nat) -> bool {
    &&& data.get("path"@) == Some(JsonView::Text(path))
    &&& data.get("bytes"@) == Some(JsonView::Integer(bytes as int))
    &&& data->Object_0.len() == 2
}

proof fn lemma_file_json(path: Seq<char>, bytes: usize)
    ensures
        tells_file(file_json(path, bytes), path, bytes as nat),
{
    broadcast use lookup_of_put, len_of_put;

    reveal_strlit("path");
    reveal_strlit("bytes");
    assert("path"@.len() == 4 && "bytes"@.len() == 5);
}

/// Writing a file gives, in words and in the data, the file's path and how many
/// bytes were written; a directory that cannot be made, or a file that cannot be
/// written, gives an error that names it.
pub proof fn writes_tell_what_was_written(
    call: ToolCallView,
    path: Seq<char>,
    contents: Seq<char>,
    outcome: WriteOutcome,
)
    requires
        encode_utf8(contents).len() <= usize::MAX,
    ensures
        outcome is Written ==> (write_outcome(call, path, contents, outcome) matches Ok(result)
            && result.ok && tells_file(result.data, path, encode_utf8(contents).len()) && occurs(
            result.content,
            path,
        ) && occurs(result.content, digits(encode_utf8(contents).len()))),
        outcome matches WriteOutcome::CreateFailed { parent } ==> write_outcome(
            call,
            path,
            contents,
            outcome,
        ) == Err::<ToolResultView, ToolErrorView>(ToolErrorView::CreateFailed { path: parent@ }),
        outcome is WriteFailed ==> write_outcome(call, path, contents, outcome) == Err::<
            ToolResultView,
            ToolErrorView,
        >(ToolErrorView::WriteFailed { path }),
{
    let count = digits(byte_len(contents) as nat);
    lemma_file_json(path, byte_len(contents));
    middle_occurs("wrote "@ + count + " bytes to `"@, path, "`"@);
    middle_occurs("wrote "@, count, " bytes to `"@ + path + "`"@);
    assert("wrote "@ + count + (" bytes to `"@ + path + "`"@) =~= "wrote "@ + count
        + " bytes to `"@ + path + "`"@);
}

/// An edit that was written back tells, in words and in the data, the file's path,
/// and that one stretch was replaced; one that was not gives an error that names
/// the file.
pub proof fn edits_tell_what_was_edited(call: ToolCallView, path: Seq<char>, written: bool)
    ensures
        written ==> (edit_outcome(call, path, written) matches Ok(result) && result.ok && occurs(
            result.content,
            path,
        ) && result.data.get("path"@) == Some(JsonView::Text(path)) && result.data.get(
            "replacements"@,
        ) == Some(JsonView::Integer(1)) && result.data->Object_0.len() == 2),
        !written ==> edit_outcome(call, path, written) == Err::<ToolResultView, ToolErrorView>(
            ToolErrorView::WriteFailed { path },
        ),
{
    broadcast use lookup_of_put, len_of_put;

    reveal_strlit("path");
    reveal_strlit("replacements");
    assert("path"@.len() == 4 && "replacements"@.len() == 12);
    middle_occurs("edited `"@, path, "`"@);
}

/// An edit that is refused says why: the text to replace is empty, the file cannot
/// be read, the text is not in it, or the text stands in it at more than one
/// position.
pub proof fn refused_edits_say_why(
    path: Seq<char>,
    contents: Option<Seq<char>>,
    old: Seq<char>,
    new: Seq<char>,
)
    ensures
        old.len() == 0 ==> edited(path, contents, old, new) == Err::<Seq<char>, ToolErrorView>(
            ToolErrorView::EmptyOldText,
        ),
        old.len() > 0 && contents is None ==> edited(path, contents, old, new) == Err::<
            Seq<char>,
            ToolErrorView,
        >(ToolErrorView::ReadFailed { path }),
        old.len() > 0 && contents is Some && !occurs(contents->Some_0, old) ==> edited(
            path,
            contents,
            old,
            new,
        ) == Err::<Seq<char>, ToolErrorView>(ToolErrorView::TextNotFound { path }),
        old.len() > 0 && contents is Some && occurs(contents->Some_0, old) && !stands_once(
            contents->Some_0,
            old,
        ) ==> (edited(path, contents, old, new) matches Err(
            ToolErrorView::TextAmbiguous { count, path: named },
        ) && named == path && 1 < count <= place_count(contents->Some_0, old) && (match_count(
            contents->Some_0,
            old,
        ) > 1 ==> count == match_count(contents->Some_0, old))),
{
    if old.len() > 0 && contents is Some {
        place_count_tells(contents->Some_0, old);
        matches_are_places(contents->Some_0, old);
    }
}

} // verus!
