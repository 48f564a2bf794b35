//! Shell commands: what is kept of their output, and their results.

use crate::decimal::signed_decimal;
use crate::decimal::signed_digits;
use crate::json::len_of_put;
use crate::json::lookup_of_put;
use crate::json::no_entries;
use crate::json::put;
use crate::json::Json;
use crate::json::JsonObject;
use crate::json::JsonView;
use crate::text::ends_in;
use crate::text::occurs;
use crate::text::occurs_at;
use crate::text::start_occurs;
use crate::tools::answer;
use crate::tools::answer_call;
use crate::tools::ToolCall;
use crate::tools::ToolCallView;
use crate::tools::ToolResult;
use vstd::prelude::*;
use vstd::utf8::decode_utf8;
use vstd::utf8::valid_utf8;

verus! {

/// How many bytes of a stream are kept.
pub const MAX_CAPTURE_BYTES: usize = 16384;

/// What is kept of a stream while it is read.
#[derive(Debug)]
pub struct Capture {
    bytes: Vec<u8>,
    total_bytes: u64,
    truncated: bool,
}

/// What a capture holds.
#[verifier::ext_equal]
pub struct CaptureView {
    pub bytes: Seq<u8>,
    pub total_bytes: nat,
    pub truncated: bool,
}

impl View for Capture {
    type V = CaptureView;

    closed spec fn view(&self) -> CaptureView {
        CaptureView {
            bytes: self.bytes@,
            total_bytes: self.total_bytes as nat,
            truncated: self.truncated,
        }
    }
}

/// What is kept of a stream: its first bytes, its length, and whether anything
/// was left out.
pub open spec fn captured(stream: Seq<u8>) -> CaptureView {
    CaptureView {
        bytes: if stream.len() <= MAX_CAPTURE_BYTES {
            stream
        } else {
            stream.take(MAX_CAPTURE_BYTES as int)
        },
        total_bytes: stream.len(),
        truncated: stream.len() > MAX_CAPTURE_BYTES,
    }
}

impl Capture {
    /// A capture of a stream of which nothing was read.
    pub fn new() -> (r: Capture)
        ensures
            r@ == captured(Seq::empty()),
    {
        let r = Capture { bytes: Vec::new(), total_bytes: 0, truncated: false };
        assert(r@ =~= captured(Seq::empty()));
        r
    }

    /// How many bytes of the stream were taken in.
    pub fn total_bytes(&self) -> (r: u64)
        ensures
            r == self@.total_bytes,
    {
        self.total_bytes
    }

    /// Takes in the next piece of the stream.
    pub fn push(&mut self, chunk: &[u8])
        requires
            old(self)@.total_bytes + chunk@.len() <= u64::MAX,
        ensures
            forall|stream: Seq<u8>|
                old(self)@ == #[trigger] captured(stream) ==> final(self)@ == captured(
                    stream + chunk@,
                ),
            final(self)@.total_bytes == old(self)@.total_bytes + chunk@.len(),
    {
        let ghost before = self@;
        let kept: usize = self.bytes.len();
        let remaining: usize = if kept < MAX_CAPTURE_BYTES {
            MAX_CAPTURE_BYTES - kept
        } else {
            0
        };
        let to_take: usize = if chunk.len() < remaining {
            chunk.len()
        } else {
            remaining
        };
        self.total_bytes = self.total_bytes + chunk.len() as u64;
        let mut i: usize = 0;
        while i < to_take
            invariant
                i <= to_take <= chunk@.len(),
                self.bytes@ == before.bytes + chunk@.take(i as int),
                self@.total_bytes == before.total_bytes + chunk@.len(),
                self@.truncated == before.truncated,
            decreases to_take - i,
        {
            self.bytes.push(chunk[i]);
            assert(chunk@.take(i + 1) =~= chunk@.take(i as int).push(chunk@[i as int]));
            i += 1;
        }
        if chunk.len() > remaining {
            self.truncated = true;
        }
        assert forall|stream: Seq<u8>| before == #[trigger] captured(stream) implies self@
            == captured(stream + chunk@) by {
            assert(self@ =~= captured(stream + chunk@));
        }
    }
}

/// What a capture comes to: its bytes as text, how many bytes there were, and
/// whether some were left out.
#[derive(Debug)]
pub struct CapturedText {
    pub text: String,
    pub total_bytes: u64,
    pub truncated: bool,
}

/// The text that stands for bytes, with each sequence that is not UTF-8
/// replaced.
pub uninterp spec fn utf8_lossy(bytes: Seq<u8>) -> Seq<char>;

/// `String::from_utf8_lossy`. The text depends on the bytes alone, and is what
/// they encode where they are UTF-8.
#[verifier::external_body]
fn lossy_text(bytes: &Vec<u8>) -> (r: String)
    ensures
        r@ == utf8_lossy(bytes@),
        valid_utf8(bytes@) ==> r@ == decode_utf8(bytes@),
{
    String::from_utf8_lossy(bytes).into_owned()
}

/// Turns a capture into text.
pub fn finish_capture(capture: &Capture) -> (r: CapturedText)
    ensures
        r.text@ == utf8_lossy(capture@.bytes),
        valid_utf8(capture@.bytes) ==> r.text@ == decode_utf8(capture@.bytes),
        r.total_bytes == capture@.total_bytes,
        r.truncated == capture@.truncated,
{
    CapturedText {
        text: lossy_text(&capture.bytes),
        total_bytes: capture.total_bytes,
        truncated: capture.truncated,
    }
}

/// The shell that runs a command: the one that the environment names, or the
/// default.
pub fn shell_program(shell: Option<String>) -> (r: String)
    ensures
        r@ == (match shell {
            Some(program) => program@,
            None => "/bin/bash"@,
        }),
{
    match shell {
        Some(program) => program,
        None => "/bin/bash".to_owned(),
    }
}

/// What is said of a command's end.
pub open spec fn exit_text(exit_code: Option<i32>) -> Seq<char> {
    match exit_code {
        Some(code) => "command exited with status "@ + signed_digits(code as int),
        None => "command terminated by signal"@,
    }
}

/// The JSON of a command's exit code.
pub open spec fn exit_json(exit_code: Option<i32>) -> JsonView {
    match exit_code {
        Some(code) => JsonView::Integer(code as int),
        None => JsonView::Null,
    }
}

/// The JSON object of a command that ran.
pub open spec fn command_json(
    command: Seq<char>,
    exit_code: Option<i32>,
    success: bool,
    stdout: CapturedText,
    stderr: CapturedText,
) -> JsonView {
    let e = no_entries();
    let e = put(e, "command"@, JsonView::Text(command));
    let e = put(e, "exit_code"@, exit_json(exit_code));
    let e = put(e, "success"@, JsonView::Bool(success));
    let e = put(e, "stdout"@, JsonView::Text(stdout.text@));
    let e = put(e, "stderr"@, JsonView::Text(stderr.text@));
    let e = put(e, "stdout_bytes"@, JsonView::Integer(stdout.total_bytes as int));
    let e = put(e, "stderr_bytes"@, JsonView::Integer(stderr.total_bytes as int));
    let e = put(e, "stdout_truncated"@, JsonView::Bool(stdout.truncated));
    let e = put(e, "stderr_truncated"@, JsonView::Bool(stderr.truncated));
    JsonView::Object(e)
}

/// The result of a command, given how it ended and what it wrote.
pub fn run_command(
    call: &ToolCall,
    command: &str,
    exit_code: Option<i32>,
    success: bool,
    stdout: CapturedText,
    stderr: CapturedText,
) -> (r: ToolResult)
    ensures
        r@ == answer(
            call@,
            success,
            exit_text(exit_code),
            command_json(command@, exit_code, success, stdout, stderr),
        ),
        r.data@.get("stdout"@) == Some(JsonView::Text(stdout.text@)),
        r.data@.get("stderr"@) == Some(JsonView::Text(stderr.text@)),
        r.data@.get("command"@) == Some(JsonView::Text(command@)),
        r.ok == success,
{
    proof {
        results_tell_each_stream(call@, command@, exit_code, success, stdout, stderr);
    }
    let content = match exit_code {
        Some(code) => {
            let mut text: String = "command exited with status ".to_owned();
            text.push_str(signed_decimal(code as i64).as_str());
            text
        },
        None => "command terminated by signal".to_owned(),
    };
    let code_json = match exit_code {
        Some(code) => Json::Signed(code as i64),
        None => Json::Null,
    };
    let data = Json::Object(
        JsonObject::new().with("command", Json::text(command)).with("exit_code", code_json).with(
            "success",
            Json::Bool(success),
        ).with("stdout", Json::Text(stdout.text)).with("stderr", Json::Text(stderr.text)).with(
            "stdout_bytes",
            Json::Unsigned(stdout.total_bytes),
        ).with("stderr_bytes", Json::Unsigned(stderr.total_bytes)).with(
            "stdout_truncated",
            Json::Bool(stdout.truncated),
        ).with("stderr_truncated", Json::Bool(stderr.truncated)),
    );
    answer_call(call, success, content, data)
}

/// The data of a command's result tells the command, how it ended and, of each of
/// the two streams, the text that was captured from that very stream, its length
/// and whether some of it was left out; and it tells nothing else.
pub proof fn results_tell_each_stream(
    call: ToolCallView,
    command: Seq<char>,
    exit_code: Option<i32>,
    success: bool,
    stdout: CapturedText,
    stderr: CapturedText,
)
    ensures
        ({
            let data = answer(
                call,
                success,
                exit_text(exit_code),
                command_json(command, exit_code, success, stdout, stderr),
            ).data;
            &&& data.get("command"@) == Some(JsonView::Text(command))
            &&& data.get("exit_code"@) == Some(
                match exit_code {
                    Some(code) => JsonView::Integer(code as int),
                    None => JsonView::Null,
                },
            )
            &&& data.get("success"@) == Some(JsonView::Bool(success))
            &&& data.get("stdout"@) == Some(JsonView::Text(stdout.text@))
            &&& data.get("stderr"@) == Some(JsonView::Text(stderr.text@))
            &&& data.get("stdout_bytes"@) == Some(JsonView::Integer(stdout.total_bytes as int))
            &&& data.get("stderr_bytes"@) == Some(JsonView::Integer(stderr.total_bytes as int))
            &&& data.get("stdout_truncated"@) == Some(JsonView::Bool(stdout.truncated))
            &&& data.get("stderr_truncated"@) == Some(JsonView::Bool(stderr.truncated))
            &&& data->Object_0.len() == 9
        }),
{
    broadcast use lookup_of_put, len_of_put;

    reveal_strlit("command");
    reveal_strlit("exit_code");
    reveal_strlit("success");
    reveal_strlit("stdout");
    reveal_strlit("stderr");
    reveal_strlit("stdout_bytes");
    reveal_strlit("stderr_bytes");
    reveal_strlit("stdout_truncated");
    reveal_strlit("stderr_truncated");
    assert("command"@[0] == 'c' && "success"@[0] == 's');
    assert("stdout"@[3] == 'o' && "stderr"@[3] == 'e');
    assert("stdout_bytes"@[3] == 'o' && "stderr_bytes"@[3] == 'e');
    assert("stdout_truncated"@[3] == 'o' && "stderr_truncated"@[3] == 'e');
}

/// What is kept of a stream is its beginning: all of it where it fits, else as much
/// as fits; its length is counted in full, and it is marked where some was left
/// out.
pub proof fn captures_keep_the_beginning(stream: Seq<u8>)
    ensures
        captured(stream).bytes.len() <= stream.len(),
        captured(stream).bytes == stream.take(captured(stream).bytes.len() as int),
        captured(stream).bytes.len() < stream.len() ==> captured(stream).bytes.len() == 16384,
        captured(stream).bytes.len() <= 16384,
        captured(stream).total_bytes == stream.len(),
        captured(stream).truncated <==> captured(stream).bytes.len() < stream.len(),
{
    assert(stream.take(stream.len() as int) =~= stream);
}

/// What is said of a command's end tells its exit code, where it has one, and
/// nothing that reads like one otherwise.
pub proof fn ends_tell_the_exit_code(exit_code: Option<i32>)
    ensures
        exit_code matches Some(code) ==> occurs(exit_text(exit_code), "exited"@) && ends_in(
            exit_text(exit_code),
            " "@ + signed_digits(code as int),
        ),
        exit_code is None ==> occurs(exit_text(exit_code), "signal"@),
{
    match exit_code {
        Some(code) => {
            let lead = "command exited with status "@;
            let number = signed_digits(code as int);
            reveal_strlit("command exited with status ");
            reveal_strlit("exited");
            reveal_strlit(" ");
            assert(lead.subrange(8, 14) =~= "exited"@);
            assert(occurs_at(lead, "exited"@, 8));
            start_occurs(lead, number, "exited"@);
            let whole = lead + number;
            let end = " "@ + number;
            assert(whole.subrange(whole.len() - end.len(), whole.len() as int) =~= end);
        },
        None => {
            reveal_strlit("command terminated by signal");
            reveal_strlit("signal");
            let words = "command terminated by signal"@;
            assert(words.subrange(22, 28) =~= "signal"@);
            assert(occurs_at(words, "signal"@, 22));
        },
    }
}

} // verus!
