use vstd::prelude::*;
use vstd::string::StrSliceExecFns;

verus! {

/// A message the browser sends to the terminal.
#[derive(Debug, Clone, PartialEq, Eq)]
pub enum ReceiveMsg {
    /// The terminal was resized to `cols` columns and `rows` rows.
    Resize { cols: u16, rows: u16 },
    /// Keystrokes to pass to the shell.
    Input { data: String },
}

/// The characters JSON allows between tokens.
pub open spec fn json_whitespace(c: char) -> bool {
    c == ' ' || c == '\t' || c == '\n' || c == '\r'
}

/// Whether a text message opens with `{`, after any JSON whitespace. Only
/// such messages are taken for JSON documents; nothing more of the JSON
/// syntax is looked at here.
pub open spec fn opens_with_brace(msg: Seq<char>) -> bool {
    exists|k: int|
        0 <= k < msg.len() && msg[k] == '{' && forall|j: int|
            0 <= j < k ==> json_whitespace(#[trigger] msg[j])
}

/// Whether `serde_json` reads the whole of `msg` as one JSON value, of any
/// kind.
pub uninterp spec fn json_document(msg: Seq<char>) -> bool;

/// Reads `msg` with `serde_json::from_str` into `serde::de::IgnoredAny`,
/// which accepts any JSON value. Claims: the answer is what
/// [`json_document`] names for the text, a function of the text alone.
#[verifier::external_body]
fn reads_as_json(msg: &str) -> (r: bool)
    ensures
        r == json_document(msg@),
{
    serde_json::from_str::<serde::de::IgnoredAny>(msg).is_ok()
}

/// Whether a message is handed to the JSON decoder: it is a JSON value, or
/// it opens (after whitespace) with `{`.
pub open spec fn taken_for_json(msg: Seq<char>, is_json: bool) -> bool {
    is_json || opens_with_brace(msg)
}

impl ReceiveMsg {
    /// Messages that are not JSON documents are keystrokes, passed on as
    /// they are; JSON documents (none here) must be decoded as tagged
    /// messages.
    pub fn plain_input(msg: &str) -> (r: Option<ReceiveMsg>)
        ensures
            r is None <==> taken_for_json(msg@, json_document(msg@)),
            r matches Some(m) ==> (m matches ReceiveMsg::Input { data } && data@ == msg@),
    {
        let is_json = reads_as_json(msg);
        Self::input_unless_json(msg, is_json)
    }

    /// Given whether `msg` is a JSON value (`is_json`), the keystrokes it
    /// stands for: none when it goes to the JSON decoder.
    pub fn input_unless_json(msg: &str, is_json: bool) -> (r: Option<ReceiveMsg>)
        ensures
            r is None <==> taken_for_json(msg@, is_json),
            r matches Some(m) ==> (m matches ReceiveMsg::Input { data } && data@ == msg@),
    {
        if is_json {
            return None;
        }
        let n = msg.unicode_len();
        let mut i: usize = 0;
        while i < n
            invariant
                !is_json,
                n == msg@.len(),
                i <= n,
                forall|j: int| 0 <= j < i ==> json_whitespace(#[trigger] msg@[j]),
            decreases n - i,
        {
            let c = msg.get_char(i);
            if c == '{' {
                return None;
            }
            if !(c == ' ' || c == '\t' || c == '\n' || c == '\r') {
                proof {
                    assert forall|k: int|
                        0 <= k < msg@.len() && msg@[k] == '{' implies !(forall|j: int|
                        0 <= j < k ==> json_whitespace(#[trigger] msg@[j])) by {
                        if k > i {
                            assert(!json_whitespace(msg@[i as int]));
                        }
                    }
                }
                return Some(ReceiveMsg::Input { data: msg.to_owned() });
            }
            i = i + 1;
        }
        Some(ReceiveMsg::Input { data: msg.to_owned() })
    }
}

} // verus!
