use vstd::prelude::*;
use vstd::string::*;
use crate::text::has_prefix;
use crate::text::push_str;
use crate::text::str_equal;
use crate::text::str_has_prefix;

verus! {

/// The byte that ends every message, in both directions.
pub const FLAG_BYTE: u8 = 3;

/// A message as it is sent: its bytes, then the flag byte.
pub open spec fn framed(payload: Seq<u8>) -> Seq<u8> {
    payload.push(FLAG_BYTE)
}

/// A message as it was received, without its last byte (the flag byte that
/// ended it, where one came).
pub open spec fn unframed(buf: Seq<u8>) -> Seq<u8> {
    if buf.len() > 0 {
        buf.drop_last()
    } else {
        buf
    }
}

/// Returns `payload` followed by the flag byte.
pub fn frame_message(payload: &[u8]) -> (m: Vec<u8>)
    ensures
        m@ == framed(payload@),
{
    let mut m: Vec<u8> = Vec::new();
    let n = payload.len();
    let mut i: usize = 0;
    while i < n
        invariant
            n == payload@.len(),
            i <= n,
            m@ == payload@.take(i as int),
        decreases n - i,
    {
        m.push(payload[i]);
        assert(payload@.take(i + 1) =~= payload@.take(i as int).push(payload@[i as int]));
        i = i + 1;
    }
    assert(payload@.take(n as int) =~= payload@);
    m.push(FLAG_BYTE);
    m
}

/// Drops the last byte of a received message: the flag byte that ended it.
pub fn unframe_message(mut buf: Vec<u8>) -> (payload: Vec<u8>)
    ensures
        payload@ == unframed(buf@),
{
    let _ = buf.pop();
    buf
}

/// What a receiver takes out of a framed message is what was framed.
pub proof fn lemma_unframe_framed(payload: Seq<u8>)
    ensures
        unframed(framed(payload)) == payload,
{
    assert(payload.push(FLAG_BYTE).drop_last() =~= payload);
}

/// The text that answers a command: the reply, `ok` when there is none, or
/// for a failure the command's name, a colon, a space and the message.
pub open spec fn reply_text_of(name: Seq<char>, result: Result<Option<Seq<char>>, Seq<char>>) -> Seq<
    char,
> {
    match result {
        Ok(Some(v)) => v,
        Ok(None) => "ok"@,
        Err(e) => name + ": "@ + e,
    }
}

/// The characters of a command's result.
pub open spec fn result_view(result: Result<Option<String>, String>) -> Result<
    Option<Seq<char>>,
    Seq<char>,
> {
    match result {
        Ok(Some(v)) => Ok(Some(v@)),
        Ok(None) => Ok(None),
        Err(e) => Err(e@),
    }
}

/// The text that answers a command named `command_name` that gave `result`;
/// see `reply_text_of`.
pub fn reply_text(command_name: &str, result: Result<Option<String>, String>) -> (s: String)
    ensures
        s@ == reply_text_of(command_name@, result_view(result)),
{
    match result {
        Ok(Some(value)) => value,
        Ok(None) => "ok".to_owned(),
        Err(e) => {
            let mut s = command_name.to_owned();
            push_str(&mut s, ": ");
            push_str(&mut s, e.as_str());
            s
        },
    }
}

/// The bytes that carry an answer: its UTF-8 encoding, framed.
pub fn response_bytes(output: &str) -> (m: Vec<u8>)
    ensures
        m@ == framed(output.spec_bytes()),
{
    frame_message(output.as_bytes())
}

/// The bytes that carry a typed line to the server: its UTF-8 encoding
/// without its last byte (the end of the line), framed.
pub fn request_bytes(input: &str) -> (m: Vec<u8>)
    ensures
        m@ == framed(unframed(input.spec_bytes())),
{
    let bytes = input.as_bytes();
    let n = bytes.len();
    if n == 0 {
        frame_message(bytes)
    } else {
        let mut m: Vec<u8> = Vec::new();
        let mut i: usize = 0;
        while i < n - 1
            invariant
                n == bytes@.len(),
                n > 0,
                i <= n - 1,
                m@ == bytes@.take(i as int),
            decreases n - 1 - i,
        {
            m.push(bytes[i]);
            assert(bytes@.take(i + 1) =~= bytes@.take(i as int).push(bytes@[i as int]));
            i = i + 1;
        }
        assert(bytes@.take(n - 1) =~= bytes@.drop_last());
        m.push(FLAG_BYTE);
        m
    }
}

/// Whether the client takes a server's answer as its new working directory:
/// after a `cd ` line that was not answered with `cd: no such`, or after
/// the line `popd` when it was not answered with `popd: directory`.
pub open spec fn tracks_directory_of(input: Seq<char>, output: Seq<char>) -> bool {
    (has_prefix(input, "cd "@) && !has_prefix(output, "cd: no such"@)) || (input == "popd"@
        && !has_prefix(output, "popd: directory"@))
}

/// Returns whether the client takes `output` as its working directory; see
/// `tracks_directory_of`.
pub fn tracks_directory(input: &str, output: &str) -> (r: bool)
    ensures
        r == tracks_directory_of(input@, output@),
{
    (str_has_prefix(input, "cd ") && !str_has_prefix(output, "cd: no such")) || (str_equal(
        input,
        "popd",
    ) && !str_has_prefix(output, "popd: directory"))
}

/// A typed line without its line end: one final `\n` is dropped.
pub open spec fn without_line_end(line: Seq<char>) -> Seq<char> {
    if line.len() > 0 && line.last() == '\n' {
        line.drop_last()
    } else {
        line
    }
}

/// Whether a typed line ends the client: `q` or `quit`, with or without its
/// line end.
pub open spec fn quits(line: Seq<char>) -> bool {
    without_line_end(line) == "q"@ || without_line_end(line) == "quit"@
}

/// Returns whether a typed line ends the client; see `quits`.
pub fn is_quit(input: &str) -> (r: bool)
    ensures
        r == quits(input@),
{
    let n = input.unicode_len();
    let line = if n > 0 && input.get_char(n - 1) == '\n' {
        input.substring_char(0, n - 1)
    } else {
        input
    };
    assert(line@ =~= without_line_end(input@));
    str_equal(line, "q") || str_equal(line, "quit")
}

/// The line that takes a new session back to the directory `wd`.
pub fn restore_command(wd: &str) -> (line: String)
    ensures
        line@ == "cd "@ + wd@,
{
    let mut line = "cd ".to_owned();
    push_str(&mut line, wd);
    line
}


/// A framed message is one byte longer and ends with byte 3.
pub proof fn lemma_frame_ends_with_flag(payload: Seq<u8>)
    ensures
        framed(payload).len() == payload.len() + 1,
        framed(payload).last() == 3,
        framed(payload).subrange(0, payload.len() as int) == payload,
{
    assert(framed(payload).subrange(0, payload.len() as int) =~= payload);
}

/// A failure is answered with the command's name, a colon, a space and the
/// message; a success without text with `ok`; a success with text with that
/// text alone.
pub proof fn lemma_reply_layout(name: Seq<char>, text: Seq<char>, message: Seq<char>)
    ensures
        reply_text_of(name, Err(message)) == name + seq![':', ' '] + message,
        reply_text_of(name, Ok(None)) == seq!['o', 'k'],
        reply_text_of(name, Ok(Some(text))) == text,
{
    reveal_strlit(": ");
    reveal_strlit("ok");
    assert(": "@ =~= seq![':', ' ']);
    assert("ok"@ =~= seq!['o', 'k']);
}

} // verus!
