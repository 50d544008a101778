//! What a finished command has said.

use crate::text as texts;
use vstd::prelude::*;
use vstd::utf8::*;

verus! {

/// The output of a command that succeeded, or, where it failed, what it complained.
pub open spec fn output_of(success: bool, stdout: Seq<u8>, stderr: Seq<u8>) -> Result<
    Seq<u8>,
    Seq<char>,
> {
    if success {
        Ok(stdout)
    } else {
        Err(texts::trimmed(texts::shown(stderr)))
    }
}

/// The text of an output, without white space at its ends.
pub open spec fn text_of(stdout: Seq<u8>) -> Result<Seq<char>, Seq<char>> {
    if valid_utf8(stdout) {
        Ok(texts::trimmed(decode_utf8(stdout)))
    } else {
        Err(texts::utf8_complaint(stdout))
    }
}

/// Takes the output of a command that succeeded.
pub fn output(success: bool, stdout: Vec<u8>, stderr: &[u8]) -> (r: Result<Vec<u8>, String>)
    ensures
        match r {
            Ok(o) => output_of(success, stdout@, stderr@) == Ok::<Seq<u8>, Seq<char>>(o@),
            Err(m) => output_of(success, stdout@, stderr@) == Err::<Seq<u8>, Seq<char>>(m@),
        },
{
    if success {
        Ok(stdout)
    } else {
        Err(texts::trim(texts::show(stderr).as_str()))
    }
}

/// Reads an output as text.
pub fn text(stdout: Vec<u8>) -> (r: Result<String, String>)
    ensures
        match r {
            Ok(s) => text_of(stdout@) == Ok::<Seq<char>, Seq<char>>(s@),
            Err(m) => text_of(stdout@) == Err::<Seq<char>, Seq<char>>(m@),
        },
{
    match texts::decode(stdout) {
        Ok(s) => Ok(texts::trim(s.as_str())),
        Err(m) => Err(m),
    }
}

/// A command that succeeds gives its output untouched; one that fails gives what it complained,
/// without white space around it. An output is text just where it is UTF-8, and then without white
/// space around it.
pub proof fn commands_give_output_or_complaint(stdout: Seq<u8>, stderr: Seq<u8>)
    ensures
        output_of(true, stdout, stderr) == Ok::<Seq<u8>, Seq<char>>(stdout),
        valid_utf8(stderr) ==> output_of(false, stdout, stderr) == Err::<Seq<u8>, Seq<char>>(
            texts::trimmed(decode_utf8(stderr)),
        ),
        !valid_utf8(stderr) ==> output_of(false, stdout, stderr) == Err::<Seq<u8>, Seq<char>>(
            texts::trimmed(texts::utf8_lossy(stderr)),
        ),
        valid_utf8(stdout) ==> text_of(stdout) == Ok::<Seq<char>, Seq<char>>(
            texts::trimmed(decode_utf8(stdout)),
        ),
        !valid_utf8(stdout) ==> text_of(stdout) == Err::<Seq<char>, Seq<char>>(
            texts::utf8_complaint(stdout),
        ),
{
}

} // verus!
