//! Loading the voice codec, and telling the host why that failed.
use crate::cstr::{c_copy, cstrncpy};
use vstd::prelude::*;
use vstd::string::StringExecFns;

verus! {

/// The quality that the codec is set to.
pub const CODEC_QUALITY: i32 = 3;

/// The file of the codec library, relative to the directory of the game.
/// `extension` is what the platform adds to a library's name.
pub fn codec_file(extension: &str) -> (file: String)
    ensures
        file@ == "bin/vaudio_celt"@ + extension@,
{
    "bin/vaudio_celt".to_owned().concat(extension)
}

/// The name under which the codec library offers the codec.
pub fn codec_interface() -> (name: String)
    ensures
        name@ == "vaudio_celt"@,
{
    "vaudio_celt".to_owned()
}

/// The message for a codec library that cannot be loaded.
pub fn library_error(reason: &str) -> (message: String)
    ensures
        message@ == "cannot load vaudio library: "@ + reason@,
{
    "cannot load vaudio library: ".to_owned().concat(reason)
}

/// The message for a library that does not offer codecs.
pub fn symbol_error(reason: &str) -> (message: String)
    ensures
        message@ == "CreateInterface function not found from codec: "@ + reason@,
{
    "CreateInterface function not found from codec: ".to_owned().concat(reason)
}

/// The message for a decoder that cannot be started.
pub fn play_error(reason: &str) -> (message: String)
    ensures
        message@ == "Play error: "@ + reason@,
{
    "Play error: ".to_owned().concat(reason)
}

/// The bytes of a message as a C string.
pub open spec fn c_message(message: Seq<char>) -> Seq<u8> {
    vstd::utf8::encode_utf8(message).push(0u8)
}

/// Writes a message into the host's buffer, as a C string, and returns how
/// many bytes of the buffer were written.
///
/// A message that holds a NUL cannot be a C string.
pub fn report(dst: &mut [u8], message: &str) -> (written: usize)
    requires
        !vstd::utf8::encode_utf8(message@).contains(0u8),
    ensures
        final(dst)@ == c_copy(old(dst)@, c_message(message@)),
        written == if c_message(message@).len() < old(dst)@.len() {
            c_message(message@).len()
        } else {
            old(dst)@.len()
        },
{
    let mut bytes: Vec<u8> = vstd::slice::slice_to_vec(message.as_bytes());
    bytes.push(0u8);
    cstrncpy(dst, bytes.as_slice())
}

/// Whatever the size of the host's buffer, unless it is empty, a reported
/// message ends within it, and a message that fits is all there.
pub proof fn law_report_is_a_c_string(dst: Seq<u8>, message: Seq<char>)
    requires
        dst.len() > 0,
    ensures
        c_copy(dst, c_message(message)).contains(0u8),
        c_message(message).len() <= dst.len() ==> c_copy(dst, c_message(message)).take(
            c_message(message).len() as int,
        ) == c_message(message),
{
    crate::cstr::law_copy_is_terminated(dst, c_message(message));
    if c_message(message).len() <= dst.len() {
        crate::cstr::law_fitting_copy_is_whole(dst, c_message(message));
    }
}

/// A message becomes its bytes and one NUL behind them.
pub proof fn law_message_gains_one_nul(message: Seq<char>)
    ensures
        c_message(message).len() == vstd::utf8::encode_utf8(message).len() + 1,
        c_message(message).last() == 0,
        c_message(message).drop_last() == vstd::utf8::encode_utf8(message),
{
    assert(c_message(message).drop_last() =~= vstd::utf8::encode_utf8(message));
}

} // verus!
