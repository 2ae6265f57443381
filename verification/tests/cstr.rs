use audio_ext::codec::{codec_file, codec_interface, library_error, play_error, report, symbol_error};
use audio_ext::cstr::cstrncpy;

#[test]
fn copy_cuts_and_terminates() {
    let mut dst = [7u8; 4];
    assert_eq!(cstrncpy(&mut dst, b"abcdef\0"), 4);
    assert_eq!(&dst, b"abc\0");
}

#[test]
fn copy_that_fits_leaves_the_rest() {
    let mut dst = [7u8; 6];
    assert_eq!(cstrncpy(&mut dst, b"ab\0"), 3);
    assert_eq!(dst, [b'a', b'b', 0, 7, 7, 7]);
}

#[test]
fn copy_of_the_exact_size_is_whole() {
    let mut dst = [7u8; 3];
    assert_eq!(cstrncpy(&mut dst, b"ab\0"), 3);
    assert_eq!(&dst, b"ab\0");
}

#[test]
fn copy_of_the_exact_size_without_nul_loses_its_last_byte() {
    let mut dst = [7u8; 3];
    assert_eq!(cstrncpy(&mut dst, b"abc"), 3);
    assert_eq!(&dst, b"ab\0");
}

#[test]
fn copy_into_nothing_writes_nothing() {
    let mut dst: [u8; 0] = [];
    assert_eq!(cstrncpy(&mut dst, b"abc\0"), 0);
}

#[test]
fn copy_of_nothing_writes_nothing() {
    let mut dst = [7u8; 2];
    assert_eq!(cstrncpy(&mut dst, b""), 0);
    assert_eq!(dst, [7, 7]);
}

#[test]
fn report_is_a_c_string() {
    let mut dst = [7u8; 8];
    assert_eq!(report(&mut dst, "no lib"), 7);
    assert_eq!(&dst, b"no lib\0\x07");
    let mut small = [7u8; 3];
    assert_eq!(report(&mut small, "no lib"), 3);
    assert_eq!(&small, b"no\0");
}

#[test]
fn codec_texts() {
    assert_eq!(codec_file("_client.so"), "bin/vaudio_celt_client.so");
    assert_eq!(codec_file(".dll"), "bin/vaudio_celt.dll");
    assert_eq!(codec_interface(), "vaudio_celt");
    assert_eq!(library_error("gone"), "cannot load vaudio library: gone");
    assert_eq!(
        symbol_error("gone"),
        "CreateInterface function not found from codec: gone"
    );
    assert_eq!(play_error("gone"), "Play error: gone");
}
