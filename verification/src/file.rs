//! The codec that turns text into the bytes of a `.dat` file and back, and
//! the filter that hides dot-entries when a directory is scanned.

use vstd::prelude::*;
use vstd::utf8::*;
use std::io::{Read, Write};
use crate::error::StoreError;

verus! {

/// Size of the buffer handed to the encoder and to the decoder.
pub const BUFFER_SIZE: usize = 4096;

/// Compression quality: the highest the format offers.
pub const QUALITY: u32 = 11;

/// Base-two logarithm of the sliding window.
pub const WINDOW_BITS: u32 = 22;

/// `std::io::Error`, the error of the encoder and of the decoder. Nothing
/// is read out of it.
#[verifier::external_type_specification]
#[verifier::external_body]
pub struct ExIoError(std::io::Error);

/// What `brotli::Decompressor` reads out of `input` through a buffer of the
/// given size, or `None` where it reports the stream as invalid or truncated.
pub uninterp spec fn brotli_decompressed(input: Seq<u8>, buffer_size: usize) -> Option<Seq<u8>>;

/// Runs `brotli::CompressorWriter` over an in-memory sink: one `write_all` of
/// `input`, then `into_inner`, which finishes the stream.
///
/// Trusted: the codec is lossless, so that `brotli::Decompressor` reads
/// `input` back out of whatever stream comes out. Nothing is claimed of the
/// bytes themselves: the encoder weighs its choices with floating-point
/// logarithms, and two machines may settle on different streams for one
/// input. Nor is success promised. `into_inner` does not report a failure of
/// the finishing step, and should `write_all` fail, dropping the writer runs
/// that step once more; with a sink in memory and a fresh encoder neither
/// call has a way to fail. The buffer is allocated with `vec!`, which panics
/// above `isize::MAX`; `requires` leaves those sizes out.
#[verifier::external_body]
fn brotli_compress(input: &[u8], buffer_size: usize, quality: u32, lgwin: u32) -> (r: Result<
    Vec<u8>,
    std::io::Error,
>)
    requires
        buffer_size <= isize::MAX,
    ensures
        r matches Ok(out) ==> brotli_decompressed(out@, buffer_size) == Some(input@),
{
    let mut writer = brotli::CompressorWriter::new(Vec::new(), buffer_size, quality, lgwin);
    match writer.write_all(input) {
        Ok(()) => Ok(writer.into_inner()),
        Err(e) => Err(e),
    }
}

/// Runs `brotli::Decompressor` over `input` and reads it to the end.
///
/// Trusted: the result is a function of the arguments; an invalid or
/// truncated stream comes back as the decoder's error.
#[verifier::external_body]
fn brotli_decompress(input: &[u8], buffer_size: usize) -> (r: Result<Vec<u8>, std::io::Error>)
    requires
        buffer_size <= isize::MAX,
    ensures
        match r {
            Ok(out) => brotli_decompressed(input@, buffer_size) == Some(out@),
            Err(_) => brotli_decompressed(input@, buffer_size) is None,
        },
{
    let mut reader = brotli::Decompressor::new(input, buffer_size);
    let mut out = Vec::new();
    match reader.read_to_end(&mut out) {
        Ok(_) => Ok(out),
        Err(e) => Err(e),
    }
}

/// `String::from_utf8`: the text that the bytes encode, if they are UTF-8.
#[verifier::external_body]
fn string_from_utf8(bytes: Vec<u8>) -> (r: Option<String>)
    ensures
        r is Some <==> valid_utf8(bytes@),
        r is Some ==> r->0@ == decode_utf8(bytes@),
{
    match String::from_utf8(bytes) {
        Ok(text) => Some(text),
        Err(_) => None,
    }
}

/// The text that a file's bytes hold, or `None` where they are no compressed
/// stream or the stream is not UTF-8.
pub open spec fn decoded_text(bytes: Seq<u8>) -> Option<Seq<char>> {
    match brotli_decompressed(bytes, BUFFER_SIZE) {
        Some(raw) => if valid_utf8(raw) {
            Some(decode_utf8(raw))
        } else {
            None
        },
        None => None,
    }
}

/// What the encoder's outcome amounts to: the stream it produced, or an I/O
/// failure, whatever its error says.
pub fn encoded(outcome: Result<Vec<u8>, std::io::Error>) -> (r: Result<Vec<u8>, StoreError>)
    ensures
        match outcome {
            Ok(bytes) => r == Ok::<Vec<u8>, StoreError>(bytes),
            Err(_) => r == Err::<Vec<u8>, StoreError>(StoreError::Io),
        },
{
    match outcome {
        Ok(bytes) => Ok(bytes),
        Err(_) => Err(StoreError::Io),
    }
}

/// Compresses `contents` into the bytes of a `.dat` file.
///
/// The encoder is handed the UTF-8 bytes of `contents` and the three codec
/// constants. Whether it succeeds, and which bytes it settles on, is its own
/// affair; whatever comes out decodes to `contents` again.
pub fn compress(contents: &str) -> (r: Result<Vec<u8>, StoreError>)
    ensures
        match r {
            Ok(bytes) => decoded_text(bytes@) == Some(contents@),
            Err(e) => e == StoreError::Io,
        },
{
    proof {
        encode_utf8_valid_utf8(contents@);
        encode_utf8_decode_utf8(contents@);
    }
    encoded(brotli_compress(contents.as_bytes(), BUFFER_SIZE, QUALITY, WINDOW_BITS))
}

/// Decompresses the bytes of a `.dat` file into the text they hold.
pub fn decompress(bytes: &[u8]) -> (r: Result<String, StoreError>)
    ensures
        match r {
            Ok(text) => decoded_text(bytes@) == Some(text@),
            Err(e) => e == StoreError::CorruptData && decoded_text(bytes@) is None,
        },
{
    match brotli_decompress(bytes, BUFFER_SIZE) {
        Ok(raw) => match string_from_utf8(raw) {
            Some(text) => Ok(text),
            None => Err(StoreError::CorruptData),
        },
        Err(_) => Err(StoreError::CorruptData),
    }
}

/// Whether an entry name marks a hidden entry: it begins with a dot.
pub open spec fn is_hidden(name: Seq<char>) -> bool {
    name.len() > 0 && name[0] == '.'
}

/// The characters of each string, in order.
pub open spec fn names_of(entries: Seq<String>) -> Seq<Seq<char>> {
    entries.map_values(|entry: String| entry@)
}

/// The entries of a directory that are not hidden, in the order given.
pub open spec fn visible_names(names: Seq<Seq<char>>) -> Seq<Seq<char>> {
    names.filter(|name: Seq<char>| !is_hidden(name))
}

/// A name is among the visible names exactly if it is an entry and is not
/// hidden.
pub proof fn lemma_visible_names(names: Seq<Seq<char>>, name: Seq<char>)
    ensures
        visible_names(names).contains(name) <==> names.contains(name) && !is_hidden(name),
{
    let shown = |name: Seq<char>| !is_hidden(name);
    if visible_names(names).contains(name) {
        names.lemma_filter_contains_rev(shown, name);
        let i = choose|i: int| 0 <= i < names.filter(shown).len() && names.filter(shown)[i] == name;
        names.lemma_filter_pred(shown, i);
    }
    if names.contains(name) && !is_hidden(name) {
        let i = choose|i: int| 0 <= i < names.len() && names[i] == name;
        names.lemma_filter_contains(shown, i);
    }
}

/// Tells whether `name` begins with a dot.
pub fn has_hidden_name(name: &str) -> (hidden: bool)
    ensures
        hidden == is_hidden(name@),
{
    !name.is_empty() && name.get_char(0) == '.'
}

/// Keeps the entry names of a directory that are not hidden.
///
/// `entries` is what listing the directory gave, in whatever order the file
/// system chose; that order is kept.
pub fn read_directory_contents(entries: &[String]) -> (contents: Vec<String>)
    ensures
        names_of(contents@) == visible_names(names_of(entries@)),
        forall|i: int| 0 <= i < contents@.len() ==> !is_hidden(#[trigger] contents@[i]@),
        forall|i: int|
            0 <= i < entries@.len() && !is_hidden(#[trigger] entries@[i]@) ==> names_of(
                contents@,
            ).contains(entries@[i]@),
{
    let mut contents: Vec<String> = Vec::new();
    let mut i: usize = 0;
    proof {
        reveal(Seq::filter);
        assert(entries@.take(0) =~= Seq::<String>::empty());
        assert(names_of(contents@) =~= visible_names(names_of(entries@.take(0))));
    }
    while i < entries.len()
        invariant
            i <= entries.len(),
            names_of(contents@) == visible_names(names_of(entries@.take(i as int))),
        decreases entries.len() - i,
    {
        let ghost before = contents@;
        proof {
            let seen = names_of(entries@.take(i as int));
            assert(entries@.take(i + 1) =~= entries@.take(i as int).push(entries@[i as int]));
            assert(names_of(entries@.take(i + 1)) =~= seen.push(entries@[i as int]@));
            Seq::lemma_filter_push(
                seen,
                entries@[i as int]@,
                |name: Seq<char>| !is_hidden(name),
            );
        }
        if !has_hidden_name(entries[i].as_str()) {
            contents.push(entries[i].clone());
            proof {
                assert(names_of(contents@) =~= names_of(before).push(entries@[i as int]@));
            }
        }
        i += 1;
    }
    proof {
        assert(entries@.take(i as int) =~= entries@);
        assert forall|k: int| 0 <= k < contents@.len() implies !is_hidden(
            #[trigger] contents@[k]@,
        ) by {
            assert(names_of(contents@)[k] == contents@[k]@);
            lemma_visible_names(names_of(entries@), contents@[k]@);
        }
        assert forall|k: int|
            0 <= k < entries@.len() && !is_hidden(#[trigger] entries@[k]@) implies names_of(
            contents@,
        ).contains(entries@[k]@) by {
            assert(names_of(entries@)[k] == entries@[k]@);
            lemma_visible_names(names_of(entries@), entries@[k]@);
        }
    }
    contents
}

} // verus!
