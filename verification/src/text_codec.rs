//! The text encoder and decoder, and the WebAssembly helpers, that the
//! JavaScript extensions host offers to its guests: the checks of their
//! arguments and the work on bytes and strings.

use vstd::prelude::*;
use vstd::utf8::*;

verus! {

/// The kind of a JavaScript value handed to a host function, as far as the
/// host functions tell kinds apart. A number is given as the index it is
/// converted to.
#[derive(Debug, PartialEq, Eq, Structural, Clone, Copy)]
pub enum JsArgumentKind {
    /// A string.
    Text,
    /// A typed array of type `Uint8Array`.
    ByteArray,
    /// A number, converted to an index.
    Number(usize),
    /// Any other value.
    Other,
}

/// Why a host function refuses its arguments.
#[derive(Debug, PartialEq, Eq, Structural, Clone, Copy)]
pub enum WebApiError {
    EncodeStringMissing,
    EncodeStringNotAString,
    EncodeArrayMissing,
    EncodeArrayNotAUint8Array,
    EncodePositionNotANumber,
    DecodeArrayMissing,
    DecodeArrayNotAUint8Array,
    CompileArgumentCount,
    InstantiateArgumentCount,
}

impl WebApiError {
    /// The message thrown to the guest.
    pub fn message(&self) -> (m: &'static str)
        ensures
            m@ == (match self {
                WebApiError::EncodeStringMissing => "The first argument `string` is missing"@,
                WebApiError::EncodeStringNotAString => "The first argument `string` is not a string"@,
                WebApiError::EncodeArrayMissing => "The second argument `utf8Array` is missing"@,
                WebApiError::EncodeArrayNotAUint8Array => "The second argument `uint8Array` is not a `Uint8Array`"@,
                WebApiError::EncodePositionNotANumber => "The third argument `position` is not a `number`"@,
                WebApiError::DecodeArrayMissing => "The first argument `utf8Array` is missing"@,
                WebApiError::DecodeArrayNotAUint8Array => "The first argument `uint8Array` is not a `Uint8Array`"@,
                WebApiError::CompileArgumentCount => "`compile` expects one argument"@,
                WebApiError::InstantiateArgumentCount => "`instantiate` expects at most 2 arguments"@,
            }),
    {
        match self {
            WebApiError::EncodeStringMissing => "The first argument `string` is missing",
            WebApiError::EncodeStringNotAString => "The first argument `string` is not a string",
            WebApiError::EncodeArrayMissing => "The second argument `utf8Array` is missing",
            WebApiError::EncodeArrayNotAUint8Array => "The second argument `uint8Array` is not a `Uint8Array`",
            WebApiError::EncodePositionNotANumber => "The third argument `position` is not a `number`",
            WebApiError::DecodeArrayMissing => "The first argument `utf8Array` is missing",
            WebApiError::DecodeArrayNotAUint8Array => "The first argument `uint8Array` is not a `Uint8Array`",
            WebApiError::CompileArgumentCount => "`compile` expects one argument",
            WebApiError::InstantiateArgumentCount => "`instantiate` expects at most 2 arguments",
        }
    }
}

/// The arguments check of `encodeInto(string, utf8Array, position)`: the
/// position at which to write, or why the arguments are refused. Arguments
/// are checked in order; a missing position means 0.
pub open spec fn spec_encode_into_arguments(args: Seq<JsArgumentKind>) -> Result<usize, WebApiError> {
    if args.len() < 1 {
        Err(WebApiError::EncodeStringMissing)
    } else if args[0] != JsArgumentKind::Text {
        Err(WebApiError::EncodeStringNotAString)
    } else if args.len() < 2 {
        Err(WebApiError::EncodeArrayMissing)
    } else if args[1] != JsArgumentKind::ByteArray {
        Err(WebApiError::EncodeArrayNotAUint8Array)
    } else if args.len() < 3 {
        Ok(0)
    } else {
        match args[2] {
            JsArgumentKind::Number(position) => Ok(position),
            _ => Err(WebApiError::EncodePositionNotANumber),
        }
    }
}

/// `encodeInto` accepts a string, a `Uint8Array` and an optional number,
/// whatever the number: it writes at that number, or at 0 when it is
/// missing; extra arguments are ignored.
pub proof fn lemma_encode_into_accepts_any_position(position: usize, rest: Seq<JsArgumentKind>)
    ensures
        spec_encode_into_arguments(seq![JsArgumentKind::Text, JsArgumentKind::ByteArray]) == Ok::<usize, WebApiError>(0),
        spec_encode_into_arguments(seq![JsArgumentKind::Text, JsArgumentKind::ByteArray, JsArgumentKind::Number(position)] + rest)
            == Ok::<usize, WebApiError>(position),
{
    let args = seq![JsArgumentKind::Text, JsArgumentKind::ByteArray, JsArgumentKind::Number(position)] + rest;
    assert(args[0] == JsArgumentKind::Text);
    assert(args[1] == JsArgumentKind::ByteArray);
    assert(args[2] == JsArgumentKind::Number(position));
}

/// `encodeInto` refuses a first argument that is not a string, a second one
/// that is not a `Uint8Array`, and a third one that is not a number, in that
/// order, and names the missing ones.
pub proof fn lemma_encode_into_refusals(args: Seq<JsArgumentKind>)
    ensures
        args.len() == 0 ==> spec_encode_into_arguments(args) == Err::<usize, WebApiError>(WebApiError::EncodeStringMissing),
        args.len() >= 1 && args[0] != JsArgumentKind::Text
            ==> spec_encode_into_arguments(args) == Err::<usize, WebApiError>(WebApiError::EncodeStringNotAString),
        args.len() == 1 && args[0] == JsArgumentKind::Text
            ==> spec_encode_into_arguments(args) == Err::<usize, WebApiError>(WebApiError::EncodeArrayMissing),
        args.len() >= 2 && args[0] == JsArgumentKind::Text && args[1] != JsArgumentKind::ByteArray
            ==> spec_encode_into_arguments(args) == Err::<usize, WebApiError>(WebApiError::EncodeArrayNotAUint8Array),
        args.len() >= 3 && args[0] == JsArgumentKind::Text && args[1] == JsArgumentKind::ByteArray
            && !(args[2] is Number)
            ==> spec_encode_into_arguments(args) == Err::<usize, WebApiError>(WebApiError::EncodePositionNotANumber),
{
}

/// Checks the arguments of `encodeInto(string, utf8Array, position)`.
pub fn check_encode_into_arguments(args: &[JsArgumentKind]) -> (res: Result<usize, WebApiError>)
    ensures
        res == spec_encode_into_arguments(args@),
{
    if args.len() < 1 {
        Err(WebApiError::EncodeStringMissing)
    } else if args[0] != JsArgumentKind::Text {
        Err(WebApiError::EncodeStringNotAString)
    } else if args.len() < 2 {
        Err(WebApiError::EncodeArrayMissing)
    } else if args[1] != JsArgumentKind::ByteArray {
        Err(WebApiError::EncodeArrayNotAUint8Array)
    } else if args.len() < 3 {
        Ok(0)
    } else {
        match args[2] {
            JsArgumentKind::Number(position) => Ok(position),
            _ => Err(WebApiError::EncodePositionNotANumber),
        }
    }
}

/// Checks the arguments of `decode(utf8Array)`.
pub fn check_decode_arguments(args: &[JsArgumentKind]) -> (res: Result<(), WebApiError>)
    ensures
        res == (if args@.len() < 1 {
            Err(WebApiError::DecodeArrayMissing)
        } else if args@[0] != JsArgumentKind::ByteArray {
            Err(WebApiError::DecodeArrayNotAUint8Array)
        } else {
            Ok(())
        }),
{
    if args.len() < 1 {
        Err(WebApiError::DecodeArrayMissing)
    } else if args[0] != JsArgumentKind::ByteArray {
        Err(WebApiError::DecodeArrayNotAUint8Array)
    } else {
        Ok(())
    }
}

/// Checks the number of arguments of `compile(path)`: exactly one.
pub fn check_compile_wasm_arguments(count: usize) -> (res: Result<(), WebApiError>)
    ensures
        res is Ok <==> count == 1,
        res is Err ==> res == Err::<(), WebApiError>(WebApiError::CompileArgumentCount),
{
    if count != 1 {
        Err(WebApiError::CompileArgumentCount)
    } else {
        Ok(())
    }
}

/// Checks the number of arguments of `instantiate(module, imports)`: at most
/// two.
pub fn check_instantiate_wasm_arguments(count: usize) -> (res: Result<(), WebApiError>)
    ensures
        res is Ok <==> count <= 2,
        res is Err ==> res == Err::<(), WebApiError>(WebApiError::InstantiateArgumentCount),
{
    if count > 2 {
        Err(WebApiError::InstantiateArgumentCount)
    } else {
        Ok(())
    }
}

/// The directory that WebAssembly modules of guests are read from.
pub open spec fn wasm_modules_dir() -> Seq<char> {
    "guests/timeline/js/"@
}

/// Guest modules are read from `guests/timeline/js/`.
pub proof fn lemma_wasm_modules_dir()
    ensures
        wasm_modules_dir() =~= seq!['g', 'u', 'e', 's', 't', 's', '/', 't', 'i', 'm', 'e', 'l', 'i', 'n', 'e', '/', 'j', 's', '/'],
{
    reveal_strlit("guests/timeline/js/");
}

/// The path of the WebAssembly module that a guest names.
pub fn wasm_module_path(name: &str) -> (path: String)
    ensures
        path@ == wasm_modules_dir() + name@,
{
    let mut path = String::from_str("guests/timeline/js/");
    path.append(name);
    path
}

/// The number of UTF-16 code units of a character.
pub open spec fn utf16_units(c: char) -> nat {
    if (c as u32) < 0x10000 { 1 } else { 2 }
}

/// The length of a text in UTF-16 code units, the length of a JavaScript
/// string.
pub open spec fn utf16_len(s: Seq<char>) -> nat
    decreases s.len(),
{
    if s.len() == 0 {
        0
    } else {
        utf16_units(s[0]) + utf16_len(s.drop_first())
    }
}

proof fn lemma_utf16_len_bounded(s: Seq<char>)
    ensures
        utf16_len(s) <= encode_utf8(s).len(),
    decreases s.len(),
{
    if s.len() > 0 {
        lemma_utf16_len_bounded(s.drop_first());
        let c = s[0] as u32;
        assert(is_scalar(c)) by {
            char_is_scalar(s[0]);
        }
    }
}

/// The UTF-16 length of a text is the sum of the lengths of its parts.
pub proof fn lemma_utf16_len_concat(s: Seq<char>, t: Seq<char>)
    ensures
        utf16_len(s + t) == utf16_len(s) + utf16_len(t),
    decreases s.len(),
{
    if s.len() == 0 {
        assert(s + t =~= t);
    } else {
        assert((s + t).drop_first() =~= s.drop_first() + t);
        assert((s + t)[0] == s[0]);
        lemma_utf16_len_concat(s.drop_first(), t);
    }
}

/// A character takes two UTF-16 code units exactly when its UTF-8 encoding
/// takes four bytes, that is when it lies at or above U+10000; every other
/// character takes one.
pub proof fn lemma_utf16_len_of_char(c: char)
    ensures
        utf16_len(seq![c]) == (if encode_utf8(seq![c]).len() == 4 { 2nat } else { 1nat }),
        utf16_len(seq![c]) == (if (c as u32) >= 0x10000 { 2nat } else { 1nat }),
{
    char_is_scalar(c);
    assert(seq![c].drop_first() =~= Seq::<char>::empty());
    assert(seq![c][0] == c);
    assert(encode_utf8(Seq::<char>::empty()) =~= Seq::<u8>::empty());
    assert(encode_utf8(seq![c]) == encode_scalar(c as u32) + encode_utf8(seq![c].drop_first()));
    assert(encode_utf8(seq![c]) =~= encode_scalar(c as u32));
    assert(utf16_len(Seq::<char>::empty()) == 0);
    assert(utf16_len(seq![c]) == utf16_units(c) + utf16_len(seq![c].drop_first()));
}

/// A text with no character at or above U+10000 has as many UTF-16 code
/// units as characters.
pub proof fn lemma_utf16_len_of_basic_plane_text(s: Seq<char>)
    requires
        forall|i: int| 0 <= i < s.len() ==> ((#[trigger] s[i]) as u32) < 0x10000,
    ensures
        utf16_len(s) == s.len(),
    decreases s.len(),
{
    if s.len() > 0 {
        assert((s[0] as u32) < 0x10000);
        assert forall|i: int| 0 <= i < s.drop_first().len() implies ((#[trigger] s.drop_first()[i]) as u32) < 0x10000 by {
            assert(s.drop_first()[i] == s[i + 1]);
        }
        lemma_utf16_len_of_basic_plane_text(s.drop_first());
    }
}

/// What `encodeInto` reports: how many UTF-16 code units were read and
/// written, both the length of the JavaScript string.
#[derive(Debug, PartialEq, Eq, Structural, Clone, Copy)]
pub struct EncodeIntoResult {
    pub read: usize,
    pub written: usize,
}

/// The length of a text in UTF-16 code units.
pub fn utf16_length(s: &str) -> (n: usize)
    ensures
        n == utf16_len(s@),
        (forall|i: int| 0 <= i < s@.len() ==> ((#[trigger] s@[i]) as u32) < 0x10000) ==> n == s@.len(),
{
    proof {
        if forall|i: int| 0 <= i < s@.len() ==> ((#[trigger] s@[i]) as u32) < 0x10000 {
            lemma_utf16_len_of_basic_plane_text(s@);
        }
    }
    let ghost all = s@;
    let bytes_len = s.as_bytes().len();
    proof {
        lemma_utf16_len_bounded(s@);
    }
    let mut n: usize = 0;
    assert(all.skip(0) =~= all);
    for c in it: s.chars()
        invariant
            it.seq() == all,
            utf16_len(all) <= bytes_len,
            n + utf16_len(all.skip(it.index() as int)) == utf16_len(all),
    {
        let ghost i = it.index() as int;
        proof {
            assert(all.skip(i).drop_first() =~= all.skip(i + 1));
        }
        if (c as u32) < 0x10000 {
            n = n + 1;
        } else {
            n = n + 2;
        }
    }
    proof {
        assert(all.skip(all.len() as int) =~= Seq::<char>::empty());
    }
    n
}

/// `encodeInto`: writes the UTF-8 bytes of `source` into `destination` from
/// `position` on, and reports the length of the string. The bytes must fit.
pub fn encode_into(source: &str, destination: &mut [u8], position: usize) -> (res: EncodeIntoResult)
    requires
        position + encode_utf8(source@).len() <= old(destination)@.len(),
    ensures
        final(destination)@ == old(destination)@.subrange(0, position as int) + encode_utf8(source@)
            + old(destination)@.subrange(position + encode_utf8(source@).len(), old(destination)@.len() as int),
        res.read == utf16_len(source@),
        res.written == utf16_len(source@),
{
    let bytes = source.as_bytes();
    let ghost before = destination@;
    let dlen = destination.len();
    let mut i: usize = 0;
    while i < bytes.len()
        invariant
            bytes@ == encode_utf8(source@),
            position + bytes@.len() <= before.len(),
            destination@.len() == before.len(),
            before.len() == dlen,
            i <= bytes@.len(),
            forall|j: int| 0 <= j < position ==> destination@[j] == before[j],
            forall|j: int| position <= j < position + i ==> destination@[j] == bytes@[j - position],
            forall|j: int| position + i <= j < before.len() ==> destination@[j] == before[j],
        decreases bytes.len() - i,
    {
        destination[position + i] = bytes[i];
        i = i + 1;
    }
    assert(destination@ =~= before.subrange(0, position as int) + bytes@
        + before.subrange(position + bytes@.len(), before.len() as int));
    let n = utf16_length(source);
    EncodeIntoResult { read: n, written: n }
}

/// The text that a lossy UTF-8 decoding gives for bytes that are not valid
/// UTF-8: each invalid sequence becomes U+FFFD.
pub uninterp spec fn utf8_lossy_text(bytes: Seq<u8>) -> Seq<char>;

/// The text that a lossy UTF-8 decoding gives: the decoded text for valid
/// UTF-8.
pub open spec fn lossy_decoded(bytes: Seq<u8>) -> Seq<char> {
    if valid_utf8(bytes) {
        decode_utf8(bytes)
    } else {
        utf8_lossy_text(bytes)
    }
}

/// `String::from_utf8_lossy` of std, made owned. Trusted: for valid UTF-8 the
/// text is the decoded one, as std documents; for other bytes it is
/// `utf8_lossy_text`, a function of the bytes alone, whose replacement rules
/// are not stated here.
#[verifier::external_body]
fn string_from_utf8_lossy(bytes: &[u8]) -> (s: String)
    ensures
        valid_utf8(bytes@) ==> s@ == decode_utf8(bytes@),
        !valid_utf8(bytes@) ==> s@ == utf8_lossy_text(bytes@),
{
    String::from_utf8_lossy(bytes).into_owned()
}

/// `decode`: the text of UTF-8 bytes, invalid sequences replaced.
pub fn decode(bytes: &[u8]) -> (text: String)
    ensures
        text@ == lossy_decoded(bytes@),
{
    string_from_utf8_lossy(bytes)
}

/// Decoding what `encodeInto` wrote gives back the encoded string.
pub proof fn lemma_decode_inverts_encode_into(source: Seq<char>, written: Seq<u8>, position: int)
    requires
        0 <= position,
        position + encode_utf8(source).len() <= written.len(),
        written.subrange(position, position + encode_utf8(source).len()) == encode_utf8(source),
    ensures
        lossy_decoded(written.subrange(position, position + encode_utf8(source).len())) == source,
{
    encode_utf8_valid_utf8(source);
    encode_utf8_decode_utf8(source);
}

} // verus!
