use matrix_client_logic::text_codec::{
    check_compile_wasm_arguments, check_decode_arguments, check_encode_into_arguments,
    check_instantiate_wasm_arguments, decode, encode_into, utf16_length, wasm_module_path,
    EncodeIntoResult, JsArgumentKind, WebApiError,
};

use JsArgumentKind::{ByteArray, Number, Other, Text};

#[test]
fn encode_into_argument_checks() {
    assert_eq!(check_encode_into_arguments(&[]), Err(WebApiError::EncodeStringMissing));
    assert_eq!(check_encode_into_arguments(&[Other]), Err(WebApiError::EncodeStringNotAString));
    assert_eq!(check_encode_into_arguments(&[Text]), Err(WebApiError::EncodeArrayMissing));
    assert_eq!(check_encode_into_arguments(&[Text, Text]), Err(WebApiError::EncodeArrayNotAUint8Array));
    assert_eq!(check_encode_into_arguments(&[Text, ByteArray]), Ok(0));
    assert_eq!(check_encode_into_arguments(&[Text, ByteArray, Number(7)]), Ok(7));
    assert_eq!(
        check_encode_into_arguments(&[Text, ByteArray, Text]),
        Err(WebApiError::EncodePositionNotANumber)
    );
    assert_eq!(check_encode_into_arguments(&[Text, ByteArray, Number(1), Other]), Ok(1));
}

#[test]
fn decode_argument_checks() {
    assert_eq!(check_decode_arguments(&[]), Err(WebApiError::DecodeArrayMissing));
    assert_eq!(check_decode_arguments(&[Text]), Err(WebApiError::DecodeArrayNotAUint8Array));
    assert_eq!(check_decode_arguments(&[ByteArray]), Ok(()));
}

#[test]
fn wasm_argument_checks() {
    assert_eq!(check_compile_wasm_arguments(0), Err(WebApiError::CompileArgumentCount));
    assert_eq!(check_compile_wasm_arguments(1), Ok(()));
    assert_eq!(check_compile_wasm_arguments(2), Err(WebApiError::CompileArgumentCount));
    assert_eq!(check_instantiate_wasm_arguments(0), Ok(()));
    assert_eq!(check_instantiate_wasm_arguments(2), Ok(()));
    assert_eq!(check_instantiate_wasm_arguments(3), Err(WebApiError::InstantiateArgumentCount));
}

#[test]
fn error_messages() {
    assert_eq!(WebApiError::EncodeStringMissing.message(), "The first argument `string` is missing");
    assert_eq!(WebApiError::EncodeStringNotAString.message(), "The first argument `string` is not a string");
    assert_eq!(WebApiError::EncodeArrayMissing.message(), "The second argument `utf8Array` is missing");
    assert_eq!(
        WebApiError::EncodeArrayNotAUint8Array.message(),
        "The second argument `uint8Array` is not a `Uint8Array`"
    );
    assert_eq!(
        WebApiError::EncodePositionNotANumber.message(),
        "The third argument `position` is not a `number`"
    );
    assert_eq!(WebApiError::DecodeArrayMissing.message(), "The first argument `utf8Array` is missing");
    assert_eq!(
        WebApiError::DecodeArrayNotAUint8Array.message(),
        "The first argument `uint8Array` is not a `Uint8Array`"
    );
    assert_eq!(WebApiError::CompileArgumentCount.message(), "`compile` expects one argument");
    assert_eq!(WebApiError::InstantiateArgumentCount.message(), "`instantiate` expects at most 2 arguments");
}

#[test]
fn wasm_path_of_guest_module() {
    assert_eq!(wasm_module_path("timeline.wasm"), "guests/timeline/js/timeline.wasm");
    assert_eq!(wasm_module_path(""), "guests/timeline/js/");
}

#[test]
fn encode_into_writes_bytes_at_position() {
    let mut buf = [0u8; 8];
    let res = encode_into("héj", &mut buf, 2);
    assert_eq!(buf, [0, 0, b'h', 0xC3, 0xA9, b'j', 0, 0]);
    assert_eq!(res, EncodeIntoResult { read: 3, written: 3 });

    let mut exact = [9u8; 3];
    let res = encode_into("abc", &mut exact, 0);
    assert_eq!(&exact, b"abc");
    assert_eq!(res, EncodeIntoResult { read: 3, written: 3 });

    let mut untouched = [5u8; 2];
    let res = encode_into("", &mut untouched, 2);
    assert_eq!(untouched, [5, 5]);
    assert_eq!(res, EncodeIntoResult { read: 0, written: 0 });
}

#[test]
fn utf16_lengths() {
    assert_eq!(utf16_length(""), 0);
    assert_eq!(utf16_length("abc"), 3);
    assert_eq!(utf16_length("é"), 1);
    assert_eq!(utf16_length("😀"), 2);
    assert_eq!(utf16_length("a😀b"), 4);
}

#[test]
fn decode_valid_and_invalid() {
    assert_eq!(decode(b"hello"), "hello");
    assert_eq!(decode("héj😀".as_bytes()), "héj😀");
    assert_eq!(decode(&[b'a', 0xFF, b'b']), "a\u{FFFD}b");
    assert_eq!(decode(&[]), "");
}

#[test]
fn decode_gives_back_what_encode_into_wrote() {
    let text = "Grüße, 世界 😀";
    let mut buf = vec![0u8; 40];
    let n = text.len();
    encode_into(text, &mut buf, 3);
    assert_eq!(decode(&buf[3..3 + n]), text);
}
