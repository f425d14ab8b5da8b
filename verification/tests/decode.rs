//! Tests of the chunk decoder alone: which payloads decode, into what, and
//! which are refused.

use openai_client::chat_stream::decode_chunk;

#[test]
fn full_chunk_decodes_with_all_fields() {
    let payload = "{\"id\":\"chatcmpl-9\",\"object\":\"chat.completion.chunk\",\"created\":1694268190,\"model\":\"gpt-4o\",\"choices\":[{\"index\":0,\"delta\":{\"content\":\"Hello\"},\"finish_reason\":null}]}";
    let chunk = decode_chunk(payload).expect("decodes");
    assert_eq!(chunk.id, "chatcmpl-9");
    assert_eq!(chunk.object, "chat.completion.chunk");
    assert_eq!(chunk.created, 1694268190);
    assert_eq!(chunk.model, "gpt-4o");
    assert_eq!(chunk.choices.len(), 1);
    assert_eq!(chunk.choices[0].index, 0);
    assert_eq!(chunk.choices[0].delta.content.as_deref(), Some("Hello"));
    assert_eq!(chunk.choices[0].finish_reason, None);
}

#[test]
fn unknown_members_are_skipped() {
    let payload = "{\"id\":\"1\",\"object\":\"x\",\"created\":7,\"system_fingerprint\":\"fp_44709d6fcb\",\"model\":\"m\",\"choices\":[{\"index\":0,\"delta\":{\"role\":\"assistant\",\"content\":\"\"},\"logprobs\":null,\"finish_reason\":null}],\"usage\":{\"total_tokens\":9}}";
    let chunk = decode_chunk(payload).expect("decodes despite unknown members");
    assert_eq!(chunk.created, 7);
    assert_eq!(chunk.choices[0].delta.content.as_deref(), Some(""));
}

#[test]
fn members_in_any_order_decode() {
    let payload = "{\"choices\":[],\"model\":\"m\",\"created\":-3,\"object\":\"x\",\"id\":\"z\"}";
    let chunk = decode_chunk(payload).expect("decodes");
    assert_eq!(chunk.created, -3);
    assert_eq!(chunk.choices.len(), 0);
    assert_eq!(chunk.id, "z");
}

#[test]
fn whitespace_is_tolerated() {
    let payload = " {\n \"id\" : \"1\" ,\t\"object\": \"x\", \"created\": 0, \"model\": \"m\", \"choices\": [ ] }\r\n";
    assert!(decode_chunk(payload).is_ok());
}

#[test]
fn string_escapes_are_decoded() {
    let payload = "{\"id\":\"a\\nb\\t\\\"q\\\"\\u0041\\\\\",\"object\":\"x\",\"created\":0,\"model\":\"m\",\"choices\":[]}";
    let chunk = decode_chunk(payload).expect("decodes");
    assert_eq!(chunk.id, "a\nb\t\"q\"A\\");
}

#[test]
fn missing_content_means_no_new_text() {
    let payload = "{\"id\":\"1\",\"object\":\"x\",\"created\":0,\"model\":\"m\",\"choices\":[{\"index\":2,\"delta\":{},\"finish_reason\":\"stop\"}]}";
    let chunk = decode_chunk(payload).expect("decodes");
    assert_eq!(chunk.choices[0].index, 2);
    assert_eq!(chunk.choices[0].delta.content, None);
    assert_eq!(chunk.choices[0].finish_reason.as_deref(), Some("stop"));
}

#[test]
fn null_content_means_no_new_text() {
    let payload = "{\"id\":\"1\",\"object\":\"x\",\"created\":0,\"model\":\"m\",\"choices\":[{\"index\":0,\"delta\":{\"content\":null},\"finish_reason\":null}]}";
    let chunk = decode_chunk(payload).expect("decodes");
    assert_eq!(chunk.choices[0].delta.content, None);
}

#[test]
fn several_choices_keep_server_order() {
    let payload = "{\"id\":\"1\",\"object\":\"x\",\"created\":0,\"model\":\"m\",\"choices\":[{\"index\":0,\"delta\":{\"content\":\"a\"},\"finish_reason\":null},{\"index\":1,\"delta\":{\"content\":\"b\"},\"finish_reason\":null}]}";
    let chunk = decode_chunk(payload).expect("decodes");
    assert_eq!(chunk.choices.len(), 2);
    assert_eq!(chunk.choices[0].delta.content.as_deref(), Some("a"));
    assert_eq!(chunk.choices[1].delta.content.as_deref(), Some("b"));
    assert_eq!(chunk.choices[1].index, 1);
}

#[test]
fn plain_text_is_refused_with_payload_kept() {
    let err = decode_chunk("not json").expect_err("refused");
    assert_eq!(err.payload, "not json");
}

#[test]
fn sentinel_text_is_not_a_chunk() {
    assert!(decode_chunk("[DONE]").is_err());
}

#[test]
fn missing_required_member_is_refused() {
    assert!(decode_chunk("{\"id\":\"1\",\"object\":\"x\",\"created\":0,\"model\":\"m\"}").is_err());
    assert!(decode_chunk("{}").is_err());
}

#[test]
fn repeated_member_is_refused() {
    let payload = "{\"id\":\"1\",\"id\":\"2\",\"object\":\"x\",\"created\":0,\"model\":\"m\",\"choices\":[]}";
    assert!(decode_chunk(payload).is_err());
}

#[test]
fn wrong_member_shape_is_refused() {
    // `created` as text, `choices` not an array, `delta` not an object.
    assert!(decode_chunk(
        "{\"id\":\"1\",\"object\":\"x\",\"created\":\"0\",\"model\":\"m\",\"choices\":[]}"
    )
    .is_err());
    assert!(decode_chunk(
        "{\"id\":\"1\",\"object\":\"x\",\"created\":0,\"model\":\"m\",\"choices\":{}}"
    )
    .is_err());
    assert!(decode_chunk(
        "{\"id\":\"1\",\"object\":\"x\",\"created\":0,\"model\":\"m\",\"choices\":[{\"index\":0,\"delta\":null,\"finish_reason\":null}]}"
    )
    .is_err());
}

#[test]
fn fractional_or_huge_created_is_refused() {
    assert!(decode_chunk(
        "{\"id\":\"1\",\"object\":\"x\",\"created\":1.5,\"model\":\"m\",\"choices\":[]}"
    )
    .is_err());
    assert!(decode_chunk(
        "{\"id\":\"1\",\"object\":\"x\",\"created\":99999999999999999999,\"model\":\"m\",\"choices\":[]}"
    )
    .is_err());
}

#[test]
fn extreme_created_values_decode() {
    let max = decode_chunk(
        "{\"id\":\"1\",\"object\":\"x\",\"created\":9223372036854775807,\"model\":\"m\",\"choices\":[]}",
    )
    .expect("decodes");
    assert_eq!(max.created, i64::MAX);
    let min = decode_chunk(
        "{\"id\":\"1\",\"object\":\"x\",\"created\":-9223372036854775808,\"model\":\"m\",\"choices\":[]}",
    )
    .expect("decodes");
    assert_eq!(min.created, i64::MIN);
}

#[test]
fn negative_index_is_refused() {
    assert!(decode_chunk(
        "{\"id\":\"1\",\"object\":\"x\",\"created\":0,\"model\":\"m\",\"choices\":[{\"index\":-1,\"delta\":{},\"finish_reason\":null}]}"
    )
    .is_err());
}

#[test]
fn leading_zero_integer_is_refused() {
    assert!(decode_chunk(
        "{\"id\":\"1\",\"object\":\"x\",\"created\":01,\"model\":\"m\",\"choices\":[]}"
    )
    .is_err());
}

#[test]
fn trailing_text_is_refused() {
    assert!(decode_chunk(
        "{\"id\":\"1\",\"object\":\"x\",\"created\":0,\"model\":\"m\",\"choices\":[]}x"
    )
    .is_err());
}

#[test]
fn unterminated_string_is_refused() {
    assert!(decode_chunk("{\"id\":\"1").is_err());
}

#[test]
fn raw_control_character_in_string_is_refused() {
    let payload = "{\"id\":\"a\nb\",\"object\":\"x\",\"created\":0,\"model\":\"m\",\"choices\":[]}";
    assert!(decode_chunk(payload).is_err());
}

#[test]
fn surrogate_escape_is_refused() {
    // A lone high surrogate, a lone low surrogate, and a high surrogate
    // followed by something other than a low one.
    assert!(decode_chunk(
        "{\"id\":\"\\uD800\",\"object\":\"x\",\"created\":0,\"model\":\"m\",\"choices\":[]}"
    )
    .is_err());
    assert!(decode_chunk(
        "{\"id\":\"\\uDE00\",\"object\":\"x\",\"created\":0,\"model\":\"m\",\"choices\":[]}"
    )
    .is_err());
    assert!(decode_chunk(
        "{\"id\":\"\\uD83Dab\",\"object\":\"x\",\"created\":0,\"model\":\"m\",\"choices\":[]}"
    )
    .is_err());
    assert!(decode_chunk(
        "{\"id\":\"\\uD83D\\u0041\",\"object\":\"x\",\"created\":0,\"model\":\"m\",\"choices\":[]}"
    )
    .is_err());
}

#[test]
fn surrogate_pair_escape_decodes_to_one_character() {
    let payload = "{\"id\":\"1\",\"object\":\"x\",\"created\":0,\"model\":\"m\",\"choices\":[{\"index\":0,\"delta\":{\"content\":\"\\ud83d\\ude00!\"},\"finish_reason\":null}]}";
    let chunk = decode_chunk(payload).expect("decodes");
    assert_eq!(chunk.choices[0].delta.content.as_deref(), Some("\u{1F600}!"));
}

#[test]
fn well_formed_numbers_in_ignored_members_are_skipped() {
    for value in ["-0.5e+10", "0.25", "1E3", "0", "-7", "120e-2"] {
        let payload = format!(
            "{{\"id\":\"1\",\"object\":\"x\",\"created\":0,\"model\":\"m\",\"choices\":[],\"x\":{}}}",
            value
        );
        assert!(decode_chunk(&payload).is_ok(), "should skip {}", value);
    }
}

#[test]
fn malformed_numbers_in_ignored_members_are_refused() {
    for value in ["1-2", "01", "1.", "1e", ".5", "1e+", "-", "+1", "1.2.3"] {
        let payload = format!(
            "{{\"id\":\"1\",\"object\":\"x\",\"created\":0,\"model\":\"m\",\"choices\":[],\"x\":{}}}",
            value
        );
        assert!(decode_chunk(&payload).is_err(), "should refuse {}", value);
    }
}

#[test]
fn trailing_comma_is_refused() {
    assert!(decode_chunk(
        "{\"id\":\"1\",\"object\":\"x\",\"created\":0,\"model\":\"m\",\"choices\":[],}"
    )
    .is_err());
    assert!(decode_chunk(
        "{\"id\":\"1\",\"object\":\"x\",\"created\":0,\"model\":\"m\",\"choices\":[{\"index\":0,\"delta\":{},\"finish_reason\":null},]}"
    )
    .is_err());
}

#[test]
fn non_ascii_text_round_trips() {
    let payload = "{\"id\":\"1\",\"object\":\"x\",\"created\":0,\"model\":\"m\",\"choices\":[{\"index\":0,\"delta\":{\"content\":\"héllo \\u00e9\"},\"finish_reason\":null}]}";
    let chunk = decode_chunk(payload).expect("decodes");
    assert_eq!(chunk.choices[0].delta.content.as_deref(), Some("héllo é"));
}
