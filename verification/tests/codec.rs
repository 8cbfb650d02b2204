use prompt_record::{DecodeError, EncodeError, PromptAccount, PromptInstruction};

fn open_record(prompt: &str) -> PromptAccount {
    PromptAccount { prompt: prompt.to_string(), response: None, is_processed: false }
}

fn closed_record(prompt: &str, response: &str) -> PromptAccount {
    PromptAccount {
        prompt: prompt.to_string(),
        response: Some(response.to_string()),
        is_processed: true,
    }
}

#[test]
fn open_record_has_the_documented_bytes() {
    let bytes = open_record("hello").to_bytes().unwrap();
    assert_eq!(bytes, vec![5, 0, 0, 0, b'h', b'e', b'l', b'l', b'o', 0, 0]);
}

#[test]
fn closed_record_has_the_documented_bytes() {
    let bytes = closed_record("hello", "world").to_bytes().unwrap();
    assert_eq!(
        bytes,
        vec![
            5, 0, 0, 0, b'h', b'e', b'l', b'l', b'o', 1, 5, 0, 0, 0, b'w', b'o', b'r', b'l',
            b'd', 1,
        ]
    );
}

#[test]
fn empty_prompt_takes_six_bytes() {
    let record = open_record("");
    assert_eq!(record.to_bytes().unwrap(), vec![0, 0, 0, 0, 0, 0]);
    assert_eq!(record.encoded_len(), Some(6));
}

#[test]
fn encoded_len_counts_utf8_bytes() {
    // 'é' is two bytes, '€' three, '𝄞' four.
    let record = closed_record("é€", "𝄞");
    assert_eq!(record.encoded_len(), Some(4 + 5 + 1 + 4 + 4 + 1));
    assert_eq!(record.to_bytes().unwrap().len(), 19);
}

#[test]
fn count_is_little_endian() {
    let prompt = "x".repeat(0x0102);
    let bytes = open_record(&prompt).to_bytes().unwrap();
    assert_eq!(&bytes[..4], &[0x02, 0x01, 0x00, 0x00]);
    assert_eq!(bytes.len(), 4 + 0x0102 + 2);
}

#[test]
fn record_bytes_are_those_of_borsh() {
    let record = closed_record("what is the answer?", "forty-two");
    let expected = borsh::to_vec(&(
        record.prompt.clone(),
        record.response.clone(),
        record.is_processed,
    ))
    .unwrap();
    assert_eq!(record.to_bytes().unwrap(), expected);
    let back: (String, Option<String>, bool) = borsh::from_slice(&expected).unwrap();
    assert_eq!(PromptAccount::decode(&expected).unwrap(), closed_record(&back.0, "forty-two"));
}

#[test]
fn round_trip_in_an_exact_buffer() {
    let record = closed_record("hello", "world");
    let mut buffer = vec![0xAAu8; 20];
    assert_eq!(record.encode(&mut buffer), Ok(()));
    assert_eq!(PromptAccount::decode(&buffer), Ok(record));
}

#[test]
fn round_trip_in_a_larger_buffer_keeps_the_tail() {
    let record = open_record("hello");
    let mut buffer = vec![0xAAu8; 32];
    assert_eq!(record.encode(&mut buffer), Ok(()));
    assert_eq!(&buffer[..11], &[5, 0, 0, 0, b'h', b'e', b'l', b'l', b'o', 0, 0]);
    assert!(buffer[11..].iter().all(|b| *b == 0xAA));
    assert_eq!(PromptAccount::decode(&buffer), Ok(record));
}

#[test]
fn round_trip_of_non_ascii_text() {
    let record = closed_record("¿qué hora es? 🕒", "三時です");
    let mut buffer = vec![0u8; 128];
    assert_eq!(record.encode(&mut buffer), Ok(()));
    assert_eq!(PromptAccount::decode(&buffer), Ok(record));
}

#[test]
fn decode_accepts_records_that_are_open_with_a_response() {
    // The layout does not tie the flag to the presence byte.
    let bytes = vec![1, 0, 0, 0, b'p', 1, 1, 0, 0, 0, b'r', 0];
    let record = PromptAccount::decode(&bytes).unwrap();
    assert_eq!(record.prompt, "p");
    assert_eq!(record.response, Some("r".to_string()));
    assert!(!record.is_processed);
}

#[test]
fn encode_rejects_a_buffer_one_byte_short() {
    let record = open_record("hello");
    let mut buffer = vec![0x5Au8; 10];
    assert_eq!(record.encode(&mut buffer), Err(EncodeError::CapacityExceeded));
    assert_eq!(buffer, vec![0x5Au8; 10]);
}

#[test]
fn encode_rejects_an_empty_buffer() {
    let record = open_record("");
    let mut buffer: Vec<u8> = Vec::new();
    assert_eq!(record.encode(&mut buffer), Err(EncodeError::CapacityExceeded));
    assert!(buffer.is_empty());
}

#[test]
fn failed_encode_keeps_a_record_that_was_there() {
    let held = open_record("short");
    let mut buffer = vec![0u8; 11];
    assert_eq!(held.encode(&mut buffer), Ok(()));
    let before = buffer.clone();
    let larger = closed_record("short", "a response that cannot fit");
    assert_eq!(larger.encode(&mut buffer), Err(EncodeError::CapacityExceeded));
    assert_eq!(buffer, before);
    assert_eq!(PromptAccount::decode(&buffer), Ok(held));
}

#[test]
fn decode_rejects_an_empty_buffer() {
    assert_eq!(PromptAccount::decode(&[]), Err(DecodeError::Malformed));
}

#[test]
fn decode_rejects_a_short_count() {
    assert_eq!(PromptAccount::decode(&[5, 0, 0]), Err(DecodeError::Malformed));
}

#[test]
fn decode_rejects_a_count_past_the_end() {
    assert_eq!(
        PromptAccount::decode(&[5, 0, 0, 0, b'h', b'e', b'l', b'l']),
        Err(DecodeError::Malformed)
    );
    assert_eq!(
        PromptAccount::decode(&[0xFF, 0xFF, 0xFF, 0xFF, 0, 0]),
        Err(DecodeError::Malformed)
    );
}

#[test]
fn decode_rejects_a_missing_presence_byte() {
    assert_eq!(PromptAccount::decode(&[1, 0, 0, 0, b'p']), Err(DecodeError::Malformed));
}

#[test]
fn decode_rejects_a_presence_byte_other_than_0_or_1() {
    assert_eq!(PromptAccount::decode(&[1, 0, 0, 0, b'p', 2, 0]), Err(DecodeError::Malformed));
}

#[test]
fn decode_rejects_a_truncated_response() {
    assert_eq!(
        PromptAccount::decode(&[1, 0, 0, 0, b'p', 1, 3, 0, 0, 0, b'r']),
        Err(DecodeError::Malformed)
    );
}

#[test]
fn decode_rejects_a_missing_flag() {
    assert_eq!(PromptAccount::decode(&[1, 0, 0, 0, b'p', 0]), Err(DecodeError::Malformed));
}

#[test]
fn decode_rejects_a_flag_other_than_0_or_1() {
    assert_eq!(PromptAccount::decode(&[1, 0, 0, 0, b'p', 0, 7]), Err(DecodeError::Malformed));
}

#[test]
fn decode_rejects_text_that_is_not_utf8() {
    assert_eq!(
        PromptAccount::decode(&[2, 0, 0, 0, 0xC3, 0x28, 0, 0]),
        Err(DecodeError::Malformed)
    );
    // An overlong form of '/'.
    assert_eq!(
        PromptAccount::decode(&[2, 0, 0, 0, 0xC0, 0xAF, 0, 0]),
        Err(DecodeError::Malformed)
    );
}

#[test]
fn decode_ignores_what_follows_the_record() {
    let bytes = vec![1, 0, 0, 0, b'p', 0, 0, 9, 9, 9];
    assert_eq!(PromptAccount::decode(&bytes), Ok(open_record("p")));
}

#[test]
fn all_zero_bytes_read_as_an_open_record_with_an_empty_prompt() {
    assert_eq!(PromptAccount::decode(&[0u8; 16]), Ok(open_record("")));
    assert_eq!(PromptAccount::decode(&[0u8; 5]), Err(DecodeError::Malformed));
}

#[test]
fn submit_payload_has_the_documented_bytes() {
    let payload = PromptInstruction::SubmitPrompt { prompt: "hello".to_string() }
        .to_bytes()
        .unwrap();
    assert_eq!(payload, vec![0, 5, 0, 0, 0, b'h', b'e', b'l', b'l', b'o']);
}

#[test]
fn respond_payload_has_the_documented_bytes() {
    let payload = PromptInstruction::SubmitResponse { response: "world".to_string() }
        .to_bytes()
        .unwrap();
    assert_eq!(payload, vec![1, 5, 0, 0, 0, b'w', b'o', b'r', b'l', b'd']);
}

#[test]
fn payload_bytes_are_those_of_borsh() {
    let text = "tell me a story".to_string();
    let expected = borsh::to_vec(&(1u8, text.clone())).unwrap();
    let payload = PromptInstruction::SubmitResponse { response: text }.to_bytes().unwrap();
    assert_eq!(payload, expected);
}

#[test]
fn payload_round_trip() {
    let submit = PromptInstruction::SubmitPrompt { prompt: "¿cómo estás?".to_string() };
    let respond = PromptInstruction::SubmitResponse { response: String::new() };
    assert_eq!(PromptInstruction::decode(&submit.to_bytes().unwrap()), Ok(submit));
    assert_eq!(PromptInstruction::decode(&respond.to_bytes().unwrap()), Ok(respond));
}

#[test]
fn payload_with_an_unknown_selector_is_malformed() {
    assert_eq!(
        PromptInstruction::decode(&[2, 0, 0, 0, 0]),
        Err(DecodeError::Malformed)
    );
    assert_eq!(
        PromptInstruction::decode(&[255, 1, 0, 0, 0, b'x']),
        Err(DecodeError::Malformed)
    );
}

#[test]
fn empty_payload_is_malformed() {
    assert_eq!(PromptInstruction::decode(&[]), Err(DecodeError::Malformed));
}

#[test]
fn payload_with_a_truncated_text_is_malformed() {
    assert_eq!(PromptInstruction::decode(&[0]), Err(DecodeError::Malformed));
    assert_eq!(PromptInstruction::decode(&[0, 2, 0, 0, 0, b'x']), Err(DecodeError::Malformed));
}

#[test]
fn payload_with_bytes_after_the_text_is_malformed() {
    assert_eq!(
        PromptInstruction::decode(&[0, 1, 0, 0, 0, b'x', 0]),
        Err(DecodeError::Malformed)
    );
}

#[test]
fn payload_with_text_that_is_not_utf8_is_malformed() {
    assert_eq!(
        PromptInstruction::decode(&[1, 1, 0, 0, 0, 0xFF]),
        Err(DecodeError::Malformed)
    );
}
