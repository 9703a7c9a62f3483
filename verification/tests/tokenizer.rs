use pgpt::token_stream::{TokenOutputStream, TokenizerError};

// A two-word vocabulary is enough to drive the streaming path through a
// real tokenizer: with no decoder configured, decoding joins the looked-up
// tokens with single spaces.
fn tiny_tokenizer() -> tokenizers::Tokenizer {
    let model: tokenizers::models::wordlevel::WordLevel = serde_json::from_str(
        "{\"type\":\"WordLevel\",\"vocab\":{\"hello\":0,\"world\":1,\"[UNK]\":2},\"unk_token\":\"[UNK]\"}",
    )
    .expect("fixed model json");
    tokenizers::Tokenizer::new(model)
}

// The same vocabulary but with the unknown token missing from it, so that
// encoding unknown text fails.
fn unkless_tokenizer() -> tokenizers::Tokenizer {
    let model: tokenizers::models::wordlevel::WordLevel = serde_json::from_str(
        "{\"type\":\"WordLevel\",\"vocab\":{\"hello\":0},\"unk_token\":\"[UNK]\"}",
    )
    .expect("fixed model json");
    tokenizers::Tokenizer::new(model)
}

#[test]
fn streaming_emits_decoded_fragments() {
    let mut stream = TokenOutputStream::new(tiny_tokenizer());
    assert_eq!(stream.next_token(0), Ok(Some("hello".to_string())));
    assert_eq!(stream.next_token(1), Ok(Some(" world".to_string())));
    assert_eq!(stream.decode_rest(), Ok(None));
    assert_eq!(stream.decode_all(), Ok("hello world".to_string()));
}

#[test]
fn vocabulary_lookup_through_the_stream() {
    let stream = TokenOutputStream::new(tiny_tokenizer());
    assert_eq!(stream.get_token("hello"), Some(0));
    assert_eq!(stream.get_token("world"), Some(1));
    assert_eq!(stream.get_token("nowhere"), None);
    assert_eq!(stream.tokenizer().get_vocab(true).len(), 3);
}

#[test]
fn encoding_turns_text_into_units() {
    let stream = TokenOutputStream::new(tiny_tokenizer());
    assert_eq!(stream.encode("hello"), Ok(vec![0u32]));
    // unknown text falls back to the unknown token
    assert_eq!(stream.encode("zzz"), Ok(vec![2u32]));
}

#[test]
fn encoding_fails_without_unknown_token() {
    let stream = TokenOutputStream::new(unkless_tokenizer());
    assert_eq!(stream.encode("zzz"), Err(TokenizerError::Encode));
}

#[test]
fn priming_replays_the_request_units() {
    let mut stream = TokenOutputStream::new(tiny_tokenizer());
    let units = stream.encode("hello").expect("in vocabulary");
    assert_eq!(stream.prime(&units), Ok(()));
    assert_eq!(stream.decode_all(), Ok("hello".to_string()));
}

#[test]
fn clear_starts_a_fresh_request() {
    let mut stream = TokenOutputStream::new(tiny_tokenizer());
    assert_eq!(stream.next_token(0), Ok(Some("hello".to_string())));
    stream.clear();
    assert_eq!(stream.decode_all(), Ok(String::new()));
    assert_eq!(stream.next_token(1), Ok(Some("world".to_string())));
}

#[test]
fn engine_steps_drive_decoder_and_stream() {
    // The engine step, the incremental decoder and a real tokenizer
    // together: two vocabulary units become two fragments, the
    // end-of-generation unit stops the run, and the stream closes with its
    // one end marker.
    let mut stream = TokenOutputStream::new(tiny_tokenizer());
    let id = pgpt::RequestId(11);
    let mut session = pgpt::engine::GenerationSession::new(id, 99);
    assert_eq!(session.advance(&mut stream, 0), Ok(false));
    assert_eq!(session.advance(&mut stream, 1), Ok(false));
    assert_eq!(session.advance(&mut stream, 99), Ok(true));
    let rest = stream.decode_rest().expect("decode works");
    assert_eq!(rest, None);
    session.finish(rest);
    let events = session.into_events();
    assert_eq!(events.len(), 3);
    assert!(matches!(
        &events[0],
        pgpt::driver::Token::Completion { prompt, token } if *prompt == id && token == "hello"
    ));
    assert!(matches!(
        &events[1],
        pgpt::driver::Token::Completion { prompt, token } if *prompt == id && token == " world"
    ));
    assert!(matches!(&events[2], pgpt::driver::Token::Eos { prompt } if *prompt == id));
}

#[test]
fn into_inner_returns_the_tokenizer() {
    let stream = TokenOutputStream::new(tiny_tokenizer());
    let tokenizer = stream.into_inner();
    assert_eq!(tokenizer.get_vocab(true).get("world"), Some(&1));
}
