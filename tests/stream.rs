use transformrs::chat::decode_chunks;
use transformrs::chat::ChatCompletionChunk;
use transformrs::stream::StreamDecoder;
use transformrs::Json;

fn s(x: &str) -> Json {
    Json::Str(x.to_string())
}

fn obj(pairs: Vec<(&str, Json)>) -> Json {
    Json::Object(pairs.into_iter().map(|(k, v)| (k.to_string(), v)).collect())
}

fn chunk_json(id: &str, content: &str) -> Json {
    obj(vec![
        ("id", s(id)),
        ("object", s("chat.completion.chunk")),
        ("created", Json::Number("1700000000".to_string())),
        ("model", s("m")),
        (
            "choices",
            Json::Array(vec![obj(vec![
                ("index", Json::Number("0".to_string())),
                ("delta", obj(vec![("role", s("assistant")), ("content", s(content))])),
                ("finish_reason", Json::Null),
            ])]),
        ),
    ])
}

const PAYLOAD: &str = "data: {\"a\":1}\n\ndata: {\"b\":\"h\u{e9}llo\"}\n\ndata: [DONE]\n\n";

fn feed_in_pieces(text: &str, cuts: &[usize]) -> Vec<String> {
    let mut decoder = StreamDecoder::new();
    let mut out = Vec::new();
    let mut start = 0;
    for &cut in cuts {
        out.extend(decoder.feed_text(&text[start..cut]));
        start = cut;
    }
    out.extend(decoder.feed_text(&text[start..]));
    out.extend(decoder.on_end());
    out
}

#[test]
fn whole_payload_gives_records_in_order() {
    let records = feed_in_pieces(PAYLOAD, &[]);
    assert_eq!(records, vec!["{\"a\":1}".to_string(), "{\"b\":\"h\u{e9}llo\"}".to_string()]);
}

#[test]
fn every_single_cut_gives_the_same_records() {
    let whole = feed_in_pieces(PAYLOAD, &[]);
    for cut in 0..=PAYLOAD.len() {
        if PAYLOAD.is_char_boundary(cut) {
            assert_eq!(feed_in_pieces(PAYLOAD, &[cut]), whole, "cut at {}", cut);
        }
    }
}

#[test]
fn one_character_fragments_give_the_same_records() {
    let whole = feed_in_pieces(PAYLOAD, &[]);
    let cuts: Vec<usize> = PAYLOAD.char_indices().map(|(i, _)| i).skip(1).collect();
    assert_eq!(feed_in_pieces(PAYLOAD, &cuts), whole);
}

#[test]
fn cut_inside_the_prefix_is_carried_over() {
    let mut decoder = StreamDecoder::new();
    assert!(decoder.feed_text("da").is_empty());
    assert_eq!(decoder.pending(), "da");
    assert_eq!(decoder.feed_text("ta: {}\n"), vec!["{}".to_string()]);
    assert_eq!(decoder.pending(), "");
}

#[test]
fn bytes_fragments_with_whole_characters() {
    let bytes = PAYLOAD.as_bytes();
    let mut decoder = StreamDecoder::new();
    let mut out = Vec::new();
    out.extend(decoder.on_bytes(&bytes[..7]));
    out.extend(decoder.on_bytes(&bytes[7..20]));
    out.extend(decoder.on_bytes(&bytes[20..]));
    out.extend(decoder.on_end());
    assert_eq!(out, feed_in_pieces(PAYLOAD, &[]));
}

#[test]
fn bytes_cut_inside_a_character_are_replaced() {
    let text = "data: \u{e9}\n";
    let bytes = text.as_bytes();
    let mut decoder = StreamDecoder::new();
    let mut out = decoder.on_bytes(&bytes[..7]);
    out.extend(decoder.on_bytes(&bytes[7..]));
    assert_eq!(out, vec!["\u{fffd}\u{fffd}".to_string()]);
}

#[test]
fn end_with_nothing_pending_gives_nothing() {
    let mut decoder = StreamDecoder::new();
    assert!(decoder.on_end().is_empty());
    decoder.feed_text("data: {}\n");
    assert!(decoder.on_end().is_empty());
    assert!(decoder.on_end().is_empty());
}

#[test]
fn end_flushes_an_unterminated_line() {
    let mut decoder = StreamDecoder::new();
    assert!(decoder.feed_text("data: {\"x\":2}").is_empty());
    assert_eq!(decoder.on_end(), vec!["{\"x\":2}".to_string()]);
}

#[test]
fn lines_without_prefix_and_empty_lines_are_ignored() {
    let mut decoder = StreamDecoder::new();
    let out = decoder.feed_text(": keep-alive\n\nevent: x\ndata:{}\ndata: {}\n");
    assert_eq!(out, vec!["{}".to_string()]);
}

#[test]
fn done_marker_ends_the_stream() {
    let mut decoder = StreamDecoder::new();
    let out = decoder.feed_text("data: {}\ndata: [DONE]\ndata: {\"late\":1}\n");
    assert_eq!(out, vec!["{}".to_string()]);
    assert!(decoder.is_done());
    assert!(decoder.feed_text("data: {}\n").is_empty());
    assert!(decoder.on_end().is_empty());
}

#[test]
fn malformed_record_between_two_good_ones_is_dropped() {
    let parsed = vec![Some(chunk_json("a", "Hel")), None, Some(chunk_json("b", "lo"))];
    let chunks = decode_chunks(parsed);
    assert_eq!(chunks.len(), 2);
    assert_eq!(chunks[0].id.as_deref(), Some("a"));
    assert_eq!(chunks[1].id.as_deref(), Some("b"));
    assert_eq!(chunks[0].choices[0].delta.content.as_deref(), Some("Hel"));
    assert_eq!(chunks[1].choices[0].delta.content.as_deref(), Some("lo"));
}

#[test]
fn record_of_the_wrong_shape_is_dropped() {
    let wrong = obj(vec![("object", Json::Number("3".to_string()))]);
    let chunks = decode_chunks(vec![Some(wrong), Some(chunk_json("c", "x"))]);
    assert_eq!(chunks.len(), 1);
    assert_eq!(chunks[0].id.as_deref(), Some("c"));
}

#[test]
fn chunk_fields_are_read() {
    let chunk = ChatCompletionChunk::from_json(&chunk_json("id-1", "hi")).unwrap();
    assert_eq!(chunk.object, "chat.completion.chunk");
    assert_eq!(chunk.created, 1700000000);
    assert_eq!(chunk.model, "m");
    assert_eq!(chunk.system_fingerprint, None);
    assert_eq!(chunk.choices[0].index, 0);
    assert_eq!(chunk.choices[0].delta.role.as_deref(), Some("assistant"));
    assert_eq!(chunk.choices[0].finish_reason, None);
}

#[test]
fn chunk_with_oversized_number_is_rejected() {
    let mut j = chunk_json("id-2", "x");
    if let Json::Object(fields) = &mut j {
        fields[2].1 = Json::Number("18446744073709551616".to_string());
    }
    assert!(ChatCompletionChunk::from_json(&j).is_none());
}
