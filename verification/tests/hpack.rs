use httpbis::hpack::decoder::{decode_integer, decode_string, Decoder, DecoderError};
use httpbis::hpack::dynamic_table::DynamicTable;
use httpbis::hpack::encoder::{bytes_eq, Encoder};
use httpbis::hpack::huffman::{code, huffman_decode, END_OF_STRING};
use httpbis::hpack::integer::encode_integer;
use httpbis::hpack::static_table::static_entry;
use httpbis::solicit::header::Headers;

fn pairs(headers: &Headers) -> Vec<(Vec<u8>, Vec<u8>)> {
    headers
        .headers
        .iter()
        .map(|h| (h.name().to_vec(), h.value().to_vec()))
        .collect()
}

#[test]
fn encode_integer_small_value_fits_prefix() {
    assert_eq!(vec![10], encode_integer(10, 31, 0));
    assert_eq!(vec![0x80 | 2], encode_integer(2, 127, 0x80));
}

#[test]
fn encode_integer_large_value_continues() {
    // 1337 with a 5-bit prefix: 31, then 1306 in groups of seven bits.
    assert_eq!(vec![31, 154, 10], encode_integer(1337, 31, 0));
    // A value equal to the prefix limit takes one empty continuation byte.
    assert_eq!(vec![127, 0], encode_integer(127, 127, 0));
    assert_eq!(vec![0x40 | 63, 1], encode_integer(64, 63, 0x40));
}

#[test]
fn decode_integer_reads_back_and_reports_position() {
    assert_eq!(Ok((1337, 3)), decode_integer(&[31, 154, 10, 99], 0, 31));
    assert_eq!(Ok((10, 2)), decode_integer(&[0, 10], 1, 15));
    assert_eq!(Ok((127, 2)), decode_integer(&[0xff, 0], 0, 127));
}

#[test]
fn decode_integer_errors() {
    assert_eq!(Err(DecoderError::NotEnoughOctets), decode_integer(&[], 0, 127));
    assert_eq!(Err(DecoderError::NotEnoughOctets), decode_integer(&[127, 0x80], 0, 127));
    let too_long = [127, 0xff, 0xff, 0xff, 0xff, 0xff, 0xff, 0xff, 0xff, 0xff, 0xff, 1];
    assert_eq!(Err(DecoderError::IntegerOverflow), decode_integer(&too_long, 0, 127));
    // The largest 64-bit number is still read.
    let max = encode_integer(u64::MAX as usize, 127, 0);
    assert_eq!(Ok((u64::MAX, max.len())), decode_integer(&max, 0, 127));
}

#[test]
fn decode_string_reads_raw_and_coded_strings() {
    assert_eq!(Ok((b"abc".to_vec(), 4)), decode_string(&[3, b'a', b'b', b'c'], 0));
    assert_eq!(Err(DecoderError::NotEnoughOctets), decode_string(&[3, b'a'], 0));
    assert_eq!(Err(DecoderError::NotEnoughOctets), decode_string(&[], 0));
    // "302" in Huffman coding, behind one byte that is passed over.
    assert_eq!(Ok((b"302".to_vec(), 4)), decode_string(&[9, 0x82, 0x64, 0x02, 7], 1));
    assert_eq!(Err(DecoderError::InvalidHuffmanCode), decode_string(&[0x81, 0], 0));
    assert_eq!(Err(DecoderError::NotEnoughOctets), decode_string(&[0x82, 0x64], 0));
    // The empty string, coded.
    assert_eq!(Ok((Vec::new(), 1)), decode_string(&[0x80], 0));
}

#[test]
fn static_table_entries() {
    assert_eq!((":authority", ""), static_entry(1));
    assert_eq!((":method", "GET"), static_entry(2));
    assert_eq!((":status", "200"), static_entry(8));
    assert_eq!(("accept-encoding", "gzip, deflate"), static_entry(16));
    assert_eq!(("www-authenticate", ""), static_entry(61));
}

#[test]
fn encoder_uses_index_for_known_field() {
    let mut encoder = Encoder::new();
    let mut headers = Headers::new();
    headers.add(":method", "GET");
    headers.add(":scheme", "http");
    headers.add(":path", "/");
    assert_eq!(vec![0x82, 0x86, 0x84], encoder.encode(&headers));
}

#[test]
fn encoder_writes_value_for_known_name() {
    let mut encoder = Encoder::new();
    let mut headers = Headers::new();
    headers.add(":authority", "www.example.com");
    let mut expected = vec![0x01, 0x0f];
    expected.extend_from_slice(b"www.example.com");
    assert_eq!(expected, encoder.encode(&headers));
    // A name match is not indexed: the second time gives the same bytes.
    assert_eq!(expected, encoder.encode(&headers));
}

#[test]
fn encoder_indexes_new_field() {
    let mut encoder = Encoder::new();
    let mut headers = Headers::new();
    headers.add("custom-key", "custom-value");
    let mut expected = vec![0x40, 0x0a];
    expected.extend_from_slice(b"custom-key");
    expected.push(0x0c);
    expected.extend_from_slice(b"custom-value");
    assert_eq!(expected, encoder.encode(&headers));
    // Now the field stands in the dynamic table at index 62.
    assert_eq!(vec![0x80 | 62], encoder.encode(&headers));
    assert_eq!(Some((61, true)), encoder.find_header(b"custom-key", b"custom-value"));
    assert_eq!(Some((61, false)), encoder.find_header(b"custom-key", b"other"));
    assert_eq!(None, encoder.find_header(b"unknown", b""));
}

#[test]
fn hpack_round_trip_preserves_order_of_same_name_values() {
    let mut headers = Headers::new();
    headers.add(":status", "200");
    headers.add("set-cookie", "a=1");
    headers.add("set-cookie", "b=2");
    headers.add("x-thing", "one");
    headers.add("set-cookie", "a=1");
    headers.add("x-thing", "one");
    headers.add("x-thing", "two");
    let mut encoder = Encoder::new();
    let mut decoder = Decoder::new();
    let block = encoder.encode(&headers);
    let decoded = decoder.decode(&block).unwrap();
    assert_eq!(pairs(&headers), pairs(&decoded));
    // The tables stay in step: a second block decodes too.
    let block = encoder.encode(&headers);
    let decoded = decoder.decode(&block).unwrap();
    assert_eq!(pairs(&headers), pairs(&decoded));
}

#[test]
fn hpack_round_trip_with_eviction() {
    let mut encoder = Encoder::new();
    let mut decoder = Decoder::new();
    for round in 0..5 {
        let mut headers = Headers::new();
        for i in 0..200 {
            headers.add(&format!("name-{}-{}", round, i), &format!("value-{}", i));
        }
        let block = encoder.encode(&headers);
        let decoded = decoder.decode(&block).unwrap();
        assert_eq!(pairs(&headers), pairs(&decoded));
    }
}

#[test]
fn decoder_reads_literal_without_indexing_and_never_indexed() {
    let mut decoder = Decoder::new();
    let mut block = vec![0x00, 0x01, b'a', 0x01, b'b'];
    block.extend_from_slice(&[0x10, 0x01, b'c', 0x01, b'd']);
    let decoded = decoder.decode(&block).unwrap();
    assert_eq!(
        vec![(b"a".to_vec(), b"b".to_vec()), (b"c".to_vec(), b"d".to_vec())],
        pairs(&decoded)
    );
    // Neither was added to the dynamic table.
    assert_eq!(Err(DecoderError::HeaderIndexOutOfBounds), decoder.decode(&[0x80 | 62]).map(|_| ()));
}

#[test]
fn decoder_errors() {
    let mut decoder = Decoder::new();
    assert_eq!(Err(DecoderError::HeaderIndexOutOfBounds), decoder.decode(&[0x80]).map(|_| ()));
    assert_eq!(Err(DecoderError::HeaderIndexOutOfBounds), decoder.decode(&[0x80 | 62]).map(|_| ()));
    assert_eq!(Err(DecoderError::NotEnoughOctets), decoder.decode(&[0x40, 0x05, b'a']).map(|_| ()));
    assert_eq!(Err(DecoderError::InvalidHuffmanCode), decoder.decode(&[0x40, 0x81, 0]).map(|_| ()));
    // A table size update over the allowed limit of 4096.
    assert_eq!(
        Err(DecoderError::InvalidMaxDynamicSize),
        decoder.decode(&[0x3f, 0xe2, 0x1f]).map(|_| ())
    );
    assert_eq!(
        Err(DecoderError::IntegerOverflow),
        decoder
            .decode(&[0xff, 0xff, 0xff, 0xff, 0xff, 0xff, 0xff, 0xff, 0xff, 0xff, 0xff, 0x01])
            .map(|_| ())
    );
}

#[test]
fn decoder_table_size_update_evicts() {
    let mut decoder = Decoder::new();
    let mut block = vec![0x40, 0x01, b'a', 0x01, b'b'];
    block.push(0x80 | 62);
    assert_eq!(2, decoder.decode(&block).unwrap().len());
    // Shrinking the table to nothing drops the entry.
    assert_eq!(0, decoder.decode(&[0x20]).unwrap().len());
    assert_eq!(Err(DecoderError::HeaderIndexOutOfBounds), decoder.decode(&[0x80 | 62]).map(|_| ()));
}

#[test]
fn dynamic_table_evicts_oldest_first() {
    let mut table = DynamicTable::with_size(100);
    table.add_header(b"a".to_vec(), b"1".to_vec());
    table.add_header(b"b".to_vec(), b"2".to_vec());
    assert_eq!(68, table.get_size());
    assert_eq!(2, table.len());
    table.add_header(b"c".to_vec(), b"3".to_vec());
    // 34 * 3 > 100: the oldest entry left.
    assert_eq!(2, table.len());
    assert_eq!(b"c", table.get(0).name());
    assert_eq!(b"b", table.get(1).name());
    // An entry larger than the table empties it.
    table.add_header(vec![0; 100], vec![]);
    assert_eq!(0, table.len());
    assert_eq!(0, table.get_size());
    assert_eq!(100, table.get_max_table_size());
    table.add_header(b"d".to_vec(), b"4".to_vec());
    table.set_max_table_size(10);
    assert_eq!(0, table.len());
}

#[test]
fn bytes_eq_compares_contents() {
    assert!(bytes_eq(b"abc", b"abc"));
    assert!(!bytes_eq(b"abc", b"abd"));
    assert!(!bytes_eq(b"abc", b"ab"));
    assert!(bytes_eq(b"", b""));
}

fn unhex(text: &str) -> Vec<u8> {
    let digits: Vec<u8> = text.bytes().filter(|b| !b.is_ascii_whitespace()).collect();
    digits
        .chunks(2)
        .map(|pair| u8::from_str_radix(std::str::from_utf8(pair).unwrap(), 16).unwrap())
        .collect()
}

/// The coding of a string, made from the codes of its bytes.
fn huffman_coded(text: &[u8]) -> Vec<u8> {
    let mut bits: Vec<bool> = Vec::new();
    for &b in text {
        let (c, len) = code(b as usize);
        for i in (0..len).rev() {
            bits.push((c >> i) & 1 == 1);
        }
    }
    while bits.len() % 8 != 0 {
        bits.push(true);
    }
    bits.chunks(8).map(|byte| byte.iter().fold(0u8, |acc, &bit| acc * 2 + bit as u8)).collect()
}

#[test]
fn huffman_codes_of_common_bytes() {
    assert_eq!((0x0, 5), code(b'0' as usize));
    assert_eq!((0x3, 5), code(b'a' as usize));
    assert_eq!((0x14, 6), code(b' ' as usize));
    assert_eq!((0x5c, 7), code(b':' as usize));
    assert_eq!((0xf8, 8), code(b'&' as usize));
    assert_eq!((0x1ff8, 13), code(0));
    assert_eq!((0x3ffffee, 26), code(255));
    assert_eq!((0x3fffffff, 30), code(END_OF_STRING));
}

#[test]
fn huffman_decode_reads_known_codings() {
    let known: [(&[u8], &str); 9] = [
        (b"www.example.com", "f1e3 c2e5 f23a 6ba0 ab90 f4ff"),
        (b"no-cache", "a8eb 1064 9cbf"),
        (b"custom-key", "25a8 49e9 5ba9 7d7f"),
        (b"custom-value", "25a8 49e9 5bb8 e8b4 bf"),
        (b"302", "6402"),
        (b"private", "aec3 771a 4b"),
        (b"Mon, 21 Oct 2013 20:13:21 GMT", "d07a be94 1054 d444 a820 0595 040b 8166 e082 a62d 1bff"),
        (b"https://www.example.com", "9d29 ad17 1863 c78f 0b97 c8e9 ae82 ae43 d3"),
        (b"", ""),
    ];
    for (text, coded) in known {
        assert_eq!(Some(text.to_vec()), huffman_decode(&unhex(coded)));
        assert_eq!(unhex(coded), huffman_coded(text));
    }
}

#[test]
fn huffman_decode_reads_every_byte() {
    let all: Vec<u8> = (0..=255u8).collect();
    assert_eq!(Some(all.clone()), huffman_decode(&huffman_coded(&all)));
    for b in 0..=255u8 {
        assert_eq!(Some(vec![b, b]), huffman_decode(&huffman_coded(&[b, b])));
    }
}

#[test]
fn huffman_decode_refuses_what_is_no_coding() {
    // The code of "0" with set bits behind it, and with clear bits.
    assert_eq!(Some(b"0".to_vec()), huffman_decode(&[0x07]));
    assert_eq!(None, huffman_decode(&[0x00]));
    assert_eq!(None, huffman_decode(&[0x06]));
    // A whole byte of filling.
    assert_eq!(None, huffman_decode(&[0xff]));
    assert_eq!(None, huffman_decode(&[0x07, 0xff]));
    // The end mark.
    assert_eq!(None, huffman_decode(&[0xff, 0xff, 0xff, 0xff]));
    assert_eq!(None, huffman_decode(&[0x07, 0xff, 0xff, 0xff, 0xff]));
    // A code that is cut off.
    assert_eq!(None, huffman_decode(&[0xfe]));
}

#[test]
fn decoder_reads_coded_requests() {
    let mut decoder = Decoder::new();
    let first = decoder.decode(&unhex("8286 8441 8cf1 e3c2 e5f2 3a6b a0ab 90f4 ff")).unwrap();
    assert_eq!(
        vec![
            (b":method".to_vec(), b"GET".to_vec()),
            (b":scheme".to_vec(), b"http".to_vec()),
            (b":path".to_vec(), b"/".to_vec()),
            (b":authority".to_vec(), b"www.example.com".to_vec()),
        ],
        pairs(&first)
    );
    let second = decoder.decode(&unhex("8286 84be 5886 a8eb 1064 9cbf")).unwrap();
    assert_eq!(
        vec![
            (b":method".to_vec(), b"GET".to_vec()),
            (b":scheme".to_vec(), b"http".to_vec()),
            (b":path".to_vec(), b"/".to_vec()),
            (b":authority".to_vec(), b"www.example.com".to_vec()),
            (b"cache-control".to_vec(), b"no-cache".to_vec()),
        ],
        pairs(&second)
    );
    let third = decoder
        .decode(&unhex("8287 85bf 4088 25a8 49e9 5ba9 7d7f 8925 a849 e95b b8e8 b4bf"))
        .unwrap();
    assert_eq!(
        vec![
            (b":method".to_vec(), b"GET".to_vec()),
            (b":scheme".to_vec(), b"https".to_vec()),
            (b":path".to_vec(), b"/index.html".to_vec()),
            (b":authority".to_vec(), b"www.example.com".to_vec()),
            (b"custom-key".to_vec(), b"custom-value".to_vec()),
        ],
        pairs(&third)
    );
}

#[test]
fn decoder_reads_coded_response() {
    let mut decoder = Decoder::new();
    let block = unhex(
        "4882 6402 5885 aec3 771a 4b61 96d0 7abe 9410 54d4 44a8 2005 9504 0b81 66e0 82a6 2d1b \
         ff6e 919d 29ad 1718 63c7 8f0b 97c8 e9ae 82ae 43d3",
    );
    let headers = decoder.decode(&block).unwrap();
    assert_eq!(
        vec![
            (b":status".to_vec(), b"302".to_vec()),
            (b"cache-control".to_vec(), b"private".to_vec()),
            (b"date".to_vec(), b"Mon, 21 Oct 2013 20:13:21 GMT".to_vec()),
            (b"location".to_vec(), b"https://www.example.com".to_vec()),
        ],
        pairs(&headers)
    );
    // The fields were added to the dynamic table: the newest has index 62.
    let again = decoder.decode(&[0x80 | 62, 0x80 | 65]).unwrap();
    assert_eq!(
        vec![
            (b"location".to_vec(), b"https://www.example.com".to_vec()),
            (b":status".to_vec(), b"302".to_vec()),
        ],
        pairs(&again)
    );
}

fn one_header(name: &str, value: &str) -> Headers {
    let mut headers = Headers::new();
    headers.add(name, value);
    headers
}

#[test]
fn encoder_tells_the_decoder_of_a_new_limit() {
    let mut encoder = Encoder::new();
    let mut decoder = Decoder::new();
    let first = encoder.encode(&one_header("x-first", "one"));
    assert_eq!(0x40, first[0]);
    decoder.decode(&first).unwrap();

    // A smaller limit: the block begins with the change, and the old entry is gone.
    encoder.set_max_table_size(40);
    let second = encoder.encode(&one_header("x-first", "one"));
    assert_eq!(vec![0x20 | 31, 9], second[..2].to_vec());
    assert_eq!(0x40, second[2]);
    assert_eq!(
        vec![(b"x-first".to_vec(), b"one".to_vec())],
        pairs(&decoder.decode(&second).unwrap())
    );

    // The limit went down to nothing and up again between two blocks: both are told.
    encoder.set_max_table_size(0);
    encoder.set_max_table_size(100);
    let third = encoder.encode(&one_header("x-first", "one"));
    assert_eq!(vec![0x20, 0x20 | 31, 69, 0x40], third[..4].to_vec());
    assert_eq!(
        vec![(b"x-first".to_vec(), b"one".to_vec())],
        pairs(&decoder.decode(&third).unwrap())
    );

    // Nothing changed since: the field is written as its index, with nothing before it.
    let fourth = encoder.encode(&one_header("x-first", "one"));
    assert_eq!(vec![0x80 | 62], fourth);
    assert_eq!(
        vec![(b"x-first".to_vec(), b"one".to_vec())],
        pairs(&decoder.decode(&fourth).unwrap())
    );

    // The limit that the decoder knows is no change.
    encoder.set_max_table_size(100);
    assert_eq!(vec![0x80 | 62], encoder.encode(&one_header("x-first", "one")));
}

#[test]
fn decoder_allows_the_limit_that_was_set() {
    let mut decoder = Decoder::new();
    // 8192 is over the limit of 4096 that a decoder starts with.
    let update = [0x20 | 31, 0xe1, 0x3f];
    assert_eq!(Err(DecoderError::InvalidMaxDynamicSize), decoder.decode(&update).map(|_| ()));
    decoder.set_max_allowed_table_size(8192);
    assert_eq!(Ok(()), decoder.decode(&update).map(|_| ()));
    assert_eq!(
        Err(DecoderError::InvalidMaxDynamicSize),
        decoder.decode(&[0x20 | 31, 0xe2, 0x3f]).map(|_| ())
    );
}
