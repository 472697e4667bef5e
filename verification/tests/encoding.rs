use bacnet_rs::encoding::advanced::bitstring::{decode_bit_string, encode_bit_string};
use bacnet_rs::encoding::advanced::context::{
    decode_context_tag, encode_closing_tag, encode_context_tag, encode_opening_tag,
};
use bacnet_rs::encoding::advanced::BufferManager;
use bacnet_rs::encoding::{
    decode_application_tag, decode_boolean, decode_character_string, decode_context_boolean,
    decode_context_object_id, decode_context_real, decode_context_unsigned, decode_date,
    decode_double, decode_enumerated, decode_object_identifier, decode_octet_string, decode_real,
    decode_signed, decode_signed64, decode_tag, decode_time, decode_unsigned, decode_unsigned64,
    encode_application_tag, encode_boolean, encode_character_string, encode_context_boolean,
    encode_context_object_id, encode_context_real, encode_context_unsigned, encode_date,
    encode_double, encode_enumerated, encode_object_identifier, encode_octet_string, encode_real,
    encode_signed, encode_signed64, encode_time, encode_unsigned, encode_unsigned64, is_closing_tag,
    is_context_tag, is_opening_tag, ApplicationTag, BACnetTag, DecodingStream, EncodingAnalyzer,
    EncodingCache, EncodingConfig, EncodingError, EncodingManager, EncodingStream, ErrorEncoder,
    PropertyArrayEncoder,
};
use bacnet_rs::number::{Double, Real};
use bacnet_rs::object::{ObjectIdentifier, ObjectType};

#[test]
fn test_encode_decode_boolean() {
    let mut buffer = Vec::new();

    // Test true
    encode_boolean(&mut buffer, true).unwrap();
    let (value, consumed) = decode_boolean(&buffer).unwrap();
    assert!(value);
    assert_eq!(consumed, 1);

    // Test false
    buffer.clear();
    encode_boolean(&mut buffer, false).unwrap();
    let (value, consumed) = decode_boolean(&buffer).unwrap();
    assert!(!value);
    assert_eq!(consumed, 1);
}

#[test]
fn test_encode_decode_unsigned() {
    let mut buffer = Vec::new();
    let test_values = [0, 255, 65535, 16777215, 4294967295];

    for &test_value in &test_values {
        buffer.clear();
        encode_unsigned(&mut buffer, test_value).unwrap();
        let (value, _) = decode_unsigned(&buffer).unwrap();
        assert_eq!(value, test_value);
    }
}

#[test]
fn test_encode_decode_signed() {
    let mut buffer = Vec::new();
    let test_values = [-128, -1, 0, 1, 127, -32768, 32767, -8388608, 8388607];

    for &test_value in &test_values {
        buffer.clear();
        encode_signed(&mut buffer, test_value).unwrap();
        let (value, _) = decode_signed(&buffer).unwrap();
        assert_eq!(value, test_value);
    }
}

#[test]
fn test_encode_decode_real() {
    let mut buffer = Vec::new();
    let test_values = [
        0.0,
        1.0,
        -1.0,
        std::f32::consts::PI,
        -273.15,
        f32::MAX,
        f32::MIN,
    ];

    for &test_value in &test_values {
        buffer.clear();
        encode_real(&mut buffer, Real::from_bits(test_value.to_bits())).unwrap();
        let (value, _) = decode_real(&buffer).unwrap();
        assert_eq!(f32::from_bits(value.to_bits()), test_value);
    }
}

#[test]
fn test_encode_decode_character_string() {
    let mut buffer = Vec::new();
    let test_strings = ["Hello", "BACnet", "Temperature Sensor", ""];

    for &test_string in &test_strings {
        buffer.clear();
        encode_character_string(&mut buffer, test_string).unwrap();
        let (value, _) = decode_character_string(&buffer).unwrap();
        assert_eq!(value, test_string);
    }
}

#[test]
fn test_encode_decode_octet_string() {
    let mut buffer = Vec::new();
    let test_data = vec![0x01, 0x02, 0x03, 0xFF, 0x00];

    encode_octet_string(&mut buffer, &test_data).unwrap();
    let (decoded, _) = decode_octet_string(&buffer).unwrap();
    assert_eq!(decoded, test_data);
}

#[test]
fn test_encode_decode_enumerated() {
    let mut buffer = Vec::new();
    let test_values = [0, 1, 255, 256, 65535, 65536, 16777215];

    for &test_value in &test_values {
        buffer.clear();
        encode_enumerated(&mut buffer, test_value);
        let (value, _) = decode_enumerated(&buffer).unwrap();
        assert_eq!(value, test_value);
    }
}

#[test]
fn test_encode_decode_date() {
    let mut buffer = Vec::new();

    encode_date(&mut buffer, 2024, 3, 15, 5).unwrap(); // Friday, March 15, 2024
    let ((year, month, day, weekday), _) = decode_date(&buffer).unwrap();
    assert_eq!(year, 2024);
    assert_eq!(month, 3);
    assert_eq!(day, 15);
    assert_eq!(weekday, 5);
}

#[test]
fn test_encode_decode_time() {
    let mut buffer = Vec::new();

    encode_time(&mut buffer, 14, 30, 45, 50).unwrap(); // 14:30:45.50
    let ((hour, minute, second, hundredths), _) = decode_time(&buffer).unwrap();
    assert_eq!(hour, 14);
    assert_eq!(minute, 30);
    assert_eq!(second, 45);
    assert_eq!(hundredths, 50);
}

#[test]
fn test_encode_decode_object_identifier() {
    let mut buffer = Vec::new();

    let object_id = ObjectIdentifier::new(ObjectType::AnalogValue, 12345);
    encode_object_identifier(&mut buffer, object_id).unwrap(); // Analog Value 12345
    let (object_id, _) = decode_object_identifier(&buffer).unwrap();
    assert_eq!(object_id.object_type, ObjectType::AnalogValue);
    assert_eq!(object_id.instance, 12345);
}

#[test]
fn test_encode_decode_double() {
    let mut buffer = Vec::new();
    let test_values = [
        0.0,
        1.0,
        -1.0,
        std::f64::consts::PI,
        -273.15,
        f64::MAX,
        f64::MIN,
    ];

    for &test_value in &test_values {
        buffer.clear();
        encode_double(&mut buffer, Double::from_bits(test_value.to_bits())).unwrap();
        let (value, _) = decode_double(&buffer).unwrap();
        assert_eq!(f64::from_bits(value.to_bits()), test_value);
    }
}

#[test]
fn test_buffer_manager() {
    let mut manager = BufferManager::new(1024);

    // Test getting and returning buffers
    let buffer1 = manager.get_encode_buffer();
    let buffer2 = manager.get_encode_buffer();

    assert_eq!(manager.stats.total_allocations, 2);
    assert_eq!(manager.stats.buffer_reuses, 0);

    manager.return_buffer(buffer1);
    let buffer3 = manager.get_encode_buffer();

    assert_eq!(manager.stats.total_allocations, 2);
    assert_eq!(manager.stats.buffer_reuses, 1);

    manager.return_buffer(buffer2);
    manager.return_buffer(buffer3);
}

#[test]
fn test_context_specific_encoding() {
    let mut buffer = Vec::new();

    // Test context-specific tag encoding
    encode_context_tag(&mut buffer, 5, 10).unwrap();
    let (tag_number, length, consumed) = decode_context_tag(&buffer).unwrap();

    assert_eq!(tag_number, 5);
    assert_eq!(length, 10);
    assert_eq!(consumed, 2);
}

#[test]
fn test_opening_closing_tags() {
    let mut buffer = Vec::new();

    // Test opening and closing tags
    encode_opening_tag(&mut buffer, 3).unwrap();
    encode_closing_tag(&mut buffer, 3).unwrap();

    assert_eq!(buffer, vec![0x3E, 0x3F]);
}

#[test]
fn test_bit_string_encoding() {
    let mut buffer = Vec::new();
    let bits = vec![true, false, true, true, false, false, true, false, true];

    encode_bit_string(&mut buffer, &bits).unwrap();
    let (decoded_bits, _) = decode_bit_string(&buffer).unwrap();

    assert_eq!(decoded_bits, bits);
}

#[test]
fn test_encode_decode_performance() {
    let mut buffer = Vec::new();
    let iterations = 1000;

    // Performance test for encoding/decoding
    for i in 0..iterations {
        buffer.clear();
        encode_unsigned(&mut buffer, i).unwrap();
        let (value, _) = decode_unsigned(&buffer).unwrap();
        assert_eq!(value, i);
    }
}

#[test]
fn test_encode_decode_i64() {
    let mut buffer = Vec::new();
    let test_values = [
        0,
        1,
        -1,
        -330,
        i32::MAX as i64,
        i32::MIN as i64,
        i32::MAX as i64 + 10,
        i32::MIN as i64 - 10,
        i64::MAX,
        i64::MIN,
        i64::MAX as i32 as i64,
        i64::MIN as i32 as i64,
    ];

    for &test_value in &test_values {
        buffer.clear();
        encode_signed64(&mut buffer, test_value);
        let (value, _) = decode_signed64(&buffer).unwrap();
        assert_eq!(value, test_value);
    }
}

#[test]
fn test_encode_decode_u64() {
    let mut buffer = Vec::new();
    let test_values = [
        0,
        1,
        255,
        330,
        u32::MAX as u64,
        u32::MIN as u64,
        u32::MAX as u64 + 10,
        u64::MAX,
        u64::MIN,
        u64::MAX as u32 as u64,
        u64::MIN as u32 as u64,
    ];

    for &test_value in &test_values {
        buffer.clear();
        encode_unsigned64(&mut buffer, test_value);
        let (value, _) = decode_unsigned64(&buffer).unwrap();
        assert_eq!(value, test_value);
    }
}

#[test]
fn test_decode_bacnet_tag() {
    let data = [0x21];
    let (tag, length, consumed) = decode_tag(&data).unwrap();
    assert_eq!(tag, BACnetTag::Application(ApplicationTag::UnsignedInt));
    assert_eq!(length, 1);
    assert_eq!(consumed, 1);

    // An opening tag reports itself as one, not as a context tag carrying six
    // octets of value.
    let data = [0x1E];
    let (tag, length, consumed) = decode_tag(&data).unwrap();
    assert_eq!(tag, BACnetTag::Opening(1));
    assert_eq!(length, 0);
    assert_eq!(consumed, 1);

    let data = [0x0C];
    let (tag, length, consumed) = decode_tag(&data).unwrap();
    assert_eq!(tag, BACnetTag::Context(0));
    assert_eq!(length, 4);
    assert_eq!(consumed, 1);

    let data = [0x35, 0x08];
    let (tag, length, consumed) = decode_tag(&data).unwrap();
    assert_eq!(tag, BACnetTag::Application(ApplicationTag::SignedInt));
    assert_eq!(length, 8);
    assert_eq!(consumed, 2);
}

// ---------------------------------------------------------------------------
// Octets on the wire
// ---------------------------------------------------------------------------

#[test]
fn integers_use_as_few_octets_as_they_need() {
    let mut buffer = Vec::new();
    encode_unsigned(&mut buffer, 72).unwrap();
    assert_eq!(buffer, vec![0x21, 72]);

    buffer.clear();
    encode_unsigned(&mut buffer, 0x0001_0000).unwrap();
    assert_eq!(buffer, vec![0x23, 1, 0, 0]);

    buffer.clear();
    encode_signed(&mut buffer, -129).unwrap();
    assert_eq!(buffer, vec![0x32, 0xff, 0x7f]);

    buffer.clear();
    encode_enumerated(&mut buffer, 300);
    assert_eq!(buffer, vec![0x92, 1, 44]);
}

#[test]
fn long_values_carry_their_length_behind_the_tag() {
    let mut buffer = Vec::new();
    encode_application_tag(&mut buffer, ApplicationTag::OctetString, 4);
    assert_eq!(buffer, vec![0x64]);

    buffer.clear();
    encode_application_tag(&mut buffer, ApplicationTag::OctetString, 200);
    assert_eq!(buffer, vec![0x65, 200]);
    assert!(matches!(
        decode_application_tag(&buffer),
        Ok((ApplicationTag::OctetString, 200, 2))
    ));

    buffer.clear();
    encode_application_tag(&mut buffer, ApplicationTag::OctetString, 300);
    assert_eq!(buffer, vec![0x65, 254, 1, 44]);

    buffer.clear();
    encode_application_tag(&mut buffer, ApplicationTag::OctetString, 70_000);
    assert_eq!(buffer, vec![0x65, 255, 0, 1, 0x11, 0x70]);
}

#[test]
fn a_value_is_read_back_whatever_follows_it() {
    let mut buffer = Vec::new();
    encode_real(&mut buffer, Real::from_bits(72.5f32.to_bits())).unwrap();
    let first = buffer.len();
    encode_character_string(&mut buffer, "zone").unwrap();
    let (value, consumed) = decode_real(&buffer).unwrap();
    assert_eq!(f32::from_bits(value.to_bits()), 72.5);
    assert_eq!(consumed, first);
    let (text, consumed) = decode_character_string(&buffer[first..]).unwrap();
    assert_eq!(text, "zone");
    assert_eq!(first + consumed, buffer.len());
}

#[test]
fn a_truncated_value_is_refused() {
    let mut buffer = Vec::new();
    encode_unsigned(&mut buffer, 70_000).unwrap();
    buffer.pop();
    assert!(decode_unsigned(&buffer).is_err());
    assert!(decode_tag(&[]).is_err());
    assert!(decode_real(&[0x44, 0, 0]).is_err());
}

#[test]
fn a_value_of_another_type_is_refused() {
    let mut buffer = Vec::new();
    encode_unsigned(&mut buffer, 5).unwrap();
    assert!(matches!(decode_signed(&buffer), Err(EncodingError::InvalidTag)));
    assert!(matches!(decode_boolean(&buffer), Err(EncodingError::InvalidTag)));
}

#[test]
fn text_that_is_not_utf8_is_refused() {
    // Encoding 0, then an octet that starts no character.
    let data = [0x72, 0x00, 0xff];
    assert!(matches!(
        decode_character_string(&data),
        Err(EncodingError::InvalidFormat(_))
    ));
    let mut buffer = Vec::new();
    encode_character_string(&mut buffer, "Zähler").unwrap();
    assert_eq!(decode_character_string(&buffer).unwrap().0, "Zähler");
}

#[test]
fn bit_strings_count_their_unused_bits() {
    let mut buffer = Vec::new();
    encode_bit_string(&mut buffer, &[true, false, true]).unwrap();
    assert_eq!(buffer, vec![0x82, 5, 0b1010_0000]);
    assert_eq!(decode_bit_string(&buffer).unwrap().1, 3);
}

#[test]
fn context_values_are_read_back_under_their_tag_only() {
    let data = encode_context_unsigned(70_000, 3).unwrap();
    assert_eq!(data, vec![0x3B, 1, 0x11, 0x70]);
    assert!(matches!(decode_context_unsigned(&data, 3), Ok((70_000, 4))));
    assert!(decode_context_unsigned(&data, 4).is_err());

    let mut buffer = Vec::new();
    encode_context_boolean(&mut buffer, 1, true).unwrap();
    assert!(matches!(decode_context_boolean(&buffer, 1), Ok((true, 2))));

    let mut buffer = Vec::new();
    encode_context_real(&mut buffer, 2, Real::from_bits(1.5f32.to_bits())).unwrap();
    let (value, consumed) = decode_context_real(&buffer, 2).unwrap();
    assert_eq!((value.to_bits(), consumed), (1.5f32.to_bits(), 5));

    let object = ObjectIdentifier::new(ObjectType::Device, 4_194_303);
    let data = encode_context_object_id(object, 0).unwrap();
    assert_eq!(data, vec![0x0C, 0x02, 0x3f, 0xff, 0xff]);
    let (found, consumed) = decode_context_object_id(&data, 0).unwrap();
    assert_eq!((found, consumed), (object, 5));
}

#[test]
fn tags_are_told_apart() {
    assert!(is_opening_tag(&[0x1E], 1));
    assert!(!is_opening_tag(&[0x1E], 2));
    assert!(is_closing_tag(&[0x2F], 2));
    assert!(is_context_tag(&[0x0C, 0, 0, 0, 0], 0));
    assert!(!is_context_tag(&[0x0E], 0));
}

// ---------------------------------------------------------------------------
// Streams, caches and statistics
// ---------------------------------------------------------------------------

#[test]
fn a_stream_reads_what_a_stream_wrote() {
    let mut stream = EncodingStream::new(64);
    stream.encode_tagged(ApplicationTag::UnsignedInt, 7u32).unwrap();
    stream.encode_tagged(ApplicationTag::Boolean, true).unwrap();
    stream.encode_tagged(ApplicationTag::SignedInt, -3i32).unwrap();
    let data = stream.into_buffer();

    let mut reader = DecodingStream::new(&data);
    assert_eq!(reader.decode_unsigned().unwrap(), 7);
    assert!(reader.decode_boolean().unwrap());
    let before = reader.position();
    assert!(reader.decode_unsigned().is_err());
    assert_eq!(reader.position(), before);
    reader.skip_value().unwrap();
    assert!(!reader.has_data());
    reader.set_position(0).unwrap();
    assert_eq!(reader.remaining(), data.len());
    assert!(reader.set_position(data.len() + 1).is_err());
}

#[test]
fn a_stream_keeps_within_its_limit() {
    let mut stream = EncodingStream::new(2);
    stream.encode_tagged(ApplicationTag::UnsignedInt, 7u32).unwrap();
    assert!(matches!(
        stream.encode_tagged(ApplicationTag::UnsignedInt, 8u32),
        Err(EncodingError::BufferOverflow)
    ));
}

#[test]
fn property_arrays_and_errors_are_framed() {
    let mut encoder = PropertyArrayEncoder::new();
    encoder.add_property(85, 1u32).unwrap();
    assert_eq!(encoder.count(), 1);
    assert!(!encoder.data().is_empty());
    encoder.clear();
    assert_eq!(encoder.count(), 0);

    let mut errors = ErrorEncoder::new();
    errors.encode_error(2, 32).unwrap();
    assert_eq!(errors.data(), &[0x09, 0x91, 2, 0x19, 0x91, 32]);
}

#[test]
fn the_cache_evicts_what_is_asked_for_least() {
    let mut cache = EncodingCache::new(2);
    cache.put(1, vec![1]);
    cache.put(2, vec![2]);
    assert_eq!(cache.get(2), Some(vec![2]));
    cache.put(3, vec![3]);
    assert_eq!(cache.get(2), Some(vec![2]));
    assert_eq!(cache.get(1), None);
    assert_eq!(cache.usage(), (cache.hits, cache.misses));
    cache.clear();
    assert_eq!(cache.get(2), None);
}

#[test]
fn the_analyzer_counts_errors_by_kind() {
    let mut analyzer = EncodingAnalyzer::new();
    analyzer.record_encoding("unsigned", 4, 10);
    analyzer.record_decoding("unsigned", 4, 5);
    analyzer.record_error(EncodingError::InvalidTag);
    analyzer.record_error(EncodingError::InvalidLength);
    analyzer.record_error(EncodingError::InvalidLength);
    let top = analyzer.get_top_errors(1);
    assert_eq!(top.len(), 1);
    assert!(matches!(top[0], (EncodingError::InvalidLength, 2)));
    let stats = analyzer.counted_so_far();
    assert_eq!(stats.total_encodings, 1);
    assert_eq!(stats.bytes_decoded, 4);
    analyzer.reset();
    assert_eq!(analyzer.counted_so_far().total_encodings, 0);
}

#[test]
fn the_manager_encodes_and_counts() {
    let mut manager = EncodingManager::new(EncodingConfig::default());
    let data = manager.encode(7u32, ApplicationTag::UnsignedInt).unwrap();
    assert_eq!(data, vec![0x21, 7]);
    let value = manager.decode(&data, decode_unsigned).unwrap();
    assert_eq!(value, 7);
    let stats = manager.get_stats().unwrap();
    assert_eq!(stats.total_encodings, 1);
    assert_eq!(stats.total_decodings, 1);
    manager.reset_stats();
    assert_eq!(manager.get_stats().unwrap().total_encodings, 0);
}

#[test]
fn large_buffers_are_not_kept() {
    let mut manager = BufferManager::new(8);
    manager.return_buffer(Vec::with_capacity(4096));
    let buffer = manager.get_encode_buffer();
    assert!(buffer.is_empty());
    assert_eq!(manager.stats.buffer_reuses, 0);
    manager.return_buffer(Vec::new());
    manager.get_encode_buffer();
    assert_eq!(manager.stats.buffer_reuses, 1);
}

#[test]
fn errors_describe_themselves() {
    assert_eq!(EncodingError::BufferOverflow.message(), "Buffer overflow during encoding");
    assert!(EncodingError::InvalidFormat("odd".to_string()).message().contains("odd"));
}

#[test]
fn a_stream_shows_the_next_tag_without_taking_it() {
    let mut stream = EncodingStream::new(64);
    stream.encode_tagged(ApplicationTag::Enumerated, 3u32).unwrap();
    stream.encode_context(2, 5u32).unwrap();
    assert_eq!(stream.data(), &[0x21, 3, 0x29, 5]);
    let data = stream.into_buffer();
    let reader = DecodingStream::new(&data);
    assert_eq!(reader.peek_tag().unwrap(), ApplicationTag::UnsignedInt);
    assert_eq!(reader.position(), 0);
    assert!(matches!(
        DecodingStream::new(&[]).peek_tag(),
        Err(EncodingError::UnexpectedEndOfData)
    ));
}

#[test]
fn tags_tell_their_context_number() {
    assert_eq!(BACnetTag::Context(4).context_number(), Some(4));
    assert_eq!(BACnetTag::Opening(5).context_number(), Some(5));
    assert_eq!(BACnetTag::Closing(6).context_number(), Some(6));
    assert_eq!(BACnetTag::Application(ApplicationTag::Null).context_number(), None);
}

#[test]
fn decoded_octets_are_counted() {
    let mut manager = BufferManager::new(64);
    manager.update_decode_stats(3);
    manager.update_decode_stats(4);
    assert_eq!(manager.stats.total_bytes_decoded, 7);
}

#[test]
fn time_is_added_where_performance_is_tracked() {
    let mut manager = EncodingManager::new(EncodingConfig::default());
    manager.encode(7u32, ApplicationTag::UnsignedInt).unwrap();
    manager.add_encode_time(12);
    manager.add_encode_time(u64::MAX);
    manager.add_decode_time(5);
    let stats = manager.get_stats().unwrap();
    assert_eq!(stats.encode_time_us, u64::MAX);
    assert_eq!(stats.decode_time_us, 5);
    assert_eq!(stats.total_encodings, 1);
}

#[test]
fn a_context_boolean_carries_its_value_in_an_octet() {
    let mut stream = EncodingStream::new(16);
    stream.encode_context(2, true).unwrap();
    assert_eq!(stream.data(), &[0x29, 0x01]);
    stream.clear();
    stream.encode_context(2, false).unwrap();
    assert_eq!(stream.data(), &[0x29, 0x00]);
    assert_eq!(decode_context_boolean(stream.data(), 2).unwrap(), (false, 2));
}

#[test]
fn skipping_a_boolean_takes_its_tag_alone() {
    let mut reader = DecodingStream::new(&[0x11, 0x21, 0x2A, 0x10, 0x21, 7]);
    reader.skip_value().unwrap();
    assert_eq!(reader.position(), 1);
    assert_eq!(reader.decode_unsigned().unwrap(), 42);
    reader.skip_value().unwrap();
    assert_eq!(reader.position(), 4);
    reader.skip_value().unwrap();
    assert!(!reader.has_data());
}

#[test]
fn a_manager_tells_whether_it_has_room_to_count() {
    let mut manager = EncodingManager::new(EncodingConfig::default());
    assert!(manager.has_room_to_encode(usize::MAX));
    manager.encode(7u32, ApplicationTag::UnsignedInt).unwrap();
    assert!(!manager.has_room_to_encode(usize::MAX));
    assert!(manager.has_room_to_encode(usize::MAX - 2));
    assert!(manager.has_room_to_decode(usize::MAX));
    manager.decode(&[0x21, 7], decode_unsigned).unwrap();
    assert!(!manager.has_room_to_decode(usize::MAX));
    assert!(manager.has_room_for_error(&EncodingError::InvalidTag));
}
