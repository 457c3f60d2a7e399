use pocket_relay_client_shared::servers::telemetry::{
    decode_line, decode_telemetry_event, message_length, tlm3, xor_cipher, TLM3_KEY,
};

/// Ensures that data put through the cipher matches the expected
/// result that was passed in as input
#[test]
fn test_xor_cipher() {
    // Data that should be decodable
    let test_data =
        "123456789:;<=>?@ABCDEFGHIJKLMNOPQRSTUVWXYZ[\\]^_`abcdefghijklmnopqrstuvwxyz{|}~";

    let enc_data = xor_cipher(test_data.as_bytes(), &TLM3_KEY);
    let dec_data = xor_cipher(&enc_data, &TLM3_KEY);

    assert_eq!(&dec_data, test_data.as_bytes());
}

/// Tests that the cipher is capable of decoding some known data
/// sent by the game
#[test]
fn test_known_data() {
    let enc_data = &[
        100, 88, 85, 144, 68, 64, 49, 50, 71, 141, 82, 67, 144, 82, 81, 83, 91, 146, 91, 65, 98,
        60, 59, 45, 67, 54, 107, 135, 59, 74, 111, 56, 60, 50, 91, 30, 76, 135, 148, 29, 43, 47,
        55, 77, 84, 133, 128, 71, 78, 189, 55, 56, 73, 30, 100, 88, 85, 144, 70, 54, 51, 91, 69,
        27, 89, 67, 144, 82, 81, 83, 89, 147, 70, 33, 110, 63, 58, 86, 46, 41, 111, 142, 71, 33,
        99, 59, 60, 90, 22, 141, 82, 27, 78, 141, 80, 80, 87, 93, 22, 90, 95, 22, 75, 68, 95, 138,
        22, 90, 53, 85, 84, 145, 82, 134, 134, 128, 137, 29, 90, 85, 83, 135, 146, 144, 86, 80,
        138, 25, 68, 25, 128, 54, 47, 51, 94, 144, 104,
    ];
    let expected = "000002DF/-;00000022/BOOT/SESS/OLNG/vlng=INT&tlng=INT,000002DF/-;00000023/ONLN/BLAZ/DCON/berr=-2146631680&fsta=11&tsta=3&sess=pcwdjtOCVpD\0";
    let dec_data = xor_cipher(enc_data, &TLM3_KEY);

    assert_eq!(&dec_data, expected.as_bytes());
}

/// Tests that an entire TLM3 example can be correctly decoded
#[test]
fn test_tlm3_line() {
    let enc_data = &mut [
        64, 56, 97, 45, 100, 88, 85, 144, 68, 64, 49, 50, 71, 141, 82, 67, 144, 82, 81, 83, 91,
        146, 91, 65, 98, 60, 59, 45, 67, 54, 107, 135, 59, 74, 111, 56, 60, 50, 91, 30, 76, 135,
        148, 29, 43, 47, 55, 77, 84, 133, 128, 71, 78, 189, 55, 56, 73, 30, 100, 88, 85, 144, 70,
        54, 51, 91, 69, 27, 89, 67, 144, 82, 81, 83, 89, 147, 70, 33, 110, 63, 58, 86, 46, 41, 111,
        142, 71, 33, 99, 59, 60, 90, 22, 141, 82, 27, 78, 141, 80, 80, 87, 93, 22, 90, 95, 22, 75,
        68, 95, 138, 22, 90, 53, 85, 84, 145, 82, 134, 134, 128, 137, 29, 90, 85, 83, 135, 146,
        144, 86, 80, 138, 25, 68, 25, 128, 54, 47, 51, 94, 144, 104,
    ];
    let expected = "000002DF/-;00000022/BOOT/SESS/OLNG/vlng=INT&tlng=INT,000002DF/-;00000023/ONLN/BLAZ/DCON/berr=-2146631680&fsta=11&tsta=3&sess=pcwdjtOCVpD\0";
    let dec_data = tlm3(enc_data);
    assert_eq!(dec_data.as_bytes(), expected.as_bytes());
}

#[test]
fn cipher_keeps_seven_bits() {
    assert_eq!(xor_cipher(&[0x80, 0xFF], &[0x01, 0x80]), [0x01, 0x7F]);
    assert_eq!(xor_cipher(&[1, 2, 3], &[1]), [0, 3, 2]);
    assert!(xor_cipher(&[1, 2, 3], &[]).is_empty());
    assert!(xor_cipher(&[], &[1]).is_empty());
}

#[test]
fn tlm3_without_dash_is_listed() {
    assert_eq!(tlm3(&[1, 20, 255]), "[1, 20, 255]");
    assert_eq!(tlm3(&[]), "[]");
    // Nothing is behind the dash
    assert_eq!(tlm3(&[7, 0x2D]), "");
}

#[test]
fn message_length_leaves_out_the_header() {
    let mut header = [0xFF; 12];
    header[10] = 0x01;
    header[11] = 0x0E;
    assert_eq!(message_length(&header), 0x0102);
    header[10] = 0;
    header[11] = 12;
    assert_eq!(message_length(&header), 0);
}

#[test]
fn telemetry_lines_are_decoded() {
    let event = decode_telemetry_event(b"AUTH=ab=c\nignored\nB=\n=x\nTLM3=0-\x34\x1F\n\nC=\xFF");
    let expected = [
        ("AUTH", "[97, 98, 61, 99]"),
        ("B", "[]"),
        ("", "[120]"),
        ("TLM3", "`w"),
        ("C", "[255]"),
    ];
    assert_eq!(event.values.len(), expected.len());
    for ((key, value), (expected_key, expected_value)) in event.values.iter().zip(expected) {
        assert_eq!(key, expected_key);
        assert_eq!(value, expected_value);
    }
    assert!(decode_telemetry_event(b"").values.is_empty());
}

#[test]
fn keys_that_are_not_utf8_are_replaced() {
    let (key, value) = decode_line(b"A\xFFB=1").expect("line");
    assert_eq!(key, "A\u{FFFD}B");
    assert_eq!(value, "[49]");
    let (key, _) = decode_line("\u{E9}=1".as_bytes()).expect("line");
    assert_eq!(key, "\u{E9}");
    assert!(decode_line(b"no value").is_none());
}

#[test]
fn bytes_are_listed_as_debug_does() {
    let bytes: Vec<u8> = (0..=255).collect();
    let mut line = b"K=".to_vec();
    line.extend(bytes.iter().filter(|byte| **byte != 10));
    let listed: Vec<u8> = bytes.into_iter().filter(|byte| *byte != 10).collect();
    let (_, value) = decode_line(&line).expect("line");
    assert_eq!(value, format!("{:?}", listed));
}

#[test]
fn enciphered_tlm3_is_deciphered() {
    let text = "BOOT/SESS=1-2";
    let mut value = b"12-".to_vec();
    value.extend(xor_cipher(text.as_bytes(), &TLM3_KEY));
    assert_eq!(tlm3(&value), text);
}
