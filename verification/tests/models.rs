use gnss_reader::items::Information;
use gnss_reader::models::{create_info, serialize, InformationStruct};

fn info_with(text: &str) -> InformationStruct {
    InformationStruct {
        command: String::from(text),
        serial_number: String::from(text),
        extended_data_1: String::from(text),
        extended_data_2: String::from(text),
        extended_data_3: String::from(text),
        subscription_expire_date: String::from(text),
        configuration_code: String::from(text),
        firmware_version_number: String::from(text),
    }
}

#[test]
fn create_shirt() {
    let info = InformationStruct {
        command: String::from("test"),
        serial_number: String::from("test"),
        extended_data_1: String::from("test"),
        extended_data_2: String::from("test"),
        extended_data_3: String::from("test"),
        subscription_expire_date: String::from("test"),
        configuration_code: String::from("test"),
        firmware_version_number: String::from("test"),
    };

    let infos = create_info(info);
    println!("info is {:?}", &infos);
    assert_eq!(infos.command, "test");
}

#[test]
fn create_info_copies_every_field() {
    let info = InformationStruct {
        command: String::from("$JI"),
        serial_number: String::from("123456"),
        extended_data_1: String::from("a"),
        extended_data_2: String::from("b"),
        extended_data_3: String::from("c"),
        subscription_expire_date: String::from("2030-01-01"),
        configuration_code: String::from("cfg"),
        firmware_version_number: String::from("1.2.3"),
    };
    let m = create_info(info);
    assert_eq!(m.command, "$JI");
    assert_eq!(m.serial_number, "123456");
    assert_eq!(m.extended_data_1, "a");
    assert_eq!(m.extended_data_2, "b");
    assert_eq!(m.extended_data_3, "c");
    assert_eq!(m.subscription_expire_date, "2030-01-01");
    assert_eq!(m.configuration_code, "cfg");
    assert_eq!(m.firmware_version_number, "1.2.3");
}

#[test]
fn serialize_writes_every_field_in_tag_order() {
    let m = create_info(info_with("test"));
    let bytes = serialize(&m);
    let mut expected = Vec::new();
    for tag in 1u8..=8 {
        expected.push(tag * 8 + 2);
        expected.push(4);
        expected.extend_from_slice(b"test");
    }
    assert_eq!(bytes, expected);
    assert_eq!(m.encoded_len(), expected.len());
}

#[test]
fn serialize_of_empty_message_is_empty() {
    let m = create_info(info_with(""));
    assert_eq!(serialize(&m), Vec::<u8>::new());
    assert_eq!(m.encoded_len(), 0);
    assert_eq!(serialize(&Information::default()), Vec::<u8>::new());
}

#[test]
fn serialize_skips_empty_fields() {
    let mut info = info_with("");
    info.serial_number = String::from("SN");
    info.firmware_version_number = String::from("v9");
    let bytes = serialize(&create_info(info));
    assert_eq!(bytes, vec![0x12, 2, b'S', b'N', 0x42, 2, b'v', b'9']);
}

#[test]
fn serialize_long_field_has_two_byte_length() {
    let mut info = info_with("");
    info.command = "x".repeat(200);
    let m = create_info(info);
    let bytes = serialize(&m);
    assert_eq!(bytes.len(), 1 + 2 + 200);
    assert_eq!(&bytes[..3], &[0x0a, 0xc8, 0x01]);
    assert!(bytes[3..].iter().all(|&b| b == b'x'));
    assert_eq!(m.encoded_len(), 203);
}

#[test]
fn serialize_encodes_text_as_utf8() {
    let mut info = info_with("");
    info.command = String::from("é");
    let bytes = serialize(&create_info(info));
    assert_eq!(bytes, vec![0x0a, 2, 0xc3, 0xa9]);
}
