//! The NMEA GGA sentence and receiver information records, and the
//! protobuf encoding of the information record.
use crate::items::{information_encoding, Information};
use vstd::prelude::*;

verus! {

/// The fields of an NMEA GGA (fix data) sentence, as text.
pub struct Gga {
    pub command: String,
    pub utc: String,
    pub latitude: String,
    pub ns_indicator: String,
    pub longitude: String,
    pub en_indicator: String,
    pub pfi: String,
    pub su: String,
    pub hdop: String,
    pub msl_altitude: String,
    pub units1: String,
    pub geod: String,
    pub units2: String,
    pub checksum: String,
}

/// The receiver information record, as text.
pub struct InformationStruct {
    pub command: String,
    pub serial_number: String,
    pub extended_data_1: String,
    pub extended_data_2: String,
    pub extended_data_3: String,
    pub subscription_expire_date: String,
    pub configuration_code: String,
    pub firmware_version_number: String,
}

/// The protobuf message that carries the record `info`, field for field.
pub fn create_info(info: InformationStruct) -> (r: Information)
    ensures
        r.command@ == info.command@,
        r.serial_number@ == info.serial_number@,
        r.extended_data_1@ == info.extended_data_1@,
        r.extended_data_2@ == info.extended_data_2@,
        r.extended_data_3@ == info.extended_data_3@,
        r.subscription_expire_date@ == info.subscription_expire_date@,
        r.configuration_code@ == info.configuration_code@,
        r.firmware_version_number@ == info.firmware_version_number@,
{
    Information {
        command: info.command,
        serial_number: info.serial_number,
        extended_data_1: info.extended_data_1,
        extended_data_2: info.extended_data_2,
        extended_data_3: info.extended_data_3,
        subscription_expire_date: info.subscription_expire_date,
        configuration_code: info.configuration_code,
        firmware_version_number: info.firmware_version_number,
    }
}

/// The protobuf wire encoding of `shirt`.
pub fn serialize(shirt: &Information) -> (r: Vec<u8>)
    ensures
        r@ == information_encoding(*shirt),
{
    let mut buf: Vec<u8> = Vec::new();
    buf.reserve(shirt.encoded_len());
    shirt.encode(&mut buf);
    buf
}

} // verus!
