//! The protobuf message that carries the receiver information record, and
//! its wire encoding.
//!
//! Every field is a proto3 `string`; field `k` of the record (in the order
//! declared below) has tag `k`. A field left empty is not written.
use vstd::prelude::*;
use vstd::utf8::{decode_utf8, encode_utf8, encode_utf8_decode_utf8};

verus! {

/// Largest field tag that protobuf allows.
pub const MAX_TAG: u32 = 0x1fff_ffff;

/// The receiver information record as a protobuf message.
#[derive(Debug, Default)]
pub struct Information {
    pub command: String,
    pub serial_number: String,
    pub extended_data_1: String,
    pub extended_data_2: String,
    pub extended_data_3: String,
    pub subscription_expire_date: String,
    pub configuration_code: String,
    pub firmware_version_number: String,
}

/// The base-128 varint encoding of `v`: seven bits per byte, least
/// significant first, the high bit set on every byte but the last.
pub open spec fn varint(v: nat) -> Seq<u8>
    decreases v,
{
    if v < 128 {
        seq![v as u8]
    } else {
        seq![(v % 128 + 128) as u8] + varint(v / 128)
    }
}

/// A length-delimited field: the key (tag and wire type 2) as a varint,
/// the length of the UTF-8 bytes of `value` as a varint, then those bytes.
pub open spec fn string_field(tag: u32, value: Seq<char>) -> Seq<u8> {
    varint((tag * 8 + 2) as nat) + varint(encode_utf8(value).len()) + encode_utf8(value)
}

/// A proto3 string field as written: nothing when the string is empty.
pub open spec fn optional_string_field(tag: u32, value: Seq<char>) -> Seq<u8> {
    if value.len() == 0 {
        Seq::empty()
    } else {
        string_field(tag, value)
    }
}

/// The wire encoding of a whole message: its non-empty fields in tag order.
pub open spec fn information_encoding(m: Information) -> Seq<u8> {
    optional_string_field(1, m.command@) + optional_string_field(2, m.serial_number@)
        + optional_string_field(3, m.extended_data_1@) + optional_string_field(
        4,
        m.extended_data_2@,
    ) + optional_string_field(5, m.extended_data_3@) + optional_string_field(
        6,
        m.subscription_expire_date@,
    ) + optional_string_field(7, m.configuration_code@) + optional_string_field(
        8,
        m.firmware_version_number@,
    )
}

/// prost's `encoding::string::encode`: appends to `buf` the key of field
/// `tag` with wire type 2 as a varint, the byte length of `value` as a
/// varint, and the UTF-8 bytes of `value`.
#[verifier::external_body]
fn encode_string(tag: u32, value: &String, buf: &mut Vec<u8>)
    requires
        1 <= tag <= MAX_TAG,
    ensures
        final(buf)@ == old(buf)@ + string_field(tag, value@),
{
    prost::encoding::string::encode(tag, value, buf)
}

/// prost's `encoding::string::encoded_len`: the number of bytes that
/// `encoding::string::encode` appends for the same field.
#[verifier::external_body]
fn encoded_string_len(tag: u32, value: &String) -> (r: usize)
    requires
        1 <= tag <= MAX_TAG,
    ensures
        r == string_field(tag, value@).len(),
{
    prost::encoding::string::encoded_len(tag, value)
}

/// Appends field `tag` unless `value` is empty.
fn encode_optional_string(tag: u32, value: &String, buf: &mut Vec<u8>)
    requires
        1 <= tag <= MAX_TAG,
    ensures
        final(buf)@ == old(buf)@ + optional_string_field(tag, value@),
{
    if !value.as_str().is_empty() {
        encode_string(tag, value, buf);
    } else {
        assert(old(buf)@ + optional_string_field(tag, value@) =~= old(buf)@);
    }
}

/// The size of field `tag` as written: 0 when `value` is empty.
fn optional_string_len(tag: u32, value: &String) -> (r: usize)
    requires
        1 <= tag <= MAX_TAG,
    ensures
        r == optional_string_field(tag, value@).len(),
{
    if !value.as_str().is_empty() {
        encoded_string_len(tag, value)
    } else {
        0
    }
}

/// `acc` plus `n`, or `usize::MAX` where that does not fit.
fn add_capped(acc: usize, n: usize) -> (r: usize)
    ensures
        r == if acc + n <= usize::MAX { acc + n } else { usize::MAX as int },
{
    acc.saturating_add(n)
}

impl Information {
    /// The size of the message's wire encoding, or `usize::MAX` where it
    /// would not fit.
    pub fn encoded_len(&self) -> (r: usize)
        ensures
            r == if information_encoding(*self).len() <= usize::MAX {
                information_encoding(*self).len() as int
            } else {
                usize::MAX as int
            },
    {
        let n1 = optional_string_len(1, &self.command);
        let n2 = optional_string_len(2, &self.serial_number);
        let n3 = optional_string_len(3, &self.extended_data_1);
        let n4 = optional_string_len(4, &self.extended_data_2);
        let n5 = optional_string_len(5, &self.extended_data_3);
        let n6 = optional_string_len(6, &self.subscription_expire_date);
        let n7 = optional_string_len(7, &self.configuration_code);
        let n8 = optional_string_len(8, &self.firmware_version_number);
        let mut acc = add_capped(n1, n2);
        acc = add_capped(acc, n3);
        acc = add_capped(acc, n4);
        acc = add_capped(acc, n5);
        acc = add_capped(acc, n6);
        acc = add_capped(acc, n7);
        acc = add_capped(acc, n8);
        acc
    }

    /// Appends the message's wire encoding to `buf`.
    pub fn encode(&self, buf: &mut Vec<u8>)
        ensures
            final(buf)@ == old(buf)@ + information_encoding(*self),
    {
        encode_optional_string(1, &self.command, buf);
        encode_optional_string(2, &self.serial_number, buf);
        encode_optional_string(3, &self.extended_data_1, buf);
        encode_optional_string(4, &self.extended_data_2, buf);
        encode_optional_string(5, &self.extended_data_3, buf);
        encode_optional_string(6, &self.subscription_expire_date, buf);
        encode_optional_string(7, &self.configuration_code, buf);
        encode_optional_string(8, &self.firmware_version_number, buf);
        assert(buf@ =~= old(buf)@ + information_encoding(*self));
    }
}


/// Reads a base-128 varint from the start of `s`: its value and the number
/// of bytes it takes, or `None` where `s` ends inside it.
pub open spec fn decode_varint(s: Seq<u8>) -> Option<(nat, nat)>
    decreases s.len(),
{
    if s.len() == 0 {
        None
    } else if s[0] < 128 {
        Some((s[0] as nat, 1nat))
    } else {
        match decode_varint(s.drop_first()) {
            Some((v, n)) => Some((((s[0] - 128) + 128 * v) as nat, n + 1)),
            None => None,
        }
    }
}

/// Reads a message made of length-delimited fields: for each field tag, the
/// bytes of the last field with that tag. `None` where a key or a length
/// runs past the end, or a field has another wire type.
pub open spec fn decode_string_fields(s: Seq<u8>) -> Option<Map<nat, Seq<u8>>>
    decreases s.len(),
{
    if s.len() == 0 {
        Some(Map::empty())
    } else {
        match decode_varint(s) {
            None => None,
            Some((key, n1)) => {
                if key % 8 != 2 || n1 > s.len() || n1 == 0 {
                    None
                } else {
                    let r1 = s.subrange(n1 as int, s.len() as int);
                    match decode_varint(r1) {
                        None => None,
                        Some((len, n2)) => {
                            if n2 + len > r1.len() {
                                None
                            } else {
                                let value = r1.subrange(n2 as int, (n2 + len) as int);
                                let tail = r1.subrange((n2 + len) as int, r1.len() as int);
                                match decode_string_fields(tail) {
                                    None => None,
                                    Some(later) => if later.contains_key(key / 8) {
                                        Some(later)
                                    } else {
                                        Some(later.insert(key / 8, value))
                                    },
                                }
                            }
                        },
                    }
                }
            },
        }
    }
}

/// The text of field `tag` of a decoded message; the empty string for a
/// field that is absent.
pub open spec fn decoded_text(fields: Map<nat, Seq<u8>>, tag: nat) -> Seq<char> {
    if fields.contains_key(tag) {
        decode_utf8(fields[tag])
    } else {
        Seq::empty()
    }
}

/// A varint reads back as the value it encodes, whatever follows it.
proof fn lemma_varint_round_trip(v: nat, rest: Seq<u8>)
    ensures
        decode_varint(varint(v) + rest) == Some((v, varint(v).len())),
        varint(v).len() >= 1,
    decreases v,
{
    let s = varint(v) + rest;
    if v < 128 {
        assert(s[0] == v as u8);
    } else {
        lemma_varint_round_trip(v / 128, rest);
        assert(s.drop_first() =~= varint(v / 128) + rest);
        assert(s[0] == (v % 128 + 128) as u8);
    }
}

/// A string field read back in front of the rest of a message.
#[verifier::rlimit(40)]
proof fn lemma_string_field_round_trip(tag: u32, value: Seq<char>, rest: Seq<u8>, later: Map<nat, Seq<u8>>)
    requires
        1 <= tag <= MAX_TAG,
        decode_string_fields(rest) == Some(later),
    ensures
        decode_string_fields(string_field(tag, value) + rest) == Some(
            if later.contains_key(tag as nat) {
                later
            } else {
                later.insert(tag as nat, encode_utf8(value))
            },
        ),
{
    let bytes = encode_utf8(value);
    let key = (tag * 8 + 2) as nat;
    let s = string_field(tag, value) + rest;
    let after_key = varint(bytes.len()) + (bytes + rest);
    assert(s =~= varint(key) + after_key);
    lemma_varint_round_trip(key, after_key);
    let n1 = varint(key).len();
    assert(decode_varint(s) == Some((key, n1)));
    let r1 = s.subrange(n1 as int, s.len() as int);
    assert(r1 =~= after_key);
    lemma_varint_round_trip(bytes.len(), bytes + rest);
    let n2 = varint(bytes.len()).len();
    assert(decode_varint(r1) == Some((bytes.len(), n2)));
    assert(r1.subrange(n2 as int, (n2 + bytes.len()) as int) =~= bytes);
    assert(r1.subrange((n2 + bytes.len()) as int, r1.len() as int) =~= rest);
    assert(key % 8 == 2 && key / 8 == tag);
    assert(s.len() > 0);
}

/// Right-nested encoding of consecutive string fields from tag `first`.
spec fn fields_encoding(fields: Seq<Seq<char>>, first: nat) -> Seq<u8>
    decreases fields.len(),
{
    if fields.len() == 0 {
        Seq::empty()
    } else {
        optional_string_field(first as u32, fields[0]) + fields_encoding(fields.drop_first(), first + 1)
    }
}

/// Consecutive fields read back each under its own tag.
proof fn lemma_fields_round_trip(fields: Seq<Seq<char>>, first: nat)
    requires
        1 <= first,
        first + fields.len() <= MAX_TAG + 1,
    ensures
        decode_string_fields(fields_encoding(fields, first)) matches Some(d) && (forall|t: nat|
            #[trigger] d.contains_key(t) ==> first <= t < first + fields.len()) && (forall|t: nat|
            first <= t < first + fields.len() ==> #[trigger] decoded_text(d, t) == fields[t - first]),
    decreases fields.len(),
{
    broadcast use encode_utf8_decode_utf8;

    if fields.len() == 0 {
        assert(decode_string_fields(fields_encoding(fields, first)) == Some(
            Map::<nat, Seq<u8>>::empty(),
        ));
    } else {
        let rest = fields.drop_first();
        lemma_fields_round_trip(rest, first + 1);
        let later = decode_string_fields(fields_encoding(rest, first + 1)).unwrap();
        let head = fields[0];
        let enc = fields_encoding(fields, first);
        assert(!later.contains_key(first));
        if head.len() == 0 {
            assert(enc =~= fields_encoding(rest, first + 1));
            assert(decoded_text(later, first) =~= head);
            assert forall|t: nat| first <= t < first + fields.len() implies #[trigger] decoded_text(
                later,
                t,
            ) == fields[t - first] by {
                if t > first {
                    assert(rest[t - (first + 1)] == fields[t - first]);
                }
            }
        } else {
            lemma_string_field_round_trip(
                first as u32,
                head,
                fields_encoding(rest, first + 1),
                later,
            );
            let d = later.insert(first, encode_utf8(head));
            assert(decode_string_fields(enc) == Some(d));
            assert forall|t: nat| first <= t < first + fields.len() implies #[trigger] decoded_text(
                d,
                t,
            ) == fields[t - first] by {
                if t > first {
                    assert(decoded_text(later, t) == rest[t - (first + 1)]);
                    assert(rest[t - (first + 1)] == fields[t - first]);
                }
            }
        }
    }
}

/// Concatenation regroups.
proof fn lemma_concat_assoc(a: Seq<u8>, b: Seq<u8>, c: Seq<u8>)
    ensures
        (a + b) + c == a + (b + c),
{
    assert((a + b) + c =~= a + (b + c));
}

/// The fields of a record, in declaration order.
spec fn information_fields(m: Information) -> Seq<Seq<char>> {
    seq![
        m.command@,
        m.serial_number@,
        m.extended_data_1@,
        m.extended_data_2@,
        m.extended_data_3@,
        m.subscription_expire_date@,
        m.configuration_code@,
        m.firmware_version_number@,
    ]
}

/// The encoding of a record is the encoding of its fields from tag 1.
#[verifier::rlimit(40)]
proof fn lemma_information_encoding_as_fields(m: Information)
    ensures
        information_encoding(m) == fields_encoding(information_fields(m), 1),
{
    let f = information_fields(m);
    let e1 = optional_string_field(1, f[0]);
    let e2 = optional_string_field(2, f[1]);
    let e3 = optional_string_field(3, f[2]);
    let e4 = optional_string_field(4, f[3]);
    let e5 = optional_string_field(5, f[4]);
    let e6 = optional_string_field(6, f[5]);
    let e7 = optional_string_field(7, f[6]);
    let e8 = optional_string_field(8, f[7]);
    let t9 = fields_encoding(f.subrange(8, 8), 9);
    assert(t9 == Seq::<u8>::empty());
    assert(f.subrange(7, 8).drop_first() =~= f.subrange(8, 8));
    assert(f.subrange(7, 8)[0] == f[7]);
    let t8 = fields_encoding(f.subrange(7, 8), 8);
    assert(f.subrange(6, 8).drop_first() =~= f.subrange(7, 8));
    assert(f.subrange(6, 8)[0] == f[6]);
    let t7 = fields_encoding(f.subrange(6, 8), 7);
    assert(f.subrange(5, 8).drop_first() =~= f.subrange(6, 8));
    assert(f.subrange(5, 8)[0] == f[5]);
    let t6 = fields_encoding(f.subrange(5, 8), 6);
    assert(f.subrange(4, 8).drop_first() =~= f.subrange(5, 8));
    assert(f.subrange(4, 8)[0] == f[4]);
    let t5 = fields_encoding(f.subrange(4, 8), 5);
    assert(f.subrange(3, 8).drop_first() =~= f.subrange(4, 8));
    assert(f.subrange(3, 8)[0] == f[3]);
    let t4 = fields_encoding(f.subrange(3, 8), 4);
    assert(f.subrange(2, 8).drop_first() =~= f.subrange(3, 8));
    assert(f.subrange(2, 8)[0] == f[2]);
    let t3 = fields_encoding(f.subrange(2, 8), 3);
    assert(f.subrange(1, 8).drop_first() =~= f.subrange(2, 8));
    assert(f.subrange(1, 8)[0] == f[1]);
    let t2 = fields_encoding(f.subrange(1, 8), 2);
    assert(f.subrange(0, 8).drop_first() =~= f.subrange(1, 8));
    assert(f.subrange(0, 8)[0] == f[0]);
    let t1 = fields_encoding(f.subrange(0, 8), 1);
    assert(t8 =~= e8);
    assert(t7 == e7 + t8);
    assert(t6 == e6 + t7);
    assert(t5 == e5 + t6);
    assert(t4 == e4 + t5);
    assert(t3 == e3 + t4);
    assert(t2 == e2 + t3);
    assert(t1 == e1 + t2);
    lemma_concat_assoc(e1 + e2 + e3 + e4 + e5 + e6, e7, e8);
    lemma_concat_assoc(e1 + e2 + e3 + e4 + e5, e6, t7);
    lemma_concat_assoc(e1 + e2 + e3 + e4, e5, t6);
    lemma_concat_assoc(e1 + e2 + e3, e4, t5);
    lemma_concat_assoc(e1 + e2, e3, t4);
    lemma_concat_assoc(e1, e2, t3);
    assert(f.subrange(0, 8) =~= f);
}

/// Decoding what `serialize` writes gives back the record: field `k` of the
/// record, in declaration order, is found under tag `k` with the record's
/// text, and an empty field reads back as the empty string; no other tag
/// appears.
pub proof fn lemma_information_round_trip(m: Information)
    ensures
        decode_string_fields(information_encoding(m)) matches Some(d) && (forall|t: nat|
            #[trigger] d.contains_key(t) ==> 1 <= t <= 8) && decoded_text(d, 1) == m.command@
            && decoded_text(d, 2) == m.serial_number@ && decoded_text(d, 3) == m.extended_data_1@
            && decoded_text(d, 4) == m.extended_data_2@ && decoded_text(d, 5) == m.extended_data_3@
            && decoded_text(d, 6) == m.subscription_expire_date@ && decoded_text(d, 7)
            == m.configuration_code@ && decoded_text(d, 8) == m.firmware_version_number@,
{
    let fields = information_fields(m);
    lemma_information_encoding_as_fields(m);
    lemma_fields_round_trip(fields, 1);
    let d = decode_string_fields(fields_encoding(fields, 1)).unwrap();
    assert(decoded_text(d, 1) == fields[0]);
    assert(decoded_text(d, 2) == fields[1]);
    assert(decoded_text(d, 3) == fields[2]);
    assert(decoded_text(d, 4) == fields[3]);
    assert(decoded_text(d, 5) == fields[4]);
    assert(decoded_text(d, 6) == fields[5]);
    assert(decoded_text(d, 7) == fields[6]);
    assert(decoded_text(d, 8) == fields[7]);
}

} // verus!
