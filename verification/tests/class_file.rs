use asgard_jbc::pool::{decode_constant_pool, decode_pool};
use asgard_jbc::{
    decode, decode_attribute, decode_payload, encode, pool_is_valid, resolve, resolve_class_name,
    resolve_utf8, try_encode,
    AttributeInfo, ClassAccessFlags, ClassFile, ConstantPoolInfo, Cursor, Decode, Encode, Error,
    FieldAccessFlags, FieldInfo, MethodAccessFlags, MethodInfo, MethodParameter,
    MethodParameterAccessFlags, MethodParametersAttribute, TypedAttribute,
};

fn utf8(text: &str) -> Vec<u8> {
    let mut bytes = vec![1, 0, text.len() as u8];
    bytes.extend_from_slice(text.as_bytes());
    bytes
}

/// A class `Foo` with a long constant, one field and one method.
fn sample_bytes() -> Vec<u8> {
    let mut b: Vec<u8> = vec![0xCA, 0xFE, 0xBA, 0xBE, 0x00, 0x03, 0x00, 0x34];
    b.extend_from_slice(&[0x00, 0x0A]);
    b.extend_from_slice(&utf8("Foo"));
    b.extend_from_slice(&[7, 0, 1]);
    b.extend_from_slice(&[5, 0x01, 0x02, 0x03, 0x04, 0x05, 0x06, 0x07, 0x08]);
    b.extend_from_slice(&utf8("x"));
    b.extend_from_slice(&utf8("I"));
    b.extend_from_slice(&utf8("Code"));
    b.extend_from_slice(&[3, 0xFF, 0xFF, 0xFF, 0xFE]);
    b.extend_from_slice(&[6, 0x40, 0x09, 0x21, 0xFB, 0x54, 0x44, 0x2D, 0x18]);
    b.extend_from_slice(&[0x00, 0x21]);
    b.extend_from_slice(&[0x00, 0x02, 0x00, 0x00]);
    b.extend_from_slice(&[0x00, 0x01, 0x00, 0x02]);
    b.extend_from_slice(&[0x00, 0x01, 0x00, 0x12, 0x00, 0x05, 0x00, 0x06, 0x00, 0x00]);
    b.extend_from_slice(&[0x00, 0x01, 0x01, 0x01, 0x00, 0x05, 0x00, 0x06, 0x00, 0x01]);
    b.extend_from_slice(&[0x00, 0x07, 0x00, 0x00, 0x00, 0x03, 0xAA, 0xBB, 0xCC]);
    b.extend_from_slice(&[0x00, 0x00]);
    b
}

fn sample_class() -> ClassFile {
    ClassFile {
        minor_version: 3,
        major_version: 52,
        constant_pool: vec![
            ConstantPoolInfo::Utf8("Foo".to_string()),
            ConstantPoolInfo::Class { name_index: 1 },
            ConstantPoolInfo::Long(0x0102030405060708),
            ConstantPoolInfo::Reserved,
            ConstantPoolInfo::Utf8("x".to_string()),
            ConstantPoolInfo::Utf8("I".to_string()),
            ConstantPoolInfo::Utf8("Code".to_string()),
            ConstantPoolInfo::Integer(-2),
            ConstantPoolInfo::Double(std::f64::consts::PI.to_bits()),
        ],
        access_flags: ClassAccessFlags { bits: 0x0021 },
        this_class: 2,
        super_class: 0,
        interfaces: vec![2],
        fields: vec![FieldInfo {
            access_flags: FieldAccessFlags { bits: 0x0012 },
            name_index: 5,
            descriptor_index: 6,
            attributes: vec![],
        }],
        methods: vec![MethodInfo {
            access_flags: MethodAccessFlags { bits: 0x0101 },
            name_index: 5,
            descriptor_index: 6,
            attributes: vec![AttributeInfo { attribute_name_index: 7, info: vec![0xAA, 0xBB, 0xCC] }],
        }],
        attributes: vec![],
    }
}

fn empty_class_bytes(pool_count: u16, pool: &[u8]) -> Vec<u8> {
    let mut b: Vec<u8> = vec![0xCA, 0xFE, 0xBA, 0xBE, 0, 0, 0, 52];
    b.extend_from_slice(&pool_count.to_be_bytes());
    b.extend_from_slice(pool);
    b.extend_from_slice(&[0, 0, 0, 0, 0, 0, 0, 0, 0, 0, 0, 0, 0, 0]);
    b
}

#[test]
fn decodes_the_sample() {
    assert_eq!(decode(&sample_bytes()), Ok(sample_class()));
}

#[test]
fn encoding_reproduces_the_input() {
    let bytes = sample_bytes();
    let class = decode(&bytes).unwrap();
    assert_eq!(encode(&class), bytes);
}

#[test]
fn slot_behind_a_wide_entry_is_reserved() {
    let class = decode(&sample_bytes()).unwrap();
    assert_eq!(class.constant_pool.len(), 9);
    assert_eq!(class.constant_pool[2], ConstantPoolInfo::Long(0x0102030405060708));
    assert_eq!(class.constant_pool[3], ConstantPoolInfo::Reserved);
    assert_eq!(resolve(&class.constant_pool, 4), Err(Error::IndexOutOfRange { index: 4 }));
    assert_eq!(resolve_utf8(&class.constant_pool, 5), Ok("x"));
}

#[test]
fn wide_entry_in_the_last_slot_has_no_slot_behind_it() {
    let class = decode(&sample_bytes()).unwrap();
    assert_eq!(
        class.constant_pool[8],
        ConstantPoolInfo::Double(0x400921FB54442D18)
    );
    assert_eq!(f64::from_bits(0x400921FB54442D18), std::f64::consts::PI);
    assert_eq!(resolve(&class.constant_pool, 9), Ok(&class.constant_pool[8]));
    assert_eq!(resolve(&class.constant_pool, 10), Err(Error::IndexOutOfRange { index: 10 }));
}

#[test]
fn pool_count_of_one_is_an_empty_pool() {
    let class = decode(&empty_class_bytes(1, &[])).unwrap();
    assert!(class.constant_pool.is_empty());
    assert_eq!(class.major_version, 52);
}

#[test]
fn pool_count_of_zero_wraps_to_the_largest_pool() {
    assert_eq!(decode(&empty_class_bytes(0, &[])), Err(Error::UnknownConstantTag { tag: 0, position: 10 }));
}

#[test]
fn tag_zero_is_fatal() {
    assert_eq!(
        decode(&empty_class_bytes(2, &[0, 0, 0])),
        Err(Error::UnknownConstantTag { tag: 0, position: 10 })
    );
}

#[test]
fn tag_twenty_one_is_fatal() {
    let mut pool = utf8("a");
    pool.extend_from_slice(&[21, 0, 0]);
    assert_eq!(
        decode(&empty_class_bytes(3, &pool)),
        Err(Error::UnknownConstantTag { tag: 21, position: 14 })
    );
}

#[test]
fn reserved_gaps_in_the_tag_range_are_fatal() {
    for tag in [2u8, 13, 14] {
        assert_eq!(
            decode(&empty_class_bytes(2, &[tag, 0, 0])),
            Err(Error::UnknownConstantTag { tag, position: 10 })
        );
    }
}

#[test]
fn removing_the_last_byte_truncates() {
    let mut bytes = sample_bytes();
    bytes.pop();
    assert!(matches!(decode(&bytes), Err(Error::Truncated { .. })));
}

#[test]
fn every_proper_prefix_is_truncated() {
    let bytes = sample_bytes();
    for m in 0..bytes.len() {
        assert!(matches!(decode(&bytes[..m]), Err(Error::Truncated { .. })), "prefix {}", m);
    }
}

#[test]
fn truncation_reports_where_the_failed_read_began() {
    assert_eq!(decode(&[0xCA, 0xFE, 0xBA]), Err(Error::Truncated { position: 0, needed: 4 }));
    assert_eq!(
        decode(&[0xCA, 0xFE, 0xBA, 0xBE, 0, 0, 0]),
        Err(Error::Truncated { position: 6, needed: 2 })
    );
}

#[test]
fn wrong_magic_number() {
    let mut bytes = sample_bytes();
    bytes[3] = 0xBF;
    assert_eq!(decode(&bytes), Err(Error::BadMagic { found: 0xCAFEBABF }));
}

#[test]
fn invalid_utf8_is_fatal() {
    assert_eq!(
        decode(&empty_class_bytes(2, &[1, 0, 2, 0xC3, 0x28])),
        Err(Error::InvalidUtf8 { position: 10 })
    );
}

#[test]
fn unknown_flag_bits_are_kept() {
    let mut bytes = empty_class_bytes(1, &[]);
    bytes[10] = 0x0F;
    bytes[11] = 0xFF;
    let class = decode(&bytes).unwrap();
    assert_eq!(class.access_flags.bits(), 0x0FFF);
    assert_eq!(class.access_flags.unknown_bits(), 0x0DCE);
    assert!(class.access_flags.contains(ClassAccessFlags::PUBLIC | ClassAccessFlags::SUPER));
    assert!(!class.access_flags.contains(ClassAccessFlags::MODULE));
    assert_eq!(ClassAccessFlags::from_bits(0x0FFF), None);
    assert_eq!(ClassAccessFlags::from_bits(0x0021), Some(ClassAccessFlags { bits: 0x0021 }));
    assert_eq!(FieldAccessFlags::ALL, 0x50DF);
    assert_eq!(MethodAccessFlags::ALL, 0x1DFF);
    assert_eq!(MethodParameterAccessFlags::ALL, 0x9010);
    assert_eq!(ClassAccessFlags::ALL, 0xF231);
}

#[test]
fn trailing_bytes_are_left_unread() {
    let mut bytes = sample_bytes();
    bytes.extend_from_slice(&[1, 2, 3]);
    assert_eq!(decode(&bytes), Ok(sample_class()));
}

#[test]
fn every_kind_of_entry_round_trips() {
    let entries = vec![
        ConstantPoolInfo::Utf8("h\u{e9}".to_string()),
        ConstantPoolInfo::Integer(i32::MIN),
        ConstantPoolInfo::Float(1.5f32.to_bits()),
        ConstantPoolInfo::Long(-3),
        ConstantPoolInfo::Double(2.25f64.to_bits()),
        ConstantPoolInfo::Class { name_index: 0x0102 },
        ConstantPoolInfo::String { string_index: 3 },
        ConstantPoolInfo::Fieldref { class_index: 4, name_and_type_index: 5 },
        ConstantPoolInfo::Methodref { class_index: 6, name_and_type_index: 7 },
        ConstantPoolInfo::InterfaceMethodref { class_index: 8, name_and_type_index: 9 },
        ConstantPoolInfo::NameAndType { name_index: 10, descriptor_index: 11 },
        ConstantPoolInfo::MethodHandle { reference_kind: 12, reference_index: 13 },
        ConstantPoolInfo::MethodType { descriptor_index: 14 },
        ConstantPoolInfo::Dynamic { bootstrap_method_attr_index: 15, name_and_type_index: 16 },
        ConstantPoolInfo::InvokeDynamic { bootstrap_method_attr_index: 17, name_and_type_index: 18 },
        ConstantPoolInfo::Module { name_index: 19 },
        ConstantPoolInfo::Package { name_index: 20 },
    ];
    for entry in entries {
        let mut bytes = Vec::new();
        entry.encode(&mut bytes);
        let mut cursor = Cursor::new(&bytes);
        assert_eq!(ConstantPoolInfo::decode(&mut cursor), Ok(entry));
        assert_eq!(cursor.pos, bytes.len());
    }
}

#[test]
fn entry_bytes_are_big_endian() {
    let mut bytes = Vec::new();
    ConstantPoolInfo::Class { name_index: 0x0102 }.encode(&mut bytes);
    assert_eq!(bytes, vec![7, 1, 2]);
    bytes.clear();
    ConstantPoolInfo::Integer(-2).encode(&mut bytes);
    assert_eq!(bytes, vec![3, 0xFF, 0xFF, 0xFF, 0xFE]);
    bytes.clear();
    ConstantPoolInfo::Long(-2).encode(&mut bytes);
    assert_eq!(bytes, vec![5, 0xFF, 0xFF, 0xFF, 0xFF, 0xFF, 0xFF, 0xFF, 0xFE]);
    bytes.clear();
    ConstantPoolInfo::Float(0x3FC00000).encode(&mut bytes);
    assert_eq!(bytes, vec![4, 0x3F, 0xC0, 0, 0]);
    bytes.clear();
    ConstantPoolInfo::Double(0x0102030405060708).encode(&mut bytes);
    assert_eq!(bytes, vec![6, 1, 2, 3, 4, 5, 6, 7, 8]);
    bytes.clear();
    ConstantPoolInfo::Reserved.encode(&mut bytes);
    assert!(bytes.is_empty());
}

#[test]
fn cursor_reads_big_endian_numbers() {
    let data = [0x01, 0x02, 0x03, 0x04, 0x05, 0x06, 0x07, 0x08, 0xFF, 0xFF, 0xFF, 0xFD, 0x80, 0, 0, 0, 0, 0, 0, 1];
    let mut cursor = Cursor::new(&data);
    assert_eq!(cursor.read_u8(), Ok(0x01));
    assert_eq!(cursor.read_u16(), Ok(0x0203));
    assert_eq!(cursor.read_u32(), Ok(0x04050607));
    assert_eq!(cursor.read_u8(), Ok(0x08));
    assert_eq!(cursor.read_i32(), Ok(-3));
    assert_eq!(cursor.remaining(), 8);
    assert_eq!(cursor.read_i64(), Ok(i64::MIN + 1));
    assert_eq!(cursor.read_u8(), Err(Error::Truncated { position: 20, needed: 1 }));
    let mut again = Cursor::new(&data);
    assert_eq!(again.read_u64(), Ok(0x0102030405060708));
    assert_eq!(again.read_bytes(3), Ok(&data[8..11]));
    assert_eq!(again.read_bytes(10), Err(Error::Truncated { position: 11, needed: 10 }));
}

#[test]
fn numbers_encode_big_endian() {
    let mut out = Vec::new();
    0x01u8.encode(&mut out);
    0x0203u16.encode(&mut out);
    0x04050607u32.encode(&mut out);
    0x08090A0B0C0D0E0Fu64.encode(&mut out);
    (-2i32).encode(&mut out);
    i64::MIN.encode(&mut out);
    assert_eq!(
        out,
        vec![1, 2, 3, 4, 5, 6, 7, 8, 9, 10, 11, 12, 13, 14, 15, 0xFF, 0xFF, 0xFF, 0xFE, 0x80, 0, 0, 0, 0, 0, 0, 0]
    );
    let mut cursor = Cursor::new(&out);
    assert_eq!(u8::decode(&mut cursor), Ok(1));
    assert_eq!(u16::decode(&mut cursor), Ok(0x0203));
    assert_eq!(u32::decode(&mut cursor), Ok(0x04050607));
    assert_eq!(u64::decode(&mut cursor), Ok(0x08090A0B0C0D0E0F));
    assert_eq!(i32::decode(&mut cursor), Ok(-2));
    assert_eq!(i64::decode(&mut cursor), Ok(i64::MIN));
}

#[test]
fn lookups_by_index() {
    let pool = sample_class().constant_pool;
    assert_eq!(resolve_utf8(&pool, 1), Ok("Foo"));
    assert_eq!(resolve_class_name(&pool, 2), Ok("Foo"));
    assert_eq!(resolve(&pool, 8), Ok(&ConstantPoolInfo::Integer(-2)));
    assert_eq!(resolve(&pool, 0), Err(Error::IndexOutOfRange { index: 0 }));
    assert_eq!(resolve(&pool, 10), Err(Error::IndexOutOfRange { index: 10 }));
    assert_eq!(resolve_utf8(&pool, 2), Err(Error::IndexOutOfRange { index: 2 }));
    assert_eq!(resolve_class_name(&pool, 1), Err(Error::IndexOutOfRange { index: 1 }));
    let dangling = vec![ConstantPoolInfo::Class { name_index: 7 }];
    assert_eq!(resolve_class_name(&dangling, 1), Err(Error::IndexOutOfRange { index: 7 }));
}

#[test]
fn attribute_length_beyond_the_buffer_is_truncated() {
    let data = [0x00, 0x01, 0xFF, 0xFF, 0xFF, 0xFF, 0x00];
    let mut cursor = Cursor::new(&data);
    assert_eq!(
        AttributeInfo::decode(&mut cursor),
        Err(Error::Truncated { position: 6, needed: 0xFFFF_FFFF })
    );
}

#[test]
fn method_parameters_payload() {
    let info = [0x00, 0x02, 0x00, 0x05, 0x00, 0x10, 0x00, 0x06, 0x90, 0x00];
    let expected = MethodParametersAttribute(vec![
        MethodParameter { name_index: 5, access_flags: MethodParameterAccessFlags { bits: 0x0010 } },
        MethodParameter { name_index: 6, access_flags: MethodParameterAccessFlags { bits: 0x9000 } },
    ]);
    assert_eq!(
        decode_attribute("MethodParameters", &info),
        Ok(TypedAttribute::MethodParameters(expected.clone()))
    );
    assert_eq!(decode_payload::<MethodParametersAttribute>(&info), Ok(expected.clone()));
    let mut out = Vec::new();
    expected.encode(&mut out);
    assert_eq!(out, info.to_vec());
    assert!(expected.0[1].access_flags.contains(MethodParameterAccessFlags::MANDATED));
    assert_eq!(
        decode_attribute("MethodParameters", &info[..9]),
        Err(Error::Truncated { position: 8, needed: 2 })
    );
}

#[test]
fn unknown_attribute_names_keep_their_payload() {
    assert_eq!(
        decode_attribute("SomethingNew", &[1, 2, 3]),
        Ok(TypedAttribute::Opaque(vec![1, 2, 3]))
    );
}

#[test]
fn error_messages() {
    assert_eq!(Error::BadMagic { found: 0 }.message(), "not a class file: wrong magic number");
    assert_eq!(Error::Truncated { position: 0, needed: 1 }.message(), "input ends before a declared length is satisfied");
}

#[test]
fn validation_checks_what_indices_address() {
    let mut class = sample_class();
    assert!(!class.is_valid());
    class.super_class = 2;
    assert!(class.is_valid());
    class.interfaces.push(1);
    assert!(!class.is_valid());
    class.interfaces.pop();
    class.methods[0].attributes[0].attribute_name_index = 4;
    assert!(!class.is_valid());
    class.methods[0].attributes[0].attribute_name_index = 7;
    class.fields[0].descriptor_index = 10;
    assert!(!class.is_valid());
    class.fields[0].descriptor_index = 6;
    class.constant_pool[1] = ConstantPoolInfo::Class { name_index: 2 };
    assert!(!class.is_valid());
}

#[test]
fn the_root_class_has_no_superclass() {
    let class = ClassFile {
        minor_version: 0,
        major_version: 52,
        constant_pool: vec![
            ConstantPoolInfo::Utf8("java/lang/Object".to_string()),
            ConstantPoolInfo::Class { name_index: 1 },
        ],
        access_flags: ClassAccessFlags { bits: 0x0021 },
        this_class: 2,
        super_class: 0,
        interfaces: vec![],
        fields: vec![],
        methods: vec![],
        attributes: vec![],
    };
    assert!(class.is_valid());
}

#[test]
fn pool_validation() {
    assert!(pool_is_valid(&vec![]));
    assert!(pool_is_valid(&vec![
        ConstantPoolInfo::Methodref { class_index: 2, name_and_type_index: 3 },
        ConstantPoolInfo::Class { name_index: 4 },
        ConstantPoolInfo::NameAndType { name_index: 4, descriptor_index: 4 },
        ConstantPoolInfo::Utf8("a".to_string()),
        ConstantPoolInfo::MethodHandle { reference_kind: 5, reference_index: 1 },
    ]));
    assert!(!pool_is_valid(&vec![
        ConstantPoolInfo::Long(1),
        ConstantPoolInfo::Reserved,
        ConstantPoolInfo::String { string_index: 2 },
    ]));
    assert!(!pool_is_valid(&vec![ConstantPoolInfo::MethodHandle {
        reference_kind: 1,
        reference_index: 1
    }]));
}

#[test]
fn encoding_is_refused_where_a_count_does_not_fit() {
    let mut class = sample_class();
    assert_eq!(try_encode(&class), Some(sample_bytes()));
    class.interfaces = vec![1; 65536];
    assert_eq!(try_encode(&class), None);
    class.interfaces = vec![1; 65535];
    assert_eq!(try_encode(&class).map(|b| b.len()), Some(sample_bytes().len() + 2 * 65534));
}

#[test]
fn largest_pool_has_a_count_field_of_zero() {
    let mut class = sample_class();
    class.constant_pool = vec![ConstantPoolInfo::Integer(7); 65535];
    let bytes = try_encode(&class).unwrap();
    assert_eq!(&bytes[8..10], &[0, 0]);
    assert_eq!(decode(&bytes), Ok(class));
}

#[test]
fn pool_decoder_starts_at_the_count_field() {
    let data = [0, 4, 5, 0, 0, 0, 0, 0, 0, 0, 9, 7, 0, 1, 0xEE];
    let mut cursor = Cursor::new(&data);
    assert_eq!(
        decode_constant_pool(&mut cursor),
        Ok(vec![
            ConstantPoolInfo::Long(9),
            ConstantPoolInfo::Reserved,
            ConstantPoolInfo::Class { name_index: 1 },
        ])
    );
    assert_eq!(cursor.pos, 14);
}

#[test]
fn pool_has_exactly_the_announced_slots() {
    let data = [0, 2, 6, 0, 0, 0, 0, 0, 0, 0, 1];
    let mut cursor = Cursor::new(&data);
    assert_eq!(decode_constant_pool(&mut cursor), Ok(vec![ConstantPoolInfo::Double(1)]));
    let mut again = Cursor::new(&data[2..]);
    assert_eq!(
        decode_pool(&mut again, 2),
        Ok(vec![ConstantPoolInfo::Double(1), ConstantPoolInfo::Reserved])
    );
    let mut none = Cursor::new(&data[2..]);
    assert_eq!(decode_pool(&mut none, 0), Ok(vec![]));
    assert_eq!(none.pos, 0);
}
