use mqtt_codec::types::{MQTTBinary, MQTTString, VarByte};

#[test]
fn create_string() {
    let s = MQTTString::from(String::from("Hello world")).unwrap();
    assert_eq!(s.len(), 11u16);
    assert_eq!(*s.data(), String::from("Hello world"));
}

#[test]
fn create_invalid_string() {
    let single_string = "Lorem ipsum dolor sit amet, consectetur adipiscing elit. ";
    let long_string = single_string.repeat(100000);

    let s = MQTTString::from(long_string);
    assert!(s.is_none());
}

#[test]
fn single_byte_var_byte() {
    let v = VarByte::from(127).unwrap();
    assert_eq!(1, v.data().len());
    assert_eq!(127, v.data()[0]);
}

#[test]
fn two_bytes_var_byte() {
    let v = VarByte::from(128).unwrap();
    assert_eq!(2, v.data().len());
    assert_eq!(128, v.data()[0]);
    assert_eq!(1, v.data()[1]);
}

#[test]
fn four_bytes_var_byte() {
    let v = VarByte::from(268_435_455).unwrap();
    assert_eq!(4, v.data().len());
    assert_eq!(255, v.data()[0]);
    assert_eq!(255, v.data()[1]);
    assert_eq!(255, v.data()[2]);
    assert_eq!(127, v.data()[3]);
}

#[test]
fn u32_from_varbyte() {
    let u = u32::from(VarByte::from(1234567).unwrap());
    assert_eq!(1234567u32, u)
}

#[test]
fn var_byte_to_u32_reads_the_value() {
    let v = VarByte::from(16_384).unwrap();
    assert_eq!(v.data(), &vec![0x80, 0x80, 0x01]);
    assert_eq!(v.to_u32(), 16_384);
    assert_eq!(VarByte::from(0).unwrap().to_u32(), 0);
}

#[test]
fn clones_are_equal_to_what_they_were_made_from() {
    let s = MQTTString::from(String::from("gr\u{fc}n")).unwrap();
    assert_eq!(s.clone(), s);
    assert_eq!(s.clone().len(), 5);
    let b = MQTTBinary::from(vec![1, 2, 3]).unwrap();
    assert_eq!(b.clone(), b);
    let v = VarByte::from(321).unwrap();
    assert_eq!(v.clone(), v);
    assert_eq!(u32::from(v.clone()), 321);
}

#[test]
fn string_of_exactly_the_largest_length() {
    let s = MQTTString::from("x".repeat(65_535)).unwrap();
    assert_eq!(s.len(), 65_535);
    assert!(MQTTString::from("x".repeat(65_536)).is_none());
}
