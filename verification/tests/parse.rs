use hext::{BitOrder, ByteOrder, Error, Header, Hext, InvalidHeaderKind};

//## Header tests ##
#[test]
fn pares_header_success() {
    // Recognizes the keywords...
    assert_eq!(
        Hext::parse_header("msb0 big-endian").unwrap(),
        Header {
            byteorder: ByteOrder::BigEndian,
            bitorder: BitOrder::Msb0,
            pad_bits: false
        }
    );

    assert_eq!(
        Hext::parse_header("lsb0 little-endian").unwrap(),
        Header {
            byteorder: ByteOrder::LittleEndian,
            bitorder: BitOrder::Lsb0,
            pad_bits: false
        }
    );

    // ...In either order
    assert_eq!(
        Hext::parse_header("big-endian lsb0").unwrap(),
        Header {
            byteorder: ByteOrder::BigEndian,
            bitorder: BitOrder::Lsb0,
            pad_bits: false
        }
    );
}

#[test]
fn parse_header_fail_twobits() {
    assert_eq!(
        Hext::parse_header("lsb0 msb0"),
        Err(Error::InvalidHeader(InvalidHeaderKind::TwoBitOrder))
    )
}

#[test]
fn parse_header_fail_twobytes() {
    assert_eq!(
        Hext::parse_header("little-endian big-endian"),
        Err(Error::InvalidHeader(InvalidHeaderKind::TwoByteOrder))
    )
}

#[test]
fn parse_header_fail_nobits() {
    assert_eq!(
        Hext::parse_header("big-endian"),
        Err(Error::InvalidHeader(InvalidHeaderKind::NoBitOrder))
    )
}

#[test]
fn parse_header_fail_nobytes() {
    assert_eq!(
        Hext::parse_header("msb0"),
        Err(Error::InvalidHeader(InvalidHeaderKind::NoByteOrder))
    )
}

#[test]
fn parse_header_fail_invalidproperty() {
    assert_eq!(
        Hext::parse_header("lsb0 big-endian invalidproperty"),
        Err(Error::InvalidHeader(InvalidHeaderKind::InvalidProperty(
            "invalidproperty".into()
        )))
    )
}

//## Bytes tests ##
#[test]
fn test_onebyte() {
    let test = "~little-endian msb0\n41";
    let cmp = vec![0x41];

    assert_eq!(Hext::new().parse(test).unwrap(), cmp);
}

#[test]
fn test_only_comment() {
    let test = "~little-endian msb0\n# Comment";

    assert_eq!(Hext::new().parse(test).unwrap(), vec![]);
}

#[test]
fn test_1byte_comment() {
    let test = "~little-endian msb0\n41 #A";
    let cmp = vec![0x41];

    assert_eq!(Hext::new().parse(test).unwrap(), cmp);
}

#[test]
fn test_byte_nospace_comment() {
    let test = "~little-endian msb0\n41#A";
    let cmp = vec![0x41];

    assert_eq!(Hext::new().parse(test).unwrap(), cmp);
}

#[test]
fn test_2byte_multiline() {
    let test = "~little-endian msb0\n41\n42";
    let cmp = vec![0x41, 0x42];

    assert_eq!(Hext::new().parse(test).unwrap(), cmp);
}

#[test]
fn test_2bytes_nospace() {
    let test = "~little-endian msb0\n4142";
    let cmp = vec![0x41, 0x42];

    assert_eq!(Hext::new().parse(test).unwrap(), cmp);
}

//## Bit Tests ##
#[test]
fn test_8bits() {
    let test = "~little-endian msb0\n.01000001";
    let cmp = vec![0x41];

    assert_eq!(Hext::new().parse(test).unwrap(), cmp);
}

#[test]
fn test_8bits_hex10() {
    let test = "~little-endian msb0\n.01000001 10";
    let cmp = vec![0x41, 0x10];

    assert_eq!(Hext::new().parse(test).unwrap(), cmp);
}

#[test]
fn test_8bit_comment() {
    let test = "~little-endian msb0\n.01000001 # A";
    let cmp = vec![0x41];

    assert_eq!(Hext::new().parse(test).unwrap(), cmp)
}

#[test]
fn test_8bit_nospace_comment() {
    let test = "~little-endian msb0\n.01000001#A";
    let cmp = vec![0x41];

    assert_eq!(Hext::new().parse(test).unwrap(), cmp);
}

#[test]
fn test_1bit() {
    let test = "~little-endian msb0 padbits\n.1";
    let cmp = vec![0x01];

    assert_eq!(Hext::new().parse(test).unwrap(), cmp);
}

#[test]
fn test_8bits_halved_space() {
    let test_space = "~little-endian msb0\n.0100 .0010";
    let cmp = vec![0x42];

    assert_eq!(Hext::new().parse(test_space).unwrap(), cmp);
}

#[test]
fn test_8bits_halved_line() {
    let test_line = "~little-endian msb0\n.0100\n.0010";
    let cmp = vec![0x42];

    assert_eq!(Hext::new().parse(test_line).unwrap(), cmp);
}

#[test]
fn test_8bits_halved_line_comments() {
    let test_line_comments = "~little-endian msb0\n.0100#Half of capital letter\n.0010 # B";
    let cmp = vec![0x42];

    assert_eq!(Hext::new().parse(test_line_comments).unwrap(), cmp);
}

#[test]
fn test_1bit_then_byte() {
    let test = "~little-endian msb0 padbits\n.1 41";
    let cmp = vec![0x01, 0x41];

    assert_eq!(Hext::new().parse(test).unwrap(), cmp);
}

//## Literal Tests ##
#[test]
fn literal_multibyte() {
    let test = "~big-endian lsb0\n\"\u{1F97A}\"";
    let cmp = vec![0xf0, 0x9f, 0xa5, 0xba];

    assert_eq!(Hext::new().parse(test).unwrap(), cmp);
}

//## Decimal Tests ##
#[test]
fn decimal_unsized_u8() {
    let test = "~big-endian lsb0\n=200";
    let cmp = vec![200];

    assert_eq!(Hext::new().parse(test).unwrap(), cmp);
}

#[test]
fn decimal_unsized_i8() {
    let test = "~big-endian lsb0\n=-127";
    let cmp = (-127i8).to_be_bytes().to_vec();

    assert_eq!(Hext::new().parse(test).unwrap(), cmp);
}

#[test]
fn decimal_unsized_u32() {
    let test = "~little-endian lsb0\n=65536";
    let cmp = 65536u32.to_le_bytes().to_vec();

    assert_eq!(Hext::new().parse(test).unwrap(), cmp);
}

#[test]
fn decimal_unsized_i32() {
    let test = "~little-endian lsb0\n=-40000";
    let cmp = (-40000i32).to_le_bytes().to_vec();

    assert_eq!(Hext::new().parse(test).unwrap(), cmp);
}

#[test]
fn decimal_sized_u16() {
    let test = "~little-endian lsb0\nu16=65534";
    let cmp = 65534u16.to_le_bytes().to_vec();

    assert_eq!(Hext::new().parse(test).unwrap(), cmp);
}

#[test]
fn decimal_overflow_sized_u16() {
    let test = "~little-endian lsb0\nu16=65536";

    assert_eq!(
        Hext::new().parse(test).unwrap_err(),
        Error::InvalidUnsignedDecimal("65536".into())
    );
}

//## Failing Tests ##
#[test]
fn ftest_incompleteoctet() {
    let test = "~little-endian msb0\n4";

    assert_eq!(Hext::new().parse(test).unwrap_err(), Error::IncompleteOctet);
}

#[test]
fn ftest_invalidcharacter() {
    let test = "~little-endian msb0\nG";

    assert_eq!(
        Hext::new().parse(test).unwrap_err(),
        Error::InvalidCharacter('G')
    );
}

#[test]
fn ftest_unaligned_bit() {
    let test = "~little-endian msb0\n.1";
    let cmp = Error::UnalignedBits;

    assert_eq!(Hext::new().parse(test).unwrap_err(), cmp);
}

#[test]
fn ftest_unaligned_bit_then_byte() {
    let test = "~little-endian msb0\n.1 41";
    let cmp = Error::UnalignedBits;

    assert_eq!(Hext::new().parse(test).unwrap_err(), cmp);
}
