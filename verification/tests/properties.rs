use hext::{Error, Hext, InvalidHeaderKind};

const HDR_LE: &str = "~little-endian msb0\n";
const HDR_BE: &str = "~big-endian msb0\n";

fn parse(text: &str) -> Result<Vec<u8>, Error> {
    Hext::new().parse(text)
}

//## Hexadecimal octets ##
#[test]
fn hex_pairs_decode_to_sixteen_high_plus_low() {
    let digits = "0123456789abcdefABCDEF";
    for high in digits.chars() {
        for low in digits.chars() {
            let text = format!("{}{}{}", HDR_LE, high, low);
            let expect = (high.to_digit(16).unwrap() * 16 + low.to_digit(16).unwrap()) as u8;
            assert_eq!(parse(&text).unwrap(), vec![expect]);
        }
    }
}

//## Unsized decimal width selection ##
#[test]
fn unsized_picks_minimal_width() {
    assert_eq!(parse("~little-endian msb0\n=0").unwrap(), vec![0x00]);
    assert_eq!(parse("~little-endian msb0\n=255").unwrap(), vec![0xFF]);
    assert_eq!(parse("~little-endian msb0\n=256").unwrap(), vec![0x00, 0x01]);
    assert_eq!(
        parse("~little-endian msb0\n=65535").unwrap(),
        vec![0xFF, 0xFF]
    );
    assert_eq!(
        parse("~little-endian msb0\n=65536").unwrap(),
        vec![0x00, 0x00, 0x01, 0x00]
    );
    assert_eq!(
        parse("~little-endian msb0\n=4294967296").unwrap(),
        vec![0x00, 0x00, 0x00, 0x00, 0x01, 0x00, 0x00, 0x00]
    );
    // A leading sign selects signed encoding and its narrower positive bounds.
    assert_eq!(parse("~little-endian msb0\n=127").unwrap(), vec![0x7F]);
    assert_eq!(
        parse("~little-endian msb0\n=+128").unwrap(),
        vec![0x80, 0x00]
    );
    assert_eq!(parse("~little-endian msb0\n=-128").unwrap(), vec![0x80]);
    assert_eq!(
        parse("~little-endian msb0\n=-129").unwrap(),
        vec![0x7F, 0xFF]
    );
}

#[test]
fn unsized_signed_extremes() {
    assert_eq!(
        parse("~little-endian msb0\n=-9223372036854775808").unwrap(),
        (-9223372036854775808i64).to_le_bytes().to_vec()
    );
    assert_eq!(
        parse("~little-endian msb0\n=+9223372036854775807").unwrap(),
        9223372036854775807i64.to_le_bytes().to_vec()
    );
    assert_eq!(
        parse("~little-endian msb0\n=18446744073709551615").unwrap(),
        u64::MAX.to_le_bytes().to_vec()
    );
    assert_eq!(
        parse("~little-endian msb0\n=18446744073709551616").unwrap_err(),
        Error::InvalidDecimal("18446744073709551616".into())
    );
    assert_eq!(
        parse("~little-endian msb0\n=-9223372036854775809").unwrap_err(),
        Error::InvalidDecimal("-9223372036854775809".into())
    );
}

//## Endianness ##
#[test]
fn big_endian_reverses_decimal_bytes() {
    let le = parse(&format!("{}=65536", HDR_LE)).unwrap();
    let be = parse(&format!("{}=65536", HDR_BE)).unwrap();
    let mut rev = le.clone();
    rev.reverse();
    assert_eq!(be, rev);

    let le = parse(&format!("{}i32=-40000", HDR_LE)).unwrap();
    let be = parse(&format!("{}i32=-40000", HDR_BE)).unwrap();
    let mut rev = le.clone();
    rev.reverse();
    assert_eq!(be, rev);
}

#[test]
fn byte_order_leaves_hex_literal_and_bits_alone() {
    let text_tail = "4142 \"AB\" .0100 .0010";
    let le = parse(&format!("{}{}", HDR_LE, text_tail)).unwrap();
    let be = parse(&format!("{}{}", HDR_BE, text_tail)).unwrap();
    assert_eq!(le, vec![0x41, 0x42, 0x41, 0x42, 0x42]);
    assert_eq!(le, be);
}

//## Sized decimals ##
#[test]
fn sized_bounds() {
    assert_eq!(parse(&format!("{}u8=255", HDR_LE)).unwrap(), vec![0xFF]);
    assert_eq!(
        parse(&format!("{}u8=256", HDR_LE)).unwrap_err(),
        Error::InvalidUnsignedDecimal("256".into())
    );
    assert_eq!(parse(&format!("{}i8=-128", HDR_LE)).unwrap(), vec![0x80]);
    assert_eq!(
        parse(&format!("{}i8=-129", HDR_LE)).unwrap_err(),
        Error::InvalidSignedDecimal("-129".into())
    );
    assert_eq!(
        parse(&format!("{}i64=-2", HDR_LE)).unwrap(),
        (-2i64).to_le_bytes().to_vec()
    );
    assert_eq!(
        parse(&format!("{}u32=4294967295", HDR_LE)).unwrap(),
        vec![0xFF, 0xFF, 0xFF, 0xFF]
    );
}

#[test]
fn sized_bad_widths() {
    assert_eq!(
        parse(&format!("{}u12=5", HDR_LE)).unwrap_err(),
        Error::InvalidBitness("12".into())
    );
    assert_eq!(
        parse(&format!("{}i7=5", HDR_LE)).unwrap_err(),
        Error::InvalidBitness("7".into())
    );
}

#[test]
fn sized_missing_equals() {
    // After `i` the token has no `=`; after `u` the same shape raises the
    // plain decimal error.
    assert_eq!(
        parse(&format!("{}i16", HDR_LE)).unwrap_err(),
        Error::InvalidSignedDecimal("16".into())
    );
    assert_eq!(
        parse(&format!("{}u16", HDR_LE)).unwrap_err(),
        Error::InvalidDecimal("16".into())
    );
}

#[test]
fn unsized_bad_tokens() {
    assert_eq!(
        parse(&format!("{}=", HDR_LE)).unwrap_err(),
        Error::InvalidDecimal("".into())
    );
    assert_eq!(
        parse(&format!("{}=abc", HDR_LE)).unwrap_err(),
        Error::InvalidDecimal("abc".into())
    );
    assert_eq!(
        parse(&format!("{}=-", HDR_LE)).unwrap_err(),
        Error::InvalidDecimal("-".into())
    );
}

//## Literals and escapes ##
#[test]
fn literal_escapes() {
    assert_eq!(parse(&format!("{}\"\\n\"", HDR_LE)).unwrap(), vec![0x0A]);
    assert_eq!(parse(&format!("{}\"\\r\"", HDR_LE)).unwrap(), vec![0x0D]);
    assert_eq!(parse(&format!("{}\"\\t\"", HDR_LE)).unwrap(), vec![0x09]);
    assert_eq!(parse(&format!("{}\"\\\\\"", HDR_LE)).unwrap(), vec![0x5C]);
    assert_eq!(parse(&format!("{}\"\\\"\"", HDR_LE)).unwrap(), vec![0x22]);
}

#[test]
fn literal_bad_escape() {
    assert_eq!(
        parse(&format!("{}\"\\q\"", HDR_LE)).unwrap_err(),
        Error::InvalidEscape('q')
    );
}

#[test]
fn literal_unterminated() {
    assert_eq!(
        parse(&format!("{}\"abc", HDR_LE)).unwrap_err(),
        Error::UnclosedStringLiteral
    );
    assert_eq!(
        parse(&format!("{}\"abc\ndef\"", HDR_LE)).unwrap_err(),
        Error::UnclosedStringLiteral
    );
    assert_eq!(
        parse(&format!("{}\"abc\\", HDR_LE)).unwrap_err(),
        Error::UnclosedStringLiteral
    );
}

//## Comments ##
#[test]
fn comments_never_contribute_bytes() {
    let plain = parse(&format!("{}41 42", HDR_LE)).unwrap();
    let with_comment = parse(&format!("{}41 # half\n42", HDR_LE)).unwrap();
    let nospace_comment = parse(&format!("{}41# half\n42", HDR_LE)).unwrap();
    assert_eq!(plain, vec![0x41, 0x42]);
    assert_eq!(with_comment, plain);
    assert_eq!(nospace_comment, plain);
}

#[test]
fn comment_before_header() {
    let test = "# leading note\n\n~little-endian msb0\n41";
    assert_eq!(parse(test).unwrap(), vec![0x41]);
}

//## Header and preamble edges ##
#[test]
fn empty_input_gives_empty_output() {
    assert_eq!(parse("").unwrap(), vec![]);
    assert_eq!(parse("   \n\t\n").unwrap(), vec![]);
    assert_eq!(parse("# only a comment\n").unwrap(), vec![]);
}

#[test]
fn data_before_header_fails() {
    assert_eq!(parse("41").unwrap_err(), Error::NoHeader);
    assert_eq!(parse("x~msb0 little-endian\n").unwrap_err(), Error::NoHeader);
}

#[test]
fn empty_header_line_is_invalid_property() {
    assert_eq!(
        parse("~\n41").unwrap_err(),
        Error::InvalidHeader(InvalidHeaderKind::InvalidProperty("".into()))
    );
}

#[test]
fn header_padbits_and_double_space() {
    assert_eq!(
        parse("~msb0 little-endian padbits\n.1").unwrap(),
        vec![0x01]
    );
    // Two spaces make an empty token, which is not a valid property.
    assert_eq!(
        parse("~msb0  little-endian\n").unwrap_err(),
        Error::InvalidHeader(InvalidHeaderKind::InvalidProperty("".into()))
    );
}

//## Bitstreams ##
#[test]
fn bit_runs_concatenate_and_flush_on_hex() {
    assert_eq!(parse(&format!("{}.0100.0010", HDR_LE)).unwrap(), vec![0x42]);
    assert_eq!(
        parse(&format!("{}.0100 .001041", HDR_LE)).unwrap(),
        vec![0x42, 0x41]
    );
    assert_eq!(parse(&format!("{}..", HDR_LE)).unwrap(), vec![]);
}

#[test]
fn padbits_pads_at_the_front() {
    assert_eq!(
        parse("~msb0 little-endian padbits\n.101").unwrap(),
        vec![0b0000_0101]
    );
    // Runs concatenate first; the nine bits then pad to two bytes.
    assert_eq!(
        parse("~msb0 little-endian padbits\n.1 .0100 .0010").unwrap(),
        vec![0x01, 0x42]
    );
}

#[test]
fn dots_join_runs_without_whitespace() {
    // `.0.1` is two runs of one bit each; they join into one group.
    assert_eq!(
        parse("~msb0 little-endian padbits\n.0.1").unwrap(),
        vec![0x01]
    );
    assert_eq!(
        parse(&format!("{}.0.1", HDR_LE)).unwrap_err(),
        Error::UnalignedBits
    );
}

#[test]
fn bitstream_ending_in_garbage() {
    // The run ends at the first non-bit character; the unaligned group
    // fails before that character is even looked at...
    assert_eq!(
        parse(&format!("{}.01x", HDR_LE)).unwrap_err(),
        Error::UnalignedBits
    );
    // ...and with padding allowed, the group flushes and the character is
    // then judged in hexadecimal position.
    assert_eq!(
        parse("~msb0 little-endian padbits\n.01x").unwrap_err(),
        Error::InvalidCharacter('x')
    );
}

#[test]
fn hex_digit_followed_by_non_digit() {
    assert_eq!(
        parse(&format!("{}4G", HDR_LE)).unwrap_err(),
        Error::IncompleteOctet
    );
    assert_eq!(
        parse(&format!("{}4 1", HDR_LE)).unwrap_err(),
        Error::IncompleteOctet
    );
}

#[test]
fn sixteen_bits_make_two_bytes() {
    assert_eq!(
        parse(&format!("{}.0100000101000010", HDR_LE)).unwrap(),
        vec![0x41, 0x42]
    );
}

//## Idempotence ##
#[test]
fn parsing_twice_gives_identical_output() {
    let text = "~msb0 little-endian padbits\n41 =200 \"ab\\n\" .0100 .0010 u16=65534";
    let first = Hext::new().parse(text).unwrap();
    let second = Hext::new().parse(text).unwrap();
    assert_eq!(first, second);
}

//## Error messages ##
#[test]
fn messages_match_the_notation() {
    assert_eq!(
        Error::UnalignedBits.message(),
        "Not enough bits to form an octet"
    );
    assert_eq!(
        Error::InvalidCharacter('G').message(),
        "'G' is not valid base16"
    );
    assert_eq!(
        Error::InvalidEscape('q').message(),
        "\\q is not a valid escape code"
    );
    assert_eq!(
        Error::InvalidDecimal("abc".into()).message(),
        "'abc' is not valid decimal"
    );
    assert_eq!(
        Error::InvalidHeader(InvalidHeaderKind::InvalidProperty("x".into())).message(),
        "'x' is not a valid file property"
    );
    assert_eq!(
        InvalidHeaderKind::NoBitOrder.message(),
        "You must specify a bit order"
    );
}

//## Everything at once ##
#[test]
fn all_modes_in_one_input() {
    let text = "~msb0 little-endian padbits\n# leading note\n48 65 =200 i16=-2 u16=65534 \"hi\\n\" .0100 .0010 41#trailing\n=+1\n";
    let cmp = vec![
        0x48, 0x65, 200, 0xFE, 0xFF, 0xFE, 0xFF, 0x68, 0x69, 0x0A, 0x42, 0x41, 0x01,
    ];
    assert_eq!(parse(text).unwrap(), cmp);
}
