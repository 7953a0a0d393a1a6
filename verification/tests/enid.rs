use enid::{Enid, Enid40, Enid80, EnidParseError};
use std::str::FromStr;

fn assert_valid40(bytes: [u8; 5], string: &str) {
    let enid = Enid40::from_bytes(bytes);
    assert_eq!(enid.to_string(), string);
    assert_eq!(Enid40::from_str(string), Ok(enid));
}

fn assert_invalid40(string: &str) {
    assert_eq!(Enid40::from_str(string), Err(EnidParseError));
}

fn assert_valid80(bytes: [u8; 10], string: &str) {
    let enid = Enid80::from_bytes(bytes);
    assert_eq!(enid.to_string(), string);
    assert_eq!(Enid80::from_str(string), Ok(enid));
}

fn assert_invalid80(string: &str) {
    assert_eq!(Enid80::from_str(string), Err(EnidParseError));
}

fn assert_valid_var(bytes: &[u8], string: &str) {
    let enid = if bytes.len() == 5 {
        Enid::Enid40(Enid40::from_bytes(bytes.try_into().unwrap()))
    } else {
        Enid::Enid80(Enid80::from_bytes(bytes.try_into().unwrap()))
    };

    assert_eq!(enid.to_string(), string);
    assert_eq!(Enid::from_str(string), Ok(enid));
}

fn assert_invalid_var(string: &str) {
    assert_eq!(Enid::from_str(string), Err(EnidParseError));
}

#[test]
fn enid40() {
    assert_valid40([0; 5], "00000000");
    assert_valid40([0xff; 5], "zzzzzzzz");
    assert_valid40([0, 0, 0, 0, 1], "00000001");
    assert_valid40([0, 0, 0, 0, 31], "0000000z");
    assert_valid40([0, 0, 0, 0, 32], "00000010");
    assert_valid40([230, 41, 6, 32, 128], "wrmgc840");
    assert_valid40([240, 225, 210, 195, 180], "y3gx5gxm");

    assert_invalid40("");
    assert_invalid40("0000000");
    assert_invalid40("000000000");
    assert_invalid40("0000-0000");
    assert_invalid40("-00000000");
    assert_invalid40("00000000-");
    assert_invalid40("0000000i");
    assert_invalid40("000000l0");
    assert_invalid40("00000o00");
    assert_invalid40("0000u000");
    assert_invalid40("00000000-00000000");
}

#[test]
fn enid80() {
    assert_valid80([0; 10], "00000000-00000000");
    assert_valid80([0xff; 10], "zzzzzzzz-zzzzzzzz");
    assert_valid80([0, 0, 0, 0, 0, 0, 0, 0, 0, 1], "00000000-00000001");
    assert_valid80([0, 0, 0, 0, 0, 0, 0, 0, 0, 31], "00000000-0000000z");
    assert_valid80([0, 0, 0, 0, 64, 0, 0, 0, 0, 32], "00000020-00000010");
    assert_valid80(
        [247, 53, 139, 82, 80, 115, 20, 131, 16, 64],
        "ywtrpmjg-eca86420",
    );
    assert_valid80(
        [240, 225, 210, 195, 180, 165, 150, 135, 120, 105],
        "y3gx5gxm-mpb8ey39",
    );

    assert_invalid80("");
    assert_invalid80("0000000000000000");
    assert_invalid80("0000000-00000000");
    assert_invalid80("0000000-000000000");
    assert_invalid80("000000000-0000000");
    assert_invalid80("00000000-000000000");
    assert_invalid80("0000-0000-00000000");
    assert_invalid80("00000000-0000000i");
    assert_invalid80("00000000-000000l0");
    assert_invalid80("00000000-00000o00");
    assert_invalid80("00000000-0000u000");
    assert_invalid80("00000000");
}

#[test]
fn enid_var() {
    assert_valid_var(&[0; 5], "00000000");
    assert_valid_var(&[0xff; 5], "zzzzzzzz");
    assert_valid_var(&[0, 0, 0, 0, 1], "00000001");
    assert_valid_var(&[0, 0, 0, 0, 31], "0000000z");
    assert_valid_var(&[0, 0, 0, 0, 32], "00000010");
    assert_valid_var(&[230, 41, 6, 32, 128], "wrmgc840");
    assert_valid_var(&[240, 225, 210, 195, 180], "y3gx5gxm");

    assert_valid_var(&[0; 10], "00000000-00000000");
    assert_valid_var(&[0xff; 10], "zzzzzzzz-zzzzzzzz");
    assert_valid_var(&[0, 0, 0, 0, 0, 0, 0, 0, 0, 1], "00000000-00000001");
    assert_valid_var(&[0, 0, 0, 0, 0, 0, 0, 0, 0, 31], "00000000-0000000z");
    assert_valid_var(&[0, 0, 0, 0, 64, 0, 0, 0, 0, 32], "00000020-00000010");
    assert_valid_var(
        &[247, 53, 139, 82, 80, 115, 20, 131, 16, 64],
        "ywtrpmjg-eca86420",
    );
    assert_valid_var(
        &[240, 225, 210, 195, 180, 165, 150, 135, 120, 105],
        "y3gx5gxm-mpb8ey39",
    );

    assert_invalid40("");
    assert_invalid40("0000000");
    assert_invalid40("000000000");
    assert_invalid40("0000-0000");
    assert_invalid40("-00000000");
    assert_invalid40("00000000-");
    assert_invalid40("0000000i");
    assert_invalid40("000000l0");
    assert_invalid40("00000o00");
    assert_invalid40("0000u000");
    assert_invalid40("0000000000000000");
    assert_invalid40("0000000-00000000");
    assert_invalid40("0000000-000000000");
    assert_invalid40("000000000-0000000");
    assert_invalid40("00000000-000000000");
    assert_invalid40("0000-0000-00000000");
    assert_invalid40("00000000-0000000i");
    assert_invalid40("00000000-000000l0");
    assert_invalid40("00000000-00000o00");
    assert_invalid40("00000000-0000u000");
}

#[test]
fn enid_var_rejects_malformed_text() {
    assert_invalid_var("");
    assert_invalid_var("0000000");
    assert_invalid_var("000000000");
    assert_invalid_var("0000-0000");
    assert_invalid_var("-00000000");
    assert_invalid_var("00000000-");
    assert_invalid_var("0000000i");
    assert_invalid_var("000000l0");
    assert_invalid_var("00000o00");
    assert_invalid_var("0000u000");
    assert_invalid_var("0000000000000000");
    assert_invalid_var("0000000-00000000");
    assert_invalid_var("0000000-000000000");
    assert_invalid_var("000000000-0000000");
    assert_invalid_var("00000000-000000000");
    assert_invalid_var("0000-0000-00000000");
    assert_invalid_var("00000000-0000000i");
    assert_invalid_var("00000000-000000l0");
    assert_invalid_var("00000000-00000o00");
    assert_invalid_var("00000000-0000u000");
}

#[test]
fn enid_var_picks_the_variant_by_length() {
    let small = Enid::parse_str("y3gx5gxm").unwrap();
    assert!(small.is_enid40());
    assert!(!small.is_enid80());
    assert_eq!(small.as_bytes(), &[240, 225, 210, 195, 180]);

    let large = Enid::parse_str("y3gx5gxm-mpb8ey39").unwrap();
    assert!(!large.is_enid40());
    assert!(large.is_enid80());
    assert_eq!(
        large.as_bytes(),
        &[240, 225, 210, 195, 180, 165, 150, 135, 120, 105]
    );

    assert_eq!(
        Enid::parse_str_ascii(b"m6sc7n75"),
        Ok(Enid::Enid40(Enid40::from_bytes([0xa1, 0xb2, 0xc3, 0xd4, 0xe5])))
    );
}

#[test]
fn parse_str_and_parse_str_ascii_agree() {
    let texts = [
        "", "m6sc7n75", "M6SC7N75", "m6sc7n7", "y3gx5gxm-mpb8ey39", "y3gx5gxm_mpb8ey39",
        "y3gx5gxmmpb8ey39-", "00000000é",
    ];
    for text in texts {
        assert_eq!(Enid40::parse_str(text), Enid40::parse_str_ascii(text.as_bytes()));
        assert_eq!(Enid80::parse_str(text), Enid80::parse_str_ascii(text.as_bytes()));
        assert_eq!(Enid::parse_str(text), Enid::parse_str_ascii(text.as_bytes()));
    }
    assert_eq!(
        Enid40::parse_str("m6sc7n75").unwrap().as_bytes(),
        &[0xa1, 0xb2, 0xc3, 0xd4, 0xe5]
    );
    assert_eq!(Enid40::parse_str("M6SC7N75"), Err(EnidParseError));
}

#[test]
fn bytes_go_in_and_come_out_unchanged() {
    let five = [1, 2, 3, 4, 5];
    let ten = [10, 9, 8, 7, 6, 5, 4, 3, 2, 1];
    assert_eq!(Enid40::from_bytes(five).as_bytes(), &five);
    assert_eq!(Enid40::from_bytes(five).into_bytes(), five);
    assert_eq!(Enid80::from_bytes(ten).as_bytes(), &ten);
    assert_eq!(Enid80::from_bytes(ten).into_bytes(), ten);
    assert_eq!(Enid::Enid40(Enid40::from_bytes(five)).as_bytes(), &five);
    assert_eq!(Enid::Enid80(Enid80::from_bytes(ten)).as_bytes(), &ten);
}

#[test]
fn conversions_keep_the_bytes() {
    let five = [1, 2, 3, 4, 5];
    let ten = [10, 9, 8, 7, 6, 5, 4, 3, 2, 1];
    assert_eq!(Enid40::from(five), Enid40::from_bytes(five));
    assert_eq!(<[u8; 5]>::from(Enid40::from_bytes(five)), five);
    assert_eq!(Enid80::from(ten), Enid80::from_bytes(ten));
    assert_eq!(<[u8; 10]>::from(Enid80::from_bytes(ten)), ten);
    assert_eq!(Enid::from(five), Enid::Enid40(Enid40::from_bytes(five)));
    assert_eq!(Enid::from(ten), Enid::Enid80(Enid80::from_bytes(ten)));
    assert_eq!(
        Enid::from(Enid40::from_bytes(five)),
        Enid::Enid40(Enid40::from_bytes(five))
    );
    assert_eq!(
        Enid::from(Enid80::from_bytes(ten)),
        Enid::Enid80(Enid80::from_bytes(ten))
    );
}

#[test]
fn default_is_all_zero() {
    assert_eq!(Enid40::default().into_bytes(), [0; 5]);
    assert_eq!(Enid80::default().into_bytes(), [0; 10]);
    assert_eq!(Enid40::default().to_string(), "00000000");
    assert_eq!(Enid80::default().to_string(), "00000000-00000000");
}

#[test]
fn equality_compares_the_bytes() {
    let a = Enid40::from_bytes([1, 2, 3, 4, 5]);
    let b = Enid40::from_bytes([1, 2, 3, 4, 5]);
    let c = Enid40::from_bytes([1, 2, 3, 4, 6]);
    let d = Enid40::from_bytes([0, 2, 3, 4, 5]);
    assert!(a == b);
    assert!(a != c);
    assert!(a != d);

    let x = Enid80::from_bytes([1, 2, 3, 4, 5, 6, 7, 8, 9, 10]);
    let y = Enid80::from_bytes([1, 2, 3, 4, 5, 6, 7, 8, 9, 10]);
    let z = Enid80::from_bytes([1, 2, 3, 4, 5, 6, 7, 8, 9, 11]);
    assert!(x == y);
    assert!(x != z);

    assert!(Enid::Enid40(a) == Enid::Enid40(b));
    assert!(Enid::Enid40(a) != Enid::Enid40(c));
    assert!(Enid::Enid80(x) == Enid::Enid80(y));
    assert!(Enid::Enid80(x) != Enid::Enid80(z));
    assert!(Enid::Enid40(a) != Enid::Enid80(x));
    assert!(Enid::Enid80(x) != Enid::Enid40(a));
}

#[test]
fn order_follows_the_bytes() {
    let low = Enid40::from_bytes([0, 0, 0, 0, 1]);
    let high = Enid40::from_bytes([0, 0, 0, 1, 0]);
    assert!(low < high);
    assert!(Enid80::from_bytes([0; 10]) < Enid80::from_bytes([0, 0, 0, 0, 0, 0, 0, 0, 0, 1]));
    assert!(Enid::Enid40(high) < Enid::Enid80(Enid80::from_bytes([0; 10])));
}

#[test]
fn error_message() {
    assert_eq!(EnidParseError.to_string(), "invalid ENID syntax");
    assert_eq!(EnidParseError, EnidParseError::default());
}

#[test]
fn write_to_buffer_fills_the_text() {
    let mut small = [0u8; 8];
    Enid40::from_bytes([240, 225, 210, 195, 180]).write_to_buffer(&mut small);
    assert_eq!(&small, b"y3gx5gxm");

    let mut large = [0u8; 17];
    Enid80::from_bytes([240, 225, 210, 195, 180, 165, 150, 135, 120, 105])
        .write_to_buffer(&mut large);
    assert_eq!(&large, b"y3gx5gxm-mpb8ey39");
}
