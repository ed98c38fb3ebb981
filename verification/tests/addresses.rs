use profidcp::error::DcpError;
use profidcp::utils::{
    dotted_decimal_bytes_to_string, mac_address_bytes_to_string, mac_address_string_to_bytes,
};

#[test]
fn mac_string_to_bytes_plain() {
    assert_eq!(
        mac_address_string_to_bytes("01:0e:cf:00:00:00"),
        Ok(vec![0x01, 0x0e, 0xcf, 0x00, 0x00, 0x00])
    );
    assert_eq!(
        mac_address_string_to_bytes("AA:bb:Cc:dD:EE:ff"),
        Ok(vec![0xaa, 0xbb, 0xcc, 0xdd, 0xee, 0xff])
    );
}

#[test]
fn mac_string_to_bytes_trims_spaces() {
    assert_eq!(
        mac_address_string_to_bytes("  00:11:22:33:44:55\n"),
        Ok(vec![0x00, 0x11, 0x22, 0x33, 0x44, 0x55])
    );
    assert_eq!(mac_address_string_to_bytes("\t7f\r"), Ok(vec![0x7f]));
}

#[test]
fn mac_string_to_bytes_component_forms() {
    assert_eq!(mac_address_string_to_bytes("a:B:0:f"), Ok(vec![10, 11, 0, 15]));
    assert_eq!(mac_address_string_to_bytes("+a:000ff"), Ok(vec![10, 255]));
    assert_eq!(mac_address_string_to_bytes("ff"), Ok(vec![255]));
}

#[test]
fn mac_string_to_bytes_rejects_bad_text() {
    let bad = [
        "",
        "   ",
        ":",
        "00:",
        ":00",
        "00::11",
        "0g",
        "100",
        "1ff",
        "+",
        "-1",
        "00-11",
        "00: 11",
        "00 :11",
        "0x1f",
        "é",
        "00:11:22:33:44:zz",
    ];
    for text in bad {
        assert_eq!(
            mac_address_string_to_bytes(text),
            Err(DcpError::InvalidAddress),
            "{:?}",
            text
        );
    }
}

#[test]
fn mac_bytes_to_string_is_lower_case_hex() {
    assert_eq!(
        mac_address_bytes_to_string(&[0x01, 0x0e, 0xcf, 0x00, 0xAB, 0xff]),
        "01:0e:cf:00:ab:ff"
    );
    assert_eq!(mac_address_bytes_to_string(&[]), "");
    assert_eq!(mac_address_bytes_to_string(&[0x0a]), "0a");
    assert_eq!(mac_address_bytes_to_string(&[0x9f, 0xf9]), "9f:f9");
}

#[test]
fn mac_text_round_trip() {
    let bytes = vec![0x00, 0x1b, 0x1b, 0x9a, 0xbc, 0xde];
    let text = mac_address_bytes_to_string(&bytes);
    assert_eq!(mac_address_string_to_bytes(&text), Ok(bytes));
}

#[test]
fn dotted_decimal_forms() {
    assert_eq!(dotted_decimal_bytes_to_string(&[192, 168, 0, 10]), "192.168.0.10");
    assert_eq!(dotted_decimal_bytes_to_string(&[255, 255, 255, 0]), "255.255.255.0");
    assert_eq!(dotted_decimal_bytes_to_string(&[0, 9, 10, 99, 100, 109, 200]), "0.9.10.99.100.109.200");
    assert_eq!(dotted_decimal_bytes_to_string(&[7]), "7");
    assert_eq!(dotted_decimal_bytes_to_string(&[]), "");
}

#[test]
fn dotted_decimal_of_every_byte() {
    let mut b = 0u8;
    loop {
        assert_eq!(dotted_decimal_bytes_to_string(&[b, b]), format!("{}.{}", b, b));
        assert_eq!(mac_address_bytes_to_string(&[b]), format!("{:02x}", b));
        if b == 255 {
            break;
        }
        b += 1;
    }
}
