use monitor::xprop::{
    parse_active_window, parse_all_windows, parse_hex, parse_window_info, split_fields,
    BackendError, Property,
};

fn chars(s: &str) -> Vec<char> {
    s.chars().collect()
}

fn info(out: &[u8]) -> Result<Option<(String, String)>, BackendError> {
    parse_window_info(out).map(|w| w.map(|w| (w.program, w.title)))
}

#[test]
fn fields_lie_between_bars() {
    assert_eq!(split_fields(b""), vec![b"".to_vec()]);
    assert_eq!(split_fields(b"abc"), vec![b"abc".to_vec()]);
    assert_eq!(split_fields(b"a|bc|"), vec![b"a".to_vec(), b"bc".to_vec(), b"".to_vec()]);
    assert_eq!(split_fields(b"||"), vec![b"".to_vec(), b"".to_vec(), b"".to_vec()]);
}

#[test]
fn hexadecimal_numbers_are_read() {
    assert_eq!(parse_hex(&chars("0")), Some(0));
    assert_eq!(parse_hex(&chars("3a00007")), Some(0x3a00007));
    assert_eq!(parse_hex(&chars("DeadBeef")), Some(0xdeadbeef));
    assert_eq!(parse_hex(&chars("ffffffff")), Some(u32::MAX));
    assert_eq!(parse_hex(&chars("00000000000001f")), Some(0x1f));
    assert_eq!(parse_hex(&chars("+1f")), Some(0x1f));
}

#[test]
fn what_is_no_hexadecimal_number_is_refused() {
    assert_eq!(parse_hex(&chars("")), None);
    assert_eq!(parse_hex(&chars("+")), None);
    assert_eq!(parse_hex(&chars("-1")), None);
    assert_eq!(parse_hex(&chars("++1")), None);
    assert_eq!(parse_hex(&chars("1+")), None);
    assert_eq!(parse_hex(&chars("12g")), None);
    assert_eq!(parse_hex(&chars("0x12")), None);
    assert_eq!(parse_hex(&chars(" 12")), None);
    assert_eq!(parse_hex(&chars("12\n")), None);
    assert_eq!(parse_hex(&chars("100000000")), None);
    assert_eq!(parse_hex(&chars("fffffffff")), None);
    assert_eq!(parse_hex(&chars("\u{ff11}")), None);
}

#[test]
fn hexadecimal_numbers_agree_with_the_standard_library() {
    let samples = [
        "", "0", "7", "a", "F", "1f", "+1f", "-1f", "+", "12g", "ffffffff", "100000000",
        "0000000000", "+00ff", "g", "1 ", "fffffffe", "123456789", "abcdef01",
    ];
    for sample in samples {
        assert_eq!(parse_hex(&chars(sample)), u32::from_str_radix(sample, 16).ok());
    }
}

#[test]
fn active_window_is_the_number_in_the_second_field() {
    assert_eq!(parse_active_window(b"_NET_ACTIVE_WINDOW(WINDOW)|0x3a00007"), Ok(0x3a00007));
    assert_eq!(parse_active_window(b"x|0x0"), Ok(0));
    assert_eq!(parse_active_window(b"|zzff|more"), Ok(0xff));
}

#[test]
fn active_window_errors() {
    assert_eq!(
        parse_active_window(b"_NET_ACTIVE_WINDOW(WINDOW)"),
        Err(BackendError::Missing(Property::ActiveWindow))
    );
    assert_eq!(parse_active_window(b""), Err(BackendError::Missing(Property::ActiveWindow)));
    assert_eq!(parse_active_window(b"x|0"), Err(BackendError::TooShort));
    assert_eq!(parse_active_window(b"x|"), Err(BackendError::TooShort));
    assert_eq!(parse_active_window(b"x|0x"), Err(BackendError::NotHex));
    assert_eq!(parse_active_window(b"x|0x12\n"), Err(BackendError::NotHex));
    assert_eq!(parse_active_window(b"x|0x1ffffffff"), Err(BackendError::NotHex));
    assert_eq!(parse_active_window(b"x|0x\xff"), Err(BackendError::NotUtf8));
}

#[test]
fn window_list_is_read_in_order() {
    assert_eq!(
        parse_all_windows(b"_NET_CLIENT_LIST(WINDOW)|0x1400003, 0x3a00007, 0x2"),
        Ok(vec![0x1400003, 0x3a00007, 0x2])
    );
    assert_eq!(parse_all_windows(b"x|0x1"), Ok(vec![1]));
    assert_eq!(parse_all_windows(b"x|0x1, 0x2|ignored"), Ok(vec![1, 2]));
    assert_eq!(parse_all_windows("x|\u{e9}1f".as_bytes()), Ok(vec![0x1f]));
}

#[test]
fn window_list_errors() {
    assert_eq!(parse_all_windows(b"none"), Err(BackendError::Missing(Property::ClientList)));
    assert_eq!(parse_all_windows(b"x|"), Err(BackendError::TooShort));
    assert_eq!(parse_all_windows(b"x|0x1, "), Err(BackendError::TooShort));
    assert_eq!(parse_all_windows(b"x|0x1, 0"), Err(BackendError::TooShort));
    assert_eq!(parse_all_windows(b"x|0x1,0x2"), Err(BackendError::NotHex));
    assert_eq!(parse_all_windows(b"x|0x1, 0x"), Err(BackendError::NotHex));
    assert_eq!(parse_all_windows(b"x|0xzz, 0"), Err(BackendError::NotHex));
    assert_eq!(parse_all_windows(b"x|0x1, 0x\xff"), Err(BackendError::NotUtf8));
    assert_eq!(parse_all_windows("x|0\u{e9}1".as_bytes()), Err(BackendError::TooShort));
    assert_eq!(parse_all_windows("x|\u{20ac}1".as_bytes()), Err(BackendError::TooShort));
}

#[test]
fn window_info_of_a_normal_window() {
    let out = b"_NET_WM_NAME(UTF8_STRING)|\"Cat Videos\"|WM_CLASS(STRING)|\"firefox\"|_NET_WM_WINDOW_TYPE(ATOM)|_NET_WM_WINDOW_TYPE_NORMAL";
    assert_eq!(info(out), Ok(Some(("firefox".to_string(), "Cat Videos".to_string()))));
    assert_eq!(info(b"|\"\"||\"\"||_NET_WM_WINDOW_TYPE_NORMAL"), Ok(Some((String::new(), String::new()))));
    assert_eq!(
        info(b"a|xTy|b|xPy|c|_NET_WM_WINDOW_TYPE_NORMAL|more|fields"),
        Ok(Some(("P".to_string(), "T".to_string())))
    );
}

#[test]
fn window_info_decodes_utf8() {
    let out = "n|\"Caf\u{e9} \u{2014} Mozilla Firefox\"|c|\"\u{c9}diteur\"|t|_NET_WM_WINDOW_TYPE_NORMAL";
    assert_eq!(
        info(out.as_bytes()),
        Ok(Some(("\u{c9}diteur".to_string(), "Caf\u{e9} \u{2014} Mozilla Firefox".to_string())))
    );
}

#[test]
fn window_of_another_type_is_left_out() {
    assert_eq!(info(b"n|\"t\"|c|\"p\"|t|_NET_WM_WINDOW_TYPE_DOCK"), Ok(None));
    assert_eq!(info(b"n|\"t\"|c|\"p\"|t|"), Ok(None));
    assert_eq!(info(b"n|\"t\"|c|\"p\"|t|_NET_WM_WINDOW_TYPE_NORMAL\n"), Ok(None));
    assert_eq!(info(b"n|\"t\"|c|\"p\"|t|_net_wm_window_type_normal"), Ok(None));
}

#[test]
fn window_info_errors() {
    assert_eq!(info(b""), Err(BackendError::Missing(Property::Name)));
    assert_eq!(info(b"n"), Err(BackendError::Missing(Property::Name)));
    assert_eq!(info(b"n|\"t\""), Err(BackendError::Missing(Property::Class)));
    assert_eq!(info(b"n|\"t\"|c"), Err(BackendError::Missing(Property::Class)));
    assert_eq!(info(b"n|\"t\"|c|\"p\""), Err(BackendError::Missing(Property::WindowType)));
    assert_eq!(info(b"n|\"t\"|c|\"p\"|t"), Err(BackendError::Missing(Property::WindowType)));
    assert_eq!(info(b"n|\"|c|\"p\"|t|x"), Err(BackendError::TooShort));
    assert_eq!(info(b"n||c|\"p\"|t|x"), Err(BackendError::TooShort));
    assert_eq!(info(b"n|\"t\"|c|p|t|x"), Err(BackendError::TooShort));
    assert_eq!(info(b"n|\"\xff\"|c|\"p\"|t|x"), Err(BackendError::NotUtf8));
    assert_eq!(info(b"n|\"t\"|c|\"\xc3\"|t|x"), Err(BackendError::NotUtf8));
    assert_eq!(info(b"n|\"t\"|c|\"p\"|t|\xff"), Err(BackendError::NotUtf8));
}

#[test]
fn window_info_reports_the_first_thing_that_is_wrong() {
    assert_eq!(info(b"n|\"\xff\""), Err(BackendError::NotUtf8));
    assert_eq!(info(b"n|\"|c"), Err(BackendError::TooShort));
    assert_eq!(info(b"n|\"t\"|c|\"|t|\xff"), Err(BackendError::TooShort));
}

#[test]
fn backend_errors_say_what_is_wrong() {
    assert_eq!(
        BackendError::Missing(Property::ActiveWindow).message(),
        "error parsing _NET_ACTIVE_WINDOW"
    );
    assert_eq!(
        BackendError::Missing(Property::ClientList).message(),
        "error parsing _NET_CLIENT_LIST"
    );
    assert_eq!(BackendError::Missing(Property::Name).message(), "error parsing _NET_WM_NAME");
    assert_eq!(BackendError::Missing(Property::Class).message(), "error parsing WM_CLASS");
    assert_eq!(
        BackendError::Missing(Property::WindowType).message(),
        "error parsing _NET_WM_WINDOW_TYPE"
    );
    assert_eq!(BackendError::TooShort.message(), "value too short");
    assert_eq!(BackendError::NotUtf8.message(), "invalid utf-8 sequence");
    assert_eq!(BackendError::NotHex.message(), "invalid digit found in string");
}
