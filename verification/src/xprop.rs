//! Reading what `xprop` prints: the focused window, the list of windows, and
//! the description of one window. The output is a run of fields parted by
//! bars; the values stand in the second field, the fourth and the sixth.

use crate::client::{Window, WindowInfo};
use crate::scan::{slice, split, split_text, views};
use crate::text::chars_of;
use vstd::prelude::*;
use vstd::utf8::{decode_utf8, valid_utf8};

verus! {

/// The properties that are asked of `xprop`.
#[derive(Clone, Copy, Debug, PartialEq, Eq, Structural)]
pub enum Property {
    ActiveWindow,
    ClientList,
    Name,
    Class,
    WindowType,
}

/// Why the output of the window backend could not be read.
#[derive(Clone, Copy, Debug, PartialEq, Eq, Structural)]
pub enum BackendError {
    /// The output has no field for the property.
    Missing(Property),
    /// A value is too short to hold what surrounds it: the `0x` of a number,
    /// or the quotes of a text.
    TooShort,
    /// A value is not UTF-8.
    NotUtf8,
    /// A number is not written in hexadecimal digits, or does not fit 32 bits.
    NotHex,
}

/// The byte that parts the fields.
pub open spec fn bar_byte() -> u8 {
    0x7c
}

/// The fields of `out`: what stands between its bars. There is always at
/// least one field.
pub open spec fn fields(out: Seq<u8>) -> Seq<Seq<u8>>
    decreases out.len(),
{
    if out.len() == 0 {
        seq![Seq::empty()]
    } else {
        let before = fields(out.drop_last());
        if out.last() == bar_byte() {
            before.push(Seq::empty())
        } else {
            before.drop_last().push(before.last().push(out.last()))
        }
    }
}

/// The value of a hexadecimal digit.
pub open spec fn hex_digit(c: char) -> Option<nat> {
    if '0' <= c <= '9' {
        Some((c as u32 - 0x30) as nat)
    } else if 'a' <= c <= 'f' {
        Some((c as u32 - 0x61 + 10) as nat)
    } else if 'A' <= c <= 'F' {
        Some((c as u32 - 0x41 + 10) as nat)
    } else {
        None
    }
}

/// The number that the hexadecimal digits `s` write, if `s` is not empty and
/// holds nothing but such digits.
pub open spec fn hex_number(s: Seq<char>) -> Option<nat>
    decreases s.len(),
{
    if s.len() == 0 {
        None
    } else if s.len() == 1 {
        hex_digit(s[0])
    } else {
        match (hex_number(s.drop_last()), hex_digit(s.last())) {
            (Some(n), Some(d)) => Some(16 * n + d),
            _ => None,
        }
    }
}

/// The 32-bit number that `s` writes in hexadecimal, with or without a plus
/// sign before its digits.
pub open spec fn spec_parse_hex(s: Seq<char>) -> Option<u32> {
    let digits = if s.len() > 0 && s[0] == '+' {
        s.drop_first()
    } else {
        s
    };
    match hex_number(digits) {
        Some(n) => if n <= u32::MAX {
            Some(n as u32)
        } else {
            None
        },
        None => None,
    }
}

/// What follows the first two bytes of the UTF-8 form of `s`, if its second
/// byte ends a character.
pub open spec fn after_two_bytes(s: Seq<char>) -> Option<Seq<char>> {
    if s.len() >= 2 && s[0] <= '\u{7f}' && s[1] <= '\u{7f}' {
        Some(s.skip(2))
    } else if s.len() >= 1 && '\u{80}' <= s[0] <= '\u{7ff}' {
        Some(s.skip(1))
    } else {
        None
    }
}

/// The text that the bytes `value` hold in UTF-8.
pub open spec fn text_in(value: Seq<u8>) -> Result<Seq<char>, BackendError> {
    if valid_utf8(value) {
        Ok(decode_utf8(value))
    } else {
        Err(BackendError::NotUtf8)
    }
}

/// The number that a value of the form `0x` and hexadecimal digits holds.
/// The first two bytes are passed over, whatever they are.
pub open spec fn number_in(value: Seq<u8>) -> Result<u32, BackendError> {
    if value.len() < 2 {
        Err(BackendError::TooShort)
    } else {
        match text_in(value.skip(2)) {
            Err(e) => Err(e),
            Ok(text) => match spec_parse_hex(text) {
                Some(n) => Ok(n),
                None => Err(BackendError::NotHex),
            },
        }
    }
}

/// The text that a value holds between its first and its last byte, which
/// are its quotes.
pub open spec fn quoted_in(value: Seq<u8>) -> Result<Seq<char>, BackendError> {
    if value.len() < 2 {
        Err(BackendError::TooShort)
    } else {
        text_in(value.subrange(1, value.len() - 1))
    }
}

/// The handle of the focused window: the number in the second field.
pub open spec fn spec_active_window(out: Seq<u8>) -> Result<u32, BackendError> {
    if fields(out).len() < 2 {
        Err(BackendError::Missing(Property::ActiveWindow))
    } else {
        number_in(fields(out)[1])
    }
}

/// The number that one item of the window list holds.
pub open spec fn handle_in(item: Seq<char>) -> Result<u32, BackendError> {
    match after_two_bytes(item) {
        None => Err(BackendError::TooShort),
        Some(digits) => match spec_parse_hex(digits) {
            Some(n) => Ok(n),
            None => Err(BackendError::NotHex),
        },
    }
}

/// The numbers that the items hold, or what is wrong with the first item
/// that holds none.
pub open spec fn handles_in(items: Seq<Seq<char>>) -> Result<Seq<u32>, BackendError>
    decreases items.len(),
{
    if items.len() == 0 {
        Ok(Seq::empty())
    } else {
        match handles_in(items.drop_last()) {
            Err(e) => Err(e),
            Ok(before) => match handle_in(items.last()) {
                Err(e) => Err(e),
                Ok(n) => Ok(before.push(n)),
            },
        }
    }
}

/// The handles of the open windows: the second field holds them, parted by
/// a comma and a space.
pub open spec fn spec_all_windows(out: Seq<u8>) -> Result<Seq<u32>, BackendError> {
    if fields(out).len() < 2 {
        Err(BackendError::Missing(Property::ClientList))
    } else {
        match text_in(fields(out)[1]) {
            Err(e) => Err(e),
            Ok(text) => handles_in(split(text, ", "@)),
        }
    }
}

/// The description of a window: its title is quoted in the second field and
/// its process name in the fourth; the sixth holds the type of the window,
/// and a window of another type than the normal one is left out.
pub open spec fn spec_window_info(out: Seq<u8>) -> Result<Option<Window>, BackendError> {
    let all = fields(out);
    if all.len() < 2 {
        Err(BackendError::Missing(Property::Name))
    } else {
        match quoted_in(all[1]) {
            Err(e) => Err(e),
            Ok(title) => if all.len() < 4 {
                Err(BackendError::Missing(Property::Class))
            } else {
                match quoted_in(all[3]) {
                    Err(e) => Err(e),
                    Ok(program) => if all.len() < 6 {
                        Err(BackendError::Missing(Property::WindowType))
                    } else {
                        match text_in(all[5]) {
                            Err(e) => Err(e),
                            Ok(kind) => if kind == "_NET_WM_WINDOW_TYPE_NORMAL"@ {
                                Ok(Some(Window { program, title }))
                            } else {
                                Ok(None)
                            },
                        }
                    },
                }
            },
        }
    }
}

/// Calls `std::str::from_utf8` and copies the text that it gives. The
/// contract claims that the call succeeds exactly on valid UTF-8, and that
/// the text is then what the bytes encode.
#[verifier::external_body]
fn from_utf8(bytes: &Vec<u8>) -> (text: Option<String>)
    ensures
        text is Some <==> valid_utf8(bytes@),
        text matches Some(s) ==> s@ == decode_utf8(bytes@),
{
    match std::str::from_utf8(bytes.as_slice()) {
        Ok(s) => Some(s.to_owned()),
        Err(_) => None,
    }
}

/// The byte vectors' contents.
pub open spec fn byte_views(parts: Seq<Vec<u8>>) -> Seq<Seq<u8>> {
    Seq::new(parts.len(), |i: int| parts[i]@)
}

/// The fields of `out`.
pub fn split_fields(out: &[u8]) -> (parts: Vec<Vec<u8>>)
    ensures
        byte_views(parts@) == fields(out@),
{
    let mut parts: Vec<Vec<u8>> = Vec::new();
    let mut current: Vec<u8> = Vec::new();
    let mut i: usize = 0;
    assert(out@.take(0) == Seq::<u8>::empty());
    assert(byte_views(parts@).push(current@) == fields(out@.take(0)));
    while i < out.len()
        invariant
            i <= out.len(),
            byte_views(parts@).push(current@) == fields(out@.take(i as int)),
        decreases out.len() - i,
    {
        let ghost before = byte_views(parts@).push(current@);
        proof {
            assert(out@.take(i + 1).drop_last() == out@.take(i as int));
            assert(before.last() == current@);
            assert(before.drop_last() == byte_views(parts@));
        }
        if out[i] == 0x7c {
            proof {
                assert(byte_views(parts@.push(current)) == byte_views(parts@).push(current@));
            }
            parts.push(current);
            current = Vec::new();
        } else {
            current.push(out[i]);
        }
        i += 1;
    }
    proof {
        assert(out@.take(out.len() as int) == out@);
        assert(byte_views(parts@.push(current)) == byte_views(parts@).push(current@));
    }
    parts.push(current);
    parts
}

/// The bytes of `value` from position `from` up to, not including, `to`.
fn byte_slice(value: &Vec<u8>, from: usize, to: usize) -> (r: Vec<u8>)
    requires
        from <= to <= value.len(),
    ensures
        r@ == value@.subrange(from as int, to as int),
{
    let mut r: Vec<u8> = Vec::new();
    let mut i: usize = from;
    while i < to
        invariant
            from <= i <= to <= value.len(),
            r@ == value@.subrange(from as int, i as int),
        decreases to - i,
    {
        r.push(value[i]);
        i += 1;
    }
    r
}

/// A number only grows as digits are added: where digits write a number,
/// each beginning of them writes one that is no larger.
pub proof fn lemma_hex_prefix(s: Seq<char>, k: int)
    requires
        1 <= k <= s.len(),
        hex_number(s) is Some,
    ensures
        hex_number(s.take(k)) is Some,
        hex_number(s.take(k))->0 <= hex_number(s)->0,
    decreases s.len() - k,
{
    if k == s.len() {
        assert(s.take(k) == s);
    } else {
        assert(s.drop_last().take(k) == s.take(k));
        lemma_hex_prefix(s.drop_last(), k);
    }
}

/// The value of the hexadecimal digit `c`.
pub fn hex_digit_of(c: char) -> (d: Option<u32>)
    ensures
        match d {
            Some(d) => hex_digit(c) == Some(d as nat) && d < 16,
            None => hex_digit(c) is None,
        },
{
    if '0' <= c && c <= '9' {
        Some(c as u32 - 0x30)
    } else if 'a' <= c && c <= 'f' {
        Some(c as u32 - 0x61 + 10)
    } else if 'A' <= c && c <= 'F' {
        Some(c as u32 - 0x41 + 10)
    } else {
        None
    }
}

/// The 32-bit number that `s` writes in hexadecimal.
pub fn parse_hex(s: &Vec<char>) -> (n: Option<u32>)
    ensures
        n == spec_parse_hex(s@),
{
    let start: usize = if s.len() > 0 && s[0] == '+' {
        1
    } else {
        0
    };
    let ghost digits = s@.skip(start as int);
    proof {
        if start == 1 {
            assert(s@.drop_first() == s@.skip(1));
        } else {
            assert(s@.skip(0) == s@);
        }
    }
    if start == s.len() {
        return None;
    }
    let mut n: u32 = 0;
    let mut i: usize = start;
    while i < s.len()
        invariant
            start <= i <= s.len(),
            start < s.len(),
            digits == s@.skip(start as int),
            spec_parse_hex(s@) == match hex_number(digits) {
                Some(n) => if n <= u32::MAX {
                    Some(n as u32)
                } else {
                    None
                },
                None => None,
            },
            i > start ==> hex_number(digits.take(i - start)) == Some(n as nat),
            i == start ==> n == 0,
        decreases s.len() - i,
    {
        let ghost k = i - start + 1;
        proof {
            assert(digits.take(k).drop_last() == digits.take(k - 1));
            assert(digits.take(k).last() == s@[i as int]);
        }
        match hex_digit_of(s[i]) {
            None => {
                proof {
                    assert(hex_number(digits.take(k)) is None);
                    if hex_number(digits) is Some {
                        lemma_hex_prefix(digits, k);
                    }
                }
                return None;
            },
            Some(d) => {
                if n > (u32::MAX - d) / 16 {
                    proof {
                        assert(i > start);
                        assert(hex_number(digits.take(k)) == Some((16 * n + d) as nat));
                        if hex_number(digits) is Some {
                            lemma_hex_prefix(digits, k);
                        }
                    }
                    return None;
                }
                proof {
                    if i == start {
                        assert(digits.take(k).len() == 1);
                        assert(digits.take(k)[0] == s@[i as int]);
                    }
                }
                n = 16 * n + d;
            },
        }
        i += 1;
    }
    assert(digits.take(s.len() - start) == digits);
    Some(n)
}

/// What follows the first two bytes of the UTF-8 form of `s`.
fn skip_two_bytes(s: &Vec<char>) -> (r: Option<Vec<char>>)
    ensures
        match r {
            Some(rest) => after_two_bytes(s@) == Some(rest@),
            None => after_two_bytes(s@) is None,
        },
{
    if s.len() >= 2 && s[0] <= '\u{7f}' && s[1] <= '\u{7f}' {
        Some(slice(s, 2, s.len()))
    } else if s.len() >= 1 && '\u{80}' <= s[0] && s[0] <= '\u{7ff}' {
        Some(slice(s, 1, s.len()))
    } else {
        None
    }
}

/// The text that the bytes `value` hold.
fn read_text(value: &Vec<u8>) -> (r: Result<String, BackendError>)
    ensures
        match r {
            Ok(s) => text_in(value@) == Ok::<Seq<char>, BackendError>(s@),
            Err(e) => text_in(value@) == Err::<Seq<char>, BackendError>(e),
        },
{
    match from_utf8(value) {
        Some(s) => Ok(s),
        None => Err(BackendError::NotUtf8),
    }
}

/// The number that a value of the form `0x` and hexadecimal digits holds.
fn read_number(value: &Vec<u8>) -> (r: Result<u32, BackendError>)
    ensures
        r == number_in(value@),
{
    if value.len() < 2 {
        return Err(BackendError::TooShort);
    }
    let digits = byte_slice(value, 2, value.len());
    assert(digits@ == value@.skip(2));
    match read_text(&digits) {
        Err(e) => Err(e),
        Ok(text) => match parse_hex(&chars_of(text.as_str())) {
            Some(n) => Ok(n),
            None => Err(BackendError::NotHex),
        },
    }
}

/// The text that a value holds between its quotes.
fn read_quoted(value: &Vec<u8>) -> (r: Result<String, BackendError>)
    ensures
        match r {
            Ok(s) => quoted_in(value@) == Ok::<Seq<char>, BackendError>(s@),
            Err(e) => quoted_in(value@) == Err::<Seq<char>, BackendError>(e),
        },
{
    if value.len() < 2 {
        return Err(BackendError::TooShort);
    }
    let inner = byte_slice(value, 1, value.len() - 1);
    read_text(&inner)
}

/// The handle of the focused window, from what `xprop` prints of the root
/// window's `_NET_ACTIVE_WINDOW`.
pub fn parse_active_window(out: &[u8]) -> (r: Result<u32, BackendError>)
    ensures
        r == spec_active_window(out@),
{
    let all = split_fields(out);
    if all.len() < 2 {
        return Err(BackendError::Missing(Property::ActiveWindow));
    }
    assert(byte_views(all@)[1] == all@[1]@);
    read_number(&all[1])
}

/// The handles of the open windows, from what `xprop` prints of the root
/// window's `_NET_CLIENT_LIST`.
pub fn parse_all_windows(out: &[u8]) -> (r: Result<Vec<u32>, BackendError>)
    ensures
        match r {
            Ok(handles) => spec_all_windows(out@) == Ok::<Seq<u32>, BackendError>(handles@),
            Err(e) => spec_all_windows(out@) == Err::<Seq<u32>, BackendError>(e),
        },
{
    let all = split_fields(out);
    if all.len() < 2 {
        return Err(BackendError::Missing(Property::ClientList));
    }
    assert(byte_views(all@)[1] == all@[1]@);
    let text = match read_text(&all[1]) {
        Err(e) => {
            return Err(e);
        },
        Ok(text) => text,
    };
    let items = split_text(&chars_of(text.as_str()), &chars_of(", "));
    let ghost listed = views(items@);
    let mut handles: Vec<u32> = Vec::new();
    let mut i: usize = 0;
    assert(listed.take(0) == Seq::<Seq<char>>::empty());
    while i < items.len()
        invariant
            i <= items.len(),
            listed == views(items@),
            spec_all_windows(out@) == handles_in(listed),
            handles_in(listed.take(i as int)) == Ok::<Seq<u32>, BackendError>(handles@),
        decreases items.len() - i,
    {
        proof {
            assert(listed.take(i + 1).drop_last() == listed.take(i as int));
            assert(listed.take(i + 1).last() == items@[i as int]@);
        }
        let digits = match skip_two_bytes(&items[i]) {
            None => {
                proof {
                    assert(handles_in(listed.take(i + 1)) == Err::<Seq<u32>, BackendError>(
                        BackendError::TooShort,
                    ));
                    lemma_handles_fail(listed, i + 1);
                }
                return Err(BackendError::TooShort);
            },
            Some(digits) => digits,
        };
        match parse_hex(&digits) {
            None => {
                proof {
                    assert(handles_in(listed.take(i + 1)) == Err::<Seq<u32>, BackendError>(
                        BackendError::NotHex,
                    ));
                    lemma_handles_fail(listed, i + 1);
                }
                return Err(BackendError::NotHex);
            },
            Some(n) => {
                handles.push(n);
            },
        }
        i += 1;
    }
    assert(listed.take(items.len() as int) == listed);
    Ok(handles)
}

/// What is wrong with a beginning of the items is what is wrong with all of
/// them.
pub proof fn lemma_handles_fail(items: Seq<Seq<char>>, k: int)
    requires
        0 <= k <= items.len(),
        handles_in(items.take(k)) is Err,
    ensures
        handles_in(items) == handles_in(items.take(k)),
    decreases items.len() - k,
{
    if k == items.len() {
        assert(items.take(k) == items);
    } else {
        assert(items.drop_last().take(k) == items.take(k));
        lemma_handles_fail(items.drop_last(), k);
    }
}

/// The description of a window, from what `xprop` prints of its
/// `_NET_WM_NAME`, `WM_CLASS` and `_NET_WM_WINDOW_TYPE`; nothing for a window
/// that is not of the normal type.
pub fn parse_window_info(out: &[u8]) -> (r: Result<Option<WindowInfo>, BackendError>)
    ensures
        match r {
            Ok(Some(info)) => spec_window_info(out@) == Ok::<Option<Window>, BackendError>(
                Some(info@),
            ),
            Ok(None) => spec_window_info(out@) == Ok::<Option<Window>, BackendError>(None),
            Err(e) => spec_window_info(out@) == Err::<Option<Window>, BackendError>(e),
        },
{
    let all = split_fields(out);
    if all.len() < 2 {
        return Err(BackendError::Missing(Property::Name));
    }
    assert(byte_views(all@)[1] == all@[1]@);
    let title = match read_quoted(&all[1]) {
        Err(e) => {
            return Err(e);
        },
        Ok(title) => title,
    };
    if all.len() < 4 {
        return Err(BackendError::Missing(Property::Class));
    }
    assert(byte_views(all@)[3] == all@[3]@);
    let program = match read_quoted(&all[3]) {
        Err(e) => {
            return Err(e);
        },
        Ok(program) => program,
    };
    if all.len() < 6 {
        return Err(BackendError::Missing(Property::WindowType));
    }
    assert(byte_views(all@)[5] == all@[5]@);
    let kind = match read_text(&all[5]) {
        Err(e) => {
            return Err(e);
        },
        Ok(kind) => kind,
    };
    if kind == "_NET_WM_WINDOW_TYPE_NORMAL".to_owned() {
        Ok(Some(WindowInfo { program, title }))
    } else {
        Ok(None)
    }
}

impl BackendError {
    /// The error in words.
    pub fn message(&self) -> (text: String)
        ensures
            text@ == match *self {
                BackendError::Missing(Property::ActiveWindow) => "error parsing _NET_ACTIVE_WINDOW"@,
                BackendError::Missing(Property::ClientList) => "error parsing _NET_CLIENT_LIST"@,
                BackendError::Missing(Property::Name) => "error parsing _NET_WM_NAME"@,
                BackendError::Missing(Property::Class) => "error parsing WM_CLASS"@,
                BackendError::Missing(Property::WindowType) => "error parsing _NET_WM_WINDOW_TYPE"@,
                BackendError::TooShort => "value too short"@,
                BackendError::NotUtf8 => "invalid utf-8 sequence"@,
                BackendError::NotHex => "invalid digit found in string"@,
            },
    {
        match self {
            BackendError::Missing(Property::ActiveWindow) => "error parsing _NET_ACTIVE_WINDOW".to_owned(),
            BackendError::Missing(Property::ClientList) => "error parsing _NET_CLIENT_LIST".to_owned(),
            BackendError::Missing(Property::Name) => "error parsing _NET_WM_NAME".to_owned(),
            BackendError::Missing(Property::Class) => "error parsing WM_CLASS".to_owned(),
            BackendError::Missing(Property::WindowType) => "error parsing _NET_WM_WINDOW_TYPE".to_owned(),
            BackendError::TooShort => "value too short".to_owned(),
            BackendError::NotUtf8 => "invalid utf-8 sequence".to_owned(),
            BackendError::NotHex => "invalid digit found in string".to_owned(),
        }
    }
}

} // verus!
