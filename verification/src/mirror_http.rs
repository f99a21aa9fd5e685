use vstd::prelude::*;

use crate::capture_mirror::DEFAULT_BIND_ADDRESS;
use crate::decimal::{decimal, decimal_string};
use crate::sfx_manifest::{ascii_lower, is_white_space};
use crate::text_eq::str_equal;

verus! {

/// The characters of `text`, in order.
fn chars_of(text: &str) -> (chars: Vec<char>)
    ensures
        chars@ == text@,
{
    let ghost all = text@;
    let mut chars: Vec<char> = Vec::new();
    for character in it: text.chars()
        invariant
            it.seq() == all,
            chars@ == all.take(it.index() as int),
    {
        let ghost i = it.index() as int;
        assert(character == all[i]);
        chars.push(character);
        assert(chars@ =~= all.take(i + 1));
    }
    assert(all.take(all.len() as int) =~= all);
    chars
}

/// First position from `i` on, before `end`, that is not white space; `end` if none.
pub open spec fn skip_white(s: Seq<char>, i: int, end: int) -> int
    decreases end - i,
{
    if i >= end || !is_white_space(s[i]) {
        i
    } else {
        skip_white(s, i + 1, end)
    }
}

/// First position from `i` on, before `end`, that is white space; `end` if none.
pub open spec fn skip_word(s: Seq<char>, i: int, end: int) -> int
    decreases end - i,
{
    if i >= end || is_white_space(s[i]) {
        i
    } else {
        skip_word(s, i + 1, end)
    }
}

/// First position from `i` on that holds `c`; the length if none.
pub open spec fn find_char(s: Seq<char>, c: char, i: int) -> int
    decreases s.len() - i,
{
    if i >= s.len() || s[i] == c {
        i
    } else {
        find_char(s, c, i + 1)
    }
}

/// The second white-space separated word of the request's first line (the request
/// target of an HTTP request line), if it has one.
pub open spec fn request_target(request: Seq<char>) -> Option<Seq<char>> {
    let end = find_char(request, '\n', 0);
    let method_start = skip_white(request, 0, end);
    let method_end = skip_word(request, method_start, end);
    let target_start = skip_white(request, method_end, end);
    if target_start < end {
        Some(request.subrange(target_start, skip_word(request, target_start, end)))
    } else {
        None
    }
}

/// The path a request asks for: its target up to any query, `/` without a target.
pub open spec fn request_path_text(request: Seq<char>) -> Seq<char> {
    match request_target(request) {
        Some(target) => target.take(find_char(target, '?', 0)),
        None => "/"@,
    }
}

fn skip_white_at(s: &Vec<char>, i: usize, end: usize) -> (next: usize)
    requires
        i <= end <= s@.len(),
    ensures
        next == skip_white(s@, i as int, end as int),
        i <= next <= end,
    decreases end - i,
{
    if i >= end || !is_white_space_char(s[i]) {
        i
    } else {
        skip_white_at(s, i + 1, end)
    }
}

fn skip_word_at(s: &Vec<char>, i: usize, end: usize) -> (next: usize)
    requires
        i <= end <= s@.len(),
    ensures
        next == skip_word(s@, i as int, end as int),
        i <= next <= end,
    decreases end - i,
{
    if i >= end || is_white_space_char(s[i]) {
        i
    } else {
        skip_word_at(s, i + 1, end)
    }
}

fn find_char_at(s: &Vec<char>, c: char, i: usize) -> (next: usize)
    requires
        i <= s@.len(),
    ensures
        next == find_char(s@, c, i as int),
        i <= next <= s@.len(),
    decreases s@.len() - i,
{
    if i >= s.len() || s[i] == c {
        i
    } else {
        find_char_at(s, c, i + 1)
    }
}

fn is_white_space_char(c: char) -> (white: bool)
    ensures
        white == is_white_space(c),
{
    let code = c as u32;
    (0x09 <= code && code <= 0x0d) || code == 0x20 || code == 0x85 || code == 0xa0 || code
        == 0x1680 || (0x2000 <= code && code <= 0x200a) || code == 0x2028 || code == 0x2029
        || code == 0x202f || code == 0x205f || code == 0x3000
}

/// The path that an HTTP request asks for: the target of its request line up to
/// any query, or `/` when the line has no target.
pub fn request_path(request: &str) -> (path: String)
    ensures
        path@ == request_path_text(request@),
{
    let chars = chars_of(request);
    let end = find_char_at(&chars, '\n', 0);
    let method_start = skip_white_at(&chars, 0, end);
    let method_end = skip_word_at(&chars, method_start, end);
    let target_start = skip_white_at(&chars, method_end, end);
    if target_start < end {
        let target_end = skip_word_at(&chars, target_start, end);
        let target = request.substring_char(target_start, target_end);
        let target_chars = chars_of(target);
        let query = find_char_at(&target_chars, '?', 0);
        String::from_str(target.substring_char(0, query))
    } else {
        proof {
            reveal_strlit("/");
        }
        let path = String::from_str("/");
        path
    }
}

/// What the capture mirror serves for a path.
#[derive(Debug, Clone, Copy, PartialEq, Eq, Structural)]
pub enum MirrorRoute {
    /// The HTML page that shows the mirror.
    Page,
    /// The endless stream of raw RGBA frames.
    Stream,
    /// One raw RGBA frame.
    Frame,
    /// A liveness check.
    Health,
    /// Anything else.
    NotFound,
}

pub open spec fn route_of(path: Seq<char>) -> MirrorRoute {
    if path == "/"@ {
        MirrorRoute::Page
    } else if path == "/stream.rgba"@ {
        MirrorRoute::Stream
    } else if path == "/frame.rgba"@ {
        MirrorRoute::Frame
    } else if path == "/health"@ {
        MirrorRoute::Health
    } else {
        MirrorRoute::NotFound
    }
}

/// What the mirror serves for `path`.
pub fn mirror_route(path: &str) -> (route: MirrorRoute)
    ensures
        route == route_of(path@),
{
    if str_equal(path, "/") {
        MirrorRoute::Page
    } else if str_equal(path, "/stream.rgba") {
        MirrorRoute::Stream
    } else if str_equal(path, "/frame.rgba") {
        MirrorRoute::Frame
    } else if str_equal(path, "/health") {
        MirrorRoute::Health
    } else {
        MirrorRoute::NotFound
    }
}

/// The header block of a complete HTTP response.
pub open spec fn response_head_text(status: Seq<char>, content_type: Seq<char>, length: nat) -> Seq<char> {
    "HTTP/1.1 "@ + status + "\r\nContent-Type: "@ + content_type + "\r\nContent-Length: "@ + decimal(length)
        + "\r\nCache-Control: no-store, no-cache, must-revalidate\r\nConnection: close\r\n\r\n"@
}

/// The header block of a response with a body of `length` bytes; the connection
/// closes after it and nothing is cached.
pub fn response_head(status: &str, content_type: &str, length: u64) -> (head: String)
    ensures
        head@ == response_head_text(status@, content_type@, length as nat),
{
    let mut head = String::from_str("HTTP/1.1 ");
    head.append(status);
    head.append("\r\nContent-Type: ");
    head.append(content_type);
    head.append("\r\nContent-Length: ");
    let length_text = decimal_string(length);
    head.append(length_text.as_str());
    head.append("\r\nCache-Control: no-store, no-cache, must-revalidate\r\nConnection: close\r\n\r\n");
    head
}

/// Number of RGBA bytes of a `width` x `height` frame, if it fits in `usize`.
pub fn frame_len(width: u32, height: u32) -> (len: Option<usize>)
    ensures
        match len {
            Some(n) => n == width * height * 4,
            None => width * height * 4 > usize::MAX,
        },
{
    let pixels = (width as usize).checked_mul(height as usize);
    match pixels {
        Some(pixels) => pixels.checked_mul(4),
        None => {
            assert(width * height * 4 > usize::MAX) by (nonlinear_arith)
                requires
                    width * height > usize::MAX,
            ;
            None
        },
    }
}

/// Value of the decimal digits `digits`.
pub open spec fn digits_value(digits: Seq<char>) -> nat
    decreases digits.len(),
{
    if digits.len() == 0 {
        0
    } else {
        digits_value(digits.drop_last()) * 10 + ((digits.last() as u32) - ('0' as u32)) as nat
    }
}

pub open spec fn all_digits(digits: Seq<char>) -> bool {
    forall|i: int| 0 <= i < digits.len() ==> '0' <= #[trigger] digits[i] <= '9'
}

/// The port number `text` spells, as `u16`'s decimal syntax reads it: an optional
/// `+` and at least one digit, with a value of at most 65535.
pub open spec fn port_value(text: Seq<char>) -> Option<u16> {
    let digits = if text.len() > 0 && text[0] == '+' { text.drop_first() } else { text };
    if digits.len() > 0 && all_digits(digits) && digits_value(digits) <= 65535 {
        Some(digits_value(digits) as u16)
    } else {
        None
    }
}

proof fn lemma_digits_value_grows(digits: Seq<char>, n: int)
    requires
        0 <= n <= digits.len(),
        all_digits(digits),
    ensures
        digits_value(digits.take(n)) <= digits_value(digits),
    decreases digits.len() - n,
{
    if n < digits.len() {
        lemma_digits_value_grows(digits, n + 1);
        assert(digits.take(n + 1).drop_last() =~= digits.take(n));
    } else {
        assert(digits.take(n) =~= digits);
    }
}

/// The port number `text` spells, if it spells one.
pub fn parse_port(text: &str) -> (port: Option<u16>)
    ensures
        port == port_value(text@),
{
    let chars = chars_of(text);
    let start: usize = if chars.len() > 0 && chars[0] == '+' { 1 } else { 0 };
    let ghost digits = if text@.len() > 0 && text@[0] == '+' { text@.drop_first() } else { text@ };
    assert(digits =~= chars@.subrange(start as int, chars@.len() as int));
    if start >= chars.len() {
        return None;
    }
    let mut value: u32 = 0;
    let mut i = start;
    while i < chars.len()
        invariant
            start <= i <= chars@.len(),
            chars@ == text@,
            digits == (if text@.len() > 0 && text@[0] == '+' { text@.drop_first() } else { text@ }),
            digits =~= chars@.subrange(start as int, chars@.len() as int),
            all_digits(digits.take(i - start)),
            value == digits_value(digits.take(i - start)),
            value <= 65535,
        decreases chars@.len() - i,
    {
        let c = chars[i];
        if !('0' <= c && c <= '9') {
            assert(!all_digits(digits)) by {
                assert(digits[i - start] == c);
            }
            return None;
        }
        let digit = (c as u32) - ('0' as u32);
        let next = value * 10 + digit;
        assert(digits.take(i - start + 1).drop_last() =~= digits.take(i - start));
        assert(digits.take(i - start + 1).last() == c);
        assert(all_digits(digits.take(i - start + 1))) by {
            assert forall|k: int| 0 <= k < i - start + 1 implies '0' <= #[trigger] digits.take(i - start + 1)[k]
                <= '9' by {
                if k < i - start {
                    assert(digits.take(i - start + 1)[k] == digits.take(i - start)[k]);
                }
            }
        }
        if next > 65535 {
            proof {
                if all_digits(digits) {
                    lemma_digits_value_grows(digits, i - start + 1);
                }
            }
            return None;
        }
        value = next;
        i = i + 1;
    }
    assert(digits.take(i - start) =~= digits);
    Some(value as u16)
}

/// `text` without leading and trailing white space.
pub open spec fn trimmed(text: Seq<char>) -> Seq<char> {
    let start = skip_white(text, 0, text.len() as int);
    text.subrange(start, trimmed_end(text, start, text.len() as int))
}

/// One past the last non-white position of `text` in `[start, end)`; `start` if none.
pub open spec fn trimmed_end(text: Seq<char>, start: int, end: int) -> int
    decreases end - start,
{
    if end <= start {
        start
    } else if !is_white_space(text[end - 1]) {
        end
    } else {
        trimmed_end(text, start, end - 1)
    }
}

pub open spec fn ascii_lowercase(text: Seq<char>) -> Seq<char> {
    text.map_values(|c: char| ascii_lower(c))
}

/// Where the capture mirror listens for a setting of the mirror switch: nowhere for
/// an empty or negative setting, the default address for a positive one, every
/// interface at the given port for a port number, and otherwise the setting itself
/// as an address. The setting is trimmed; the words compare without regard to
/// ASCII case.
pub open spec fn mirror_address_text(setting: Seq<char>) -> Option<Seq<char>> {
    let value = trimmed(setting);
    let word = ascii_lowercase(value);
    if value.len() == 0 || word == "0"@ || word == "false"@ || word == "off"@ || word == "no"@ {
        None
    } else if word == "1"@ || word == "true"@ || word == "on"@ || word == "yes"@ {
        Some(DEFAULT_BIND_ADDRESS@)
    } else if port_value(value) is Some {
        Some("0.0.0.0:"@ + value)
    } else {
        Some(value)
    }
}

fn trimmed_end_at(s: &Vec<char>, start: usize, end: usize) -> (next: usize)
    requires
        start <= end <= s@.len(),
    ensures
        next == trimmed_end(s@, start as int, end as int),
        start <= next <= end,
    decreases end - start,
{
    if end <= start {
        start
    } else if !is_white_space_char(s[end - 1]) {
        end
    } else {
        trimmed_end_at(s, start, end - 1)
    }
}

fn lowercase_is(value: &Vec<char>, word: &str) -> (same: bool)
    ensures
        same == (ascii_lowercase(value@) == word@),
{
    let word_chars = chars_of(word);
    if value.len() != word_chars.len() {
        proof {
            if ascii_lowercase(value@) == word@ {
                assert(ascii_lowercase(value@).len() == value@.len());
            }
        }
        return false;
    }
    let mut i: usize = 0;
    while i < value.len()
        invariant
            value@.len() == word_chars@.len(),
            word_chars@ == word@,
            i <= value@.len(),
            forall|k: int| 0 <= k < i ==> ascii_lower(value@[k]) == word_chars@[k],
        decreases value@.len() - i,
    {
        let lower = if 'A' <= value[i] && value[i] <= 'Z' {
            ((value[i] as u8) + 32) as char
        } else {
            value[i]
        };
        if lower != word_chars[i] {
            assert(ascii_lowercase(value@)[i as int] != word@[i as int]);
            return false;
        }
        i = i + 1;
    }
    assert(ascii_lowercase(value@) =~= word@);
    true
}

/// Where the capture mirror listens for the given setting of its switch, if it is on.
pub fn mirror_address(setting: &str) -> (address: Option<String>)
    ensures
        match mirror_address_text(setting@) {
            Some(expected) => address matches Some(found) && found@ == expected,
            None => address is None,
        },
{
    let chars = chars_of(setting);
    let start = skip_white_at(&chars, 0, chars.len());
    let end = trimmed_end_at(&chars, start, chars.len());
    let value = setting.substring_char(start, end);
    let value_chars = chars_of(value);
    proof {
        reveal_strlit("0");
        reveal_strlit("false");
        reveal_strlit("off");
        reveal_strlit("no");
    }
    if value_chars.len() == 0 || lowercase_is(&value_chars, "0") || lowercase_is(&value_chars, "false")
        || lowercase_is(&value_chars, "off") || lowercase_is(&value_chars, "no") {
        return None;
    }
    if lowercase_is(&value_chars, "1") || lowercase_is(&value_chars, "true") || lowercase_is(&value_chars, "on")
        || lowercase_is(&value_chars, "yes") {
        return Some(String::from_str(DEFAULT_BIND_ADDRESS));
    }
    if parse_port(value).is_some() {
        let mut address = String::from_str("0.0.0.0:");
        address.append(value);
        return Some(address);
    }
    Some(String::from_str(value))
}

} // verus!
