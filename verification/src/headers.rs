//! Header maps.
//!
//! The library keeps `http::HeaderMap` as its header collection. Its contents
//! are modelled as a map from a (lowercase) header name to the list of byte
//! strings stored under that name, in the order they were added; the trusted
//! wrappers below state what each `HeaderMap` method does to that model.

use vstd::prelude::*;
use vstd::string::*;
use vstd::utf8::*;
use crate::text::{char_string, decimal_spec, digit_char, lower_code, lower_code_of};

verus! {

#[verifier::external_type_specification]
#[verifier::external_body]
#[verifier::reject_recursive_types(T)]
pub struct ExHeaderMap<T>(http::HeaderMap<T>);

#[verifier::external_type_specification]
#[verifier::external_body]
pub struct ExHeaderValue(http::HeaderValue);

/// The contents of a header map: each present name with its values, first to last.
pub uninterp spec fn header_entries(h: http::HeaderMap) -> Map<Seq<char>, Seq<Seq<u8>>>;

/// The number of distinct names stored in a header map (`HeaderMap::keys_len`).
pub uninterp spec fn header_keys_len(h: http::HeaderMap) -> nat;

/// The contents of an empty header map.
pub open spec fn no_header_entries() -> Map<Seq<char>, Seq<Seq<u8>>> {
    Map::empty()
}

/// The values stored under `name`, oldest first (empty when the name is absent).
pub open spec fn header_values(h: http::HeaderMap, name: Seq<char>) -> Seq<Seq<u8>> {
    if header_entries(h).contains_key(name) {
        header_entries(h)[name]
    } else {
        Seq::empty()
    }
}

/// The value `HeaderMap::get` returns: the first one stored under `name`.
pub open spec fn header_first(h: http::HeaderMap, name: Seq<char>) -> Option<Seq<u8>> {
    if header_values(h, name).len() > 0 {
        Some(header_values(h, name)[0])
    } else {
        None
    }
}

/// Every name other than `name` keeps its values.
pub open spec fn others_unchanged(a: http::HeaderMap, b: http::HeaderMap, name: Seq<char>) -> bool {
    forall|n: Seq<char>| n != name ==> #[trigger] header_values(b, n) == header_values(a, n)
}

/// A bound on the distinct names a map holds below which every store is safe.
/// `HeaderMap` reserves room for one more entry before each insert, append or
/// entry, whether or not the name is already there, and that reservation may
/// double its table of slots; a doubling past 2^15 slots panics. It doubles
/// (a) when the entries fill three quarters of the slots, which at 2^15 slots
/// takes 24576 entries, and (b) when the map is in its "yellow" state (entered
/// after a long probe, which colliding names can force) and five times the
/// entries reach the slots, which at 2^15 slots takes 6554 entries. A table
/// may have 2^15 slots from the start (made with a large capacity), so only
/// fewer than 6554 entries rule out both, whatever the table's size and state.
pub open spec fn max_header_names() -> nat {
    6554
}

/// A value may be stored under `name` without the reservation overflowing:
/// the map holds fewer than `max_header_names()` names, whether or not `name`
/// is among them.
pub open spec fn has_room_for(h: http::HeaderMap, name: Seq<char>) -> bool {
    header_keys_len(h) < max_header_names()
}

/// The key count after storing under `name`.
pub open spec fn keys_len_after_store(h: http::HeaderMap, name: Seq<char>) -> nat {
    if header_values(h, name).len() > 0 {
        header_keys_len(h)
    } else {
        header_keys_len(h) + 1
    }
}

/// A character allowed in a header name as `HeaderMap` stores it (a lowercase token character).
pub open spec fn is_header_name_char(c: char) -> bool {
    ||| ('a' <= c && c <= 'z')
    ||| ('0' <= c && c <= '9')
    ||| c == '!' || c == '#' || c == '$' || c == '%' || c == '&' || c == '\''
    ||| c == '*' || c == '+' || c == '-' || c == '.' || c == '^' || c == '_'
    ||| c == '`' || c == '|' || c == '~'
}

/// A header name that `HeaderName::from_bytes` accepts and keeps unchanged.
pub open spec fn valid_header_name(s: Seq<char>) -> bool {
    &&& 0 < s.len() <= 65535
    &&& forall|i: int| 0 <= i < s.len() ==> #[trigger] is_header_name_char(s[i])
}

/// A character whose UTF-8 bytes `HeaderValue::from_str` accepts.
pub open spec fn is_header_value_char(c: char) -> bool {
    c == '\t' || (' ' <= c && c != '\u{7f}')
}

/// A string that `HeaderValue::from_str` accepts.
pub open spec fn valid_header_value(s: Seq<char>) -> bool {
    forall|i: int| 0 <= i < s.len() ==> #[trigger] is_header_value_char(s[i])
}

/// A byte that `HeaderValue::from_bytes` accepts: tab, or any byte from 32 up but DEL.
pub open spec fn is_header_value_byte(b: u8) -> bool {
    b == 9 || (32 <= b && b != 127)
}

/// A byte string that `HeaderValue::from_bytes` accepts.
pub open spec fn valid_header_bytes(v: Seq<u8>) -> bool {
    forall|i: int| 0 <= i < v.len() ==> #[trigger] is_header_value_byte(v[i])
}

/// A byte that `HeaderValue::to_str` accepts: visible ASCII or tab.
pub open spec fn is_visible_ascii(b: u8) -> bool {
    b == 9 || (32 <= b && b < 127)
}

/// The characters of a byte string read one byte per character.
pub open spec fn bytes_as_chars(v: Seq<u8>) -> Seq<char> {
    v.map_values(|b: u8| b as char)
}

/// `HeaderValue::to_str`: the value as text when every byte is visible ASCII or tab.
pub open spec fn header_value_text(v: Seq<u8>) -> Option<Seq<char>> {
    if forall|i: int| 0 <= i < v.len() ==> #[trigger] is_visible_ascii(v[i]) {
        Some(bytes_as_chars(v))
    } else {
        None
    }
}

/// The text `headers.get(name).and_then(|v| v.to_str().ok())` yields.
pub open spec fn header_text(h: http::HeaderMap, name: Seq<char>) -> Option<Seq<char>> {
    match header_first(h, name) {
        Some(v) => header_value_text(v),
        None => None,
    }
}

/// `HeaderMap::new`: an empty map.
#[verifier::external_body]
pub(crate) fn new_header_map() -> (r: http::HeaderMap)
    ensures
        header_entries(r) == no_header_entries(),
        header_keys_len(r) == 0,
{
    http::HeaderMap::new()
}

/// `HeaderMap::get`: the bytes of the first value stored under `name`.
#[verifier::external_body]
pub(crate) fn header_get(h: &http::HeaderMap, name: &str) -> (r: Option<Vec<u8>>)
    requires
        valid_header_name(name@),
    ensures
        match r {
            Some(v) => header_first(*h, name@) == Some(v@),
            None => header_first(*h, name@) is None,
        },
{
    h.get(name).map(|v| v.as_bytes().to_vec())
}

/// `HeaderMap::get_all`: the bytes of every value stored under `name`, in order.
#[verifier::external_body]
pub(crate) fn header_get_all(h: &http::HeaderMap, name: &str) -> (r: Vec<Vec<u8>>)
    requires
        valid_header_name(name@),
    ensures
        r@.map_values(|v: Vec<u8>| v@) == header_values(*h, name@),
{
    h.get_all(name).iter().map(|v| v.as_bytes().to_vec()).collect()
}

/// `HeaderMap::keys_len`: the number of distinct names in the map.
#[verifier::external_body]
pub(crate) fn header_count(h: &http::HeaderMap) -> (r: usize)
    ensures
        r == header_keys_len(*h),
{
    h.keys_len()
}

/// Whether `extra` more names can be stored in the map while it stays below
/// `max_header_names()`: the test to make before calling a function of this
/// library that asks for that room.
pub fn has_header_room(h: &http::HeaderMap, extra: usize) -> (r: bool)
    ensures
        r == (header_keys_len(*h) + extra <= max_header_names()),
{
    let n = header_count(h);
    n <= 6554 && extra <= 6554 - n
}

/// `HeaderMap::contains_key`.
#[verifier::external_body]
pub(crate) fn header_contains(h: &http::HeaderMap, name: &str) -> (r: bool)
    requires
        valid_header_name(name@),
    ensures
        r == (header_values(*h, name@).len() > 0),
{
    h.contains_key(name)
}

/// `HeaderMap::insert`: `name` now holds exactly `value`.
#[verifier::external_body]
pub(crate) fn header_insert(h: &mut http::HeaderMap, name: &str, value: &str)
    requires
        valid_header_name(name@),
        valid_header_value(value@),
        has_room_for(*old(h), name@),
    ensures
        header_values(*final(h), name@) == seq![encode_utf8(value@)],
        others_unchanged(*old(h), *final(h), name@),
        header_keys_len(*final(h)) == keys_len_after_store(*old(h), name@),
{
    let n = http::HeaderName::from_bytes(name.as_bytes()).expect("valid header name");
    let v = http::HeaderValue::from_str(value).expect("valid header value");
    h.insert(n, v);
}

/// `HeaderMap::append`: `value` is added after the values already under `name`.
#[verifier::external_body]
pub(crate) fn header_append(h: &mut http::HeaderMap, name: &str, value: &str)
    requires
        valid_header_name(name@),
        valid_header_value(value@),
        has_room_for(*old(h), name@),
    ensures
        header_values(*final(h), name@) == header_values(*old(h), name@).push(encode_utf8(value@)),
        others_unchanged(*old(h), *final(h), name@),
        header_keys_len(*final(h)) == keys_len_after_store(*old(h), name@),
{
    let n = http::HeaderName::from_bytes(name.as_bytes()).expect("valid header name");
    let v = http::HeaderValue::from_str(value).expect("valid header value");
    h.append(n, v);
}

/// `HeaderMap::insert` of a value given as bytes: `name` now holds exactly `value`.
#[verifier::external_body]
pub(crate) fn header_insert_bytes(h: &mut http::HeaderMap, name: &str, value: &[u8])
    requires
        valid_header_name(name@),
        valid_header_bytes(value@),
        has_room_for(*old(h), name@),
    ensures
        header_values(*final(h), name@) == seq![value@],
        others_unchanged(*old(h), *final(h), name@),
        header_keys_len(*final(h)) == keys_len_after_store(*old(h), name@),
{
    let n = http::HeaderName::from_bytes(name.as_bytes()).expect("valid header name");
    let v = http::HeaderValue::from_bytes(value).expect("valid header value");
    h.insert(n, v);
}

/// `HeaderMap::append` of a value given as bytes: `value` is added after the
/// values already under `name`.
#[verifier::external_body]
pub(crate) fn header_append_bytes(h: &mut http::HeaderMap, name: &str, value: &[u8])
    requires
        valid_header_name(name@),
        valid_header_bytes(value@),
        has_room_for(*old(h), name@),
    ensures
        header_values(*final(h), name@) == header_values(*old(h), name@).push(value@),
        others_unchanged(*old(h), *final(h), name@),
        header_keys_len(*final(h)) == keys_len_after_store(*old(h), name@),
{
    let n = http::HeaderName::from_bytes(name.as_bytes()).expect("valid header name");
    let v = http::HeaderValue::from_bytes(value).expect("valid header value");
    h.append(n, v);
}

/// `HeaderMap::entry(name).or_insert(value)`: stores `value` only when `name` holds nothing.
#[verifier::external_body]
pub(crate) fn header_insert_if_absent(h: &mut http::HeaderMap, name: &str, value: &str)
    requires
        valid_header_name(name@),
        valid_header_value(value@),
        has_room_for(*old(h), name@),
    ensures
        header_values(*final(h), name@) == (if header_values(*old(h), name@).len() > 0 {
            header_values(*old(h), name@)
        } else {
            seq![encode_utf8(value@)]
        }),
        others_unchanged(*old(h), *final(h), name@),
        header_keys_len(*final(h)) == keys_len_after_store(*old(h), name@),
{
    let n = http::HeaderName::from_bytes(name.as_bytes()).expect("valid header name");
    let v = http::HeaderValue::from_str(value).expect("valid header value");
    h.entry(n).or_insert(v);
}

/// `HeaderMap::remove`: `name` no longer holds any value.
#[verifier::external_body]
pub(crate) fn header_remove(h: &mut http::HeaderMap, name: &str)
    requires
        valid_header_name(name@),
    ensures
        header_values(*final(h), name@) == Seq::<Seq<u8>>::empty(),
        others_unchanged(*old(h), *final(h), name@),
        header_keys_len(*final(h)) == (if header_values(*old(h), name@).len() > 0 {
            (header_keys_len(*old(h)) - 1) as nat
        } else {
            header_keys_len(*old(h))
        }),
{
    h.remove(name);
}

/// `std::str::from_utf8`, owned: the text of `bytes` when they are valid UTF-8.
#[verifier::external_body]
fn utf8_to_string(bytes: &[u8]) -> (r: Option<String>)
    ensures
        r is Some <==> valid_utf8(bytes@),
        r matches Some(s) ==> s@ == decode_utf8(bytes@),
{
    std::str::from_utf8(bytes).ok().map(|s| s.to_string())
}

proof fn lemma_visible_bytes_decode(v: Seq<u8>)
    requires
        forall|i: int| 0 <= i < v.len() ==> #[trigger] is_visible_ascii(v[i]),
    ensures
        valid_utf8(v),
        decode_utf8(v) == bytes_as_chars(v),
{
    let c = bytes_as_chars(v);
    assert(is_ascii_chars(c)) by {
        assert forall|i: int| 0 <= i < c.len() implies '\0' <= #[trigger] c[i] <= '\u{7f}' by {
            assert(is_visible_ascii(v[i]));
        }
    }
    is_ascii_chars_encode_utf8(c);
    assert forall|i: int| 0 <= i < v.len() implies #[trigger] encode_utf8(c)[i] == v[i] by {
        assert(c[i] as u8 == encode_utf8(c)[i]);
        assert(c[i] == v[i] as char);
    }
    assert(encode_utf8(c) =~= v);
    encode_utf8_valid_utf8(c);
    encode_utf8_decode_utf8(c);
}

proof fn lemma_scalar_value_bytes(c: char)
    requires
        is_header_value_char(c),
    ensures
        valid_header_bytes(encode_scalar(c as u32)),
{
    let u = c as u32;
    if has_width_1_encoding(u) {
        assert((u & 0x7F) as u8 == u as u8 && (u <= 0x7F)) by (bit_vector)
            requires
                u <= 0x7F,
        ;
        let b = leading_byte_width_1(u);
        assert(encode_scalar(u) =~= seq![b]);
        assert(b == u);
        assert(is_header_value_byte(encode_scalar(u)[0]));
    } else {
        assert(leading_byte_width_2(u) >= 0x80) by (bit_vector);
        assert(leading_byte_width_3(u) >= 0x80) by (bit_vector);
        assert(leading_byte_width_4(u) >= 0x80) by (bit_vector);
        assert(last_continuation_byte(u) >= 0x80) by (bit_vector);
        assert(second_last_continuation_byte(u) >= 0x80) by (bit_vector);
        assert(third_last_continuation_byte(u) >= 0x80) by (bit_vector);
        let e = encode_scalar(u);
        assert forall|i: int| 0 <= i < e.len() implies #[trigger] is_header_value_byte(e[i]) by {
            assert(e[i] >= 0x80);
        }
    }
}

/// The UTF-8 bytes of a valid header value text are a valid header value.
pub proof fn lemma_value_text_bytes(s: Seq<char>)
    requires
        valid_header_value(s),
    ensures
        valid_header_bytes(encode_utf8(s)),
    decreases s.len(),
{
    if s.len() > 0 {
        assert(is_header_value_char(s[0]));
        lemma_scalar_value_bytes(s[0]);
        assert forall|i: int| 0 <= i < s.drop_first().len() implies #[trigger] is_header_value_char(
            s.drop_first()[i],
        ) by {
            assert(s.drop_first()[i] == s[i + 1]);
        }
        lemma_value_text_bytes(s.drop_first());
        let a = encode_scalar(s[0] as u32);
        let b = encode_utf8(s.drop_first());
        assert forall|i: int| 0 <= i < (a + b).len() implies #[trigger] is_header_value_byte(
            (a + b)[i],
        ) by {
            if i < a.len() {
                assert((a + b)[i] == a[i]);
            } else {
                assert((a + b)[i] == b[i - a.len()]);
            }
        }
    }
}

/// A decimal numeral is a valid header value.
pub proof fn lemma_decimal_header_value(n: nat)
    ensures
        valid_header_value(decimal_spec(n)),
    decreases n,
{
    if n >= 10 {
        lemma_decimal_header_value(n / 10);
        let d = decimal_spec(n / 10).push(digit_char(n % 10));
        assert forall|i: int| 0 <= i < d.len() implies #[trigger] is_header_value_char(d[i]) by {
            if i < d.len() - 1 {
                assert(d[i] == decimal_spec(n / 10)[i]);
            }
        }
    }
}

/// A character `HeaderName::from_bytes` accepts: a token character, in either case.
pub open spec fn is_name_input_char(c: char) -> bool {
    is_header_name_char(c) || ('A' <= c && c <= 'Z')
}

/// A name `HeaderName::from_bytes` accepts.
pub open spec fn valid_name_input(s: Seq<char>) -> bool {
    &&& 0 < s.len() <= 65535
    &&& forall|i: int| 0 <= i < s.len() ==> #[trigger] is_name_input_char(s[i])
}

/// The name as `HeaderName` stores it: ASCII letters lowercased.
pub open spec fn normalized_name(s: Seq<char>) -> Seq<char> {
    s.map_values(|c: char| lower_code(c) as char)
}

/// `HeaderName::from_bytes` on a name it accepts: the lowercased name.
pub fn normalize_header_name(name: &str) -> (r: String)
    requires
        valid_name_input(name@),
    ensures
        r@ == normalized_name(name@),
        valid_header_name(r@),
{
    let n = name.unicode_len();
    let mut out = String::new();
    let mut i: usize = 0;
    while i < n
        invariant
            n == name@.len(),
            i <= n,
            valid_name_input(name@),
            out@ == normalized_name(name@.take(i as int)),
        decreases n - i,
    {
        let c = name.get_char(i);
        let code = lower_code_of(c);
        let lc: char = if 'A' <= c && c <= 'Z' {
            let l = (c as u8 + 32) as char;
            l
        } else {
            c
        };
        proof {
            assert(lc == lower_code(c) as char) by {
                if 'A' <= c && c <= 'Z' {
                    assert((c as u8 + 32) as char == (c as u32 + 32) as u32 as char);
                }
            }
            assert(name@.take(i + 1) =~= name@.take(i as int).push(c));
        }
        let one = char_string(lc);
        out.append(one.as_str());
        proof {
            assert(normalized_name(name@.take(i + 1)) =~= normalized_name(name@.take(i as int)).push(
                lc,
            ));
        }
        i = i + 1;
    }
    proof {
        assert(name@.take(n as int) =~= name@);
        let r = normalized_name(name@);
        assert forall|k: int| 0 <= k < r.len() implies #[trigger] is_header_name_char(r[k]) by {
            assert(is_name_input_char(name@[k]));
        }
    }
    out
}

/// Decides `valid_name_input`.
pub fn is_valid_name_input(name: &str) -> (r: bool)
    ensures
        r == valid_name_input(name@),
{
    let n = name.unicode_len();
    if n == 0 || n > 65535 {
        return false;
    }
    let mut i: usize = 0;
    while i < n
        invariant
            n == name@.len(),
            i <= n,
            forall|k: int| 0 <= k < i ==> #[trigger] is_name_input_char(name@[k]),
        decreases n - i,
    {
        let c = name.get_char(i);
        let ok = ('a' <= c && c <= 'z') || ('A' <= c && c <= 'Z') || ('0' <= c && c <= '9') || c
            == '!' || c == '#' || c == '$' || c == '%' || c == '&' || c == '\'' || c == '*' || c
            == '+' || c == '-' || c == '.' || c == '^' || c == '_' || c == '`' || c == '|' || c
            == '~';
        if !ok {
            assert(!is_name_input_char(name@[i as int]));
            return false;
        }
        i = i + 1;
    }
    true
}

/// `HeaderValue::to_str` on the bytes of a value.
pub fn value_text(v: &Vec<u8>) -> (r: Option<String>)
    ensures
        match r {
            Some(s) => header_value_text(v@) == Some(s@),
            None => header_value_text(v@) is None,
        },
{
    let mut i: usize = 0;
    while i < v.len()
        invariant
            i <= v@.len(),
            forall|k: int| 0 <= k < i ==> #[trigger] is_visible_ascii(v@[k]),
        decreases v@.len() - i,
    {
        let b = v[i];
        if !(b == 9 || (32 <= b && b < 127)) {
            assert(!is_visible_ascii(v@[i as int]));
            return None;
        }
        i = i + 1;
    }
    proof {
        lemma_visible_bytes_decode(v@);
    }
    utf8_to_string(v.as_slice())
}

/// `headers.get(name).and_then(|v| v.to_str().ok())`, owned.
pub fn header_str(h: &http::HeaderMap, name: &str) -> (r: Option<String>)
    requires
        valid_header_name(name@),
    ensures
        match r {
            Some(s) => header_text(*h, name@) == Some(s@),
            None => header_text(*h, name@) is None,
        },
{
    match header_get(h, name) {
        Some(v) => value_text(&v),
        None => None,
    }
}

/// Decides `valid_header_bytes`, as `HeaderValue::from_bytes` does.
pub fn is_valid_header_bytes(v: &[u8]) -> (b: bool)
    ensures
        b == valid_header_bytes(v@),
{
    let mut i: usize = 0;
    while i < v.len()
        invariant
            i <= v@.len(),
            forall|k: int| 0 <= k < i ==> #[trigger] is_header_value_byte(v@[k]),
        decreases v@.len() - i,
    {
        let b = v[i];
        if !(b == 9 || (32 <= b && b != 127)) {
            assert(!is_header_value_byte(v@[i as int]));
            return false;
        }
        i = i + 1;
    }
    true
}

/// Decides `valid_header_value`, as `HeaderValue::from_str` does.
pub fn is_valid_header_value(s: &str) -> (b: bool)
    ensures
        b == valid_header_value(s@),
{
    let n = s.unicode_len();
    let mut i: usize = 0;
    while i < n
        invariant
            n == s@.len(),
            i <= n,
            forall|k: int| 0 <= k < i ==> #[trigger] is_header_value_char(s@[k]),
        decreases n - i,
    {
        let c = s.get_char(i);
        if !(c == '\t' || (' ' <= c && c != '\u{7f}')) {
            assert(!is_header_value_char(s@[i as int]));
            return false;
        }
        i = i + 1;
    }
    true
}

} // verus!
