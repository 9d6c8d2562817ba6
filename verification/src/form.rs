//! The job form: its query parameters, their decoding and their defaults,
//! and the links that lead to it.
use rocket::http::RawStr;
use vstd::prelude::*;
use vstd::utf8::{
    char_is_scalar, decode_utf8, encode_scalar, encode_utf8, encode_utf8_decode_utf8,
    encode_utf8_valid_utf8, has_width_1_encoding, has_width_2_encoding, has_width_3_encoding,
    valid_utf8,
};

use crate::decimal::{
    decimal, i64_to_string, lemma_decimal_digits, lemma_i64_text_round_trip, lemma_u64_text_round_trip, parse_i64, parse_u64,
    push_decimal, signed_decimal, spec_parse_i64, spec_parse_u64,
};
use crate::job::Job;

verus! {

/// `+` read as a space, as in form-encoded text.
pub open spec fn replace_plus(s: Seq<char>) -> Seq<char> {
    s.map_values(|c: char| if c == '+' { ' ' } else { c })
}

/// True for the bytes of the ASCII hexadecimal digits.
pub open spec fn is_hex_digit(b: u8) -> bool {
    (48 <= b <= 57) || (65 <= b <= 70) || (97 <= b <= 102)
}

/// The value of an ASCII hexadecimal digit.
pub open spec fn hex_value(b: u8) -> int {
    if 48 <= b <= 57 {
        b - 48
    } else if 65 <= b <= 70 {
        b - 55
    } else {
        b - 87
    }
}

/// Percent-decoding of bytes: `%` followed by two hexadecimal digits stands
/// for the byte they spell; every other byte, a lone `%` among them, stands
/// for itself.
pub open spec fn percent_decode(b: Seq<u8>) -> Seq<u8>
    decreases b.len(),
{
    if b.len() == 0 {
        Seq::empty()
    } else if b[0] == 37 && b.len() >= 3 && is_hex_digit(b[1]) && is_hex_digit(b[2]) {
        seq![(hex_value(b[1]) * 16 + hex_value(b[2])) as u8] + percent_decode(b.skip(3))
    } else {
        seq![b[0]] + percent_decode(b.skip(1))
    }
}

/// URL-decoding of a form value: `+` becomes a space, then the UTF-8 bytes
/// are percent-decoded; the result exists when those bytes are valid UTF-8.
pub open spec fn spec_url_decode(raw: Seq<char>) -> Option<Seq<char>> {
    let bytes = percent_decode(encode_utf8(replace_plus(raw)));
    if valid_utf8(bytes) {
        Some(decode_utf8(bytes))
    } else {
        None
    }
}

/// `rocket::http::RawStr::url_decode`: replaces `+` by a space, then
/// percent-decodes the bytes and reads them as UTF-8 (`None` where they are
/// not valid UTF-8, which rocket reports as a `Utf8Error`).
#[verifier::external_body]
fn url_decode(raw: &str) -> (res: Option<String>)
    ensures
        match res {
            Some(s) => spec_url_decode(raw@) == Some(s@),
            None => spec_url_decode(raw@) is None,
        },
{
    match RawStr::new(raw).url_decode() {
        Ok(s) => Some(s.into_owned()),
        Err(_) => None,
    }
}

/// No byte of `b` is the byte of `%`.
pub open spec fn no_percent_byte(b: Seq<u8>) -> bool {
    forall|i: int| 0 <= i < b.len() ==> b[i] != 37
}

/// True of a text that holds neither `%` nor `+`, the two characters that
/// URL-decoding reads specially.
pub open spec fn is_plain_value(s: Seq<char>) -> bool {
    forall|i: int| 0 <= i < s.len() ==> s[i] != '%' && s[i] != '+'
}

proof fn lemma_percent_decode_without_percent(b: Seq<u8>)
    requires
        no_percent_byte(b),
    ensures
        percent_decode(b) == b,
    decreases b.len(),
{
    if b.len() > 0 {
        lemma_percent_decode_without_percent(b.skip(1));
        assert(b =~= seq![b[0]] + b.skip(1));
    }
}

proof fn lemma_encode_scalar_without_percent(c: char)
    requires
        c != '%',
    ensures
        no_percent_byte(encode_scalar(c as u32)),
{
    let v = c as u32;
    char_is_scalar(c);
    if has_width_1_encoding(v) {
        assert((v & 0x7F) as u8 == v as u8) by (bit_vector)
            requires
                v <= 0x7F,
        ;
        assert(v != 37);
    } else {
        assert((0xC0u8 | ((v >> 6) & 0x1F) as u8) >= 0x80u8) by (bit_vector);
        assert((0xE0u8 | ((v >> 12) & 0x0F) as u8) >= 0x80u8) by (bit_vector);
        assert((0xF0u8 | ((v >> 18) & 0x7) as u8) >= 0x80u8) by (bit_vector);
        assert((0x80u8 | (v & 0x3F) as u8) >= 0x80u8) by (bit_vector);
        assert((0x80u8 | ((v >> 6) & 0x3F) as u8) >= 0x80u8) by (bit_vector);
        assert((0x80u8 | ((v >> 12) & 0x3F) as u8) >= 0x80u8) by (bit_vector);
        let e = encode_scalar(v);
        if has_width_2_encoding(v) {
            assert(e.len() == 2);
        } else if has_width_3_encoding(v) {
            assert(e.len() == 3);
        } else {
            assert(e.len() == 4);
        }
    }
}

proof fn lemma_encode_utf8_without_percent(s: Seq<char>)
    requires
        forall|i: int| 0 <= i < s.len() ==> s[i] != '%',
    ensures
        no_percent_byte(encode_utf8(s)),
    decreases s.len(),
{
    if s.len() > 0 {
        lemma_encode_scalar_without_percent(s[0]);
        lemma_encode_utf8_without_percent(s.drop_first());
        let a = encode_scalar(s[0] as u32);
        let b = encode_utf8(s.drop_first());
        assert forall|i: int| 0 <= i < (a + b).len() implies (a + b)[i] != 37 by {
            if i < a.len() {
                assert((a + b)[i] == a[i]);
            } else {
                assert((a + b)[i] == b[i - a.len()]);
            }
        }
    }
}

/// A form value that holds neither `%` nor `+` URL-decodes to itself: a job
/// field written unencoded into the job link comes back unchanged through the
/// form's decoding.
pub proof fn lemma_plain_value_decodes_to_itself(s: Seq<char>)
    requires
        is_plain_value(s),
    ensures
        spec_url_decode(s) == Some(s),
{
    assert(replace_plus(s) =~= s);
    lemma_encode_utf8_without_percent(s);
    lemma_percent_decode_without_percent(encode_utf8(s));
    encode_utf8_valid_utf8(s);
    encode_utf8_decode_utf8(s);
}

/// A text as a browser sends it in a link: each space as `%20`.
pub open spec fn encode_spaces(s: Seq<char>) -> Seq<char>
    decreases s.len(),
{
    if s.len() == 0 {
        s
    } else if s[0] == ' ' {
        seq!['%', '2', '0'] + encode_spaces(s.drop_first())
    } else {
        seq![s[0]] + encode_spaces(s.drop_first())
    }
}

proof fn lemma_encode_utf8_append(a: Seq<char>, b: Seq<char>)
    ensures
        encode_utf8(a + b) == encode_utf8(a) + encode_utf8(b),
    decreases a.len(),
{
    if a.len() == 0 {
        assert(a + b =~= b);
        assert(encode_utf8(a) + encode_utf8(b) =~= encode_utf8(b));
    } else {
        assert((a + b).drop_first() =~= a.drop_first() + b);
        lemma_encode_utf8_append(a.drop_first(), b);
        assert(encode_utf8(a + b) =~= encode_utf8(a) + encode_utf8(b));
    }
}

proof fn lemma_percent_decode_append(a: Seq<u8>, x: Seq<u8>)
    requires
        no_percent_byte(a),
    ensures
        percent_decode(a + x) == a + percent_decode(x),
    decreases a.len(),
{
    if a.len() == 0 {
        assert(a + x =~= x);
        assert(a + percent_decode(x) =~= percent_decode(x));
    } else {
        assert((a + x)[0] == a[0]);
        assert((a + x).skip(1) =~= a.skip(1) + x);
        lemma_percent_decode_append(a.skip(1), x);
        assert(seq![a[0]] + (a.skip(1) + percent_decode(x)) =~= a + percent_decode(x));
    }
}

proof fn lemma_encode_single(c: char)
    ensures
        encode_utf8(seq![c]) == encode_scalar(c as u32),
{
    let e: Seq<char> = Seq::empty();
    assert(seq![c].drop_first() =~= e);
    assert(encode_utf8(e) =~= Seq::<u8>::empty());
    assert(encode_utf8(seq![c]) == encode_scalar(seq![c][0] as u32) + encode_utf8(seq![c].drop_first()));
    assert(encode_utf8(seq![c]) =~= encode_scalar(c as u32));
}

proof fn lemma_encode_ascii(c: char, b: u8)
    requires
        c as u32 == b as u32,
        b < 128,
    ensures
        encode_utf8(seq![c]) == seq![b],
{
    let v = c as u32;
    assert((v & 0x7F) as u8 == b) by (bit_vector)
        requires
            v == b as u32,
            b < 128,
    ;
    lemma_encode_single(c);
    assert(has_width_1_encoding(v));
    assert(encode_scalar(v) =~= seq![b]);
}

proof fn lemma_encoded_spaces_bytes(s: Seq<char>)
    requires
        is_plain_value(s),
    ensures
        percent_decode(encode_utf8(encode_spaces(s))) == encode_utf8(s),
        forall|i: int| 0 <= i < encode_spaces(s).len() ==> encode_spaces(s)[i] != '+',
    decreases s.len(),
{
    if s.len() > 0 {
        let rest = s.drop_first();
        let r = encode_spaces(rest);
        lemma_encoded_spaces_bytes(rest);
        assert(s =~= seq![s[0]] + rest);
        lemma_encode_utf8_append(seq![s[0]], rest);
        assert(seq![s[0]].drop_first() =~= Seq::<char>::empty());
        if s[0] == ' ' {
            let h = seq!['%', '2', '0'];
            lemma_encode_utf8_append(h, r);
            lemma_encode_ascii('%', 37u8);
            lemma_encode_ascii('2', 50u8);
            lemma_encode_ascii('0', 48u8);
            lemma_encode_ascii(' ', 32u8);
            assert(h =~= seq!['%'] + (seq!['2'] + seq!['0']));
            lemma_encode_utf8_append(seq!['2'], seq!['0']);
            lemma_encode_utf8_append(seq!['%'], seq!['2'] + seq!['0']);
            let eh = encode_utf8(h);
            assert(eh =~= seq![37u8, 50u8, 48u8]);
            let x = encode_utf8(r);
            assert((eh + x)[0] == 37u8 && (eh + x)[1] == 50u8 && (eh + x)[2] == 48u8);
            assert((eh + x).skip(3) =~= x);
            assert(percent_decode(eh + x) =~= seq![32u8] + percent_decode(x));
            assert forall|i: int| 0 <= i < (h + r).len() implies (h + r)[i] != '+' by {
                if i >= 3 {
                    assert((h + r)[i] == r[i - 3]);
                }
            }
        } else {
            let h = seq![s[0]];
            lemma_encode_utf8_append(h, r);
            lemma_encode_scalar_without_percent(s[0]);
            lemma_encode_single(s[0]);
            lemma_percent_decode_append(encode_utf8(h), encode_utf8(r));
            assert forall|i: int| 0 <= i < (h + r).len() implies (h + r)[i] != '+' by {
                if i >= 1 {
                    assert((h + r)[i] == r[i - 1]);
                }
            }
        }
    }
}

/// A value that holds neither `%` nor `+`, sent with its spaces as `%20`,
/// URL-decodes to itself.
pub proof fn lemma_encoded_value_decodes_to_itself(s: Seq<char>)
    requires
        is_plain_value(s),
    ensures
        spec_url_decode(encode_spaces(s)) == Some(s),
{
    lemma_encoded_spaces_bytes(s);
    assert(replace_plus(encode_spaces(s)) =~= encode_spaces(s));
    encode_utf8_valid_utf8(s);
    encode_utf8_decode_utf8(s);
}

proof fn lemma_number_text_is_plain(i: i64, n: u64)
    ensures
        is_plain_value(signed_decimal(i as int)),
        is_plain_value(decimal(n as nat)),
{
    lemma_decimal_digits(n as nat);
    if i < 0 {
        let m = (-i) as nat;
        lemma_decimal_digits(m);
        let t = seq!['-'] + decimal(m);
        assert forall|k: int| 0 <= k < t.len() implies t[k] != '%' && t[k] != '+' by {
            if k > 0 {
                assert(t[k] == decimal(m)[k - 1]);
            }
        }
    } else {
        lemma_decimal_digits(i as nat);
    }
}

/// A printed job's link leads back to the same job: where no text field of
/// the job holds `%` or `+`, the job form, given the values of the job's
/// link (`job_query`) as a browser sends them (spaces as `%20`), accepts them
/// and shows the job itself.
pub proof fn lemma_link_shows_job(j: Job)
    requires
        is_plain_value(j.job@),
        is_plain_value(j.part@),
        is_plain_value(j.start@),
        is_plain_value(j.stop@),
        is_plain_value(j.checksum@),
        is_plain_value(j.chip@),
        is_plain_value(j.vendor@),
        is_plain_value(j.part_type@),
        is_plain_value(j.date@),
        is_plain_value(j.lot@),
        is_plain_value(j.user@),
    ensures
        spec_form_decodes(
            Some(encode_spaces(j.job@)),
            Some(encode_spaces(j.part@)),
            Some(encode_spaces(j.start@)),
            Some(encode_spaces(j.stop@)),
            Some(encode_spaces(j.checksum@)),
            Some(encode_spaces(j.chip@)),
            Some(encode_spaces(j.vendor@)),
            Some(encode_spaces(j.part_type@)),
            Some(encode_spaces(j.date@)),
            Some(encode_spaces(j.lot@)),
            Some(encode_spaces(j.user@)),
        ),
        spec_form_job(
            j,
            Some(signed_decimal(j.jid as int)),
            Some(encode_spaces(j.job@)),
            Some(encode_spaces(j.part@)),
            Some(decimal(j.qty as nat)),
            Some(encode_spaces(j.start@)),
            Some(encode_spaces(j.stop@)),
            Some(encode_spaces(j.checksum@)),
            Some(encode_spaces(j.chip@)),
            Some(encode_spaces(j.vendor@)),
            Some(encode_spaces(j.part_type@)),
            Some(encode_spaces(j.date@)),
            Some(encode_spaces(j.lot@)),
            Some(encode_spaces(j.user@)),
        ),
{
    lemma_i64_text_round_trip(j.jid);
    lemma_u64_text_round_trip(j.qty);
    lemma_number_text_is_plain(j.jid, j.qty);
    lemma_plain_value_decodes_to_itself(signed_decimal(j.jid as int));
    lemma_plain_value_decodes_to_itself(decimal(j.qty as nat));
    lemma_encoded_value_decodes_to_itself(j.job@);
    lemma_encoded_value_decodes_to_itself(j.part@);
    lemma_encoded_value_decodes_to_itself(j.start@);
    lemma_encoded_value_decodes_to_itself(j.stop@);
    lemma_encoded_value_decodes_to_itself(j.checksum@);
    lemma_encoded_value_decodes_to_itself(j.chip@);
    lemma_encoded_value_decodes_to_itself(j.vendor@);
    lemma_encoded_value_decodes_to_itself(j.part_type@);
    lemma_encoded_value_decodes_to_itself(j.date@);
    lemma_encoded_value_decodes_to_itself(j.lot@);
    lemma_encoded_value_decodes_to_itself(j.user@);
}

/// An empty query shows the default job: every default decodes to itself.
pub proof fn lemma_form_defaults()
    ensures
        spec_form_field(None, "WO119B0849"@) == Some("WO119B0849"@),
        spec_form_field(None, "A502000699-1"@) == Some("A502000699-1"@),
        spec_form_field(None, "2019-11-30 13:10:00"@) == Some("2019-11-30 13:10:00"@),
        spec_form_field(None, "2019-11-30 19:48:16"@) == Some("2019-11-30 19:48:16"@),
        spec_form_field(None, "7AF"@) == Some("7AF"@),
        spec_form_field(None, "L036A"@) == Some("L036A"@),
        spec_form_field(None, "ALLEGRO"@) == Some("ALLEGRO"@),
        spec_form_field(None, "A5931GES"@) == Some("A5931GES"@),
        spec_form_field(None, "19/11/30"@) == Some("19/11/30"@),
        spec_form_field(None, "1927693LBCA"@) == Some("1927693LBCA"@),
        spec_form_field(None, "SZ123456"@) == Some("SZ123456"@),
{
    reveal_strlit("WO119B0849");
    reveal_strlit("A502000699-1");
    reveal_strlit("2019-11-30 13:10:00");
    reveal_strlit("2019-11-30 19:48:16");
    reveal_strlit("7AF");
    reveal_strlit("L036A");
    reveal_strlit("ALLEGRO");
    reveal_strlit("A5931GES");
    reveal_strlit("19/11/30");
    reveal_strlit("1927693LBCA");
    reveal_strlit("SZ123456");
    lemma_plain_value_decodes_to_itself("WO119B0849"@);
    lemma_plain_value_decodes_to_itself("A502000699-1"@);
    lemma_plain_value_decodes_to_itself("2019-11-30 13:10:00"@);
    lemma_plain_value_decodes_to_itself("2019-11-30 19:48:16"@);
    lemma_plain_value_decodes_to_itself("7AF"@);
    lemma_plain_value_decodes_to_itself("L036A"@);
    lemma_plain_value_decodes_to_itself("ALLEGRO"@);
    lemma_plain_value_decodes_to_itself("A5931GES"@);
    lemma_plain_value_decodes_to_itself("19/11/30"@);
    lemma_plain_value_decodes_to_itself("1927693LBCA"@);
    lemma_plain_value_decodes_to_itself("SZ123456"@);
}

/// The text view of an optional query value.
pub open spec fn opt_view(o: Option<&str>) -> Option<Seq<char>> {
    match o {
        Some(s) => Some(s@),
        None => None,
    }
}

/// A form field: the given value, or the default where none is given,
/// URL-decoded.
pub open spec fn spec_form_field(raw: Option<Seq<char>>, default: Seq<char>) -> Option<Seq<char>> {
    match raw {
        Some(r) => spec_url_decode(r),
        None => spec_url_decode(default),
    }
}

fn form_field(raw: Option<&str>, default: &str) -> (res: Option<String>)
    ensures
        match res {
            Some(s) => spec_form_field(opt_view(raw), default@) == Some(s@),
            None => spec_form_field(opt_view(raw), default@) is None,
        },
{
    match raw {
        Some(r) => url_decode(r),
        None => url_decode(default),
    }
}

/// The position of the first `&` at or after `i` in the query, or its end.
pub open spec fn segment_end(q: Seq<char>, i: int) -> int
    decreases q.len() - i,
{
    if i >= q.len() {
        q.len() as int
    } else if q[i] == '&' {
        i
    } else {
        segment_end(q, i + 1)
    }
}

/// The position of the first `=` at or after `i` and before `end`, or `end`.
pub open spec fn key_end(q: Seq<char>, i: int, end: int) -> int
    decreases end - i,
{
    if i >= end {
        end
    } else if q[i] == '=' {
        i
    } else {
        key_end(q, i + 1, end)
    }
}

/// The raw value of the parameter `name` in a raw query, looking from
/// position `i` on: the query is split at each `&` into `key=value`
/// segments (the value after the first `=`, empty where there is none), and
/// the first segment whose key is `name` gives the value.
pub open spec fn spec_query_value(q: Seq<char>, name: Seq<char>, i: int) -> Option<Seq<char>>
    decreases q.len() - i,
{
    if i < 0 || i > q.len() {
        None
    } else {
        let end = segment_end(q, i);
        let eq = key_end(q, i, end);
        if q.subrange(i, eq) == name {
            Some(if eq < end { q.subrange(eq + 1, end) } else { Seq::empty() })
        } else if end >= q.len() {
            None
        } else {
            proof {
                lemma_segment_end_bounds(q, i);
            }
            spec_query_value(q, name, end + 1)
        }
    }
}

/// `segment_end` lies between its start and the end of the query.
pub proof fn lemma_segment_end_bounds(q: Seq<char>, i: int)
    requires
        0 <= i <= q.len(),
    ensures
        i <= segment_end(q, i) <= q.len(),
    decreases q.len() - i,
{
    if i < q.len() && q[i] != '&' {
        lemma_segment_end_bounds(q, i + 1);
    }
}

/// True when `c` does not occur in `s`.
pub open spec fn lacks(s: Seq<char>, c: char) -> bool {
    forall|i: int| 0 <= i < s.len() ==> s[i] != c
}

/// One query parameter as a link writes it: `key=value`.
pub open spec fn param(key: Seq<char>, value: Seq<char>) -> Seq<char> {
    key + seq!['='] + value
}

proof fn lemma_key_end_bounds(q: Seq<char>, i: int, end: int)
    requires
        i <= end,
    ensures
        i <= key_end(q, i, end) <= end,
    decreases end - i,
{
    if i < end && q[i] != '=' {
        lemma_key_end_bounds(q, i + 1, end);
    }
}

proof fn lemma_segment_end_at(q: Seq<char>, i: int, j: int)
    requires
        0 <= i <= j <= q.len(),
        forall|t: int| i <= t < j ==> q[t] != '&',
        j == q.len() || q[j] == '&',
    ensures
        segment_end(q, i) == j,
    decreases j - i,
{
    if i < j {
        lemma_segment_end_at(q, i + 1, j);
    }
}

proof fn lemma_key_end_at(q: Seq<char>, i: int, j: int, end: int)
    requires
        i <= j <= end,
        forall|t: int| i <= t < j ==> q[t] != '=',
        j == end || q[j] == '=',
    ensures
        key_end(q, i, end) == j,
    decreases j - i,
{
    if i < j {
        lemma_key_end_at(q, i + 1, j, end);
    }
}

proof fn lemma_segment_end_shift(p: Seq<char>, r: Seq<char>, i: int)
    requires
        0 <= i <= r.len(),
    ensures
        segment_end(p + r, p.len() + i) == p.len() + segment_end(r, i),
    decreases r.len() - i,
{
    if i < r.len() {
        assert((p + r)[p.len() + i] == r[i]);
        if r[i] != '&' {
            lemma_segment_end_shift(p, r, i + 1);
        }
    }
}

proof fn lemma_key_end_shift(p: Seq<char>, r: Seq<char>, i: int, e: int)
    requires
        0 <= i <= e <= r.len(),
    ensures
        key_end(p + r, p.len() + i, p.len() + e) == p.len() + key_end(r, i, e),
    decreases e - i,
{
    if i < e {
        assert((p + r)[p.len() + i] == r[i]);
        if r[i] != '=' {
            lemma_key_end_shift(p, r, i + 1, e);
        }
    }
}

proof fn lemma_query_value_shift(p: Seq<char>, r: Seq<char>, name: Seq<char>, i: int)
    requires
        0 <= i <= r.len(),
    ensures
        spec_query_value(p + r, name, p.len() + i) == spec_query_value(r, name, i),
    decreases r.len() - i,
{
    let q = p + r;
    let end = segment_end(r, i);
    let eq = key_end(r, i, end);
    lemma_segment_end_bounds(r, i);
    lemma_key_end_bounds(r, i, end);
    lemma_segment_end_shift(p, r, i);
    lemma_key_end_shift(p, r, i, end);
    assert(q.subrange(p.len() + i, p.len() + eq) =~= r.subrange(i, eq));
    if eq < end {
        assert(q.subrange(p.len() + eq + 1, p.len() + end) =~= r.subrange(eq + 1, end));
    }
    if end < r.len() {
        lemma_query_value_shift(p, r, name, end + 1);
    }
}

/// A parameter whose key is not the name looked for is passed over: the
/// value comes from the rest of the query. So a key that merely begins with
/// the name (`part_type` for `part`) is never taken for it.
pub proof fn lemma_query_skips_other_key(k: Seq<char>, v: Seq<char>, rest: Seq<char>, name: Seq<char>)
    requires
        lacks(k, '&'),
        lacks(k, '='),
        lacks(v, '&'),
        k != name,
    ensures
        spec_query_value(param(k, v) + seq!['&'] + rest, name, 0) == spec_query_value(rest, name, 0),
        spec_query_value(param(k, v), name, 0) is None,
{
    let head = param(k, v) + seq!['&'];
    let q = head + rest;
    assert forall|t: int| 0 <= t < head.len() - 1 implies q[t] != '&' by {
        if t < k.len() {
            assert(q[t] == k[t]);
        } else if t > k.len() {
            assert(q[t] == v[t - k.len() - 1]);
        }
    }
    assert(q[head.len() - 1] == '&');
    lemma_segment_end_at(q, 0, head.len() - 1);
    assert forall|t: int| 0 <= t < k.len() implies q[t] != '=' by {
        assert(q[t] == k[t]);
    }
    lemma_key_end_at(q, 0, k.len() as int, head.len() - 1);
    assert(q.subrange(0, k.len() as int) =~= k);
    lemma_query_value_shift(head, rest, name, 0);
    assert(rest =~= rest);

    let last = param(k, v);
    assert forall|t: int| 0 <= t < last.len() implies last[t] != '&' by {
        if t < k.len() {
            assert(last[t] == k[t]);
        } else if t > k.len() {
            assert(last[t] == v[t - k.len() - 1]);
        }
    }
    lemma_segment_end_at(last, 0, last.len() as int);
    assert forall|t: int| 0 <= t < k.len() implies last[t] != '=' by {
        assert(last[t] == k[t]);
    }
    lemma_key_end_at(last, 0, k.len() as int, last.len() as int);
    assert(last.subrange(0, k.len() as int) =~= k);
}

/// The parameter whose key is the name looked for gives its value, whether
/// more parameters follow or not.
pub proof fn lemma_query_finds_key(k: Seq<char>, v: Seq<char>, rest: Seq<char>)
    requires
        lacks(k, '&'),
        lacks(k, '='),
        lacks(v, '&'),
    ensures
        spec_query_value(param(k, v) + seq!['&'] + rest, k, 0) == Some(v),
        spec_query_value(param(k, v), k, 0) == Some(v),
{
    let head = param(k, v) + seq!['&'];
    let q = head + rest;
    assert forall|t: int| 0 <= t < head.len() - 1 implies q[t] != '&' by {
        if t < k.len() {
            assert(q[t] == k[t]);
        } else if t > k.len() {
            assert(q[t] == v[t - k.len() - 1]);
        }
    }
    assert(q[head.len() - 1] == '&');
    lemma_segment_end_at(q, 0, head.len() - 1);
    assert forall|t: int| 0 <= t < k.len() implies q[t] != '=' by {
        assert(q[t] == k[t]);
    }
    lemma_key_end_at(q, 0, k.len() as int, head.len() - 1);
    assert(q.subrange(0, k.len() as int) =~= k);
    assert(q.subrange(k.len() + 1int, head.len() - 1) =~= v);

    let last = param(k, v);
    assert forall|t: int| 0 <= t < last.len() implies last[t] != '&' by {
        if t < k.len() {
            assert(last[t] == k[t]);
        } else if t > k.len() {
            assert(last[t] == v[t - k.len() - 1]);
        }
    }
    lemma_segment_end_at(last, 0, last.len() as int);
    assert forall|t: int| 0 <= t < k.len() implies last[t] != '=' by {
        assert(last[t] == k[t]);
    }
    lemma_key_end_at(last, 0, k.len() as int, last.len() as int);
    assert(last.subrange(0, k.len() as int) =~= k);
    assert(last.subrange(k.len() + 1int, last.len() as int) =~= v);
}

/// Parameters written one after the other, separated by `&`.
pub open spec fn join_params(ps: Seq<(Seq<char>, Seq<char>)>) -> Seq<char>
    decreases ps.len(),
{
    if ps.len() == 0 {
        Seq::empty()
    } else if ps.len() == 1 {
        param(ps[0].0, ps[0].1)
    } else {
        param(ps[0].0, ps[0].1) + seq!['&'] + join_params(ps.drop_first())
    }
}

/// In a query of parameters whose keys and values hold no `&` and whose
/// keys hold no `=`, the value found for a name is that of the first
/// parameter with exactly that key.
pub proof fn lemma_query_finds_first_key(ps: Seq<(Seq<char>, Seq<char>)>, m: int)
    requires
        0 <= m < ps.len(),
        forall|i: int| 0 <= i < ps.len() ==> lacks(#[trigger] ps[i].0, '&') && lacks(ps[i].0, '=') && lacks(ps[i].1, '&'),
        forall|i: int| 0 <= i < m ==> #[trigger] ps[i].0 != ps[m].0,
    ensures
        spec_query_value(join_params(ps), ps[m].0, 0) == Some(ps[m].1),
    decreases m,
{
    let k = ps[0].0;
    let v = ps[0].1;
    if ps.len() == 1 {
        lemma_query_finds_key(k, v, Seq::empty());
    } else if m == 0 {
        lemma_query_finds_key(k, v, join_params(ps.drop_first()));
    } else {
        lemma_query_skips_other_key(k, v, join_params(ps.drop_first()), ps[m].0);
        let rest = ps.drop_first();
        assert(rest[m - 1] == ps[m]);
        assert forall|i: int| 0 <= i < rest.len() implies lacks(#[trigger] rest[i].0, '&') && lacks(rest[i].0, '=') && lacks(rest[i].1, '&') by {
            assert(rest[i] == ps[i + 1]);
        }
        assert forall|i: int| 0 <= i < m - 1 implies #[trigger] rest[i].0 != rest[m - 1].0 by {
            assert(rest[i] == ps[i + 1]);
        }
        lemma_query_finds_first_key(rest, m - 1);
    }
}

proof fn lemma_number_text_lacks_amp(i: i64, n: u64)
    ensures
        lacks(signed_decimal(i as int), '&'),
        lacks(decimal(n as nat), '&'),
{
    lemma_decimal_digits(n as nat);
    if i < 0 {
        let m = (-i) as nat;
        lemma_decimal_digits(m);
        let t = seq!['-'] + decimal(m);
        assert forall|k: int| 0 <= k < t.len() implies t[k] != '&' by {
            if k > 0 {
                assert(t[k] == decimal(m)[k - 1]);
            }
        }
    } else {
        lemma_decimal_digits(i as nat);
    }
}

/// The parameters of a job's link, key by key, in the link's order.
pub open spec fn link_params(j: Job) -> Seq<(Seq<char>, Seq<char>)> {
    seq![
        (seq!['j', 'i', 'd'], signed_decimal(j.jid as int)),
        (seq!['j', 'o', 'b'], j.job@),
        (seq!['p', 'a', 'r', 't'], j.part@),
        (seq!['q', 't', 'y'], decimal(j.qty as nat)),
        (seq!['s', 't', 'a', 'r', 't'], j.start@),
        (seq!['s', 't', 'o', 'p'], j.stop@),
        (seq!['c', 'h', 'e', 'c', 'k', 's', 'u', 'm'], j.checksum@),
        (seq!['c', 'h', 'i', 'p'], j.chip@),
        (seq!['v', 'e', 'n', 'd', 'o', 'r'], j.vendor@),
        (seq!['p', 'a', 'r', 't', '_', 't', 'y', 'p', 'e'], j.part_type@),
        (seq!['d', 'a', 't', 'e'], j.date@),
        (seq!['l', 'o', 't'], j.lot@),
        (seq!['u', 's', 'e', 'r'], j.user@),
    ]
}

/// Parameters written one after the other, built from the last one back.
pub open spec fn join_left(ps: Seq<(Seq<char>, Seq<char>)>) -> Seq<char>
    decreases ps.len(),
{
    if ps.len() == 0 {
        Seq::empty()
    } else if ps.len() == 1 {
        param(ps[0].0, ps[0].1)
    } else {
        join_left(ps.drop_last()) + seq!['&'] + param(ps.last().0, ps.last().1)
    }
}

proof fn lemma_join_params_snoc(ps: Seq<(Seq<char>, Seq<char>)>)
    requires
        ps.len() >= 2,
    ensures
        join_params(ps) == join_params(ps.drop_last()) + seq!['&'] + param(ps.last().0, ps.last().1),
    decreases ps.len(),
{
    let df = ps.drop_first();
    if ps.len() == 2 {
        assert(df.len() == 1 && df[0] == ps.last());
        assert(ps.drop_last().len() == 1 && ps.drop_last()[0] == ps[0]);
        assert(join_params(df) == param(ps.last().0, ps.last().1));
        assert(join_params(ps.drop_last()) == param(ps[0].0, ps[0].1));
        assert(join_params(ps) == param(ps[0].0, ps[0].1) + seq!['&'] + join_params(df));
    } else {
        lemma_join_params_snoc(df);
        assert(df.drop_last() =~= ps.drop_last().drop_first());
        assert(df.last() == ps.last());
        assert(ps.drop_last()[0] == ps[0]);
        let p0 = param(ps[0].0, ps[0].1);
        let mid = join_params(df.drop_last());
        let l = param(ps.last().0, ps.last().1);
        assert(join_params(ps) == p0 + seq!['&'] + join_params(df));
        assert(join_params(ps.drop_last()) == p0 + seq!['&'] + join_params(ps.drop_last().drop_first()));
        assert(p0 + seq!['&'] + (mid + seq!['&'] + l) =~= (p0 + seq!['&'] + mid) + seq!['&'] + l);
    }
}

proof fn lemma_join_left_is_join(ps: Seq<(Seq<char>, Seq<char>)>)
    ensures
        join_left(ps) == join_params(ps),
    decreases ps.len(),
{
    if ps.len() >= 2 {
        lemma_join_left_is_join(ps.drop_last());
        lemma_join_params_snoc(ps);
    }
}

proof fn lemma_link_step(
    t: Seq<char>,
    lit: Seq<char>,
    v: Seq<char>,
    ps: Seq<(Seq<char>, Seq<char>)>,
    k: int,
)
    requires
        t.len() >= 4,
        1 <= k < ps.len(),
        t.skip(4) == join_left(ps.take(k)),
        lit == seq!['&'] + ps[k].0 + seq!['='],
        v == ps[k].1,
    ensures
        (t + lit + v).skip(4) == join_left(ps.take(k + 1)),
{
    let pk = ps.take(k + 1);
    assert(pk.drop_last() =~= ps.take(k));
    assert(pk.last() == ps[k]);
    assert((t + lit + v).skip(4) =~= t.skip(4) + seq!['&'] + param(ps[k].0, ps[k].1));
}

/// The query part of a job's link (after `job?`) is the job's thirteen
/// parameters, `&`-separated, in the form's order.
proof fn lemma_link_query_shape(j: Job)
    ensures
        spec_job_query(j).skip(4) == join_params(link_params(j)),
{
    let ps = link_params(j);
    reveal_strlit("job?jid=");
    let t1 = "job?jid="@ + signed_decimal(j.jid as int);
    assert(ps.take(1).len() == 1 && ps.take(1)[0] == ps[0]);
    assert(t1.skip(4) =~= join_left(ps.take(1)));
    reveal_strlit("&job=");
    assert("&job="@ =~= seq!['&'] + ps[1].0 + seq!['=']);
    lemma_link_step(t1, "&job="@, j.job@, ps, 1);
    let t2 = t1 + "&job="@ + j.job@;
    reveal_strlit("&part=");
    assert("&part="@ =~= seq!['&'] + ps[2].0 + seq!['=']);
    lemma_link_step(t2, "&part="@, j.part@, ps, 2);
    let t3 = t2 + "&part="@ + j.part@;
    reveal_strlit("&qty=");
    assert("&qty="@ =~= seq!['&'] + ps[3].0 + seq!['=']);
    lemma_link_step(t3, "&qty="@, decimal(j.qty as nat), ps, 3);
    let t4 = t3 + "&qty="@ + decimal(j.qty as nat);
    reveal_strlit("&start=");
    assert("&start="@ =~= seq!['&'] + ps[4].0 + seq!['=']);
    lemma_link_step(t4, "&start="@, j.start@, ps, 4);
    let t5 = t4 + "&start="@ + j.start@;
    reveal_strlit("&stop=");
    assert("&stop="@ =~= seq!['&'] + ps[5].0 + seq!['=']);
    lemma_link_step(t5, "&stop="@, j.stop@, ps, 5);
    let t6 = t5 + "&stop="@ + j.stop@;
    reveal_strlit("&checksum=");
    assert("&checksum="@ =~= seq!['&'] + ps[6].0 + seq!['=']);
    lemma_link_step(t6, "&checksum="@, j.checksum@, ps, 6);
    let t7 = t6 + "&checksum="@ + j.checksum@;
    reveal_strlit("&chip=");
    assert("&chip="@ =~= seq!['&'] + ps[7].0 + seq!['=']);
    lemma_link_step(t7, "&chip="@, j.chip@, ps, 7);
    let t8 = t7 + "&chip="@ + j.chip@;
    reveal_strlit("&vendor=");
    assert("&vendor="@ =~= seq!['&'] + ps[8].0 + seq!['=']);
    lemma_link_step(t8, "&vendor="@, j.vendor@, ps, 8);
    let t9 = t8 + "&vendor="@ + j.vendor@;
    reveal_strlit("&part_type=");
    assert("&part_type="@ =~= seq!['&'] + ps[9].0 + seq!['=']);
    lemma_link_step(t9, "&part_type="@, j.part_type@, ps, 9);
    let t10 = t9 + "&part_type="@ + j.part_type@;
    reveal_strlit("&date=");
    assert("&date="@ =~= seq!['&'] + ps[10].0 + seq!['=']);
    lemma_link_step(t10, "&date="@, j.date@, ps, 10);
    let t11 = t10 + "&date="@ + j.date@;
    reveal_strlit("&lot=");
    assert("&lot="@ =~= seq!['&'] + ps[11].0 + seq!['=']);
    lemma_link_step(t11, "&lot="@, j.lot@, ps, 11);
    let t12 = t11 + "&lot="@ + j.lot@;
    reveal_strlit("&user=");
    assert("&user="@ =~= seq!['&'] + ps[12].0 + seq!['=']);
    lemma_link_step(t12, "&user="@, j.user@, ps, 12);
    let t13 = t12 + "&user="@ + j.user@;
    assert(ps.take(13) =~= ps);
    assert(t13 == spec_job_query(j));
    lemma_join_left_is_join(ps);
}

proof fn lemma_link_keys(j: Job)
    ensures
        forall|m: int, i: int|
            0 <= i < m < 13 ==> #[trigger] link_params(j)[i].0 != #[trigger] link_params(j)[m].0,
        forall|i: int|
            0 <= i < 13 ==> lacks(#[trigger] link_params(j)[i].0, '&') && lacks(link_params(j)[i].0, '='),
        link_params(j).len() == 13,
{
    let ps = link_params(j);
    assert forall|m: int, i: int| 0 <= i < m < 13 implies #[trigger] ps[i].0 != #[trigger] ps[m].0 by {
        if ps[i].0.len() == ps[m].0.len() {
            if ps[i].0[0] == ps[m].0[0] {
                assert(ps[i].0[1] != ps[m].0[1] || ps[i].0[2] != ps[m].0[2]);
            }
        }
    }
}

/// A job's link carries every field of the job, the empty ones too: where
/// no text field holds `&`, reading the link's query (after `job?`) by each
/// parameter name gives back exactly that field's text.
#[verifier::rlimit(50)]
pub proof fn lemma_link_carries_every_field(j: Job)
    requires
        lacks(j.job@, '&'),
        lacks(j.part@, '&'),
        lacks(j.start@, '&'),
        lacks(j.stop@, '&'),
        lacks(j.checksum@, '&'),
        lacks(j.chip@, '&'),
        lacks(j.vendor@, '&'),
        lacks(j.part_type@, '&'),
        lacks(j.date@, '&'),
        lacks(j.lot@, '&'),
        lacks(j.user@, '&'),
    ensures
        spec_query_value(spec_job_query(j).skip(4), "jid"@, 0) == Some(signed_decimal(j.jid as int)),
        spec_query_value(spec_job_query(j).skip(4), "job"@, 0) == Some(j.job@),
        spec_query_value(spec_job_query(j).skip(4), "part"@, 0) == Some(j.part@),
        spec_query_value(spec_job_query(j).skip(4), "qty"@, 0) == Some(decimal(j.qty as nat)),
        spec_query_value(spec_job_query(j).skip(4), "start"@, 0) == Some(j.start@),
        spec_query_value(spec_job_query(j).skip(4), "stop"@, 0) == Some(j.stop@),
        spec_query_value(spec_job_query(j).skip(4), "checksum"@, 0) == Some(j.checksum@),
        spec_query_value(spec_job_query(j).skip(4), "chip"@, 0) == Some(j.chip@),
        spec_query_value(spec_job_query(j).skip(4), "vendor"@, 0) == Some(j.vendor@),
        spec_query_value(spec_job_query(j).skip(4), "part_type"@, 0) == Some(j.part_type@),
        spec_query_value(spec_job_query(j).skip(4), "date"@, 0) == Some(j.date@),
        spec_query_value(spec_job_query(j).skip(4), "lot"@, 0) == Some(j.lot@),
        spec_query_value(spec_job_query(j).skip(4), "user"@, 0) == Some(j.user@),
{
    let ps = link_params(j);
    lemma_link_query_shape(j);
    lemma_link_keys(j);
    lemma_number_text_lacks_amp(j.jid, j.qty);
    assert forall|i: int| 0 <= i < ps.len() implies lacks(#[trigger] ps[i].0, '&') && lacks(ps[i].0, '=') && lacks(ps[i].1, '&') by {
    }
    reveal_strlit("jid");
    reveal_strlit("job");
    reveal_strlit("part");
    reveal_strlit("qty");
    reveal_strlit("start");
    reveal_strlit("stop");
    reveal_strlit("checksum");
    reveal_strlit("chip");
    reveal_strlit("vendor");
    reveal_strlit("part_type");
    reveal_strlit("date");
    reveal_strlit("lot");
    reveal_strlit("user");
    assert("jid"@ =~= ps[0].0);
    assert("job"@ =~= ps[1].0);
    assert("part"@ =~= ps[2].0);
    assert("qty"@ =~= ps[3].0);
    assert("start"@ =~= ps[4].0);
    assert("stop"@ =~= ps[5].0);
    assert("checksum"@ =~= ps[6].0);
    assert("chip"@ =~= ps[7].0);
    assert("vendor"@ =~= ps[8].0);
    assert("part_type"@ =~= ps[9].0);
    assert("date"@ =~= ps[10].0);
    assert("lot"@ =~= ps[11].0);
    assert("user"@ =~= ps[12].0);
    lemma_query_finds_first_key(ps, 0);
    lemma_query_finds_first_key(ps, 1);
    lemma_query_finds_first_key(ps, 2);
    lemma_query_finds_first_key(ps, 3);
    lemma_query_finds_first_key(ps, 4);
    lemma_query_finds_first_key(ps, 5);
    lemma_query_finds_first_key(ps, 6);
    lemma_query_finds_first_key(ps, 7);
    lemma_query_finds_first_key(ps, 8);
    lemma_query_finds_first_key(ps, 9);
    lemma_query_finds_first_key(ps, 10);
    lemma_query_finds_first_key(ps, 11);
    lemma_query_finds_first_key(ps, 12);
}

/// The raw (still URL-encoded) value of the parameter `name` in a raw query
/// string: the first `&`-separated segment whose key is `name`.
pub fn query_value(query: &str, name: &str) -> (res: Option<String>)
    ensures
        match res {
            Some(v) => spec_query_value(query@, name@, 0) == Some(v@),
            None => spec_query_value(query@, name@, 0) is None,
        },
{
    let len = query.unicode_len();
    let name_text = String::from_str(name);
    let mut i: usize = 0;
    loop
        invariant
            0 <= i <= len,
            len == query@.len(),
            name_text@ == name@,
            spec_query_value(query@, name@, 0) == spec_query_value(query@, name@, i as int),
        decreases len - i,
    {
        let mut end: usize = i;
        while end < len && query.get_char(end) != '&'
            invariant
                i <= end <= len,
                len == query@.len(),
                segment_end(query@, i as int) == segment_end(query@, end as int),
            decreases len - end,
        {
            end = end + 1;
        }
        let mut eq: usize = i;
        while eq < end && query.get_char(eq) != '='
            invariant
                i <= eq <= end <= len,
                len == query@.len(),
                key_end(query@, i as int, end as int) == key_end(query@, eq as int, end as int),
            decreases end - eq,
        {
            eq = eq + 1;
        }
        let key = String::from_str(query.substring_char(i, eq));
        if key == name_text {
            if eq < end {
                return Some(String::from_str(query.substring_char(eq + 1, end)));
            } else {
                return Some(String::new());
            }
        }
        if end >= len {
            return None;
        }
        i = end + 1;
    }
}

/// A number parameter: its URL-decoded text read as `from_str` reads an
/// `i64`; the default where the parameter is absent, does not decode, or
/// spells no `i64`.
pub open spec fn spec_i64_param(raw: Option<Seq<char>>, default: i64) -> i64 {
    match raw {
        Some(r) => match spec_url_decode(r) {
            Some(t) => match spec_parse_i64(t) {
                Some(v) => v,
                None => default,
            },
            None => default,
        },
        None => default,
    }
}

/// A number parameter: its URL-decoded text read as `from_str` reads a
/// `u64`; the default where the parameter is absent, does not decode, or
/// spells no `u64`.
pub open spec fn spec_u64_param(raw: Option<Seq<char>>, default: u64) -> u64 {
    match raw {
        Some(r) => match spec_url_decode(r) {
            Some(t) => match spec_parse_u64(t) {
                Some(v) => v,
                None => default,
            },
            None => default,
        },
        None => default,
    }
}

/// True when every text parameter of the job form, or its default where it
/// is absent, URL-decodes to UTF-8.
pub open spec fn spec_form_decodes(
    job: Option<Seq<char>>,
    part: Option<Seq<char>>,
    start: Option<Seq<char>>,
    stop: Option<Seq<char>>,
    checksum: Option<Seq<char>>,
    chip: Option<Seq<char>>,
    vendor: Option<Seq<char>>,
    part_type: Option<Seq<char>>,
    date: Option<Seq<char>>,
    lot: Option<Seq<char>>,
    user: Option<Seq<char>>,
) -> bool {
    &&& spec_form_field(job, "WO119B0849"@) is Some
    &&& spec_form_field(part, "A502000699-1"@) is Some
    &&& spec_form_field(start, "2019-11-30 13:10:00"@) is Some
    &&& spec_form_field(stop, "2019-11-30 19:48:16"@) is Some
    &&& spec_form_field(checksum, "7AF"@) is Some
    &&& spec_form_field(chip, "L036A"@) is Some
    &&& spec_form_field(vendor, "ALLEGRO"@) is Some
    &&& spec_form_field(part_type, "A5931GES"@) is Some
    &&& spec_form_field(date, "19/11/30"@) is Some
    &&& spec_form_field(lot, "1927693LBCA"@) is Some
    &&& spec_form_field(user, "SZ123456"@) is Some
}

/// The job that the job form shows for the given raw (still URL-encoded)
/// query parameters: each absent parameter takes its default, each value is
/// URL-decoded, and the numbers are read from their decoded text.
pub open spec fn spec_form_job(
    j: Job,
    jid: Option<Seq<char>>,
    job: Option<Seq<char>>,
    part: Option<Seq<char>>,
    qty: Option<Seq<char>>,
    start: Option<Seq<char>>,
    stop: Option<Seq<char>>,
    checksum: Option<Seq<char>>,
    chip: Option<Seq<char>>,
    vendor: Option<Seq<char>>,
    part_type: Option<Seq<char>>,
    date: Option<Seq<char>>,
    lot: Option<Seq<char>>,
    user: Option<Seq<char>>,
) -> bool {
    &&& j.jid == spec_i64_param(jid, 0)
    &&& j.qty == spec_u64_param(qty, 5990)
    &&& spec_form_field(job, "WO119B0849"@) == Some(j.job@)
    &&& spec_form_field(part, "A502000699-1"@) == Some(j.part@)
    &&& spec_form_field(start, "2019-11-30 13:10:00"@) == Some(j.start@)
    &&& spec_form_field(stop, "2019-11-30 19:48:16"@) == Some(j.stop@)
    &&& spec_form_field(checksum, "7AF"@) == Some(j.checksum@)
    &&& spec_form_field(chip, "L036A"@) == Some(j.chip@)
    &&& spec_form_field(vendor, "ALLEGRO"@) == Some(j.vendor@)
    &&& spec_form_field(part_type, "A5931GES"@) == Some(j.part_type@)
    &&& spec_form_field(date, "19/11/30"@) == Some(j.date@)
    &&& spec_form_field(lot, "1927693LBCA"@) == Some(j.lot@)
    &&& spec_form_field(user, "SZ123456"@) == Some(j.user@)
}

fn i64_param(raw: Option<&str>, default: i64) -> (res: i64)
    ensures
        res == spec_i64_param(opt_view(raw), default),
{
    match raw {
        Some(r) => match url_decode(r) {
            Some(t) => match parse_i64(t.as_str()) {
                Some(v) => v,
                None => default,
            },
            None => default,
        },
        None => default,
    }
}

fn u64_param(raw: Option<&str>, default: u64) -> (res: u64)
    ensures
        res == spec_u64_param(opt_view(raw), default),
{
    match raw {
        Some(r) => match url_decode(r) {
            Some(t) => match parse_u64(t.as_str()) {
                Some(v) => v,
                None => default,
            },
            None => default,
        },
        None => default,
    }
}

fn decoded_field(raw: Option<&str>, default: &str) -> (res: String)
    requires
        spec_form_field(opt_view(raw), default@) is Some,
    ensures
        spec_form_field(opt_view(raw), default@) == Some(res@),
{
    match form_field(raw, default) {
        Some(v) => v,
        None => unreached(),
    }
}

/// The job that the job form shows for the given raw query parameters. The
/// form refuses (the original panics on) a text that does not URL-decode to
/// UTF-8: such queries are left out here, see `try_job_form`.
pub fn job_form(
    jid: Option<&str>,
    job: Option<&str>,
    part: Option<&str>,
    qty: Option<&str>,
    start: Option<&str>,
    stop: Option<&str>,
    checksum: Option<&str>,
    chip: Option<&str>,
    vendor: Option<&str>,
    part_type: Option<&str>,
    date: Option<&str>,
    lot: Option<&str>,
    user: Option<&str>,
) -> (res: Job)
    requires
        spec_form_decodes(
            opt_view(job),
            opt_view(part),
            opt_view(start),
            opt_view(stop),
            opt_view(checksum),
            opt_view(chip),
            opt_view(vendor),
            opt_view(part_type),
            opt_view(date),
            opt_view(lot),
            opt_view(user),
        ),
    ensures
        spec_form_job(
            res,
            opt_view(jid),
            opt_view(job),
            opt_view(part),
            opt_view(qty),
            opt_view(start),
            opt_view(stop),
            opt_view(checksum),
            opt_view(chip),
            opt_view(vendor),
            opt_view(part_type),
            opt_view(date),
            opt_view(lot),
            opt_view(user),
        ),
{
    Job {
        jid: i64_param(jid, 0),
        job: decoded_field(job, "WO119B0849"),
        part: decoded_field(part, "A502000699-1"),
        qty: u64_param(qty, 5990),
        start: decoded_field(start, "2019-11-30 13:10:00"),
        stop: decoded_field(stop, "2019-11-30 19:48:16"),
        checksum: decoded_field(checksum, "7AF"),
        chip: decoded_field(chip, "L036A"),
        vendor: decoded_field(vendor, "ALLEGRO"),
        part_type: decoded_field(part_type, "A5931GES"),
        date: decoded_field(date, "19/11/30"),
        lot: decoded_field(lot, "1927693LBCA"),
        user: decoded_field(user, "SZ123456"),
    }
}

/// The job form for any query: `None` exactly where a text does not
/// URL-decode to UTF-8 (where the form refuses the query), else the job that
/// `job_form` shows.
pub fn try_job_form(
    jid: Option<&str>,
    job: Option<&str>,
    part: Option<&str>,
    qty: Option<&str>,
    start: Option<&str>,
    stop: Option<&str>,
    checksum: Option<&str>,
    chip: Option<&str>,
    vendor: Option<&str>,
    part_type: Option<&str>,
    date: Option<&str>,
    lot: Option<&str>,
    user: Option<&str>,
) -> (res: Option<Job>)
    ensures
        res is Some <==> spec_form_decodes(
            opt_view(job),
            opt_view(part),
            opt_view(start),
            opt_view(stop),
            opt_view(checksum),
            opt_view(chip),
            opt_view(vendor),
            opt_view(part_type),
            opt_view(date),
            opt_view(lot),
            opt_view(user),
        ),
        res matches Some(j) ==> spec_form_job(
            j,
            opt_view(jid),
            opt_view(job),
            opt_view(part),
            opt_view(qty),
            opt_view(start),
            opt_view(stop),
            opt_view(checksum),
            opt_view(chip),
            opt_view(vendor),
            opt_view(part_type),
            opt_view(date),
            opt_view(lot),
            opt_view(user),
        ),
{
    let decodes = form_field(job, "WO119B0849").is_some()
        && form_field(part, "A502000699-1").is_some()
        && form_field(start, "2019-11-30 13:10:00").is_some()
        && form_field(stop, "2019-11-30 19:48:16").is_some()
        && form_field(checksum, "7AF").is_some()
        && form_field(chip, "L036A").is_some()
        && form_field(vendor, "ALLEGRO").is_some()
        && form_field(part_type, "A5931GES").is_some()
        && form_field(date, "19/11/30").is_some()
        && form_field(lot, "1927693LBCA").is_some()
        && form_field(user, "SZ123456").is_some();
    if decodes {
        Some(job_form(jid, job, part, qty, start, stop, checksum, chip, vendor, part_type, date, lot, user))
    } else {
        None
    }
}

/// The query of the link to the job form for a job: every field, unencoded,
/// in the form's order.
pub open spec fn spec_job_query(j: Job) -> Seq<char> {
    "job?jid="@ + signed_decimal(j.jid as int)
        + "&job="@ + j.job@
        + "&part="@ + j.part@
        + "&qty="@ + decimal(j.qty as nat)
        + "&start="@ + j.start@
        + "&stop="@ + j.stop@
        + "&checksum="@ + j.checksum@
        + "&chip="@ + j.chip@
        + "&vendor="@ + j.vendor@
        + "&part_type="@ + j.part_type@
        + "&date="@ + j.date@
        + "&lot="@ + j.lot@
        + "&user="@ + j.user@
}

/// The link to the job form filled with a job, relative to the service root.
pub fn job_query(j: &Job) -> (res: String)
    ensures
        res@ == spec_job_query(*j),
{
    let mut out = String::from_str("job?jid=");
    let jid = i64_to_string(j.jid);
    out.append(jid.as_str());
    out.append("&job=");
    out.append(j.job.as_str());
    out.append("&part=");
    out.append(j.part.as_str());
    out.append("&qty=");
    push_decimal(&mut out, j.qty);
    out.append("&start=");
    out.append(j.start.as_str());
    out.append("&stop=");
    out.append(j.stop.as_str());
    out.append("&checksum=");
    out.append(j.checksum.as_str());
    out.append("&chip=");
    out.append(j.chip.as_str());
    out.append("&vendor=");
    out.append(j.vendor.as_str());
    out.append("&part_type=");
    out.append(j.part_type.as_str());
    out.append("&date=");
    out.append(j.date.as_str());
    out.append("&lot=");
    out.append(j.lot.as_str());
    out.append("&user=");
    out.append(j.user.as_str());
    out
}

/// The address at which the service runs on the local machine.
pub open spec fn spec_service_root() -> Seq<char> {
    "http://localhost:8000/"@
}

/// The full address of the job form filled with a job, on the local service.
pub fn job_uri(j: &Job) -> (res: String)
    ensures
        res@ == spec_service_root() + spec_job_query(*j),
{
    let mut out = String::from_str("http://localhost:8000/");
    let q = job_query(j);
    out.append(q.as_str());
    out
}

/// How many jobs the home page lists.
pub const PAGE_SIZE: i64 = 10;

/// The paging of the home page: the highest job id it lists (the requested
/// one, else the last one stored), and the id the "next" link starts from,
/// which exists where ids below a full page remain.
pub fn home_page(max: Option<i64>, last: i64) -> (res: (i64, Option<i64>))
    ensures
        res.0 == (match max { Some(m) => m, None => last }),
        res.1 == (if res.0 > PAGE_SIZE { Some((res.0 - PAGE_SIZE) as i64) } else { None }),
{
    let m = match max {
        Some(m) => m,
        None => last,
    };
    if m > PAGE_SIZE {
        (m, Some(m - PAGE_SIZE))
    } else {
        (m, None)
    }
}

} // verus!
