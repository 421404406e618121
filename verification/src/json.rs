//! Small JSON texts the kernel writes, and the two field lookups it uses
//! on stored JSON.
use vstd::prelude::*;
use crate::text::{all_digits, chars_of, digit_value, digits_value, escape_seq, is_digit, push_char, push_chars, push_escaped, push_str};

verus! {

/// `n` occurs in `h` at index `i`.
pub open spec fn occurs_at(h: Seq<char>, n: Seq<char>, i: int) -> bool {
    0 <= i && i + n.len() <= h.len() && h.subrange(i, i + n.len()) == n
}

/// First index `>= i` where `n` occurs in `h`, or `-1`.
pub open spec fn find_from(h: Seq<char>, n: Seq<char>, i: int) -> int
    decreases h.len() - i,
{
    if i < 0 || i + n.len() > h.len() {
        -1
    } else if occurs_at(h, n, i) {
        i
    } else if i >= h.len() {
        -1
    } else {
        find_from(h, n, i + 1)
    }
}

/// Index of the first `c` in `s` at or after `i`, or `-1`.
pub open spec fn find_char_from(s: Seq<char>, c: char, i: int) -> int
    decreases s.len() - i,
{
    if i < 0 || i >= s.len() {
        -1
    } else if s[i] == c {
        i
    } else {
        find_char_from(s, c, i + 1)
    }
}

/// Index of the first non-digit in `s` at or after `i`, or `s.len()`.
pub open spec fn digits_end(s: Seq<char>, i: int) -> int
    decreases s.len() - i,
{
    if i < 0 || i >= s.len() {
        s.len() as int
    } else if !is_digit(s[i]) {
        i
    } else {
        digits_end(s, i + 1)
    }
}

/// `"{field}":"`.
pub open spec fn string_needle(field: Seq<char>) -> Seq<char> {
    seq!['"'] + field + seq!['"', ':', '"']
}

/// `"{field}":`.
pub open spec fn number_needle(field: Seq<char>) -> Seq<char> {
    seq!['"'] + field + seq!['"', ':']
}

/// The text between `"{field}":"` (its first occurrence) and the next
/// double quote; `None` when either is missing.
pub open spec fn json_string_field_spec(json: Seq<char>, field: Seq<char>) -> Option<Seq<char>> {
    let needle = string_needle(field);
    let i = find_from(json, needle, 0);
    if i < 0 {
        None
    } else {
        let start = i + needle.len();
        let end = find_char_from(json, '"', start);
        if end < 0 {
            None
        } else {
            Some(json.subrange(start, end))
        }
    }
}

/// The digits right after `"{field}":` (its first occurrence) as a `u32`;
/// 0 when the field is missing, no digit follows, or the value does not fit.
pub open spec fn json_u32_field_spec(json: Seq<char>, field: Seq<char>) -> u32 {
    let needle = number_needle(field);
    let i = find_from(json, needle, 0);
    if i < 0 {
        0
    } else {
        let start = i + needle.len();
        let digits = json.subrange(start, digits_end(json, start));
        if digits.len() > 0 && digits_value(digits) <= u32::MAX {
            digits_value(digits) as u32
        } else {
            0
        }
    }
}

/// Whether `n` occurs in `h` at `i`.
fn occurs_at_exec(h: &Vec<char>, n: &Vec<char>, i: usize) -> (found: bool)
    requires
        i + n@.len() <= h@.len(),
    ensures
        found == occurs_at(h@, n@, i as int),
{
    let m = n.len();
    let mut j: usize = 0;
    while j < m
        invariant
            m == n@.len(),
            i + m <= h@.len(),
            j <= m,
            forall|k: int| 0 <= k < j ==> h@[i + k] == n@[k],
        decreases m - j,
    {
        assert(i + j < h.len());
        if h[i + j] != n[j] {
            proof {
                assert(h@.subrange(i as int, i + m)[j as int] != n@[j as int]);
            }
            return false;
        }
        j = j + 1;
    }
    assert(h@.subrange(i as int, i + m) =~= n@);
    true
}

/// First index where `n` occurs in `h`.
fn find_needle(h: &Vec<char>, n: &Vec<char>) -> (found: Option<usize>)
    ensures
        match found {
            Some(i) => i as int == find_from(h@, n@, 0) && i + n@.len() <= h@.len(),
            None => find_from(h@, n@, 0) == -1,
        },
{
    if n.len() > h.len() {
        return None;
    }
    let last = h.len() - n.len();
    let mut i: usize = 0;
    loop
        invariant
            last == h@.len() - n@.len(),
            n@.len() <= h@.len(),
            i <= last,
            find_from(h@, n@, 0) == find_from(h@, n@, i as int),
        decreases last - i,
    {
        if occurs_at_exec(h, n, i) {
            return Some(i);
        }
        if i == last {
            proof {
                assert(find_from(h@, n@, i as int + 1) == -1);
            }
            return None;
        }
        i = i + 1;
    }
}

/// First index of `c` in `s` at or after `from`.
fn find_char_after(s: &Vec<char>, c: char, from: usize) -> (found: Option<usize>)
    requires
        from <= s@.len(),
    ensures
        match found {
            Some(k) => k as int == find_char_from(s@, c, from as int) && from <= k < s@.len(),
            None => find_char_from(s@, c, from as int) == -1,
        },
{
    let n = s.len();
    let mut i = from;
    while i < n
        invariant
            n == s@.len(),
            from <= i <= n,
            find_char_from(s@, c, from as int) == find_char_from(s@, c, i as int),
        decreases n - i,
    {
        if s[i] == c {
            return Some(i);
        }
        i = i + 1;
    }
    None
}

/// Builds `"{field}":` and, with `quote`, a trailing `"`.
fn needle_for(field: &str, quote: bool) -> (needle: Vec<char>)
    ensures
        quote ==> needle@ == string_needle(field@),
        !quote ==> needle@ == number_needle(field@),
{
    let fc = chars_of(field);
    let mut v: Vec<char> = Vec::new();
    v.push('"');
    let n = fc.len();
    let mut i: usize = 0;
    while i < n
        invariant
            n == fc@.len(),
            i <= n,
            v@ == seq!['"'] + fc@.take(i as int),
        decreases n - i,
    {
        v.push(fc[i]);
        i = i + 1;
        assert(v@ =~= seq!['"'] + fc@.take(i as int));
    }
    v.push('"');
    v.push(':');
    if quote {
        v.push('"');
    }
    assert(fc@.take(n as int) =~= field@);
    proof {
        if quote {
            assert(v@ =~= string_needle(field@));
        } else {
            assert(v@ =~= number_needle(field@));
        }
    }
    v
}

/// Reads a string field from a small JSON text: the text between
/// `"{field}":"` and the next double quote.
pub fn json_string_field(json: &str, field: &str) -> (value: Option<String>)
    ensures
        match json_string_field_spec(json@, field@) {
            Some(v) => value matches Some(s) && s@ == v,
            None => value is None,
        },
{
    let h = chars_of(json);
    let needle = needle_for(field, true);
    let i = match find_needle(&h, &needle) {
        Some(i) => i,
        None => return None,
    };
    assert(i + needle.len() <= h.len());
    let start = i + needle.len();
    let end = match find_char_after(&h, '"', start) {
        Some(e) => e,
        None => return None,
    };
    let mut out = String::new();
    push_chars(&mut out, &h, start, end);
    proof {
        assert(out@ =~= h@.subrange(start as int, end as int));
    }
    Some(out)
}

/// Reads a string field from optional JSON: `None` without JSON.
pub fn json_string_field_in(json: Option<&str>, field: &str) -> (value: Option<String>)
    ensures
        match json {
            None => value is None,
            Some(j) => match json_string_field_spec(j@, field@) {
                Some(v) => value matches Some(s) && s@ == v,
                None => value is None,
            },
        },
{
    match json {
        Some(j) => json_string_field(j, field),
        None => None,
    }
}

/// Reads an unsigned number field from a small JSON text.
pub fn json_u32_field(json: &str, field: &str) -> (value: u32)
    ensures
        value == json_u32_field_spec(json@, field@),
{
    let h = chars_of(json);
    let needle = needle_for(field, false);
    let i = match find_needle(&h, &needle) {
        Some(i) => i,
        None => return 0,
    };
    assert(i + needle.len() <= h.len());
    let start = i + needle.len();
    let n = h.len();
    let mut k = start;
    let mut value: u64 = 0;
    let mut too_big = false;
    while k < n && '0' <= h[k] && h[k] <= '9'
        invariant
            n == h@.len(),
            start <= k <= n,
            digits_end(h@, start as int) == digits_end(h@, k as int),
            all_digits(h@.subrange(start as int, k as int)),
            !too_big ==> value == digits_value(h@.subrange(start as int, k as int)) && value <= u32::MAX,
            too_big ==> digits_value(h@.subrange(start as int, k as int)) > u32::MAX,
        decreases n - k,
    {
        let c = h[k];
        let dv: u64 = (c as u64) - 48;
        proof {
            let p = h@.subrange(start as int, k as int + 1);
            assert(p.drop_last() =~= h@.subrange(start as int, k as int));
            assert(p.last() == c);
            assert(dv == digit_value(c));
            assert forall|j: int| 0 <= j < p.len() implies is_digit(#[trigger] p[j]) by {
                if j < p.len() - 1 {
                    assert(p[j] == h@.subrange(start as int, k as int)[j]);
                }
            }
        }
        if !too_big {
            let next = value * 10 + dv;
            if next > 4294967295 {
                too_big = true;
            } else {
                value = next;
            }
        }
        k = k + 1;
    }
    proof {
        assert(digits_end(h@, k as int) == k);
    }
    if k == start || too_big {
        0
    } else {
        value as u32
    }
}

/// `{"type":"{kind}","scenario_key":"{id}","state":"last_known"}` with both
/// values escaped.
pub open spec fn known_redacted_json_spec(subject_kind: Seq<char>, subject_id: Seq<char>) -> Seq<char> {
    "{\"type\":\""@ + escape_seq(subject_kind) + "\",\"scenario_key\":\""@ + escape_seq(subject_id)
        + "\",\"state\":\"last_known\"}"@
}

/// The last-known record shown for a subject that is out of sight.
pub fn known_redacted_json(subject_kind: &str, subject_id_text: &str) -> (json: String)
    ensures
        json@ == known_redacted_json_spec(subject_kind@, subject_id_text@),
{
    let mut out = String::new();
    push_str(&mut out, "{\"type\":\"");
    push_escaped(&mut out, subject_kind);
    push_str(&mut out, "\",\"scenario_key\":\"");
    push_escaped(&mut out, subject_id_text);
    push_str(&mut out, "\",\"state\":\"last_known\"}");
    proof {
        assert(out@ =~= known_redacted_json_spec(subject_kind@, subject_id_text@));
    }
    out
}

} // verus!
