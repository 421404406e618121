//! Text encodings produced by the kernel: decimal numbers, runtime and
//! projection keys, JSON string escaping and small JSON field lookups.
use vstd::prelude::*;
use vstd::string::*;

verus! {

/// Appends one character to a string.
/// Trusted: std `String::push` appends `c` at the end and changes nothing else.
#[verifier::external_body]
pub(crate) fn push_char(s: &mut String, c: char)
    ensures
        final(s)@ == old(s)@.push(c),
{
    s.push(c)
}

/// The ASCII digit for `d` (`d < 10`).
pub open spec fn digit_char(d: nat) -> char {
    (48 + d) as char
}

/// Decimal representation of `n`, without leading zeros.
pub open spec fn dec(n: nat) -> Seq<char>
    decreases n,
{
    if n < 10 {
        seq![digit_char(n)]
    } else {
        dec(n / 10).push(digit_char(n % 10))
    }
}

/// Whether `c` is an ASCII decimal digit.
pub open spec fn is_digit(c: char) -> bool {
    '0' <= c && c <= '9'
}

/// Value of an ASCII digit.
pub open spec fn digit_value(c: char) -> nat {
    (c as nat - 48) as nat
}

/// Numeric value of a sequence of ASCII digits, most significant first.
pub open spec fn digits_value(s: Seq<char>) -> nat
    decreases s.len(),
{
    if s.len() == 0 {
        0
    } else {
        digits_value(s.drop_last()) * 10 + digit_value(s.last())
    }
}

/// Whether every character of `s` is an ASCII digit.
pub open spec fn all_digits(s: Seq<char>) -> bool {
    forall|i: int| 0 <= i < s.len() ==> is_digit(#[trigger] s[i])
}

pub proof fn lemma_dec_digits(n: nat)
    ensures
        all_digits(dec(n)),
        dec(n).len() >= 1,
        digits_value(dec(n)) == n,
        dec(n).len() > 1 ==> dec(n)[0] != '0',
    decreases n,
{
    if n < 10 {
        assert(dec(n) =~= seq![digit_char(n)]);
        assert(seq![digit_char(n)].drop_last() =~= Seq::<char>::empty());
        assert(digit_char(n) as nat == 48 + n);
        assert(digits_value(dec(n)) == digits_value(dec(n).drop_last()) * 10 + digit_value(dec(n).last()));
        assert(digits_value(dec(n)) == n);
    } else {
        lemma_dec_digits(n / 10);
        assert(digit_char(n % 10) as nat == 48 + n % 10);
        assert(n == (n / 10) * 10 + n % 10);
        let d = dec(n / 10);
        assert(dec(n) == d.push(digit_char(n % 10)));
        assert(d.push(digit_char(n % 10)).drop_last() =~= d);
        assert forall|i: int| 0 <= i < dec(n).len() implies is_digit(#[trigger] dec(n)[i]) by {
            if i < d.len() {
                assert(dec(n)[i] == d[i]);
            }
        }
        if d.len() == 1 {
            assert(n / 10 >= 1);
            assert(digits_value(d) == digits_value(d.drop_last()) * 10 + digit_value(d.last()));
            assert(d.drop_last() =~= Seq::<char>::empty());
        }
        assert(dec(n)[0] == d[0]);
        let e = dec(n);
        assert(e.drop_last() =~= d);
        assert(e.last() == digit_char(n % 10));
        assert(digits_value(e) == digits_value(d) * 10 + digit_value(digit_char(n % 10)));
        assert(digit_value(digit_char(n % 10)) == n % 10);
        assert(digits_value(d) == n / 10);
    }
}

/// Appends the decimal representation of `n` to `s`.
pub fn push_decimal(s: &mut String, n: u64)
    ensures
        final(s)@ == old(s)@ + dec(n as nat),
    decreases n,
{
    if n >= 10 {
        push_decimal(s, n / 10);
    }
    let d: u8 = (n % 10) as u8;
    let c = (48u8 + d) as char;
    push_char(s, c);
    proof {
        if n >= 10 {
            assert(old(s)@ + dec(n as nat) =~= old(s)@ + dec((n / 10) as nat) + seq![digit_char((n % 10) as nat)]);
        } else {
            assert(old(s)@ + dec(n as nat) =~= old(s)@ + seq![digit_char(n as nat)]);
        }
    }
}

/// The decimal representation of `n` as a new string.
pub fn decimal_string(n: u64) -> (s: String)
    ensures
        s@ == dec(n as nat),
{
    let mut s = String::new();
    push_decimal(&mut s, n);
    proof {
        assert(Seq::<char>::empty() + dec(n as nat) =~= dec(n as nat));
    }
    s
}

/// Appends every character of `src` to `s`.
pub fn push_str(s: &mut String, src: &str)
    ensures
        final(s)@ == old(s)@ + src@,
{
    s.append(src);
}

/// The characters of `s`, in order.
pub fn chars_of(s: &str) -> (v: Vec<char>)
    ensures
        v@ == s@,
{
    let n = s.unicode_len();
    let mut v: Vec<char> = Vec::new();
    let mut i: usize = 0;
    while i < n
        invariant
            n == s@.len(),
            i <= n,
            v@ == s@.take(i as int),
        decreases n - i,
    {
        let c = s.get_char(i);
        v.push(c);
        i = i + 1;
        assert(v@ =~= s@.take(i as int));
    }
    assert(s@.take(n as int) =~= s@);
    v
}

/// Appends the characters `chars[from..to]` to `s`.
pub fn push_chars(s: &mut String, chars: &Vec<char>, from: usize, to: usize)
    requires
        from <= to <= chars@.len(),
    ensures
        final(s)@ == old(s)@ + chars@.subrange(from as int, to as int),
{
    let mut i = from;
    while i < to
        invariant
            from <= i <= to <= chars@.len(),
            s@ == old(s)@ + chars@.subrange(from as int, i as int),
        decreases to - i,
    {
        push_char(s, chars[i]);
        i = i + 1;
        assert(s@ =~= old(s)@ + chars@.subrange(from as int, i as int));
    }
}

/// The key of the runtime of turn `turn_number` of session `session_id`:
/// `"{session_id}:{turn_number}"`.
pub open spec fn runtime_key_spec(session_id: Seq<char>, turn_number: nat) -> Seq<char> {
    session_id + seq![':'] + dec(turn_number)
}

/// Builds the runtime key `"{session_id}:{turn_number}"`.
pub fn runtime_key(session_id: &str, turn_number: u32) -> (key: String)
    ensures
        key@ == runtime_key_spec(session_id@, turn_number as nat),
{
    let mut key = String::new();
    push_str(&mut key, session_id);
    push_char(&mut key, ':');
    push_decimal(&mut key, turn_number as u64);
    proof {
        assert(Seq::<char>::empty() + session_id@ =~= session_id@);
    }
    key
}

/// The JSON escape of one character.
pub open spec fn escape_char(c: char) -> Seq<char> {
    if c == '\\' {
        seq!['\\', '\\']
    } else if c == '"' {
        seq!['\\', '"']
    } else if c == '\n' {
        seq!['\\', 'n']
    } else if c == '\r' {
        seq!['\\', 'r']
    } else if c == '\t' {
        seq!['\\', 't']
    } else {
        seq![c]
    }
}

/// JSON string escaping: backslash, double quote, newline, carriage return
/// and tab are escaped; every other character is kept as it is.
pub open spec fn escape_seq(s: Seq<char>) -> Seq<char>
    decreases s.len(),
{
    if s.len() == 0 {
        Seq::empty()
    } else {
        escape_seq(s.drop_last()) + escape_char(s.last())
    }
}

/// Appends the JSON escape of `value` to `out`.
pub fn push_escaped(out: &mut String, value: &str)
    ensures
        final(out)@ == old(out)@ + escape_seq(value@),
{
    let chars = chars_of(value);
    let n = chars.len();
    let mut i: usize = 0;
    while i < n
        invariant
            n == chars@.len(),
            chars@ == value@,
            i <= n,
            out@ == old(out)@ + escape_seq(chars@.take(i as int)),
        decreases n - i,
    {
        let c = chars[i];
        if c == '\\' {
            push_char(out, '\\');
            push_char(out, '\\');
        } else if c == '"' {
            push_char(out, '\\');
            push_char(out, '"');
        } else if c == '\n' {
            push_char(out, '\\');
            push_char(out, 'n');
        } else if c == '\r' {
            push_char(out, '\\');
            push_char(out, 'r');
        } else if c == '\t' {
            push_char(out, '\\');
            push_char(out, 't');
        } else {
            push_char(out, c);
        }
        proof {
            let t = chars@.take(i as int + 1);
            assert(t.drop_last() =~= chars@.take(i as int));
            assert(t.last() == c);
            assert(escape_seq(t) == escape_seq(chars@.take(i as int)) + escape_char(c));
        }
        i = i + 1;
        proof {
            assert(out@ =~= old(out)@ + escape_seq(chars@.take(i as int)));
        }
    }
    assert(chars@.take(n as int) =~= value@);
}

/// Escapes `value` for use inside a JSON string literal.
pub fn escape_json(value: &str) -> (escaped: String)
    ensures
        escaped@ == escape_seq(value@),
{
    let mut out = String::new();
    push_escaped(&mut out, value);
    proof {
        assert(Seq::<char>::empty() + escape_seq(value@) =~= escape_seq(value@));
    }
    out
}

/// `"null"` for no value, else the value as a quoted, escaped JSON string.
pub open spec fn option_json_spec(value: Option<Seq<char>>) -> Seq<char> {
    match value {
        Some(v) => seq!['"'] + escape_seq(v) + seq!['"'],
        None => seq!['n', 'u', 'l', 'l'],
    }
}

/// Encodes an optional string as JSON: `null`, or a quoted escaped string.
pub fn option_json(value: Option<&str>) -> (json: String)
    ensures
        json@ == option_json_spec(
            match value {
                Some(v) => Some(v@),
                None => None,
            },
        ),
{
    let mut out = String::new();
    match value {
        Some(v) => {
            push_char(&mut out, '"');
            push_escaped(&mut out, v);
            push_char(&mut out, '"');
        },
        None => {
            push_char(&mut out, 'n');
            push_char(&mut out, 'u');
            push_char(&mut out, 'l');
            push_char(&mut out, 'l');
        },
    }
    proof {
        if let Some(v) = value {
            assert(out@ =~= seq!['"'] + escape_seq(v@) + seq!['"']);
        } else {
            assert(out@ =~= seq!['n', 'u', 'l', 'l']);
        }
    }
    out
}

} // verus!

verus! {

/// Whether two character sequences are equal, compared element by element.
pub fn chars_eq(a: &Vec<char>, b: &Vec<char>) -> (eq: bool)
    ensures
        eq == (a@ == b@),
{
    if a.len() != b.len() {
        return false;
    }
    let n = a.len();
    let mut i: usize = 0;
    while i < n
        invariant
            n == a@.len(),
            n == b@.len(),
            i <= n,
            forall|j: int| 0 <= j < i ==> a@[j] == b@[j],
        decreases n - i,
    {
        if a[i] != b[i] {
            return false;
        }
        i = i + 1;
    }
    assert(a@ =~= b@);
    true
}

/// Whether two string slices hold the same characters.
pub fn str_eq(a: &str, b: &str) -> (eq: bool)
    ensures
        eq == (a@ == b@),
{
    let ca = chars_of(a);
    let cb = chars_of(b);
    chars_eq(&ca, &cb)
}

} // verus!
