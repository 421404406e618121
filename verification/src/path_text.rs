//! The text form of a movement path, `"x,y;x,y;..."`, as it is stored with
//! a movement intent, and its parser.
use vstd::prelude::*;
use crate::text::{all_digits, chars_of, dec, digit_value, digits_value, is_digit, lemma_dec_digits, push_char, push_decimal};

verus! {

/// A map cell.
#[derive(Clone, Copy, Debug, PartialEq, Eq, Structural)]
pub struct MoveCoord {
    pub x: u16,
    pub y: u16,
}

impl MoveCoord {
    /// The cell at `(x, y)`.
    pub fn new(x: u16, y: u16) -> (c: Self)
        ensures
            c == (MoveCoord { x, y }),
    {
        MoveCoord { x, y }
    }
}

/// Why a stored path could not be read back.
#[derive(Clone, Copy, Debug, PartialEq, Eq, Structural)]
pub enum PathTextError {
    /// The stored movement path is invalid.
    InvalidMovementPath,
}

/// `"x,y"`.
pub open spec fn coord_text(c: MoveCoord) -> Seq<char> {
    dec(c.x as nat) + seq![','] + dec(c.y as nat)
}

/// The cells of `p` as `"x,y"` joined by `';'`.
pub open spec fn path_text_spec(p: Seq<MoveCoord>) -> Seq<char>
    decreases p.len(),
{
    if p.len() == 0 {
        Seq::empty()
    } else if p.len() == 1 {
        coord_text(p[0])
    } else {
        path_text_spec(p.drop_last()) + seq![';'] + coord_text(p.last())
    }
}

/// The pieces of `s` between separators `sep`, as `str::split` gives them:
/// always at least one piece, empty pieces kept.
pub open spec fn split_spec(s: Seq<char>, sep: char) -> Seq<Seq<char>>
    decreases s.len(),
{
    if s.len() == 0 {
        seq![Seq::<char>::empty()]
    } else {
        let rest = split_spec(s.drop_last(), sep);
        if s.last() == sep {
            rest.push(Seq::<char>::empty())
        } else {
            rest.update(rest.len() - 1, rest.last().push(s.last()))
        }
    }
}

/// Index of the first `c` in `s`, or `-1`.
pub open spec fn index_of_char(s: Seq<char>, c: char) -> int
    decreases s.len(),
{
    if s.len() == 0 {
        -1
    } else {
        let i = index_of_char(s.drop_last(), c);
        if i >= 0 {
            i
        } else if s.last() == c {
            s.len() - 1
        } else {
            -1
        }
    }
}

/// `u16` parsing of a decimal text: an optional `'+'`, then at least one
/// digit, with a value that fits in `u16`.
pub open spec fn parse_u16_spec(s: Seq<char>) -> Option<u16> {
    let d = if s.len() > 0 && s[0] == '+' { s.drop_first() } else { s };
    if d.len() > 0 && all_digits(d) && digits_value(d) <= u16::MAX {
        Some(digits_value(d) as u16)
    } else {
        None
    }
}

/// A cell `"x,y"`: split at the first comma, both sides parsed as `u16`.
pub open spec fn parse_coord_spec(part: Seq<char>) -> Option<MoveCoord> {
    let k = index_of_char(part, ',');
    if k < 0 {
        None
    } else {
        match (parse_u16_spec(part.take(k)), parse_u16_spec(part.skip(k + 1))) {
            (Some(x), Some(y)) => Some(MoveCoord { x, y }),
            _ => None,
        }
    }
}

/// Every piece parsed as a cell, or `None` if one fails.
pub open spec fn parse_parts_spec(parts: Seq<Seq<char>>) -> Option<Seq<MoveCoord>>
    decreases parts.len(),
{
    if parts.len() == 0 {
        Some(Seq::empty())
    } else {
        match (parse_parts_spec(parts.drop_last()), parse_coord_spec(parts.last())) {
            (Some(cs), Some(c)) => Some(cs.push(c)),
            _ => None,
        }
    }
}

/// An empty text is the empty path; otherwise every `';'`-separated piece
/// must be a cell.
pub open spec fn parse_path_spec(s: Seq<char>) -> Option<Seq<MoveCoord>> {
    if s.len() == 0 {
        Some(Seq::empty())
    } else {
        parse_parts_spec(split_spec(s, ';'))
    }
}

/// Appends `"x,y"` to `out`.
fn push_coord(out: &mut String, c: MoveCoord)
    ensures
        final(out)@ == old(out)@ + coord_text(c),
{
    push_decimal(out, c.x as u64);
    push_char(out, ',');
    push_decimal(out, c.y as u64);
    proof {
        assert(final(out)@ =~= old(out)@ + coord_text(c));
    }
}

/// The text form of a path.
pub fn path_text(path: &Vec<MoveCoord>) -> (text: String)
    ensures
        text@ == path_text_spec(path@),
{
    let mut out = String::new();
    let n = path.len();
    let mut i: usize = 0;
    while i < n
        invariant
            n == path@.len(),
            i <= n,
            out@ == path_text_spec(path@.take(i as int)),
        decreases n - i,
    {
        if i > 0 {
            push_char(&mut out, ';');
        }
        push_coord(&mut out, path[i]);
        proof {
            let t = path@.take(i as int + 1);
            assert(t.drop_last() =~= path@.take(i as int));
            assert(t.last() == path@[i as int]);
            if i == 0 {
                assert(path@.take(0) =~= Seq::<MoveCoord>::empty());
                assert(out@ =~= coord_text(path@[0]));
            } else {
                assert(out@ =~= path_text_spec(path@.take(i as int)) + seq![';'] + coord_text(path@[i as int]));
            }
        }
        i = i + 1;
    }
    proof {
        assert(path@.take(n as int) =~= path@);
    }
    out
}


/// The pieces of `s` between separators, with their characters.
pub open spec fn views(v: Seq<Vec<char>>) -> Seq<Seq<char>> {
    v.map_values(|x: Vec<char>| x@)
}

/// Splits `s` at every `sep`, as `str::split` does.
fn split_chars(s: &Vec<char>, sep: char) -> (parts: Vec<Vec<char>>)
    ensures
        views(parts@) == split_spec(s@, sep),
{
    let n = s.len();
    let mut done: Vec<Vec<char>> = Vec::new();
    let mut cur: Vec<char> = Vec::new();
    let mut i: usize = 0;
    proof {
        assert(s@.take(0) =~= Seq::<char>::empty());
        assert(views(done@).push(cur@) =~= seq![Seq::<char>::empty()]);
    }
    while i < n
        invariant
            n == s@.len(),
            i <= n,
            views(done@).push(cur@) == split_spec(s@.take(i as int), sep),
        decreases n - i,
    {
        let c = s[i];
        let ghost before = views(done@).push(cur@);
        proof {
            let t = s@.take(i as int + 1);
            assert(t.drop_last() =~= s@.take(i as int));
            assert(t.last() == c);
        }
        if c == sep {
            let ghost d0 = done@;
            done.push(cur);
            cur = Vec::new();
            proof {
                assert(views(done@) =~= views(d0).push(before.last()));
                assert(views(done@).push(cur@) =~= before.push(Seq::<char>::empty()));
            }
        } else {
            let ghost c0 = cur@;
            cur.push(c);
            proof {
                assert(views(done@).push(cur@) =~= before.update(before.len() - 1, before.last().push(c)));
            }
        }
        i = i + 1;
    }
    proof {
        assert(s@.take(n as int) =~= s@);
    }
    let ghost d0 = done@;
    done.push(cur);
    proof {
        assert(views(done@) =~= views(d0).push(cur@));
    }
    done
}

/// Index of the first `c` in `s`.
fn find_char(s: &Vec<char>, c: char) -> (found: Option<usize>)
    ensures
        match found {
            Some(k) => k < s@.len() && k as int == index_of_char(s@, c),
            None => index_of_char(s@, c) == -1,
        },
{
    let n = s.len();
    let mut i: usize = 0;
    while i < n
        invariant
            n == s@.len(),
            i <= n,
            index_of_char(s@.take(i as int), c) == -1,
        decreases n - i,
    {
        proof {
            let t = s@.take(i as int + 1);
            assert(t.drop_last() =~= s@.take(i as int));
            assert(t.last() == s@[i as int]);
        }
        if s[i] == c {
            proof { lemma_index_of_prefix(s@, c, i as int + 1); }
            return Some(i);
        }
        i = i + 1;
    }
    proof {
        assert(s@.take(n as int) =~= s@);
    }
    None
}

/// A character found in a prefix is found at the same place in the whole.
proof fn lemma_index_of_prefix(s: Seq<char>, c: char, k: int)
    requires
        0 <= k <= s.len(),
        index_of_char(s.take(k), c) >= 0,
    ensures
        index_of_char(s, c) == index_of_char(s.take(k), c),
    decreases s.len() - k,
{
    if k < s.len() {
        assert(s.take(k + 1).drop_last() =~= s.take(k));
        lemma_index_of_prefix(s, c, k + 1);
    } else {
        assert(s.take(k) =~= s);
    }
}

/// Whether a character is an ASCII digit.
fn char_is_digit(c: char) -> (d: bool)
    ensures
        d == is_digit(c),
{
    '0' <= c && c <= '9'
}

/// Parses `s[from..to]` as a `u16`.
fn parse_u16(s: &Vec<char>, from: usize, to: usize) -> (v: Option<u16>)
    requires
        from <= to <= s@.len(),
    ensures
        v == parse_u16_spec(s@.subrange(from as int, to as int)),
{
    let ghost t = s@.subrange(from as int, to as int);
    let mut start = from;
    if start < to && s[start] == '+' {
        start = start + 1;
    }
    let ghost d = s@.subrange(start as int, to as int);
    proof {
        if from < to && s@[from as int] == '+' {
            assert(d =~= t.drop_first());
        } else {
            assert(d =~= t);
        }
    }
    proof {
        assert(t.len() == to - from);
        if from < to {
            assert(t[0] == s@[from as int]);
        }
    }
    if start == to {
        return None;
    }
    let mut value: u32 = 0;
    let mut i = start;
    while i < to
        invariant
            from <= start <= i <= to <= s@.len(),
            d == s@.subrange(start as int, to as int),
            t == s@.subrange(from as int, to as int),
            d == (if t.len() > 0 && t[0] == '+' { t.drop_first() } else { t }),
            all_digits(s@.subrange(start as int, i as int)),
            value == digits_value(s@.subrange(start as int, i as int)),
            value <= u16::MAX,
        decreases to - i,
    {
        let c = s[i];
        proof {
            let p = s@.subrange(start as int, i as int + 1);
            assert(p.drop_last() =~= s@.subrange(start as int, i as int));
            assert(p.last() == c);
        }
        if !char_is_digit(c) {
            proof {
                assert(d[i - start] == c);
                assert(!all_digits(d));
            }
            return None;
        }
        let dv: u32 = (c as u32) - 48;
        proof {
            assert(dv == digit_value(c));
        }
        let next = value * 10 + dv;
        if next > 65535 {
            proof {
                if all_digits(d) {
                    lemma_digits_value_prefix_le(d, i - start + 1);
                    assert(d.take(i - start + 1) =~= s@.subrange(start as int, i as int + 1));
                }
            }
            return None;
        }
        value = next;
        i = i + 1;
        proof {
            let p = s@.subrange(start as int, i as int);
            assert forall|j: int| 0 <= j < p.len() implies is_digit(#[trigger] p[j]) by {
                if j < p.len() - 1 {
                    assert(p[j] == s@.subrange(start as int, i as int - 1)[j]);
                }
            }
        }
    }
    proof {
        assert(s@.subrange(start as int, to as int) =~= d);
    }
    Some(value as u16)
}

/// The value of a prefix of digits is at most the value of the whole.
proof fn lemma_digits_value_prefix_le(d: Seq<char>, k: int)
    requires
        0 <= k <= d.len(),
        all_digits(d),
    ensures
        digits_value(d.take(k)) <= digits_value(d),
    decreases d.len() - k,
{
    if k < d.len() {
        lemma_digits_value_prefix_le(d, k + 1);
        let t = d.take(k + 1);
        assert(t.drop_last() =~= d.take(k));
        assert(is_digit(d[k]));
        assert(digits_value(t) == digits_value(d.take(k)) * 10 + digit_value(t.last()));
    } else {
        assert(d.take(k) =~= d);
    }
}

/// Parses the stored text of a movement path.
pub fn parse_path_text(value: &str) -> (path: Result<Vec<MoveCoord>, PathTextError>)
    ensures
        match parse_path_spec(value@) {
            Some(p) => path matches Ok(v) && v@ == p,
            None => path == Err::<Vec<MoveCoord>, PathTextError>(PathTextError::InvalidMovementPath),
        },
{
    let chars = chars_of(value);
    if chars.len() == 0 {
        return Ok(Vec::new());
    }
    let parts = split_chars(&chars, ';');
    let ghost ps = views(parts@);
    let n = parts.len();
    let mut out: Vec<MoveCoord> = Vec::new();
    let mut i: usize = 0;
    while i < n
        invariant
            n == parts@.len(),
            ps == views(parts@),
            ps == split_spec(value@, ';'),
            value@.len() > 0,
            i <= n,
            parse_parts_spec(ps.take(i as int)) == Some(out@),
        decreases n - i,
    {
        let part = &parts[i];
        proof {
            let t = ps.take(i as int + 1);
            assert(t.drop_last() =~= ps.take(i as int));
            assert(t.last() == part@);
        }
        let k = match find_char(part, ',') {
            Some(k) => k,
            None => {
                proof {
                    assert(parse_coord_spec(part@) is None);
                    assert(parse_parts_spec(ps.take(i as int + 1)) is None);
                    lemma_parse_parts_fails(ps, i as int + 1);
                }
                return Err(PathTextError::InvalidMovementPath);
            },
        };
        proof {
            assert(part@.subrange(0, k as int) =~= part@.take(k as int));
            assert(part@.subrange(k as int + 1, part@.len() as int) =~= part@.skip(k as int + 1));
        }
        let x = parse_u16(part, 0, k);
        let y = parse_u16(part, k + 1, part.len());
        match (x, y) {
            (Some(x), Some(y)) => {
                out.push(MoveCoord { x, y });
            },
            _ => {
                proof {
                    assert(parse_coord_spec(part@) is None);
                    assert(parse_parts_spec(ps.take(i as int + 1)) is None);
                    lemma_parse_parts_fails(ps, i as int + 1);
                }
                return Err(PathTextError::InvalidMovementPath);
            },
        }
        i = i + 1;
    }
    proof {
        assert(ps.take(n as int) =~= ps);
    }
    Ok(out)
}

/// A piece that fails makes the whole parse fail.
proof fn lemma_parse_parts_fails(ps: Seq<Seq<char>>, k: int)
    requires
        0 <= k <= ps.len(),
        parse_parts_spec(ps.take(k)) is None,
    ensures
        parse_parts_spec(ps) is None,
    decreases ps.len() - k,
{
    if k < ps.len() {
        assert(ps.take(k + 1).drop_last() =~= ps.take(k));
        lemma_parse_parts_fails(ps, k + 1);
    } else {
        assert(ps.take(k) =~= ps);
    }
}

/// `c` does not occur in `s`.
pub open spec fn free_of(s: Seq<char>, c: char) -> bool {
    forall|i: int| 0 <= i < s.len() ==> #[trigger] s[i] != c
}

proof fn lemma_split_free(s: Seq<char>, sep: char)
    requires
        free_of(s, sep),
    ensures
        split_spec(s, sep) == seq![s],
    decreases s.len(),
{
    if s.len() > 0 {
        let d = s.drop_last();
        assert(free_of(d, sep)) by {
            assert forall|i: int| 0 <= i < d.len() implies #[trigger] d[i] != sep by {
                assert(d[i] == s[i]);
            }
        }
        lemma_split_free(d, sep);
        assert(s.last() != sep);
        assert(d.push(s.last()) =~= s);
        assert(seq![d].update(0, d.push(s.last())) =~= seq![s]);
    } else {
        assert(s =~= Seq::<char>::empty());
    }
}

proof fn lemma_split_concat(a: Seq<char>, b: Seq<char>, sep: char)
    requires
        free_of(b, sep),
    ensures
        split_spec(a + seq![sep] + b, sep) == split_spec(a, sep).push(b),
    decreases b.len(),
{
    if b.len() == 0 {
        let s = a + seq![sep] + b;
        assert(s.drop_last() =~= a);
        assert(s.last() == sep);
        assert(b =~= Seq::<char>::empty());
    } else {
        let b2 = b.drop_last();
        assert(free_of(b2, sep)) by {
            assert forall|i: int| 0 <= i < b2.len() implies #[trigger] b2[i] != sep by {
                assert(b2[i] == b[i]);
            }
        }
        lemma_split_concat(a, b2, sep);
        let s = a + seq![sep] + b;
        assert(s.drop_last() =~= a + seq![sep] + b2);
        assert(s.last() == b.last());
        assert(b.last() != sep);
        let r = split_spec(a, sep).push(b2);
        assert(r.update(r.len() - 1, r.last().push(b.last())) =~= split_spec(a, sep).push(b)) by {
            assert(b2.push(b.last()) =~= b);
        }
    }
}

proof fn lemma_coord_text_free(c: MoveCoord)
    ensures
        free_of(coord_text(c), ';'),
        index_of_char(coord_text(c), ',') == dec(c.x as nat).len(),
{
    lemma_dec_digits(c.x as nat);
    lemma_dec_digits(c.y as nat);
    let dx = dec(c.x as nat);
    let dy = dec(c.y as nat);
    let t = coord_text(c);
    assert forall|i: int| 0 <= i < t.len() implies #[trigger] t[i] != ';' by {
        if i < dx.len() {
            assert(t[i] == dx[i]);
            assert(is_digit(dx[i]));
        } else if i > dx.len() {
            assert(t[i] == dy[i - dx.len() - 1]);
            assert(is_digit(dy[i - dx.len() - 1]));
        }
    }
    lemma_index_of_digits_then_comma(dx, dy);
}

proof fn lemma_index_of_digits_then_comma(dx: Seq<char>, dy: Seq<char>)
    requires
        all_digits(dx),
    ensures
        index_of_char(dx + seq![','] + dy, ',') == dx.len(),
    decreases dy.len(),
{
    let t = dx + seq![','] + dy;
    if dy.len() == 0 {
        assert(t.drop_last() =~= dx);
        lemma_no_comma(dx);
    } else {
        lemma_index_of_digits_then_comma(dx, dy.drop_last());
        assert(t.drop_last() =~= dx + seq![','] + dy.drop_last());
    }
}

proof fn lemma_no_comma(dx: Seq<char>)
    requires
        all_digits(dx),
    ensures
        index_of_char(dx, ',') == -1,
    decreases dx.len(),
{
    if dx.len() > 0 {
        let d = dx.drop_last();
        assert(all_digits(d)) by {
            assert forall|i: int| 0 <= i < d.len() implies is_digit(#[trigger] d[i]) by {
                assert(d[i] == dx[i]);
            }
        }
        lemma_no_comma(d);
        assert(is_digit(dx[dx.len() - 1]));
    }
}

proof fn lemma_parse_dec(n: u16)
    ensures
        parse_u16_spec(dec(n as nat)) == Some(n),
{
    lemma_dec_digits(n as nat);
    let d = dec(n as nat);
    assert(is_digit(d[0]));
    assert(d[0] != '+');
}

proof fn lemma_parse_coord(c: MoveCoord)
    ensures
        parse_coord_spec(coord_text(c)) == Some(c),
{
    lemma_coord_text_free(c);
    let dx = dec(c.x as nat);
    let t = coord_text(c);
    assert(t.take(dx.len() as int) =~= dx);
    assert(t.skip(dx.len() as int + 1) =~= dec(c.y as nat));
    lemma_parse_dec(c.x);
    lemma_parse_dec(c.y);
}

proof fn lemma_split_path(p: Seq<MoveCoord>)
    requires
        p.len() >= 1,
    ensures
        split_spec(path_text_spec(p), ';') == p.map_values(|c: MoveCoord| coord_text(c)),
    decreases p.len(),
{
    lemma_coord_text_free(p.last());
    if p.len() == 1 {
        lemma_split_free(coord_text(p[0]), ';');
        assert(p.map_values(|c: MoveCoord| coord_text(c)) =~= seq![coord_text(p[0])]);
    } else {
        lemma_split_path(p.drop_last());
        lemma_split_concat(path_text_spec(p.drop_last()), coord_text(p.last()), ';');
        assert(p.map_values(|c: MoveCoord| coord_text(c)) =~= p.drop_last().map_values(|c: MoveCoord| coord_text(c)).push(coord_text(p.last())));
    }
}

proof fn lemma_parse_parts(p: Seq<MoveCoord>)
    ensures
        parse_parts_spec(p.map_values(|c: MoveCoord| coord_text(c))) == Some(p),
    decreases p.len(),
{
    let m = p.map_values(|c: MoveCoord| coord_text(c));
    if p.len() > 0 {
        lemma_parse_parts(p.drop_last());
        assert(m.drop_last() =~= p.drop_last().map_values(|c: MoveCoord| coord_text(c)));
        lemma_parse_coord(p.last());
        assert(p.drop_last().push(p.last()) =~= p);
    } else {
        assert(p =~= Seq::<MoveCoord>::empty());
    }
}

/// Law: the stored text of a path reads back as the same path.
pub proof fn lemma_path_text_round_trip(p: Seq<MoveCoord>)
    ensures
        parse_path_spec(path_text_spec(p)) == Some(p),
{
    if p.len() == 0 {
        assert(p =~= Seq::<MoveCoord>::empty());
    } else {
        lemma_split_path(p);
        lemma_parse_parts(p);
        lemma_coord_text_free(p[0]);
        assert(path_text_spec(p).len() > 0) by {
            lemma_path_text_nonempty(p);
        }
    }
}

proof fn lemma_path_text_nonempty(p: Seq<MoveCoord>)
    requires
        p.len() >= 1,
    ensures
        path_text_spec(p).len() > 0,
    decreases p.len(),
{
    lemma_dec_digits(p.last().x as nat);
    if p.len() > 1 {
        lemma_path_text_nonempty(p.drop_last());
    }
}
} // verus!
