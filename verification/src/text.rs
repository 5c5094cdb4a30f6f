//! Text helpers shared by the library: decimal rendering and parsing,
//! splitting and joining on a separator, and hexadecimal rendering.
use vstd::prelude::*;

verus! {

/// The character of the decimal digit `d` (`0 <= d < 10`).
pub open spec fn digit_char(d: int) -> char {
    (48 + d) as char
}

/// The decimal rendering of `n`, without sign or leading zeros.
pub open spec fn decimal(n: nat) -> Seq<char>
    decreases n,
{
    if n < 10 {
        seq![digit_char(n as int)]
    } else {
        decimal(n / 10).push(digit_char((n % 10) as int))
    }
}

/// The one-character string of the decimal digit `d`.
fn digit_string(d: u64) -> (s: String)
    requires
        d < 10,
    ensures
        s@ == seq![digit_char(d as int)],
{
    let digits = "0123456789";
    proof {
        reveal_strlit("0123456789");
    }
    let i = d as usize;
    String::from_str(digits.substring_char(i, i + 1))
}

/// Renders `n` in decimal.
pub fn decimal_string(n: u64) -> (s: String)
    ensures
        s@ == decimal(n as nat),
    decreases n,
{
    if n < 10 {
        digit_string(n)
    } else {
        let mut s = decimal_string(n / 10);
        let d = digit_string(n % 10);
        s.append(d.as_str());
        s
    }
}


/// The characters of `s`, one by one.
pub fn chars_of(s: &str) -> (v: Vec<char>)
    ensures
        v@ == s@,
{
    let n = s.unicode_len();
    let mut v: Vec<char> = Vec::new();
    let mut i: usize = 0;
    while i < n
        invariant
            n == s@.len(),
            i <= n,
            v@ == s@.take(i as int),
        decreases n - i,
    {
        v.push(s.get_char(i));
        i += 1;
        assert(v@ =~= s@.take(i as int));
    }
    assert(v@ =~= s@);
    v
}

/// Whether `c` is one of the ASCII digits `0` to `9`.
pub open spec fn is_digit(c: char) -> bool {
    '0' <= c && c <= '9'
}

/// The value of the ASCII digit `c`.
pub open spec fn digit_value(c: char) -> int {
    c as int - 48
}

/// Whether every character of `s` is an ASCII digit.
pub open spec fn all_digits(s: Seq<char>) -> bool {
    forall|i: int| 0 <= i < s.len() ==> is_digit(#[trigger] s[i])
}

/// The number that the digits `s` spell in base ten.
pub open spec fn digits_value(s: Seq<char>) -> int
    decreases s.len(),
{
    if s.len() == 0 {
        0
    } else {
        digits_value(s.drop_last()) * 10 + digit_value(s.last())
    }
}

/// What `s` spells as an optionally signed decimal integer: an optional `+` or
/// `-`, then one digit or more, and nothing else.
pub open spec fn signed_decimal(s: Seq<char>) -> Option<int> {
    if s.len() > 0 && (s[0] == '-' || s[0] == '+') {
        let ds = s.drop_first();
        if ds.len() > 0 && all_digits(ds) {
            Some(if s[0] == '-' { -digits_value(ds) } else { digits_value(ds) })
        } else {
            None
        }
    } else if s.len() > 0 && all_digits(s) {
        Some(digits_value(s))
    } else {
        None
    }
}

/// The `i32` that `s` denotes, as `str::parse::<i32>` documents it: an optional
/// sign followed by decimal digits only, within the range of `i32`.
pub open spec fn parsed_i32(s: Seq<char>) -> Option<i32> {
    match signed_decimal(s) {
        Some(v) => if i32::MIN <= v <= i32::MAX { Some(v as i32) } else { None },
        None => None,
    }
}

proof fn lemma_digits_value_nonneg(s: Seq<char>)
    requires
        all_digits(s),
    ensures
        digits_value(s) >= 0,
    decreases s.len(),
{
    if s.len() > 0 {
        lemma_digits_value_nonneg(s.drop_last());
    }
}

/// A longer run of digits never spells a smaller number than its prefix.
proof fn lemma_digits_value_prefix(s: Seq<char>, k: int)
    requires
        all_digits(s),
        0 <= k <= s.len(),
    ensures
        digits_value(s.take(k)) <= digits_value(s),
    decreases s.len(),
{
    if k < s.len() {
        lemma_digits_value_prefix(s.drop_last(), k);
        assert(s.drop_last().take(k) =~= s.take(k));
        lemma_digits_value_nonneg(s.drop_last());
        assert(is_digit(s[s.len() - 1]));
    } else {
        assert(s.take(k) =~= s);
    }
}

proof fn lemma_digits_step(s: Seq<char>, start: int, i: int)
    requires
        0 <= start <= i < s.len(),
        all_digits(s.subrange(start, i)),
        is_digit(s[i]),
    ensures
        all_digits(s.subrange(start, i + 1)),
        digits_value(s.subrange(start, i + 1)) == digits_value(s.subrange(start, i)) * 10
            + digit_value(s[i]),
{
    let next = s.subrange(start, i + 1);
    assert(next.drop_last() =~= s.subrange(start, i));
    assert(next.last() == s[i]);
    assert forall|k: int| 0 <= k < next.len() implies is_digit(#[trigger] next[k]) by {
        if k < next.len() - 1 {
            assert(next[k] == s.subrange(start, i)[k]);
        }
    }
}

/// Digits past a prefix that already spells more than `bound` spell more too.
proof fn lemma_digits_exceed(ds: Seq<char>, k: int, bound: int)
    requires
        0 <= k <= ds.len(),
        digits_value(ds.take(k)) > bound,
    ensures
        !(all_digits(ds) && digits_value(ds) <= bound),
{
    if all_digits(ds) {
        lemma_digits_value_prefix(ds, k);
    }
}

/// Parses an `i32` written in decimal, with an optional sign.
pub fn parse_i32(s: &str) -> (r: Option<i32>)
    ensures
        r == parsed_i32(s@),
{
    let cs = chars_of(s);
    let n = cs.len();
    if n == 0 {
        return None;
    }
    let signed = cs[0] == '-' || cs[0] == '+';
    let neg = cs[0] == '-';
    let start: usize = if signed { 1 } else { 0 };
    if start == n {
        return None;
    }
    let ghost ds = cs@.subrange(start as int, n as int);
    proof {
        if signed {
            assert(ds =~= s@.drop_first());
        } else {
            assert(ds =~= s@);
        }
    }
    let mut acc: i64 = 0;
    let mut i: usize = start;
    while i < n
        invariant
            cs@ == s@,
            n == cs@.len(),
            start <= i <= n,
            ds == cs@.subrange(start as int, n as int),
            s@.len() > 0,
            signed == (s@[0] == '-' || s@[0] == '+'),
            neg == (s@[0] == '-'),
            signed ==> ds == s@.drop_first(),
            !signed ==> ds == s@,
            all_digits(cs@.subrange(start as int, i as int)),
            acc == digits_value(cs@.subrange(start as int, i as int)),
            0 <= acc <= 2147483648,
        decreases n - i,
    {
        let c = cs[i];
        if !('0' <= c && c <= '9') {
            proof {
                assert(ds[i - start] == c);
                assert(!all_digits(ds));
            }
            return None;
        }
        let d: i64 = (c as u32) as i64 - 48;
        proof {
            lemma_digits_step(cs@, start as int, i as int);
        }
        acc = acc * 10 + d;
        i += 1;
        if acc > 2147483648 {
            proof {
                assert(ds.take(i - start) =~= cs@.subrange(start as int, i as int));
                lemma_digits_exceed(ds, i - start, 2147483648);
            }
            return None;
        }
    }
    proof {
        assert(cs@.subrange(start as int, i as int) =~= ds);
    }
    if neg {
        Some((0 - acc) as i32)
    } else if acc <= 2147483647 {
        Some(acc as i32)
    } else {
        None
    }
}

/// The pieces of `s` between the occurrences of `sep`, as `str::split` gives them:
/// `k` occurrences make `k + 1` pieces, some of them perhaps empty.
pub open spec fn split_on(s: Seq<char>, sep: char) -> Seq<Seq<char>>
    decreases s.len(),
{
    if s.len() == 0 {
        seq![Seq::<char>::empty()]
    } else {
        let rest = split_on(s.drop_last(), sep);
        if s.last() == sep {
            rest.push(Seq::<char>::empty())
        } else {
            rest.update(rest.len() - 1, rest.last().push(s.last()))
        }
    }
}

/// The pieces joined, with `sep` between each two of them.
pub open spec fn join_with(pieces: Seq<Seq<char>>, sep: Seq<char>) -> Seq<char>
    decreases pieces.len(),
{
    if pieces.len() == 0 {
        Seq::<char>::empty()
    } else if pieces.len() == 1 {
        pieces[0]
    } else {
        join_with(pieces.drop_last(), sep) + sep + pieces.last()
    }
}

/// The characters of each string.
pub open spec fn views(v: Seq<String>) -> Seq<Seq<char>> {
    v.map_values(|x: String| x@)
}

/// Splitting always gives at least one piece.
pub proof fn lemma_split_on_nonempty(s: Seq<char>, sep: char)
    ensures
        split_on(s, sep).len() >= 1,
    decreases s.len(),
{
    if s.len() > 0 {
        lemma_split_on_nonempty(s.drop_last(), sep);
    }
}

/// Splits `s` at every `sep`, as `s.split(sep)` does.
pub fn split_at_char(s: &str, sep: char) -> (pieces: Vec<String>)
    ensures
        views(pieces@) == split_on(s@, sep),
{
    let cs = chars_of(s);
    let n = cs.len();
    let mut pieces: Vec<String> = Vec::new();
    let mut start: usize = 0;
    let mut i: usize = 0;
    proof {
        assert(cs@.take(0) =~= Seq::<char>::empty());
        assert(views(pieces@).push(cs@.subrange(0, 0)) =~= split_on(cs@.take(0), sep));
    }
    while i < n
        invariant
            cs@ == s@,
            n == cs@.len(),
            start <= i <= n,
            split_on(cs@.take(i as int), sep) == views(pieces@).push(
                cs@.subrange(start as int, i as int),
            ),
        decreases n - i,
    {
        let ghost old_pieces = pieces@;
        let ghost old_start = start;
        let ghost old_i = i;
        let ghost t = cs@.take(i + 1);
        proof {
            assert(t.drop_last() =~= cs@.take(i as int));
            assert(t.last() == cs@[i as int]);
        }
        if cs[i] == sep {
            let piece = String::from_str(s.substring_char(start, i));
            pieces.push(piece);
            start = i + 1;
            i += 1;
            proof {
                assert(views(pieces@) =~= views(old_pieces).push(piece@));
                assert(split_on(t, sep) == split_on(cs@.take(old_i as int), sep).push(
                    Seq::<char>::empty(),
                ));
                assert(piece@ == cs@.subrange(old_start as int, old_i as int));
                assert(cs@.subrange(start as int, i as int) =~= Seq::<char>::empty());
                assert(views(pieces@).push(cs@.subrange(start as int, i as int)) =~= split_on(
                    t,
                    sep,
                ));
            }
        } else {
            i += 1;
            proof {
                let cur = cs@.subrange(start as int, i - 1);
                let rest = views(old_pieces).push(cur);
                assert(split_on(t, sep) == rest.update(rest.len() - 1, rest.last().push(t.last())));
                assert(rest.last() == cur);
                assert(cs@.subrange(start as int, i as int) =~= cur.push(cs@[i - 1]));
                assert(rest.update(rest.len() - 1, cur.push(t.last())) =~= views(old_pieces).push(
                    cur.push(t.last()),
                ));
                assert(views(pieces@).push(cs@.subrange(start as int, i as int)) =~= split_on(
                    t,
                    sep,
                ));
            }
        }
    }
    let last = String::from_str(s.substring_char(start, n));
    let ghost before = pieces@;
    pieces.push(last);
    proof {
        assert(cs@.take(n as int) =~= cs@);
        assert(views(pieces@) =~= views(before).push(last@));
    }
    pieces
}

/// Joins the strings with `sep` between each two of them, as `slice::join` does.
pub fn join_strings(pieces: &Vec<String>, sep: &str) -> (s: String)
    ensures
        s@ == join_with(views(pieces@), sep@),
{
    let mut s = String::new();
    let n = pieces.len();
    let mut i: usize = 0;
    while i < n
        invariant
            n == pieces@.len(),
            i <= n,
            s@ == join_with(views(pieces@.take(i as int)), sep@),
        decreases n - i,
    {
        proof {
            assert(views(pieces@.take(i + 1)).drop_last() =~= views(pieces@.take(i as int)));
            assert(views(pieces@.take(i + 1)).last() == pieces@[i as int]@);
        }
        if i > 0 {
            s.append(sep);
        } else {
            proof {
                assert(views(pieces@.take(1)) =~= seq![pieces@[0]@]);
            }
        }
        s.append(pieces[i].as_str());
        i += 1;
    }
    proof {
        assert(pieces@.take(n as int) =~= pieces@);
    }
    s
}

/// Splitting at `sep` and joining the pieces with `sep` gives back the text.
pub proof fn law_join_split(s: Seq<char>, sep: char)
    ensures
        join_with(split_on(s, sep), seq![sep]) == s,
    decreases s.len(),
{
    if s.len() > 0 {
        let init = s.drop_last();
        law_join_split(init, sep);
        lemma_split_on_nonempty(init, sep);
        let rest = split_on(init, sep);
        if s.last() == sep {
            let p = rest.push(Seq::<char>::empty());
            assert(p.drop_last() =~= rest);
            assert(join_with(p, seq![sep]) =~= init + seq![sep]);
            assert(s =~= init + seq![sep]);
        } else {
            let p = rest.update(rest.len() - 1, rest.last().push(s.last()));
            assert(p.last() == rest.last().push(s.last()));
            if rest.len() == 1 {
                assert(join_with(rest, seq![sep]) == rest[0]);
                assert(join_with(p, seq![sep]) == p[0]);
                assert(s =~= init.push(s.last()));
            } else {
                assert(p.drop_last() =~= rest.drop_last());
                assert(join_with(p, seq![sep]) =~= join_with(rest, seq![sep]).push(s.last()));
                assert(s =~= init.push(s.last()));
            }
        }
    } else {
        assert(split_on(s, sep) =~= seq![Seq::<char>::empty()]);
    }
}

/// The lowercase hexadecimal digit of `d` (`0 <= d < 16`).
pub open spec fn hex_digit(d: int) -> char {
    if d < 10 { (48 + d) as char } else { (87 + d) as char }
}

/// Each byte as two lowercase hexadecimal digits, high half first.
pub open spec fn hex_lower(bytes: Seq<u8>) -> Seq<char>
    decreases bytes.len(),
{
    if bytes.len() == 0 {
        Seq::<char>::empty()
    } else {
        hex_lower(bytes.drop_last()) + seq![
            hex_digit(bytes.last() as int / 16),
            hex_digit(bytes.last() as int % 16),
        ]
    }
}

/// Two hexadecimal digits stand for each byte.
pub proof fn lemma_hex_lower_len(bytes: Seq<u8>)
    ensures
        hex_lower(bytes).len() == 2 * bytes.len(),
    decreases bytes.len(),
{
    if bytes.len() > 0 {
        lemma_hex_lower_len(bytes.drop_last());
    }
}

fn hex_digit_string(d: u8) -> (s: String)
    requires
        d < 16,
    ensures
        s@ == seq![hex_digit(d as int)],
{
    let digits = "0123456789abcdef";
    proof {
        reveal_strlit("0123456789abcdef");
    }
    let i = d as usize;
    String::from_str(digits.substring_char(i, i + 1))
}

/// Renders the bytes in lowercase hexadecimal, as the `{:x}` format of a digest does.
pub fn hex_string(bytes: &[u8]) -> (s: String)
    ensures
        s@ == hex_lower(bytes@),
        s@.len() == 2 * bytes@.len(),
{
    let n = bytes.len();
    let mut s = String::new();
    let mut i: usize = 0;
    while i < n
        invariant
            n == bytes@.len(),
            i <= n,
            s@ == hex_lower(bytes@.take(i as int)),
        decreases n - i,
    {
        let b = bytes[i];
        let hi = hex_digit_string(b / 16);
        let lo = hex_digit_string(b % 16);
        s.append(hi.as_str());
        s.append(lo.as_str());
        proof {
            assert(bytes@.take(i + 1).drop_last() =~= bytes@.take(i as int));
        }
        i += 1;
        assert(s@ =~= hex_lower(bytes@.take(i as int)));
    }
    proof {
        assert(bytes@.take(n as int) =~= bytes@);
        lemma_hex_lower_len(bytes@);
    }
    s
}


/// A text without `sep` is a single piece.
pub proof fn lemma_split_without_sep(s: Seq<char>, sep: char)
    requires
        !s.contains(sep),
    ensures
        split_on(s, sep) == seq![s],
    decreases s.len(),
{
    if s.len() > 0 {
        let init = s.drop_last();
        assert(!init.contains(sep)) by {
            if init.contains(sep) {
                let k = choose|k: int| 0 <= k < init.len() && init[k] == sep;
                assert(s[k] == sep);
            }
        }
        lemma_split_without_sep(init, sep);
        assert(s.last() != sep) by {
            assert(s[s.len() - 1] == s.last());
        }
        assert(s =~= init.push(s.last()));
        assert(seq![init].update(0, init.push(s.last())) =~= seq![s]);
    } else {
        assert(s =~= Seq::<char>::empty());
    }
}

/// After a `sep`, the last piece is what follows the last `sep`, and there
/// are at least two pieces.
pub proof fn lemma_split_after_sep(x: Seq<char>, sep: char, y: Seq<char>)
    requires
        !y.contains(sep),
    ensures
        split_on(x + seq![sep] + y, sep).last() == y,
        split_on(x + seq![sep] + y, sep).len() >= 2,
    decreases y.len(),
{
    lemma_split_on_nonempty(x, sep);
    let t = x + seq![sep] + y;
    if y.len() == 0 {
        assert(t.drop_last() =~= x);
        assert(t.last() == sep);
    } else {
        let y0 = y.drop_last();
        assert(!y0.contains(sep)) by {
            if y0.contains(sep) {
                let k = choose|k: int| 0 <= k < y0.len() && y0[k] == sep;
                assert(y[k] == sep);
            }
        }
        lemma_split_after_sep(x, sep, y0);
        assert(t.drop_last() =~= x + seq![sep] + y0);
        assert(t.last() == y[y.len() - 1]);
        assert(y.last() != sep);
        assert(y0.push(y.last()) =~= y);
    }
}

/// Text with a `sep` in it makes at least two pieces, the first of which is
/// what precedes the first `sep`.
pub proof fn lemma_split_first_piece(x: Seq<char>, sep: char, y: Seq<char>)
    ensures
        split_on(x + seq![sep] + y, sep).len() >= 2,
        split_on(x + seq![sep] + y, sep)[0] == split_on(x, sep)[0],
    decreases y.len(),
{
    lemma_split_on_nonempty(x, sep);
    let t = x + seq![sep] + y;
    if y.len() == 0 {
        assert(t.drop_last() =~= x);
        assert(t.last() == sep);
    } else {
        let y0 = y.drop_last();
        lemma_split_first_piece(x, sep, y0);
        assert(t.drop_last() =~= x + seq![sep] + y0);
    }
}

proof fn lemma_digit_char(d: int)
    requires
        0 <= d < 10,
    ensures
        is_digit(digit_char(d)),
        digit_value(digit_char(d)) == d,
        digit_char(d) != '.',
        digit_char(d) != '-',
        digit_char(d) != '+',
{
}

/// The decimal rendering of `n` is a non-empty run of digits that spells `n`.
pub proof fn lemma_decimal(n: nat)
    ensures
        decimal(n).len() > 0,
        all_digits(decimal(n)),
        digits_value(decimal(n)) == n,
        !decimal(n).contains('.'),
    decreases n,
{
    if n < 10 {
        lemma_digit_char(n as int);
        assert(decimal(n).drop_last() =~= Seq::<char>::empty());
        assert(decimal(n).last() == digit_char(n as int));
        assert(digits_value(Seq::<char>::empty()) == 0);
    } else {
        lemma_decimal(n / 10);
        lemma_digit_char((n % 10) as int);
        let d = decimal(n);
        assert(d.drop_last() =~= decimal(n / 10));
        assert(d.last() == digit_char((n % 10) as int));
        assert(digits_value(d) == digits_value(decimal(n / 10)) * 10 + digit_value(d.last()));
        assert((n / 10) * 10 + n % 10 == n);
        assert(forall|i: int| 0 <= i < d.len() ==> is_digit(#[trigger] d[i]) && d[i] != '.') by {
            assert forall|i: int| 0 <= i < d.len() implies is_digit(#[trigger] d[i]) && d[i]
                != '.' by {
                if i < d.len() - 1 {
                    assert(d[i] == decimal(n / 10)[i]);
                }
            }
        }
    }
}

/// Parsing the decimal rendering of a number in the range of `i32` gives the
/// number back.
pub proof fn law_parse_decimal(n: nat)
    requires
        n <= i32::MAX,
    ensures
        parsed_i32(decimal(n)) == Some(n as i32),
{
    lemma_decimal(n);
    lemma_digit_char(0);
    let d = decimal(n);
    assert(is_digit(d[0]));
}

/// No piece of a split holds the separator.
pub proof fn lemma_split_pieces_without_sep(s: Seq<char>, sep: char)
    ensures
        forall|i: int|
            0 <= i < split_on(s, sep).len() ==> !(#[trigger] split_on(s, sep)[i]).contains(sep),
    decreases s.len(),
{
    if s.len() > 0 {
        let init = s.drop_last();
        lemma_split_pieces_without_sep(init, sep);
        lemma_split_on_nonempty(init, sep);
        let rest = split_on(init, sep);
        if s.last() == sep {
            let p = rest.push(Seq::<char>::empty());
            assert forall|i: int| 0 <= i < p.len() implies !(#[trigger] p[i]).contains(sep) by {
                if i < rest.len() {
                    assert(p[i] == rest[i]);
                }
            }
        } else {
            let last = rest.last().push(s.last());
            let p = rest.update(rest.len() - 1, last);
            assert(!rest[rest.len() - 1].contains(sep));
            assert(!last.contains(sep)) by {
                if last.contains(sep) {
                    let j = choose|j: int| 0 <= j < last.len() && last[j] == sep;
                    if j < last.len() - 1 {
                        assert(rest.last()[j] == sep);
                    }
                }
            }
            assert forall|i: int| 0 <= i < p.len() implies !(#[trigger] p[i]).contains(sep) by {
                if i < rest.len() - 1 {
                    assert(p[i] == rest[i]);
                }
            }
        }
    } else {
        assert(split_on(s, sep)[0] =~= Seq::<char>::empty());
    }
}

/// Appending a separator and a piece without separators adds that piece.
pub proof fn lemma_split_append(x: Seq<char>, sep: char, y: Seq<char>)
    requires
        !y.contains(sep),
    ensures
        split_on(x + seq![sep] + y, sep) == split_on(x, sep).push(y),
    decreases y.len(),
{
    let t = x + seq![sep] + y;
    if y.len() == 0 {
        assert(t.drop_last() =~= x);
        assert(t.last() == sep);
        assert(y =~= Seq::<char>::empty());
    } else {
        let y0 = y.drop_last();
        assert(!y0.contains(sep)) by {
            if y0.contains(sep) {
                let k = choose|k: int| 0 <= k < y0.len() && y0[k] == sep;
                assert(y[k] == sep);
            }
        }
        lemma_split_append(x, sep, y0);
        assert(t.drop_last() =~= x + seq![sep] + y0);
        assert(t.last() == y[y.len() - 1]);
        assert(y0.push(y.last()) =~= y);
        assert(split_on(x, sep).push(y0).update(split_on(x, sep).len() as int, y) =~= split_on(
            x,
            sep,
        ).push(y));
    }
}

/// What `parse_i32` accepts, and what it makes of it: a run of digits is its
/// value where that fits in an `i32` and is refused otherwise; a `+` keeps a
/// value, a `-` negates it down to `i32::MIN`; and whatever is accepted is a
/// non-empty run of digits with at most a sign in front.
pub proof fn law_parse_i32(s: Seq<char>, n: nat)
    ensures
        s.len() > 0 && all_digits(s) ==> parsed_i32(s) == (if digits_value(s) <= i32::MAX {
            Some(digits_value(s) as i32)
        } else {
            None::<i32>
        }),
        n <= i32::MAX ==> parsed_i32(seq!['+'] + decimal(n)) == Some(n as i32),
        n <= 2147483648 ==> parsed_i32(seq!['-'] + decimal(n)) == Some((-n) as i32),
        parsed_i32(s) is Some ==> s.len() > 0 && (is_digit(s[0]) || ((s[0] == '-' || s[0] == '+')
            && s.len() > 1)) && forall|i: int| 1 <= i < s.len() ==> is_digit(#[trigger] s[i]),
{
    lemma_decimal(n);
    lemma_digit_char(0);
    if s.len() > 0 && all_digits(s) {
        assert(is_digit(s[0]));
        lemma_digits_value_nonneg(s);
    }
    let plus = seq!['+'] + decimal(n);
    let minus = seq!['-'] + decimal(n);
    assert(plus.drop_first() =~= decimal(n));
    assert(minus.drop_first() =~= decimal(n));
    if parsed_i32(s) is Some {
        if s[0] == '-' || s[0] == '+' {
            assert forall|i: int| 1 <= i < s.len() implies is_digit(#[trigger] s[i]) by {
                assert(s[i] == s.drop_first()[i - 1]);
            }
        }
    }
}

/// The value of a hexadecimal digit.
pub open spec fn hex_value(c: char) -> int {
    if '0' <= c && c <= '9' {
        c as int - 48
    } else {
        c as int - 87
    }
}

/// Whether `c` is a lowercase hexadecimal digit.
pub open spec fn is_hex_digit(c: char) -> bool {
    ('0' <= c && c <= '9') || ('a' <= c && c <= 'f')
}

/// The hexadecimal text of bytes reads back as the bytes: two lowercase
/// hexadecimal digits for each byte, high half first.
pub proof fn law_hex_reads_back(bytes: Seq<u8>)
    ensures
        hex_lower(bytes).len() == 2 * bytes.len(),
        forall|i: int|
            0 <= i < bytes.len() ==> is_hex_digit(#[trigger] hex_lower(bytes)[2 * i])
                && is_hex_digit(hex_lower(bytes)[2 * i + 1]) && hex_value(hex_lower(bytes)[2 * i])
                * 16 + hex_value(hex_lower(bytes)[2 * i + 1]) == bytes[i],
    decreases bytes.len(),
{
    lemma_hex_lower_len(bytes);
    if bytes.len() > 0 {
        let init = bytes.drop_last();
        law_hex_reads_back(init);
        let h = hex_lower(bytes);
        let hi = hex_digit(bytes.last() as int / 16);
        let lo = hex_digit(bytes.last() as int % 16);
        assert(h =~= hex_lower(init) + seq![hi, lo]);
        assert forall|i: int| 0 <= i < bytes.len() implies is_hex_digit(#[trigger] h[2 * i])
            && is_hex_digit(h[2 * i + 1]) && hex_value(h[2 * i]) * 16 + hex_value(h[2 * i + 1])
            == bytes[i] by {
            if i < bytes.len() - 1 {
                assert(h[2 * i] == hex_lower(init)[2 * i]);
                assert(h[2 * i + 1] == hex_lower(init)[2 * i + 1]);
                assert(bytes[i] == init[i]);
            } else {
                assert(h[2 * i] == hi);
                assert(h[2 * i + 1] == lo);
                assert(bytes[i] == bytes.last());
                assert((bytes.last() as int / 16) * 16 + bytes.last() as int % 16 == bytes.last());
            }
        }
    }
}

} // verus!
