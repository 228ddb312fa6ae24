//! Character-level text helpers: splitting on a separator, std-style line
//! splitting, and decimal numbers as `str::parse` reads them.
use vstd::prelude::*;

use vstd::string::{StrSliceExecFns, StringExecFns};

verus! {

/// The pieces of `s` between occurrences of `sep`, as `str::split` yields
/// them: always at least one piece, possibly empty.
pub open spec fn split(s: Seq<char>, sep: char) -> Seq<Seq<char>>
    decreases s.len(),
{
    if s.len() == 0 {
        seq![Seq::<char>::empty()]
    } else {
        let p = split(s.drop_last(), sep);
        if s.last() == sep {
            p.push(Seq::empty())
        } else {
            p.update(p.len() - 1, p.last().push(s.last()))
        }
    }
}

/// There is always at least one piece.
pub proof fn lemma_split_nonempty(s: Seq<char>, sep: char)
    ensures
        split(s, sep).len() >= 1,
    decreases s.len(),
{
    if s.len() > 0 {
        lemma_split_nonempty(s.drop_last(), sep);
    }
}

/// Drops one trailing carriage return.
pub open spec fn strip_cr(line: Seq<char>) -> Seq<char> {
    if line.len() > 0 && line.last() == '\r' {
        line.drop_last()
    } else {
        line
    }
}

/// The lines of `s` as `str::lines` yields them: split at `\n`, a `\r`
/// before a `\n` dropped, and no empty line after a final `\n`.
pub open spec fn lines(s: Seq<char>) -> Seq<Seq<char>> {
    let p = split(s, '\n');
    let ended = Seq::new((p.len() - 1) as nat, |i: int| strip_cr(p[i]));
    if p.last().len() == 0 {
        ended
    } else {
        ended.push(p.last())
    }
}

pub open spec fn is_digit(c: char) -> bool {
    '0' <= c && c <= '9'
}

pub open spec fn all_digits(s: Seq<char>) -> bool {
    forall|i: int| 0 <= i < s.len() ==> is_digit(#[trigger] s[i])
}

/// The value of a string of decimal digits.
pub open spec fn dec_value(s: Seq<char>) -> nat
    decreases s.len(),
{
    if s.len() == 0 {
        0
    } else {
        dec_value(s.drop_last()) * 10 + ((s.last() as nat) - ('0' as nat)) as nat
    }
}

/// A non-empty string of digits whose value fits in 64 bits.
pub open spec fn digits_u64(s: Seq<char>) -> Option<u64> {
    if s.len() > 0 && all_digits(s) && dec_value(s) <= u64::MAX {
        Some(dec_value(s) as u64)
    } else {
        None
    }
}

/// The digits of an unsigned number's text: one leading `+` is allowed.
pub open spec fn unsigned_digits(s: Seq<char>) -> Seq<char> {
    if s.len() > 0 && s[0] == '+' {
        s.drop_first()
    } else {
        s
    }
}

/// What `u64::from_str` accepts, and the value.
pub open spec fn parse_u64_text(s: Seq<char>) -> Option<u64> {
    digits_u64(unsigned_digits(s))
}

/// What `u8::from_str` accepts, and the value.
pub open spec fn parse_u8_text(s: Seq<char>) -> Option<u8> {
    match digits_u64(unsigned_digits(s)) {
        Some(v) => if v <= 255 {
            Some(v as u8)
        } else {
            None
        },
        None => None,
    }
}

proof fn lemma_dec_value_prefix(s: Seq<char>, i: int)
    requires
        0 <= i <= s.len(),
    ensures
        dec_value(s.take(i)) <= dec_value(s),
    decreases s.len(),
{
    if i < s.len() {
        assert(s.drop_last().take(i) =~= s.take(i));
        lemma_dec_value_prefix(s.drop_last(), i);
    } else {
        assert(s.take(i) =~= s);
    }
}

/// The characters of a string slice.
pub fn chars_of(s: &str) -> (r: Vec<char>)
    ensures
        r@ == s@,
{
    let n = s.unicode_len();
    let mut r: Vec<char> = Vec::new();
    let mut i: usize = 0;
    while i < n
        invariant
            n == s@.len(),
            i <= n,
            r@ =~= s@.take(i as int),
        decreases n - i,
    {
        r.push(s.get_char(i));
        i = i + 1;
    }
    r
}

/// Splits at each `sep`, as `str::split` does.
pub fn split_chars(s: &Vec<char>, sep: char) -> (r: Vec<Vec<char>>)
    ensures
        r@.len() == split(s@, sep).len(),
        forall|i: int| 0 <= i < r@.len() ==> #[trigger] r@[i]@ == split(s@, sep)[i],
{
    let mut done: Vec<Vec<char>> = Vec::new();
    let mut cur: Vec<char> = Vec::new();
    let mut i: usize = 0;
    while i < s.len()
        invariant
            i <= s.len(),
            done@.len() + 1 == split(s@.take(i as int), sep).len(),
            forall|j: int| 0 <= j < done@.len() ==> #[trigger] done@[j]@ == split(
                s@.take(i as int),
                sep,
            )[j],
            cur@ == split(s@.take(i as int), sep).last(),
        decreases s.len() - i,
    {
        let c = s[i];
        let ghost p = split(s@.take(i as int), sep);
        proof {
            let t = s@.take(i as int + 1);
            assert(t.drop_last() =~= s@.take(i as int));
            assert(t.last() == c);
        }
        if c == sep {
            done.push(cur);
            cur = Vec::new();
            proof {
                let q = split(s@.take(i as int + 1), sep);
                assert(q == p.push(Seq::empty()));
                assert forall|j: int| 0 <= j < done@.len() implies #[trigger] done@[j]@ == q[j] by {
                    if j < done@.len() - 1 {
                        assert(q[j] == p[j]);
                    }
                }
                assert(cur@ =~= q.last());
            }
        } else {
            cur.push(c);
            proof {
                let q = split(s@.take(i as int + 1), sep);
                assert(q == p.update(p.len() - 1, p.last().push(c)));
                assert forall|j: int| 0 <= j < done@.len() implies #[trigger] done@[j]@ == q[j] by {
                    assert(q[j] == p[j]);
                }
            }
        }
        i = i + 1;
    }
    proof {
        assert(s@.take(s@.len() as int) =~= s@);
    }
    done.push(cur);
    proof {
        let q = split(s@, sep);
        assert forall|j: int| 0 <= j < done@.len() implies #[trigger] done@[j]@ == q[j] by {}
    }
    done
}

/// Reads `s[start..]` as a non-empty run of decimal digits whose value fits
/// in 64 bits.
pub fn parse_digits(s: &Vec<char>, start: usize) -> (r: Option<u64>)
    requires
        start <= s@.len(),
    ensures
        r == digits_u64(s@.skip(start as int)),
{
    let ghost d = s@.skip(start as int);
    if start == s.len() {
        return None;
    }
    let mut v: u64 = 0;
    let mut i: usize = start;
    while i < s.len()
        invariant
            start <= i <= s.len(),
            d == s@.skip(start as int),
            all_digits(d.take(i - start)),
            v as nat == dec_value(d.take(i - start)),
        decreases s.len() - i,
    {
        let c = s[i];
        let ghost k: int = i - start;
        proof {
            assert(d[k] == c);
            assert(d.take(k + 1).drop_last() =~= d.take(k));
        }
        if !('0' <= c && c <= '9') {
            return None;
        }
        let dv = (c as u32 - '0' as u32) as u64;
        proof {
            assert(dec_value(d.take(k + 1)) == dec_value(d.take(k)) * 10 + dv);
        }
        match v.checked_mul(10) {
            Some(m) => match m.checked_add(dv) {
                Some(n) => {
                    v = n;
                },
                None => {
                    proof {
                        lemma_dec_value_prefix(d, k + 1);
                    }
                    return None;
                },
            },
            None => {
                proof {
                    lemma_dec_value_prefix(d, k + 1);
                }
                return None;
            },
        }
        proof {
            assert forall|j: int| 0 <= j < k + 1 implies is_digit(#[trigger] d.take(k + 1)[j]) by {
                if j < k {
                    assert(d.take(k + 1)[j] == d.take(k)[j]);
                }
            }
        }
        i = i + 1;
    }
    proof {
        assert(d.take(i - start) =~= d);
    }
    Some(v)
}

/// Where the digits of an unsigned number's text begin: after one leading `+`.
fn digits_start(s: &Vec<char>) -> (r: usize)
    ensures
        r <= s@.len(),
        s@.skip(r as int) == unsigned_digits(s@),
{
    if s.len() > 0 && s[0] == '+' {
        assert(s@.skip(1) =~= s@.drop_first());
        1
    } else {
        assert(s@.skip(0) =~= s@);
        0
    }
}

/// Parses an unsigned 64-bit number as `u64::from_str` does.
pub fn parse_u64(s: &Vec<char>) -> (r: Option<u64>)
    ensures
        r == parse_u64_text(s@),
{
    let k = digits_start(s);
    parse_digits(s, k)
}

/// Parses an unsigned 8-bit number as `u8::from_str` does.
pub fn parse_u8(s: &Vec<char>) -> (r: Option<u8>)
    ensures
        r == parse_u8_text(s@),
{
    let k = digits_start(s);
    match parse_digits(s, k) {
        Some(v) => if v <= 255 {
            Some(v as u8)
        } else {
            None
        },
        None => None,
    }
}

/// The lines of a text, as `str::lines` yields them.
pub fn lines_of(s: &str) -> (r: Vec<Vec<char>>)
    ensures
        r@.len() == lines(s@).len(),
        forall|i: int| 0 <= i < r@.len() ==> #[trigger] r@[i]@ == lines(s@)[i],
{
    let cs = chars_of(s);
    let pieces = split_chars(&cs, '\n');
    let ghost p = split(s@, '\n');
    let ghost ls = lines(s@);
    proof {
        lemma_split_nonempty(s@, '\n');
    }
    let n = pieces.len();
    let count = if pieces[n - 1].len() == 0 {
        n - 1
    } else {
        n
    };
    let mut r: Vec<Vec<char>> = Vec::new();
    let mut k: usize = 0;
    while k < count
        invariant
            n == p.len(),
            n >= 1,
            pieces@.len() == n,
            forall|i: int| 0 <= i < n ==> #[trigger] pieces@[i]@ == p[i],
            ls == lines(s@),
            p == split(s@, '\n'),
            count == ls.len(),
            count <= n,
            k <= count,
            r@.len() == k,
            forall|i: int| 0 <= i < k ==> #[trigger] r@[i]@ == ls[i],
        decreases count - k,
    {
        let line = copy_piece(&pieces, k, k + 1 < n);
        r.push(line);
        k = k + 1;
    }
    r
}

/// Piece `k`, with one trailing carriage return dropped when `strip`.
pub fn copy_piece(pieces: &Vec<Vec<char>>, k: usize, strip: bool) -> (r: Vec<char>)
    requires
        k < pieces@.len(),
    ensures
        strip ==> r@ == strip_cr(pieces@[k as int]@),
        !strip ==> r@ == pieces@[k as int]@,
{
    let p = &pieces[k];
    let mut n = p.len();
    if strip && n > 0 && p[n - 1] == '\r' {
        n = n - 1;
    }
    let mut r: Vec<char> = Vec::new();
    let mut i: usize = 0;
    while i < n
        invariant
            n <= p@.len(),
            i <= n,
            r@ =~= p@.take(i as int),
        decreases n - i,
    {
        r.push(p[i]);
        i = i + 1;
    }
    proof {
        if strip && p@.len() > 0 && p@.last() == '\r' {
            assert(r@ =~= p@.drop_last());
        } else {
            assert(r@ =~= p@);
        }
    }
    r
}

/// A character that `char::is_whitespace` accepts.
pub open spec fn is_white(c: char) -> bool {
    c == ' ' || ('\u{9}' <= c && c <= '\u{d}') || c == '\u{85}' || c == '\u{a0}' || c
        == '\u{1680}' || ('\u{2000}' <= c && c <= '\u{200a}') || c == '\u{2028}' || c
        == '\u{2029}' || c == '\u{202f}' || c == '\u{205f}' || c == '\u{3000}'
}

fn is_white_char(c: char) -> (r: bool)
    ensures
        r == is_white(c),
{
    c == ' ' || ('\u{9}' <= c && c <= '\u{d}') || c == '\u{85}' || c == '\u{a0}' || c
        == '\u{1680}' || ('\u{2000}' <= c && c <= '\u{200a}') || c == '\u{2028}' || c
        == '\u{2029}' || c == '\u{202f}' || c == '\u{205f}' || c == '\u{3000}'
}

/// `key` stands in `s` at `i`.
pub open spec fn occurs_at(s: Seq<char>, key: Seq<char>, i: int) -> bool {
    0 <= i && i + key.len() <= s.len() && s.subrange(i, i + key.len()) == key
}

/// The first place at or after `i` where `key` stands, as `str::find` gives it.
pub open spec fn find_from(s: Seq<char>, key: Seq<char>, i: int) -> Option<int>
    decreases s.len() + 1 - i,
{
    if i < 0 || i + key.len() > s.len() {
        None
    } else if occurs_at(s, key, i) {
        Some(i)
    } else {
        find_from(s, key, i + 1)
    }
}

proof fn lemma_find_from_occurs(s: Seq<char>, key: Seq<char>, i: int)
    ensures
        find_from(s, key, i) matches Some(p) ==> occurs_at(s, key, p) && i <= p,
    decreases s.len() + 1 - i,
{
    if !(i < 0 || i + key.len() > s.len()) && !occurs_at(s, key, i) {
        lemma_find_from_occurs(s, key, i + 1);
    }
}

/// The first place at or after `i` that is not whitespace, or the end.
pub open spec fn skip_white(s: Seq<char>, i: int) -> int
    decreases s.len() - i,
{
    if i < 0 || i >= s.len() {
        s.len() as int
    } else if is_white(s[i]) {
        skip_white(s, i + 1)
    } else {
        i
    }
}

/// The end of the run of non-whitespace that starts at `i`.
pub open spec fn token_end(s: Seq<char>, i: int) -> int
    decreases s.len() - i,
{
    if i < 0 || i >= s.len() {
        s.len() as int
    } else if is_white(s[i]) {
        i
    } else {
        token_end(s, i + 1)
    }
}

/// The first whitespace-separated word from `i`, as
/// `split_whitespace().next()` gives it.
pub open spec fn first_token(s: Seq<char>, i: int) -> Option<Seq<char>> {
    let a = skip_white(s, i);
    if a >= s.len() {
        None
    } else {
        Some(s.subrange(a, token_end(s, a)))
    }
}

/// The first word after the first `key` in `line`.
pub open spec fn token_after(line: Seq<char>, key: Seq<char>) -> Option<Seq<char>> {
    match find_from(line, key, 0) {
        Some(p) => first_token(line, p + key.len()),
        None => None,
    }
}

fn occurs_at_exec(s: &Vec<char>, key: &Vec<char>, i: usize) -> (r: bool)
    ensures
        r == occurs_at(s@, key@, i as int),
{
    if i > s.len() || key.len() > s.len() - i {
        return false;
    }
    let slen = s.len();
    let mut j: usize = 0;
    while j < key.len()
        invariant
            slen == s@.len(),
            i + key@.len() <= s@.len(),
            j <= key@.len(),
            forall|t: int| 0 <= t < j ==> s@[i + t] == key@[t],
        decreases key@.len() - j,
    {
        if s[i + j] != key[j] {
            assert(s@.subrange(i as int, i + key@.len())[j as int] != key@[j as int]);
            return false;
        }
        j = j + 1;
    }
    assert(s@.subrange(i as int, i + key@.len()) =~= key@);
    true
}

/// The first place where `key` stands in `s`, as `str::find` gives it.
pub fn find_exec(s: &Vec<char>, key: &Vec<char>) -> (r: Option<usize>)
    ensures
        match (r, find_from(s@, key@, 0)) {
            (Some(p), Some(q)) => p == q,
            (None, None) => true,
            _ => false,
        },
{
    if key.len() == 0 {
        assert(s@.subrange(0, 0) =~= key@);
        return Some(0);
    }
    let n = s.len();
    let mut p: usize = 0;
    while p < n && !occurs_at_exec(s, key, p)
        invariant
            n == s@.len(),
            p <= n,
            find_from(s@, key@, 0) == find_from(s@, key@, p as int),
        decreases n - p,
    {
        p = p + 1;
    }
    if p >= n {
        None
    } else {
        Some(p)
    }
}

/// Whether `key` stands somewhere in `s`.
pub fn contains_chars(s: &Vec<char>, key: &Vec<char>) -> (r: bool)
    ensures
        r == find_from(s@, key@, 0) is Some,
{
    find_exec(s, key).is_some()
}

/// The first word after the first `key` in `line`, as start and end indices.
pub fn token_after_exec(line: &Vec<char>, key: &Vec<char>) -> (r: Option<(usize, usize)>)
    ensures
        match (r, token_after(line@, key@)) {
            (Some((a, b)), Some(t)) => a <= b <= line@.len() && line@.subrange(a as int, b as int)
                == t,
            (None, None) => true,
            _ => false,
        },
{
    let n = line.len();
    let p = match find_exec(line, key) {
        Some(p) => p,
        None => return None,
    };
    proof {
        lemma_find_from_occurs(line@, key@, 0);
    }
    let mut a: usize = p + key.len();
    while a < n && is_white_char(line[a])
        invariant
            n == line@.len(),
            p + key@.len() <= a <= n,
            skip_white(line@, (p + key@.len()) as int) == skip_white(line@, a as int),
        decreases n - a,
    {
        a = a + 1;
    }
    if a >= n {
        return None;
    }
    let mut b: usize = a;
    while b < n && !is_white_char(line[b])
        invariant
            n == line@.len(),
            a <= b <= n,
            token_end(line@, a as int) == token_end(line@, b as int),
        decreases n - b,
    {
        b = b + 1;
    }
    Some((a, b))
}

/// One of the strings has the text `t`.
pub open spec fn contains_text(v: Seq<String>, t: Seq<char>) -> bool {
    exists|i: int| 0 <= i < v.len() && (#[trigger] v[i])@ == t
}

/// Whether one of the strings equals `s`.
pub fn contains_str(v: &[String], s: &String) -> (r: bool)
    ensures
        r == contains_text(v@, s@),
{
    let mut i: usize = 0;
    while i < v.len()
        invariant
            i <= v@.len(),
            forall|j: int| 0 <= j < i ==> (#[trigger] v@[j])@ != s@,
        decreases v@.len() - i,
    {
        if v[i].eq(s) {
            return true;
        }
        i = i + 1;
    }
    false
}

/// The decimal digit for `d`.
pub open spec fn digit_char(d: nat) -> char {
    "0123456789"@[d as int]
}

/// The decimal text of `n`, without leading zeros.
pub open spec fn decimal_text(n: nat) -> Seq<char>
    decreases n,
{
    if n < 10 {
        seq![digit_char(n)]
    } else {
        decimal_text(n / 10).push(digit_char(n % 10))
    }
}

/// Appends the decimal text of `n`.
pub fn push_decimal(out: &mut String, n: u64)
    ensures
        final(out)@ == old(out)@ + decimal_text(n as nat),
    decreases n,
{
    let digits = "0123456789";
    proof {
        reveal_strlit("0123456789");
    }
    if n >= 10 {
        push_decimal(out, n / 10);
    }
    let d = (n % 10) as usize;
    let one = digits.substring_char(d, d + 1);
    assert(one@ =~= seq![digit_char((n % 10) as nat)]);
    out.append(one);
    proof {
        if n >= 10 {
            assert(decimal_text(n as nat) == decimal_text((n / 10) as nat).push(digit_char(
                (n % 10) as nat,
            )));
        }
    }
    assert(out@ =~= old(out)@ + decimal_text(n as nat));
}

} // verus!
