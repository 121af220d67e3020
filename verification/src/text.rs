//! Text primitives the rest of the library is stated over.
//!
//! Every string is seen as its sequence of characters.

use vstd::prelude::*;
use vstd::string::*;

verus! {

/// `c` is one of the 128 ASCII characters.
pub open spec fn ascii(c: char) -> bool {
    (c as int) < 128
}

/// Every character of `s` is ASCII.
pub open spec fn all_ascii(s: Seq<char>) -> bool {
    forall|i: int| 0 <= i < s.len() ==> ascii(#[trigger] s[i])
}

/// `c` with `a`-`z` raised to `A`-`Z`.
pub open spec fn up(c: char) -> char {
    if 97 <= c as int <= 122 {
        (c as int - 32) as char
    } else {
        c
    }
}

/// `c` with `A`-`Z` lowered to `a`-`z`.
pub open spec fn down(c: char) -> char {
    if 65 <= c as int <= 90 {
        (c as int + 32) as char
    } else {
        c
    }
}

/// `s` with every ASCII letter raised.
pub open spec fn ups(s: Seq<char>) -> Seq<char> {
    Seq::new(s.len(), |i: int| up(s[i]))
}

/// `s` with every ASCII letter lowered.
pub open spec fn downs(s: Seq<char>) -> Seq<char> {
    Seq::new(s.len(), |i: int| down(s[i]))
}

/// The text that `str::to_uppercase` returns for `s`.
pub uninterp spec fn upper_text(s: Seq<char>) -> Seq<char>;

/// The text that `str::to_lowercase` returns for `s`.
pub uninterp spec fn lower_text(s: Seq<char>) -> Seq<char>;

/// What `char::is_whitespace` answers for `c`.
pub uninterp spec fn white(c: char) -> bool;

/// `str::to_uppercase`. The result depends on the text alone; on ASCII text it
/// raises `a`-`z` and leaves every other character as it is.
#[verifier::external_body]
pub(crate) fn uppercase(s: &str) -> (r: String)
    ensures
        r@ == upper_text(s@),
        all_ascii(s@) ==> r@ == ups(s@),
{
    s.to_uppercase()
}

/// `str::to_lowercase`. The result depends on the text alone; on ASCII text it
/// lowers `A`-`Z` and leaves every other character as it is.
#[verifier::external_body]
pub(crate) fn lowercase(s: &str) -> (r: String)
    ensures
        r@ == lower_text(s@),
        all_ascii(s@) ==> r@ == downs(s@),
{
    s.to_lowercase()
}

/// `char::is_whitespace`. The answer depends on the character alone; among the
/// ASCII characters it holds of space, tab, line feed, vertical tab, form feed
/// and carriage return.
#[verifier::external_body]
pub(crate) fn is_white(c: char) -> (r: bool)
    ensures
        r == white(c),
        ascii(c) ==> r == (c as int == 32 || 9 <= c as int <= 13),
{
    c.is_whitespace()
}

/// `String::push` appends one character.
pub assume_specification[ String::push ](s: &mut String, c: char)
    ensures
        final(s)@ == old(s)@.push(c),
;

/// The characters of `s` in order.
pub fn chars_of(s: &str) -> (r: Vec<char>)
    ensures
        r@ == s@,
{
    let mut v: Vec<char> = Vec::new();
    for c in it: s.chars()
        invariant
            v@ == it.seq().take(it.index() as int),
            it.seq() == s@,
    {
        v.push(c);
        proof {
            assert(it.seq().take(it.index() + 1) =~= it.seq().take(it.index() as int).push(c));
        }
    }
    proof {
        assert(s@.take(s@.len() as int) =~= s@);
    }
    v
}

/// The text made of the characters `v[from..to]`.
pub fn text_of(v: &Vec<char>, from: usize, to: usize) -> (r: String)
    requires
        from <= to <= v.len(),
    ensures
        r@ == v@.subrange(from as int, to as int),
{
    let mut out = String::new();
    let mut i: usize = from;
    while i < to
        invariant
            from <= i <= to <= v.len(),
            out@ == v@.subrange(from as int, i as int),
        decreases to - i,
    {
        out.push(v[i]);
        i += 1;
        proof {
            assert(v@.subrange(from as int, i as int) =~= v@.subrange(
                from as int,
                i - 1,
            ).push(v@[i - 1]));
        }
    }
    out
}

/// Whether two texts are equal.
pub fn same(a: &str, b: &str) -> (r: bool)
    ensures
        r == (a@ == b@),
{
    let x = a.to_owned();
    let y = b.to_owned();
    x == y
}

/// `p` stands in `s` at position `i`.
pub open spec fn at(s: Seq<char>, p: Seq<char>, i: int) -> bool {
    &&& 0 <= i
    &&& i + p.len() <= s.len()
    &&& s.subrange(i, i + p.len()) == p
}

/// `s` begins with `p`.
pub open spec fn begins(s: Seq<char>, p: Seq<char>) -> bool {
    at(s, p, 0)
}

/// `s` ends with `p`.
pub open spec fn ends(s: Seq<char>, p: Seq<char>) -> bool {
    at(s, p, s.len() - p.len())
}

/// `p` stands somewhere in `s`.
pub open spec fn has(s: Seq<char>, p: Seq<char>) -> bool {
    exists|i: int| at(s, p, i)
}

/// What follows `p` at the head of `s`; `None` where `s` does not begin with `p`.
pub open spec fn after(s: Seq<char>, p: Seq<char>) -> Option<Seq<char>> {
    if begins(s, p) {
        Some(s.subrange(p.len() as int, s.len() as int))
    } else {
        None
    }
}

/// The characters of an optional text.
pub open spec fn view_opt(s: Option<String>) -> Option<Seq<char>> {
    match s {
        Some(t) => Some(t@),
        None => None,
    }
}

/// The characters of each text of a list.
pub open spec fn views(v: Seq<String>) -> Seq<Seq<char>> {
    Seq::new(v.len(), |i: int| v[i]@)
}

fn at_pos(s: &Vec<char>, p: &Vec<char>, i: usize) -> (r: bool)
    ensures
        r == at(s@, p@, i as int),
{
    if p.len() > s.len() || i > s.len() - p.len() {
        return false;
    }
    let mut k: usize = 0;
    while k < p.len()
        invariant
            p.len() <= s.len(),
            i <= s.len() - p.len(),
            k <= p.len(),
            forall|j: int| 0 <= j < k ==> s@[i + j] == p@[j],
        decreases p.len() - k,
    {
        if s[i + k] != p[k] {
            proof {
                assert(s@.subrange(i as int, i + p@.len())[k as int] != p@[k as int]);
            }
            return false;
        }
        k += 1;
    }
    proof {
        assert(s@.subrange(i as int, i + p@.len()) =~= p@);
    }
    true
}

/// Whether `s` begins with `p`.
pub fn starts_with(s: &str, p: &str) -> (r: bool)
    ensures
        r == begins(s@, p@),
{
    at_pos(&chars_of(s), &chars_of(p), 0)
}

/// Whether `s` ends with `p`.
pub fn ends_with(s: &str, p: &str) -> (r: bool)
    ensures
        r == ends(s@, p@),
{
    let a = chars_of(s);
    let b = chars_of(p);
    if b.len() > a.len() {
        return false;
    }
    at_pos(&a, &b, a.len() - b.len())
}

/// Whether `p` stands somewhere in `s`.
pub fn contains(s: &str, p: &str) -> (r: bool)
    ensures
        r == has(s@, p@),
{
    let a = chars_of(s);
    let b = chars_of(p);
    if b.len() > a.len() {
        return false;
    }
    let last: usize = a.len() - b.len();
    let mut i: usize = 0;
    while i <= last
        invariant
            a@ == s@,
            b@ == p@,
            b.len() <= a.len(),
            last == a.len() - b.len(),
            i <= last + 1,
            forall|j: int| 0 <= j < i ==> !at(s@, p@, j),
        decreases last + 1 - i,
    {
        if at_pos(&a, &b, i) {
            return true;
        }
        if i == last {
            proof {
                assert forall|j: int| !at(s@, p@, j) by {}
            }
            return false;
        }
        i += 1;
    }
    false
}

/// The part of `s` behind the prefix `p`, where `s` has that prefix.
pub fn strip_prefix(s: &str, p: &str) -> (r: Option<String>)
    ensures
        view_opt(r) == after(s@, p@),
{
    let a = chars_of(s);
    let b = chars_of(p);
    if at_pos(&a, &b, 0) {
        Some(text_of(&a, b.len(), a.len()))
    } else {
        None
    }
}

/// One character lowered as ASCII does.
pub fn ascii_lower(c: char) -> (r: char)
    ensures
        r == down(c),
{
    if c as u32 >= 65 && c as u32 <= 90 {
        (c as u8 + 32) as char
    } else {
        c
    }
}

/// `s` with every ASCII letter lowered.
pub fn to_ascii_lower(s: &str) -> (r: String)
    ensures
        r@ == downs(s@),
{
    let a = chars_of(s);
    let mut out = String::new();
    let mut i: usize = 0;
    while i < a.len()
        invariant
            a@ == s@,
            i <= a.len(),
            out@ == downs(s@).take(i as int),
        decreases a.len() - i,
    {
        out.push(ascii_lower(a[i]));
        i += 1;
        proof {
            assert(downs(s@).take(i as int) =~= downs(s@).take(i - 1).push(down(s@[i - 1])));
        }
    }
    proof {
        assert(downs(s@).take(s@.len() as int) =~= downs(s@));
    }
    out
}

/// Whether two texts are equal but for the case of ASCII letters.
pub fn same_ignoring_case(a: &str, b: &str) -> (r: bool)
    ensures
        r == (downs(a@) == downs(b@)),
{
    let x = to_ascii_lower(a);
    let y = to_ascii_lower(b);
    x == y
}

/// `s` without the white characters at its head.
pub open spec fn trim_head(s: Seq<char>) -> Seq<char>
    decreases s.len(),
{
    if s.len() == 0 || !white(s[0]) {
        s
    } else {
        trim_head(s.subrange(1, s.len() as int))
    }
}

/// `s` without the white characters at its tail.
pub open spec fn trim_tail(s: Seq<char>) -> Seq<char>
    decreases s.len(),
{
    if s.len() == 0 || !white(s.last()) {
        s
    } else {
        trim_tail(s.drop_last())
    }
}

/// `s` without the white characters at either end.
pub open spec fn trimmed(s: Seq<char>) -> Seq<char> {
    trim_tail(trim_head(s))
}

/// `s` without white characters at its ends.
pub fn trim(s: &str) -> (r: String)
    ensures
        r@ == trimmed(s@),
{
    let a = chars_of(s);
    let mut from: usize = 0;
    let n: usize = a.len();
    proof {
        assert(s@.subrange(0, n as int) =~= s@);
    }
    while from < n && is_white(a[from])
        invariant
            a@ == s@,
            n == a.len(),
            from <= n,
            trim_head(s@) == trim_head(s@.subrange(from as int, n as int)),
        ensures
            from <= n,
            trim_head(s@) == s@.subrange(from as int, n as int),
        decreases n - from,
    {
        proof {
            let t = s@.subrange(from as int, n as int);
            assert(t.subrange(1, t.len() as int) =~= s@.subrange(from + 1, n as int));
        }
        from += 1;
    }
    let mut to: usize = n;
    while to > from && is_white(a[to - 1])
        invariant
            a@ == s@,
            n == a.len(),
            from <= to <= n,
            trimmed(s@) == trim_tail(s@.subrange(from as int, to as int)),
        ensures
            from <= to <= n,
            trimmed(s@) == s@.subrange(from as int, to as int),
        decreases to - from,
    {
        proof {
            let t = s@.subrange(from as int, to as int);
            assert(t.drop_last() =~= s@.subrange(from as int, to - 1));
            assert(t.last() == s@[to - 1]);
        }
        to -= 1;
    }
    text_of(&a, from, to)
}

/// The fields of `s` between occurrences of `sep`; one field where there is none.
pub open spec fn fields(s: Seq<char>, sep: char) -> Seq<Seq<char>>
    decreases s.len(),
{
    if s.len() == 0 {
        seq![Seq::<char>::empty()]
    } else {
        let f = fields(s.drop_last(), sep);
        if s.last() == sep {
            f.push(Seq::<char>::empty())
        } else {
            f.update(f.len() - 1, f.last().push(s.last()))
        }
    }
}

/// Splitting gives at least one field.
pub proof fn lemma_fields_nonempty(s: Seq<char>, sep: char)
    ensures
        fields(s, sep).len() >= 1,
    decreases s.len(),
{
    if s.len() > 0 {
        lemma_fields_nonempty(s.drop_last(), sep);
    }
}

/// The fields of `s` between occurrences of `sep`.
pub fn split(s: &str, sep: char) -> (r: Vec<String>)
    ensures
        views(r@) == fields(s@, sep),
        r.len() >= 1,
{
    let a = chars_of(s);
    let mut done: Vec<String> = Vec::new();
    let mut cur = String::new();
    let mut i: usize = 0;
    proof {
        assert(s@.take(0) =~= Seq::<char>::empty());
        assert(views(done@).push(cur@) =~= fields(s@.take(0), sep));
    }
    while i < a.len()
        invariant
            a@ == s@,
            i <= a.len(),
            views(done@).push(cur@) == fields(s@.take(i as int), sep),
        decreases a.len() - i,
    {
        let ghost before = views(done@).push(cur@);
        let c = a[i];
        proof {
            assert(s@.take(i + 1).drop_last() =~= s@.take(i as int));
            assert(s@.take(i + 1).last() == c);
        }
        if c == sep {
            done.push(cur);
            cur = String::new();
            proof {
                assert(views(done@).push(cur@) =~= before.push(Seq::<char>::empty()));
            }
        } else {
            cur.push(c);
            proof {
                assert(views(done@).push(cur@) =~= before.update(
                    before.len() - 1,
                    before.last().push(c),
                ));
            }
        }
        i += 1;
    }
    let ghost tail = cur@;
    let ghost head = views(done@);
    done.push(cur);
    proof {
        assert(s@.take(s@.len() as int) =~= s@);
        assert(views(done@) =~= head.push(tail));
    }
    done
}

/// `c` is one of `0`-`9`.
pub open spec fn digit(c: char) -> bool {
    48 <= c as int <= 57
}

/// Every character of `s` is a decimal digit.
pub open spec fn all_digits(s: Seq<char>) -> bool {
    forall|i: int| 0 <= i < s.len() ==> digit(#[trigger] s[i])
}

/// The number that the decimal digits `s` write.
pub open spec fn digits_value(s: Seq<char>) -> int
    decreases s.len(),
{
    if s.len() == 0 {
        0
    } else {
        10 * digits_value(s.drop_last()) + (s.last() as int - 48)
    }
}

/// The digits behind an optional sign.
pub open spec fn unsigned_part(s: Seq<char>) -> Seq<char> {
    if s.len() > 0 && (s[0] == '-' || s[0] == '+') {
        s.subrange(1, s.len() as int)
    } else {
        s
    }
}

/// The 64-bit signed integer that `s` writes: an optional sign, then at least
/// one digit, nothing else, in range.
pub open spec fn int_value(s: Seq<char>) -> Option<int> {
    let d = unsigned_part(s);
    let n = digits_value(d);
    let v = if s.len() > 0 && s[0] == '-' {
        -n
    } else {
        n
    };
    if d.len() > 0 && all_digits(d) && i64::MIN <= v <= i64::MAX {
        Some(v)
    } else {
        None
    }
}

proof fn lemma_digits_value_grows(s: Seq<char>, k: int)
    requires
        all_digits(s),
        0 <= k <= s.len(),
    ensures
        0 <= digits_value(s.take(k)) <= digits_value(s),
    decreases s.len() - k, s.len(),
{
    if k == s.len() {
        assert(s.take(k) =~= s);
        if k > 0 {
            assert(all_digits(s.drop_last()));
            lemma_digits_value_grows(s.drop_last(), k - 1);
            assert(s.drop_last().take(k - 1) =~= s.drop_last());
            assert(digit(s[k - 1]));
        }
    } else {
        lemma_digits_value_grows(s, k + 1);
        lemma_digits_value_grows(s.take(k), k);
        assert(s.take(k).take(k) =~= s.take(k));
        assert(s.take(k + 1).drop_last() =~= s.take(k));
        assert(digit(s[k]));
        assert(s.take(k + 1).last() == s[k]);
    }
}

/// The value of a decimal digit.
fn digit_of(c: char) -> (r: Option<u64>)
    ensures
        r == (if digit(c) {
            Some((c as int - 48) as u64)
        } else {
            None
        }),
{
    if c as u32 >= 48 && c as u32 <= 57 {
        Some(c as u64 - 48)
    } else {
        None
    }
}

/// The integer that `s` writes, or `None` where it writes none in range.
pub fn parse_int(s: &str) -> (r: Option<i64>)
    ensures
        (match r {
            Some(v) => Some(v as int),
            None => None::<int>,
        }) == int_value(s@),
{
    let a = chars_of(s);
    let n: usize = a.len();
    let negative = n > 0 && a[0] == '-';
    let start: usize = if n > 0 && (a[0] == '-' || a[0] == '+') {
        1
    } else {
        0
    };
    let ghost d = unsigned_part(s@);
    proof {
        assert(d =~= s@.subrange(start as int, n as int));
    }
    if start == n {
        return None;
    }
    let mut acc: u64 = 0;
    let mut over = false;
    let mut i: usize = start;
    proof {
        assert(d.take(0) =~= Seq::<char>::empty());
    }
    while i < n
        invariant
            a@ == s@,
            n == a.len(),
            start <= i <= n,
            d == s@.subrange(start as int, n as int),
            d == unsigned_part(s@),
            forall|j: int| 0 <= j < i - start ==> digit(#[trigger] d[j]),
            !over ==> acc == digits_value(d.take(i - start)),
            !over ==> acc <= 0x8000_0000_0000_0000,
            over ==> digits_value(d.take(i - start)) > 0x8000_0000_0000_0000,
        decreases n - i,
    {
        let c = a[i];
        proof {
            assert(d[i - start] == c);
            assert(d.take(i - start + 1).drop_last() =~= d.take(i - start));
            assert(d.take(i - start + 1).last() == c);
        }
        let v: u64 = match digit_of(c) {
            Some(v) => v,
            None => {
                proof {
                    assert(!digit(d[i - start]));
                }
                return None;
            },
        };
        if !over {
            if acc > 0x8000_0000_0000_0000u64 / 10 {
                over = true;
            } else {
                acc = acc * 10 + v;
                if acc > 0x8000_0000_0000_0000u64 {
                    over = true;
                }
            }
        }
        i += 1;
    }
    proof {
        assert(d.take(n - start) =~= d);
        assert(all_digits(d));
        lemma_digits_value_grows(d, 0);
    }
    if over {
        return None;
    }
    if negative {
        if acc == 0x8000_0000_0000_0000u64 {
            Some(i64::MIN)
        } else {
            Some(-(acc as i64))
        }
    } else if acc <= 0x7fff_ffff_ffff_ffffu64 {
        Some(acc as i64)
    } else {
        None
    }
}

/// The character that writes the digit `d`.
pub open spec fn digit_char(d: int) -> char {
    (48 + d) as char
}

/// `n` written in decimal.
pub open spec fn dec(n: int) -> Seq<char>
    decreases n,
{
    if n < 10 {
        seq![digit_char(n)]
    } else {
        dec(n / 10).push(digit_char(n % 10))
    }
}

/// `n` written in decimal, with a leading `-` where it is negative.
pub open spec fn int_dec(n: int) -> Seq<char> {
    if n < 0 {
        seq!['-'] + dec(-n)
    } else {
        dec(n)
    }
}

/// Appends `n` in decimal.
pub fn push_nat(out: &mut String, n: u64)
    ensures
        final(out)@ == old(out)@ + dec(n as int),
    decreases n,
{
    if n >= 10 {
        push_nat(out, n / 10);
    }
    let d: u8 = 48 + (n % 10) as u8;
    out.push(d as char);
    proof {
        assert(d as char == digit_char(n as int % 10));
        if n >= 10 {
            assert(old(out)@ + dec(n as int) =~= (old(out)@ + dec(n as int / 10)).push(
                digit_char(n as int % 10),
            ));
        } else {
            assert(old(out)@ + dec(n as int) =~= old(out)@.push(digit_char(n as int)));
        }
    }
}

/// Appends `n` in decimal, with its sign where it is negative.
pub fn push_int(out: &mut String, n: i64)
    ensures
        final(out)@ == old(out)@ + int_dec(n as int),
{
    if n < 0 {
        out.push('-');
        let m: u64 = if n == i64::MIN {
            0x8000_0000_0000_0000u64
        } else {
            (-n) as u64
        };
        push_nat(out, m);
        proof {
            assert(old(out)@ + int_dec(n as int) =~= old(out)@.push('-') + dec(-n));
        }
    } else {
        push_nat(out, n as u64);
    }
}

/// `n` in decimal.
pub fn int_text(n: i64) -> (r: String)
    ensures
        r@ == int_dec(n as int),
{
    let mut out = String::new();
    push_int(&mut out, n);
    proof {
        assert(Seq::<char>::empty() + int_dec(n as int) =~= int_dec(n as int));
    }
    out
}

/// Appends `t`.
pub fn push_text(out: &mut String, t: &str)
    ensures
        final(out)@ == old(out)@ + t@,
{
    let a = chars_of(t);
    let mut i: usize = 0;
    proof {
        assert(old(out)@ + t@.take(0) =~= old(out)@);
    }
    while i < a.len()
        invariant
            a@ == t@,
            i <= a.len(),
            out@ == old(out)@ + t@.take(i as int),
        decreases a.len() - i,
    {
        out.push(a[i]);
        i += 1;
        proof {
            assert(old(out)@ + t@.take(i as int) =~= (old(out)@ + t@.take(i - 1)).push(t@[i - 1]));
        }
    }
    proof {
        assert(t@.take(t@.len() as int) =~= t@);
    }
}

/// Two texts joined.
pub fn concat(a: &str, b: &str) -> (r: String)
    ensures
        r@ == a@ + b@,
{
    let mut out = a.to_owned();
    push_text(&mut out, b);
    out
}

/// `a` comes before `b` in dictionary order of character codes.
pub open spec fn below(a: Seq<char>, b: Seq<char>) -> bool
    decreases a.len(),
{
    if b.len() == 0 {
        false
    } else if a.len() == 0 {
        true
    } else if a[0] != b[0] {
        (a[0] as int) < (b[0] as int)
    } else {
        below(a.subrange(1, a.len() as int), b.subrange(1, b.len() as int))
    }
}

/// The dictionary order is irreflexive.
pub proof fn lemma_below_irreflexive(a: Seq<char>)
    ensures
        !below(a, a),
    decreases a.len(),
{
    if a.len() > 0 {
        lemma_below_irreflexive(a.subrange(1, a.len() as int));
    }
}

/// Of two different texts one comes before the other.
pub proof fn lemma_below_total(a: Seq<char>, b: Seq<char>)
    ensures
        a == b || below(a, b) || below(b, a),
    decreases a.len(),
{
    if a.len() > 0 && b.len() > 0 && a[0] == b[0] {
        let x = a.subrange(1, a.len() as int);
        let y = b.subrange(1, b.len() as int);
        lemma_below_total(x, y);
        if x == y {
            assert(a =~= seq![a[0]] + x);
            assert(b =~= seq![b[0]] + y);
        }
    } else if a.len() == 0 && b.len() == 0 {
        assert(a =~= b);
    }
}

/// The dictionary order is transitive.
pub proof fn lemma_below_transitive(a: Seq<char>, b: Seq<char>, c: Seq<char>)
    requires
        below(a, b),
        below(b, c),
    ensures
        below(a, c),
    decreases a.len(),
{
    if a.len() > 0 && a[0] == b[0] && b[0] == c[0] {
        lemma_below_transitive(
            a.subrange(1, a.len() as int),
            b.subrange(1, b.len() as int),
            c.subrange(1, c.len() as int),
        );
    }
}

/// Whether `a` comes before `b` in dictionary order of character codes.
pub fn text_below(a: &str, b: &str) -> (r: bool)
    ensures
        r == below(a@, b@),
{
    let x = chars_of(a);
    let y = chars_of(b);
    let mut i: usize = 0;
    proof {
        assert(x@.subrange(0, x@.len() as int) =~= x@);
        assert(y@.subrange(0, y@.len() as int) =~= y@);
    }
    while i < x.len() && i < y.len() && x[i] == y[i]
        invariant
            x@ == a@,
            y@ == b@,
            i <= x.len(),
            i <= y.len(),
            below(a@, b@) == below(
                x@.subrange(i as int, x@.len() as int),
                y@.subrange(i as int, y@.len() as int),
            ),
        decreases x.len() - i,
    {
        proof {
            let s = x@.subrange(i as int, x@.len() as int);
            let t = y@.subrange(i as int, y@.len() as int);
            assert(s.subrange(1, s.len() as int) =~= x@.subrange(i + 1, x@.len() as int));
            assert(t.subrange(1, t.len() as int) =~= y@.subrange(i + 1, y@.len() as int));
        }
        i += 1;
    }
    if i == y.len() {
        false
    } else if i == x.len() {
        true
    } else {
        char_below(x[i], y[i])
    }
}

fn char_below(a: char, b: char) -> (r: bool)
    ensures
        r == ((a as int) < (b as int)),
{
    (a as u32) < (b as u32)
}

/// `s` without the character `c`.
pub open spec fn without(s: Seq<char>, c: char) -> Seq<char>
    decreases s.len(),
{
    if s.len() == 0 {
        s
    } else if s.last() == c {
        without(s.drop_last(), c)
    } else {
        without(s.drop_last(), c).push(s.last())
    }
}

/// `s` without the character `c`.
pub fn remove_char(s: &str, c: char) -> (r: String)
    ensures
        r@ == without(s@, c),
{
    let a = chars_of(s);
    let mut out = String::new();
    let mut i: usize = 0;
    proof {
        assert(s@.take(0) =~= Seq::<char>::empty());
    }
    while i < a.len()
        invariant
            a@ == s@,
            i <= a.len(),
            out@ == without(s@.take(i as int), c),
        decreases a.len() - i,
    {
        proof {
            assert(s@.take(i + 1).drop_last() =~= s@.take(i as int));
            assert(s@.take(i + 1).last() == s@[i as int]);
        }
        if a[i] != c {
            out.push(a[i]);
        }
        i += 1;
    }
    proof {
        assert(s@.take(s@.len() as int) =~= s@);
    }
    out
}

/// An ASCII letter or digit.
pub open spec fn alnum(c: char) -> bool {
    48 <= c as int <= 57 || 65 <= c as int <= 90 || 97 <= c as int <= 122
}

/// Whether `c` is an ASCII letter or digit.
pub fn is_alnum(c: char) -> (r: bool)
    ensures
        r == alnum(c),
{
    let n: u32 = c as u32;
    (n >= 48 && n <= 57) || (n >= 65 && n <= 90) || (n >= 97 && n <= 122)
}

/// The ASCII letters and digits of `s`.
pub open spec fn alnums(s: Seq<char>) -> Seq<char>
    decreases s.len(),
{
    if s.len() == 0 {
        s
    } else if alnum(s.last()) {
        alnums(s.drop_last()).push(s.last())
    } else {
        alnums(s.drop_last())
    }
}

/// The ASCII letters and digits of `s`.
pub fn keep_alnum(s: &str) -> (r: String)
    ensures
        r@ == alnums(s@),
{
    let a = chars_of(s);
    let mut out = String::new();
    let mut i: usize = 0;
    proof {
        assert(s@.take(0) =~= Seq::<char>::empty());
    }
    while i < a.len()
        invariant
            a@ == s@,
            i <= a.len(),
            out@ == alnums(s@.take(i as int)),
        decreases a.len() - i,
    {
        proof {
            assert(s@.take(i + 1).drop_last() =~= s@.take(i as int));
            assert(s@.take(i + 1).last() == s@[i as int]);
        }
        if is_alnum(a[i]) {
            out.push(a[i]);
        }
        i += 1;
    }
    proof {
        assert(s@.take(s@.len() as int) =~= s@);
    }
    out
}

/// The first `n` characters of `s`, or all of it where it is shorter.
pub open spec fn head(s: Seq<char>, n: int) -> Seq<char> {
    if s.len() <= n {
        s
    } else {
        s.take(n)
    }
}

/// The first `n` characters of `s`.
pub fn first_chars(s: &str, n: usize) -> (r: String)
    ensures
        r@ == head(s@, n as int),
{
    let a = chars_of(s);
    let end: usize = if a.len() <= n {
        a.len()
    } else {
        n
    };
    proof {
        assert(s@.subrange(0, end as int) =~= head(s@, n as int));
    }
    text_of(&a, 0, end)
}

/// Whether a text is one of two.
pub fn one_of(k: &str, a: &str, b: &str) -> (r: bool)
    ensures
        r == (k@ == a@ || k@ == b@),
{
    same(k, a) || same(k, b)
}

/// The unsigned integer that `s` writes: an optional plus, then at least one
/// digit, nothing else, at most `max`.
pub open spec fn nat_value(s: Seq<char>, max: int) -> Option<int> {
    let d = if s.len() > 0 && s[0] == '+' {
        s.subrange(1, s.len() as int)
    } else {
        s
    };
    if d.len() > 0 && all_digits(d) && digits_value(d) <= max {
        Some(digits_value(d))
    } else {
        None
    }
}

/// The unsigned integer up to `max` that `s` writes.
pub fn parse_nat(s: &str, max: u64) -> (r: Option<u64>)
    ensures
        (match r {
            Some(v) => Some(v as int),
            None => None::<int>,
        }) == nat_value(s@, max as int),
{
    let a = chars_of(s);
    let n: usize = a.len();
    let start: usize = if n > 0 && a[0] == '+' {
        1
    } else {
        0
    };
    let ghost d = if s@.len() > 0 && s@[0] == '+' {
        s@.subrange(1, s@.len() as int)
    } else {
        s@
    };
    proof {
        assert(d =~= s@.subrange(start as int, n as int));
    }
    if start == n {
        return None;
    }
    let mut acc: u64 = 0;
    let mut over = false;
    let mut i: usize = start;
    proof {
        assert(d.take(0) =~= Seq::<char>::empty());
    }
    while i < n
        invariant
            a@ == s@,
            n == a.len(),
            start <= i <= n,
            d == s@.subrange(start as int, n as int),
            d == (if s@.len() > 0 && s@[0] == '+' {
                s@.subrange(1, s@.len() as int)
            } else {
                s@
            }),
            forall|j: int| 0 <= j < i - start ==> digit(#[trigger] d[j]),
            !over ==> acc == digits_value(d.take(i - start)),
            !over ==> acc <= max,
            over ==> digits_value(d.take(i - start)) > max,
        decreases n - i,
    {
        let c = a[i];
        proof {
            assert(d[i - start] == c);
            assert(d.take(i - start + 1).drop_last() =~= d.take(i - start));
            assert(d.take(i - start + 1).last() == c);
        }
        let v: u64 = match digit_of(c) {
            Some(v) => v,
            None => {
                proof {
                    assert(!digit(d[i - start]));
                }
                return None;
            },
        };
        if !over {
            if acc > max / 10 {
                over = true;
            } else if v > max || acc * 10 > max - v {
                over = true;
            } else {
                acc = acc * 10 + v;
            }
        }
        i += 1;
    }
    proof {
        assert(d.take(n - start) =~= d);
        assert(all_digits(d));
    }
    if over {
        None
    } else {
        Some(acc)
    }
}

/// Index of the first `c` in `s`, or its length where there is none.
pub open spec fn find(s: Seq<char>, c: char) -> int
    decreases s.len(),
{
    if s.len() == 0 || s[0] == c {
        0
    } else {
        1 + find(s.subrange(1, s.len() as int), c)
    }
}

/// The parts of `s` before and after its first `c`.
pub open spec fn cut(s: Seq<char>, c: char) -> Option<(Seq<char>, Seq<char>)> {
    let i = find(s, c);
    if i < s.len() {
        Some((s.subrange(0, i), s.subrange(i + 1, s.len() as int)))
    } else {
        None
    }
}

/// The parts of `s` before and after its first `c`.
pub fn split_once(s: &str, c: char) -> (r: Option<(String, String)>)
    ensures
        (match r {
            Some((a, b)) => Some((a@, b@)),
            None => None,
        }) == cut(s@, c),
{
    let a = chars_of(s);
    let n: usize = a.len();
    let mut i: usize = 0;
    proof {
        assert(s@.subrange(0, n as int) =~= s@);
    }
    while i < n && a[i] != c
        invariant
            a@ == s@,
            n == a.len(),
            i <= n,
            find(s@, c) == i + find(s@.subrange(i as int, n as int), c),
        decreases n - i,
    {
        proof {
            let t = s@.subrange(i as int, n as int);
            assert(t.subrange(1, t.len() as int) =~= s@.subrange(i + 1, n as int));
        }
        i += 1;
    }
    proof {
        assert(find(s@, c) == i);
    }
    if i < n {
        Some((text_of(&a, 0, i), text_of(&a, i + 1, n)))
    } else {
        None
    }
}

/// One character raised as ASCII does.
pub fn ascii_upper(c: char) -> (r: char)
    ensures
        r == up(c),
{
    if c as u32 >= 97 && c as u32 <= 122 {
        (c as u8 - 32) as char
    } else {
        c
    }
}

/// `s` with every ASCII letter raised.
pub fn to_ascii_upper(s: &str) -> (r: String)
    ensures
        r@ == ups(s@),
{
    let a = chars_of(s);
    let mut out = String::new();
    let mut i: usize = 0;
    while i < a.len()
        invariant
            a@ == s@,
            i <= a.len(),
            out@ == ups(s@).take(i as int),
        decreases a.len() - i,
    {
        out.push(ascii_upper(a[i]));
        i += 1;
        proof {
            assert(ups(s@).take(i as int) =~= ups(s@).take(i - 1).push(up(s@[i - 1])));
        }
    }
    proof {
        assert(ups(s@).take(s@.len() as int) =~= ups(s@));
    }
    out
}

/// The runs of letters and digits of `s` between its other characters.
pub open spec fn words(s: Seq<char>) -> Seq<Seq<char>>
    decreases s.len(),
{
    if s.len() == 0 {
        seq![Seq::<char>::empty()]
    } else {
        let f = words(s.drop_last());
        if alnum(s.last()) {
            f.update(f.len() - 1, f.last().push(s.last()))
        } else {
            f.push(Seq::<char>::empty())
        }
    }
}

/// The runs of letters and digits of `s`.
pub fn split_words(s: &str) -> (r: Vec<String>)
    ensures
        views(r@) == words(s@),
{
    let a = chars_of(s);
    let mut done: Vec<String> = Vec::new();
    let mut cur = String::new();
    let mut i: usize = 0;
    proof {
        assert(s@.take(0) =~= Seq::<char>::empty());
        assert(views(done@).push(cur@) =~= words(s@.take(0)));
    }
    while i < a.len()
        invariant
            a@ == s@,
            i <= a.len(),
            views(done@).push(cur@) == words(s@.take(i as int)),
        decreases a.len() - i,
    {
        let ghost before = views(done@).push(cur@);
        let c = a[i];
        proof {
            assert(s@.take(i + 1).drop_last() =~= s@.take(i as int));
            assert(s@.take(i + 1).last() == c);
        }
        if is_alnum(c) {
            cur.push(c);
            proof {
                assert(views(done@).push(cur@) =~= before.update(
                    before.len() - 1,
                    before.last().push(c),
                ));
            }
        } else {
            done.push(cur);
            cur = String::new();
            proof {
                assert(views(done@).push(cur@) =~= before.push(Seq::<char>::empty()));
            }
        }
        i += 1;
    }
    let ghost tail = cur@;
    let ghost head = views(done@);
    done.push(cur);
    proof {
        assert(s@.take(s@.len() as int) =~= s@);
        assert(views(done@) =~= head.push(tail));
    }
    done
}

/// Whether one of the texts is `w`.
pub fn list_has(v: &Vec<String>, w: &str) -> (r: bool)
    ensures
        r == views(v@).contains(w@),
{
    let mut i: usize = 0;
    while i < v.len()
        invariant
            i <= v.len(),
            forall|j: int| 0 <= j < i ==> #[trigger] views(v@)[j] != w@,
        decreases v.len() - i,
    {
        if same(v[i].as_str(), w) {
            proof {
                assert(views(v@)[i as int] == w@);
            }
            return true;
        }
        i += 1;
    }
    false
}

/// The texts stand in strictly rising dictionary order.
pub open spec fn rising(v: Seq<Seq<char>>) -> bool {
    forall|i: int, j: int| 0 <= i < j < v.len() ==> below(#[trigger] v[i], #[trigger] v[j])
}

/// Two strictly rising lists of the same texts are the same list.
pub proof fn law_rising_lists_are_unique(a: Seq<Seq<char>>, b: Seq<Seq<char>>)
    requires
        rising(a),
        rising(b),
        forall|k: Seq<char>| #[trigger] a.contains(k) == b.contains(k),
    ensures
        a == b,
    decreases a.len(),
{
    if a.len() == 0 {
        if b.len() > 0 {
            assert(b.contains(b[0]));
            assert(a.contains(b[0]));
        }
        assert(a =~= b);
    } else {
        let x = a.last();
        assert(a.contains(x));
        assert(b.contains(x));
        let j = choose|j: int| 0 <= j < b.len() && b[j] == x;
        let y = b.last();
        assert(b.contains(y));
        assert(a.contains(y));
        let i = choose|i: int| 0 <= i < a.len() && a[i] == y;
        lemma_below_irreflexive(x);
        lemma_below_irreflexive(y);
        if x != y {
            assert(below(a[i], a[a.len() - 1]));
            assert(below(b[j], b[b.len() - 1]));
            lemma_below_transitive(x, y, x);
        }
        let a1 = a.drop_last();
        let b1 = b.drop_last();
        assert forall|k: Seq<char>| #[trigger] a1.contains(k) == b1.contains(k) by {
            if a1.contains(k) {
                let p = choose|p: int| 0 <= p < a1.len() && a1[p] == k;
                assert(a[p] == k);
                assert(below(a[p], a[a.len() - 1]));
                assert(a.contains(k));
                let q = choose|q: int| 0 <= q < b.len() && b[q] == k;
                assert(b1[q] == k);
            }
            if b1.contains(k) {
                let p = choose|p: int| 0 <= p < b1.len() && b1[p] == k;
                assert(b[p] == k);
                assert(below(b[p], b[b.len() - 1]));
                assert(b.contains(k));
                assert(a.contains(k));
                let q = choose|q: int| 0 <= q < a.len() && a[q] == k;
                assert(a1[q] == k);
            }
        }
        law_rising_lists_are_unique(a1, b1);
        assert(a =~= a1.push(x));
        assert(b =~= b1.push(y));
    }
}

/// A number written in decimal is digits only, and reads back as itself.
pub proof fn law_numbers_read_back(n: int)
    ensures
        n >= 0 ==> dec(n).len() > 0 && all_digits(dec(n)) && digits_value(dec(n)) == n,
        i64::MIN <= n <= i64::MAX ==> int_value(int_dec(n)) == Some(n),
    decreases
            if n >= 0 {
                2 * n
            } else {
                1 - 2 * n
            },
{
    if n >= 10 {
        law_numbers_read_back(n / 10);
        assert(dec(n).drop_last() =~= dec(n / 10));
        assert(dec(n).last() as int == 48 + n % 10);
        assert forall|i: int| 0 <= i < dec(n).len() implies digit(#[trigger] dec(n)[i]) by {
            if i < dec(n / 10).len() {
                assert(dec(n)[i] == dec(n / 10)[i]);
            }
        }
    } else if n >= 0 {
        assert(dec(n).drop_last() =~= Seq::<char>::empty());
        assert(dec(n).last() as int == 48 + n);
        assert(digits_value(dec(n).drop_last()) == 0);
    } else {
        law_numbers_read_back(-n);
        assert(int_dec(n).subrange(1, int_dec(n).len() as int) =~= dec(-n));
    }
    if n >= 0 {
        assert(digit(dec(n)[0]));
        assert(unsigned_part(dec(n)) == dec(n));
    }
}

/// Fields are what stands between the separators: text without one is one field, and
/// what follows the last one is the last field.
pub proof fn law_fields_stand_between(s: Seq<char>, t: Seq<char>, sep: char)
    requires
        !t.contains(sep),
    ensures
        fields(t, sep) == seq![t],
        fields(s.push(sep) + t, sep) == fields(s, sep).push(t),
    decreases t.len(),
{
    let u = s.push(sep) + t;
    lemma_fields_nonempty(s, sep);
    if t.len() == 0 {
        assert(u =~= s.push(sep));
        assert(u.drop_last() =~= s);
        assert(t =~= Seq::<char>::empty());
    } else {
        assert(t[t.len() - 1] != sep);
        assert forall|i: int| 0 <= i < t.drop_last().len() implies t.drop_last()[i] != sep by {
            assert(t[i] != sep);
        }
        law_fields_stand_between(s, t.drop_last(), sep);
        assert(u.drop_last() =~= s.push(sep) + t.drop_last());
        assert(t.drop_last().push(t.last()) =~= t);
        let f = fields(t.drop_last(), sep);
        assert(f.update(f.len() - 1, f.last().push(t.last())) =~= seq![t]);
        let g = fields(u.drop_last(), sep);
        assert(g.update(g.len() - 1, g.last().push(u.last())) =~= fields(s, sep).push(t));
    }
}

/// Lowering and raising change the twenty-six letters alone, by the distance between the
/// two alphabets, and forget nothing but the case.
pub proof fn law_letters_change_case(c: char)
    ensures
        'A' <= c && c <= 'Z' ==> down(c) as int == c as int + 32 && up(c) == c,
        'a' <= c && c <= 'z' ==> up(c) as int == c as int - 32 && down(c) == c,
        !('A' <= c && c <= 'Z') ==> down(c) == c,
        !('a' <= c && c <= 'z') ==> up(c) == c,
        down(up(c)) == down(c),
        up(down(c)) == up(c),
{
}

/// Texts that differ in case alone lower to the same text, of the same length.
pub proof fn law_lowering_forgets_case(s: Seq<char>)
    ensures
        downs(s).len() == s.len(),
        ups(s).len() == s.len(),
        downs(ups(s)) == downs(s),
        downs(downs(s)) == downs(s),
        ups(downs(s)) == ups(s),
{
    assert forall|i: int| 0 <= i < s.len() implies downs(ups(s))[i] == downs(s)[i] by {
        law_letters_change_case(s[i]);
    }
    assert forall|i: int| 0 <= i < s.len() implies downs(downs(s))[i] == downs(s)[i] by {
        law_letters_change_case(s[i]);
    }
    assert forall|i: int| 0 <= i < s.len() implies ups(downs(s))[i] == ups(s)[i] by {
        law_letters_change_case(s[i]);
    }
    assert(downs(ups(s)) =~= downs(s));
    assert(downs(downs(s)) =~= downs(s));
    assert(ups(downs(s)) =~= ups(s));
}

/// A text begins, ends and holds what it is put together from, and what follows its
/// beginning is the rest.
pub proof fn law_parts_are_found(a: Seq<char>, p: Seq<char>, b: Seq<char>)
    ensures
        begins(p + b, p),
        after(p + b, p) == Some(b),
        ends(a + p, p),
        has(a + p + b, p),
{
    assert((p + b).subrange(0, p.len() as int) =~= p);
    assert((p + b).subrange(p.len() as int, (p + b).len() as int) =~= b);
    let s = a + p;
    assert(s.subrange(s.len() - p.len(), s.len() as int) =~= p);
    let t = a + p + b;
    assert(t.subrange(a.len() as int, (a.len() + p.len()) as int) =~= p);
    assert(at(t, p, a.len() as int));
}

/// What is found is there: character by character.
pub proof fn law_found_is_there(s: Seq<char>, p: Seq<char>, i: int)
    ensures
        at(s, p, i) <==> 0 <= i <= s.len() - p.len() && forall|k: int|
            0 <= k < p.len() ==> s[i + k] == #[trigger] p[k],
        after(s, p) is Some <==> begins(s, p),
        begins(s, p) ==> s == p + after(s, p)->0,
{
    if at(s, p, i) {
        assert forall|k: int| 0 <= k < p.len() implies s[i + k] == #[trigger] p[k] by {
            assert(s.subrange(i, i + p.len())[k] == s[i + k]);
        }
    }
    if 0 <= i <= s.len() - p.len() && forall|k: int|
        0 <= k < p.len() ==> s[i + k] == #[trigger] p[k] {
        assert(s.subrange(i, i + p.len()) =~= p);
    }
    if begins(s, p) {
        let t = after(s, p)->0;
        assert forall|k: int| 0 <= k < p.len() implies s[k] == #[trigger] p[k] by {
            assert(s.subrange(0, p.len() as int)[k] == s[k]);
        }
        assert(s =~= p + t);
    }
}

proof fn lemma_trim_head(s: Seq<char>)
    ensures
        trim_head(s).len() <= s.len(),
        trim_head(s) == s.skip(s.len() - trim_head(s).len()),
        trim_head(s).len() > 0 ==> !white(trim_head(s)[0]),
        forall|i: int| 0 <= i < s.len() - trim_head(s).len() ==> white(#[trigger] s[i]),
    decreases s.len(),
{
    if s.len() > 0 && white(s[0]) {
        let t = s.subrange(1, s.len() as int);
        lemma_trim_head(t);
        assert(trim_head(s) =~= s.skip(s.len() - trim_head(s).len()));
        assert forall|i: int| 0 <= i < s.len() - trim_head(s).len() implies white(#[trigger] s[i]) by {
            if i > 0 {
                assert(t[i - 1] == s[i]);
            }
        }
    } else {
        assert(s.skip(0) =~= s);
    }
}

proof fn lemma_trim_tail(s: Seq<char>)
    ensures
        trim_tail(s).len() <= s.len(),
        trim_tail(s) == s.take(trim_tail(s).len() as int),
        trim_tail(s).len() > 0 ==> !white(trim_tail(s).last()),
        forall|i: int| trim_tail(s).len() <= i < s.len() ==> white(#[trigger] s[i]),
    decreases s.len(),
{
    if s.len() > 0 && white(s.last()) {
        lemma_trim_tail(s.drop_last());
        assert(trim_tail(s) =~= s.take(trim_tail(s).len() as int));
        assert forall|i: int| trim_tail(s).len() <= i < s.len() implies white(#[trigger] s[i]) by {
            if i < s.len() - 1 {
                assert(s.drop_last()[i] == s[i]);
            }
        }
    } else {
        assert(s.take(s.len() as int) =~= s);
    }
}

/// Trimming takes off the blanks at both ends and no more: what is left is a stretch of
/// the text that neither begins nor ends with one, and everything off it was blank.
pub proof fn law_trimming_takes_off_blanks(s: Seq<char>)
    ensures
        ({
            let t = trimmed(s);
            &&& t.len() > 0 ==> !white(t[0]) && !white(t[t.len() - 1])
            &&& exists|a: int, b: int|
                0 <= a <= b <= s.len() && t == #[trigger] s.subrange(a, b) && (forall|i: int|
                    0 <= i < a ==> white(#[trigger] s[i])) && (forall|i: int|
                    b <= i < s.len() ==> white(#[trigger] s[i]))
        }),
{
    lemma_trim_head(s);
    let h = trim_head(s);
    lemma_trim_tail(h);
    let t = trimmed(s);
    let a = s.len() - h.len();
    let b = a + t.len();
    assert(t =~= s.subrange(a, b));
    assert forall|i: int| b <= i < s.len() implies white(#[trigger] s[i]) by {
        assert(h[i - a] == s[i]);
    }
    if t.len() > 0 {
        assert(t[0] == h[0]);
    }
}

/// Dictionary order: the first place where two texts differ decides by the character code,
/// and a text comes before every longer one that begins with it.
pub proof fn law_dictionary_order(p: Seq<char>, a: Seq<char>, b: Seq<char>)
    requires
        a.len() > 0 && b.len() > 0 ==> a[0] != b[0],
    ensures
        below(p + a, p + b) <==> b.len() > 0 && (a.len() == 0 || (a[0] as int) < (b[0] as int)),
    decreases p.len(),
{
    if p.len() == 0 {
        assert(p + a =~= a);
        assert(p + b =~= b);
    } else {
        let q = p.subrange(1, p.len() as int);
        law_dictionary_order(q, a, b);
        assert((p + a).subrange(1, (p + a).len() as int) =~= q + a);
        assert((p + b).subrange(1, (p + b).len() as int) =~= q + b);
    }
}

/// Leaving a character out, or everything but letters and digits, keeps the rest in order.
pub proof fn law_left_out_characters(s: Seq<char>, x: char, c: char)
    ensures
        without(s.push(x), c) == without(s, c) + if x == c {
            Seq::empty()
        } else {
            seq![x]
        },
        alnums(s.push(x)) == alnums(s) + if '0' <= x && x <= '9' || 'A' <= x && x <= 'Z' || 'a' <= x
            && x <= 'z' {
            seq![x]
        } else {
            Seq::empty()
        },
        without(Seq::empty(), c).len() == 0,
        alnums(Seq::empty()).len() == 0,
{
    assert(s.push(x).drop_last() =~= s);
    assert(without(s, c) + seq![x] =~= without(s, c).push(x));
    assert(without(s, c) + Seq::<char>::empty() =~= without(s, c));
    assert(alnums(s) + seq![x] =~= alnums(s).push(x));
    assert(alnums(s) + Seq::<char>::empty() =~= alnums(s));
}

/// The head of a text is its first characters, all of them where it is no longer.
pub proof fn law_head_is_the_front(s: Seq<char>, n: int)
    requires
        n >= 0,
    ensures
        s.len() <= n ==> head(s, n) == s,
        s.len() > n ==> head(s, n).len() == n && begins(s, head(s, n)),
{
    if s.len() > n {
        assert(s.subrange(0, n) =~= s.take(n));
    }
}

/// A text is cut at the first separator: what stands before it holds none, and a text
/// without one is not cut.
pub proof fn law_cut_at_the_first(h: Seq<char>, t: Seq<char>, c: char)
    requires
        !h.contains(c),
    ensures
        cut(h.push(c) + t, c) == Some((h, t)),
        cut(h, c) is None,
        find(h.push(c) + t, c) == h.len(),
        find(h, c) == h.len(),
    decreases h.len(),
{
    let s = h.push(c) + t;
    if h.len() == 0 {
        assert(s[0] == c);
        assert(s.subrange(0, 0) =~= h);
        assert(s.subrange(1, s.len() as int) =~= t);
    } else {
        let g = h.subrange(1, h.len() as int);
        assert(h[0] != c);
        assert forall|i: int| 0 <= i < g.len() implies g[i] != c by {
            assert(h[i + 1] != c);
        }
        law_cut_at_the_first(g, t, c);
        assert(s[0] == h[0]);
        assert(s.subrange(1, s.len() as int) =~= g.push(c) + t);
        assert(s.subrange(0, h.len() as int) =~= h);
        assert(s.subrange(h.len() as int + 1, s.len() as int) =~= t);
    }
}

/// Only digits behind an optional sign read as a number, and a plain number reads back
/// within its bound alone.
pub proof fn law_what_reads_as_a_number(s: Seq<char>, n: int, max: int)
    requires
        n >= 0,
    ensures
        int_value(s) is Some ==> s.len() > 0 && forall|i: int|
            0 <= i < s.len() ==> ('0' <= #[trigger] s[i] && s[i] <= '9') || (i == 0 && (s[i] == '-'
                || s[i] == '+')),
        int_value(s) is Some ==> i64::MIN <= int_value(s)->0 <= i64::MAX,
        n <= max ==> nat_value(dec(n), max) == Some(n),
        n > max ==> nat_value(dec(n), max) is None,
{
    law_numbers_read_back(n);
    if int_value(s) is Some {
        let d = unsigned_part(s);
        assert forall|i: int| 0 <= i < s.len() implies ('0' <= #[trigger] s[i] && s[i] <= '9') || (i
            == 0 && (s[i] == '-' || s[i] == '+')) by {
            if d.len() == s.len() {
                assert(digit(d[i]));
            } else if i > 0 {
                assert(digit(d[i - 1]));
            }
        }
    }
    assert(digit(dec(n)[0]));
}

/// Words end at every character that is no letter or digit.
pub proof fn law_words_stand_between(s: Seq<char>, x: char)
    ensures
        words(s).len() >= 1,
        !('0' <= x && x <= '9' || 'A' <= x && x <= 'Z' || 'a' <= x && x <= 'z') ==> words(s.push(x))
            == words(s).push(Seq::<char>::empty()),
        '0' <= x && x <= '9' || 'A' <= x && x <= 'Z' || 'a' <= x && x <= 'z' ==> words(s.push(x))
            == words(s).drop_last().push(words(s).last().push(x)),
        words(Seq::empty()) == seq![Seq::<char>::empty()],
    decreases s.len(),
{
    assert(s.push(x).drop_last() =~= s);
    if s.len() > 0 {
        law_words_stand_between(s.drop_last(), s.last());
        assert(s.drop_last().push(s.last()) =~= s);
    }
    let f = words(s);
    assert(f.update(f.len() - 1, f.last().push(x)) =~= f.drop_last().push(f.last().push(x)));
}

} // verus!
