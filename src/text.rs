//! Character-level helpers over `Seq<char>` and their executable counterparts.
use vstd::prelude::*;

verus! {

/// Relies on `String::push`: appends one character to the end of the string.
#[verifier::external_body]
pub(crate) fn push_char(s: &mut String, c: char)
    ensures
        final(s)@ == old(s)@.push(c),
{
    s.push(c);
}

/// The characters of `s`, in order.
pub fn chars_of(s: &str) -> (r: Vec<char>)
    ensures
        r@ == s@,
{
    let mut r: Vec<char> = Vec::new();
    for c in it: s.chars()
        invariant
            r@ == it.seq().take(it.index() as int),
    {
        r.push(c);
    }
    r
}

/// The characters of `v` from index `k` on.
pub fn chars_from(v: &Vec<char>, k: usize) -> (r: Vec<char>)
    requires
        k <= v.len(),
    ensures
        r@ == v@.skip(k as int),
{
    let mut r: Vec<char> = Vec::new();
    let mut i: usize = k;
    while i < v.len()
        invariant
            k <= i <= v.len(),
            r@ == v@.subrange(k as int, i as int),
        decreases v.len() - i,
    {
        r.push(v[i]);
        assert(v@.subrange(k as int, i + 1) == v@.subrange(k as int, i as int).push(v@[i as int]));
        i = i + 1;
    }
    r
}

/// A `String` holding exactly the characters of `v`.
pub fn string_of(v: &Vec<char>) -> (r: String)
    ensures
        r@ == v@,
{
    let mut r = String::new();
    let mut i: usize = 0;
    while i < v.len()
        invariant
            i <= v.len(),
            r@ == v@.take(i as int),
        decreases v.len() - i,
    {
        push_char(&mut r, v[i]);
        assert(v@.take(i as int).push(v@[i as int]) == v@.take(i + 1));
        i = i + 1;
    }
    assert(v@.take(v.len() as int) == v@);
    r
}


/// A character that separates columns of a listing row.
pub open spec fn is_blank(c: char) -> bool {
    c == ' ' || c == '\t' || c == '\r'
}

/// `s` begins with `p`.
pub open spec fn starts_with(s: Seq<char>, p: Seq<char>) -> bool {
    p.len() <= s.len() && s.take(p.len() as int) == p
}

/// `s` cut at every newline: the pieces between the newlines, in order.
/// Text without a newline is one piece; a trailing newline ends in an
/// empty piece.
pub open spec fn lines(s: Seq<char>) -> Seq<Seq<char>>
    decreases s.len(),
{
    if s.len() == 0 {
        seq![Seq::empty()]
    } else {
        let prev = lines(s.drop_last());
        if s.last() == '\n' {
            prev.push(Seq::empty())
        } else {
            prev.update(prev.len() - 1, prev.last().push(s.last()))
        }
    }
}

/// The maximal runs of non-blank characters of `s`, in order.
pub open spec fn tokens(s: Seq<char>) -> Seq<Seq<char>>
    decreases s.len(),
{
    if s.len() == 0 {
        Seq::empty()
    } else {
        let prev = tokens(s.drop_last());
        let c = s.last();
        if is_blank(c) {
            prev
        } else if s.len() == 1 || is_blank(s[s.len() - 2]) {
            prev.push(seq![c])
        } else {
            prev.update(prev.len() - 1, prev.last().push(c))
        }
    }
}

/// A listing row: five columns separated by single blanks.
pub open spec fn row_of(
    name: Seq<char>,
    used: Seq<char>,
    avail: Seq<char>,
    refer: Seq<char>,
    mountpoint: Seq<char>,
) -> Seq<char> {
    name + seq![' '] + used + seq![' '] + avail + seq![' '] + refer + seq![' '] + mountpoint
}

/// A vector of characters looks the same through `deep_view` as through `view`.
pub proof fn lemma_chars_deep_view(v: Vec<char>)
    ensures
        v.deep_view() == v@,
{
    assert(v.deep_view() =~= v@);
}

/// Every text has at least one line, the empty text included.
pub proof fn lemma_lines_nonempty(s: Seq<char>)
    ensures
        lines(s).len() >= 1,
    decreases s.len(),
{
    if s.len() > 0 {
        lemma_lines_nonempty(s.drop_last());
    }
}

/// A nonempty run of characters that are neither blank nor a newline: one
/// column of a listing row.
pub open spec fn is_word(w: Seq<char>) -> bool {
    w.len() > 0 && forall|i: int| 0 <= i < w.len() ==> !is_blank(#[trigger] w[i]) && w[i] != '\n'
}

/// Text without a newline.
pub open spec fn one_line(s: Seq<char>) -> bool {
    forall|i: int| 0 <= i < s.len() ==> #[trigger] s[i] != '\n'
}

/// A word after a blank, or at the start, is one more token.
pub proof fn lemma_tokens_word(x: Seq<char>, w: Seq<char>)
    requires
        x.len() == 0 || is_blank(x.last()),
        is_word(w),
    ensures
        tokens(x + w) == tokens(x).push(w),
    decreases w.len(),
{
    let s = x + w;
    assert(s.last() == w.last());
    if w.len() == 1 {
        assert(s.drop_last() =~= x);
        assert(seq![w.last()] =~= w);
    } else {
        let v = w.drop_last();
        assert(is_word(v)) by {
            assert forall|i: int| 0 <= i < v.len() implies !is_blank(#[trigger] v[i]) && v[i]
                != '\n' by {
                assert(v[i] == w[i]);
            }
        }
        lemma_tokens_word(x, v);
        assert(s.drop_last() =~= x + v);
        assert(s[s.len() - 2] == w[w.len() - 2]);
        assert(tokens(x).push(v).last().push(w.last()) =~= w);
        assert(tokens(x).push(v).update(tokens(x).len() as int, w) =~= tokens(x).push(w));
    }
}

/// A blank after the text adds no token.
pub proof fn lemma_tokens_blank(x: Seq<char>)
    ensures
        tokens(x.push(' ')) == tokens(x),
{
    assert(x.push(' ').drop_last() =~= x);
}

/// The tokens of five words separated by single blanks are the five words.
pub proof fn lemma_tokens_of_row(a: Seq<char>, b: Seq<char>, c: Seq<char>, d: Seq<char>, e: Seq<char>)
    requires
        is_word(a),
        is_word(b),
        is_word(c),
        is_word(d),
        is_word(e),
    ensures
        tokens(row_of(a, b, c, d, e)) == seq![a, b, c, d, e],
{
    let sp = seq![' '];
    let empty = Seq::<char>::empty();
    lemma_tokens_word(empty, a);
    assert(empty + a =~= a);
    assert(tokens(empty) =~= Seq::<Seq<char>>::empty());
    let s1 = a + sp;
    assert(s1 =~= a.push(' '));
    lemma_tokens_blank(a);
    lemma_tokens_word(s1, b);
    let s2 = s1 + b + sp;
    assert(s2 =~= (s1 + b).push(' '));
    lemma_tokens_blank(s1 + b);
    lemma_tokens_word(s2, c);
    let s3 = s2 + c + sp;
    assert(s3 =~= (s2 + c).push(' '));
    lemma_tokens_blank(s2 + c);
    lemma_tokens_word(s3, d);
    let s4 = s3 + d + sp;
    assert(s4 =~= (s3 + d).push(' '));
    lemma_tokens_blank(s3 + d);
    lemma_tokens_word(s4, e);
    assert(seq![a].push(b).push(c).push(d).push(e) =~= seq![a, b, c, d, e]);
}

/// Text without a newline only adds to the last line.
pub proof fn lemma_lines_append(x: Seq<char>, w: Seq<char>)
    requires
        one_line(w),
    ensures
        lines(x + w) == lines(x).update(lines(x).len() - 1, lines(x).last() + w),
    decreases w.len(),
{
    lemma_lines_nonempty(x);
    if w.len() == 0 {
        assert(x + w =~= x);
        assert(lines(x).last() + w =~= lines(x).last());
        assert(lines(x).update(lines(x).len() - 1, lines(x).last()) =~= lines(x));
    } else {
        let v = w.drop_last();
        assert(one_line(v)) by {
            assert forall|i: int| 0 <= i < v.len() implies #[trigger] v[i] != '\n' by {
                assert(v[i] == w[i]);
            }
        }
        lemma_lines_append(x, v);
        assert((x + w).drop_last() =~= x + v);
        assert((x + w).last() == w.last());
        let l = lines(x);
        assert((l.last() + v).push(w.last()) =~= l.last() + w);
        assert(l.update(l.len() - 1, l.last() + v).update(l.len() - 1, l.last() + w) =~= l.update(
            l.len() - 1,
            l.last() + w,
        ));
    }
}

/// A header line, a newline and one more line are two lines.
pub proof fn lemma_lines_of_two(header: Seq<char>, row: Seq<char>)
    requires
        one_line(header),
        one_line(row),
    ensures
        lines(header + seq!['\n'] + row) == seq![header, row],
{
    let empty = Seq::<char>::empty();
    lemma_lines_append(empty, header);
    assert(empty + header =~= header);
    assert(lines(empty) =~= seq![empty]);
    assert(seq![empty].update(0, empty + header) =~= seq![header]);
    let h = header + seq!['\n'];
    assert(h =~= header.push('\n'));
    assert(h.drop_last() =~= header);
    assert(lines(h) =~= seq![header, empty]);
    lemma_lines_append(h, row);
    assert(seq![header, empty].update(1, empty + row) =~= seq![header, row]);
}

/// Whether `s` begins with `p`.
pub fn has_prefix(s: &Vec<char>, p: &Vec<char>) -> (r: bool)
    ensures
        r == starts_with(s@, p@),
{
    if p.len() > s.len() {
        return false;
    }
    let mut i: usize = 0;
    while i < p.len()
        invariant
            p.len() <= s.len(),
            i <= p.len(),
            s@.take(i as int) == p@.take(i as int),
        decreases p.len() - i,
    {
        if s[i] != p[i] {
            assert(s@.take(p.len() as int)[i as int] != p@[i as int]);
            return false;
        }
        assert(s@.take(i + 1) == s@.take(i as int).push(s@[i as int]));
        assert(p@.take(i + 1) == p@.take(i as int).push(p@[i as int]));
        i = i + 1;
    }
    assert(p@.take(p.len() as int) == p@);
    true
}

/// `s` cut at every newline, as `lines` describes.
pub fn split_lines(s: &Vec<char>) -> (r: Vec<Vec<char>>)
    ensures
        r.deep_view() == lines(s@),
{
    let mut done: Vec<Vec<char>> = Vec::new();
    let mut cur: Vec<char> = Vec::new();
    let mut i: usize = 0;
    while i < s.len()
        invariant
            i <= s.len(),
            lines(s@.take(i as int)) == done.deep_view().push(cur@),
        decreases s.len() - i,
    {
        let c = s[i];
        let ghost prev = lines(s@.take(i as int));
        assert(s@.take(i + 1).drop_last() == s@.take(i as int));
        assert(s@.take(i + 1).last() == c);
        if c == '\n' {
            let ghost dv = done.deep_view();
            let line = cur;
            proof {
                lemma_chars_deep_view(line);
            }
            done.push(line);
            cur = Vec::new();
            assert(done.deep_view() =~= dv.push(line@));
            assert(done.deep_view().push(cur@) =~= prev.push(Seq::empty()));
        } else {
            cur.push(c);
            assert(done.deep_view().push(cur@) == prev.update(prev.len() - 1, prev.last().push(c)));
        }
        i = i + 1;
    }
    assert(s@.take(s.len() as int) == s@);
    let ghost dv = done.deep_view();
    let ghost last = cur@;
    proof {
        lemma_chars_deep_view(cur);
    }
    done.push(cur);
    assert(done.deep_view() =~= dv.push(last));
    done
}

/// The maximal runs of non-blank characters of `s`, as `tokens` describes.
pub fn split_tokens(s: &Vec<char>) -> (r: Vec<Vec<char>>)
    ensures
        r.deep_view() == tokens(s@),
{
    let mut done: Vec<Vec<char>> = Vec::new();
    let mut cur: Vec<char> = Vec::new();
    let mut i: usize = 0;
    while i < s.len()
        invariant
            i <= s.len(),
            cur.len() > 0 <==> (i > 0 && !is_blank(s@[i - 1])),
            tokens(s@.take(i as int)) == if cur.len() > 0 {
                done.deep_view().push(cur@)
            } else {
                done.deep_view()
            },
        decreases s.len() - i,
    {
        let c = s[i];
        assert(s@.take(i + 1).drop_last() == s@.take(i as int));
        assert(s@.take(i + 1).last() == c);
        if i > 0 {
            assert(s@.take(i + 1)[i - 1] == s@[i - 1]);
        }
        let ghost prev = tokens(s@.take(i as int));
        let ghost dv = done.deep_view();
        if c == ' ' || c == '\t' || c == '\r' {
            if cur.len() > 0 {
                let word = cur;
                proof {
                    lemma_chars_deep_view(word);
                }
                done.push(word);
                cur = Vec::new();
                assert(done.deep_view() =~= dv.push(word@));
            }
        } else {
            let ghost was_empty = cur.len() == 0;
            cur.push(c);
            if i > 0 {
                assert(s@.take(i + 1)[i - 1] == s@[i - 1]);
            }
            assert(was_empty ==> cur@ =~= seq![c]);
            assert(was_empty ==> dv.push(cur@) =~= prev.push(seq![c]));
            assert(!was_empty ==> dv.push(cur@) =~= prev.update(
                prev.len() - 1,
                prev.last().push(c),
            ));
        }
        i = i + 1;
    }
    assert(s@.take(s.len() as int) == s@);
    let ghost dv = done.deep_view();
    if cur.len() > 0 {
        let ghost last = cur@;
        proof {
            lemma_chars_deep_view(cur);
        }
        done.push(cur);
        assert(done.deep_view() =~= dv.push(last));
    }
    done
}


/// A decimal digit.
pub open spec fn is_digit(c: char) -> bool {
    '0' <= c && c <= '9'
}

/// The value of the decimal digit `c`.
pub open spec fn digit_value(c: char) -> nat {
    (c as u32 - '0' as u32) as nat
}

/// The character of the decimal digit `d`.
pub open spec fn digit_char(d: nat) -> char {
    (d + '0' as u32) as char
}

pub open spec fn all_digits(s: Seq<char>) -> bool {
    forall|i: int| 0 <= i < s.len() ==> is_digit(#[trigger] s[i])
}

/// The number that the digits `s` spell, most significant first.
pub open spec fn digits_value(s: Seq<char>) -> nat
    decreases s.len(),
{
    if s.len() == 0 {
        0
    } else {
        digits_value(s.drop_last()) * 10 + digit_value(s.last())
    }
}

/// The decimal numeral of `n`, without leading zeros.
pub open spec fn decimal(n: nat) -> Seq<char>
    decreases n,
{
    if n < 10 {
        seq![digit_char(n)]
    } else {
        decimal(n / 10).push(digit_char(n % 10))
    }
}

/// What a decimal column reads as, as `u64::from_str` reads it: an optional
/// `+`, then one or more decimal digits whose value fits in a `u64`.
pub open spec fn u64_of(s: Seq<char>) -> Option<u64> {
    let d = if s.len() > 0 && s[0] == '+' {
        s.drop_first()
    } else {
        s
    };
    if d.len() > 0 && all_digits(d) && digits_value(d) <= u64::MAX {
        Some(digits_value(d) as u64)
    } else {
        None
    }
}

/// Appending digits never lowers the value that they spell.
pub proof fn lemma_digits_value_prefix(s: Seq<char>, k: int)
    requires
        0 <= k <= s.len(),
    ensures
        digits_value(s.take(k)) <= digits_value(s),
    decreases s.len(),
{
    if k < s.len() {
        assert(s.drop_last().take(k) == s.take(k));
        lemma_digits_value_prefix(s.drop_last(), k);
    } else {
        assert(s.take(k) == s);
    }
}

/// Reads a decimal column as `u64_of` describes.
pub fn parse_u64(t: &Vec<char>) -> (r: Option<u64>)
    ensures
        r == u64_of(t@),
{
    let start: usize = if t.len() > 0 && t[0] == '+' {
        1
    } else {
        0
    };
    let ghost d = if t@.len() > 0 && t@[0] == '+' {
        t@.drop_first()
    } else {
        t@
    };
    assert(d == t@.skip(start as int));
    if start >= t.len() {
        return None;
    }
    let mut v: u64 = 0;
    let mut i: usize = start;
    while i < t.len()
        invariant
            start <= i <= t.len(),
            d == t@.skip(start as int),
            d == if t@.len() > 0 && t@[0] == '+' {
                t@.drop_first()
            } else {
                t@
            },
            all_digits(t@.subrange(start as int, i as int)),
            v == digits_value(t@.subrange(start as int, i as int)),
        decreases t.len() - i,
    {
        let c = t[i];
        let ghost prefix = t@.subrange(start as int, i + 1);
        assert(prefix.drop_last() == t@.subrange(start as int, i as int));
        assert(prefix == d.take(i + 1 - start));
        assert(d[i - start] == c);
        if c < '0' || c > '9' {
            assert(!is_digit(d[i - start]));
            assert(!all_digits(d));
            return None;
        }
        let digit: u64 = (c as u32 - '0' as u32) as u64;
        assert(prefix.last() == c);
        assert(digits_value(prefix) == v * 10 + digit);
        if v > (u64::MAX - digit) / 10 {
            assert(v * 10 + digit > u64::MAX) by (nonlinear_arith)
                requires
                    v > (u64::MAX - digit) / 10,
                    digit < 10,
            ;
            proof {
                if all_digits(d) {
                    lemma_digits_value_prefix(d, i + 1 - start);
                }
            }
            return None;
        }
        assert(v * 10 + digit <= u64::MAX) by (nonlinear_arith)
            requires
                v <= (u64::MAX - digit) / 10,
                digit < 10,
        ;
        v = v * 10 + digit;
        i = i + 1;
    }
    assert(t@.subrange(start as int, t.len() as int) == d);
    Some(v)
}

fn digit_of(d: u64) -> (c: char)
    requires
        d < 10,
    ensures
        c == digit_char(d as nat),
{
    ((d as u8) + 48u8) as char
}

/// Appends the decimal numeral of `n` to `out`.
pub fn push_decimal(n: u64, out: &mut Vec<char>)
    ensures
        final(out)@ == old(out)@ + decimal(n as nat),
    decreases n,
{
    if n >= 10 {
        push_decimal(n / 10, out);
    }
    out.push(digit_of(n % 10));
}

} // verus!
