//! Character-level string operations with exact specifications.
use vstd::prelude::*;

verus! {

broadcast use vstd::string::group_string_axioms;

/// Appends one character to a `String` (`String::push`).
/// Claimed: the string afterwards is the old one followed by `c`.
#[verifier::external_body]
pub(crate) fn push_char(s: &mut String, c: char)
    ensures
        final(s)@ == old(s)@.push(c),
{
    s.push(c);
}

/// The characters of `s`, in order.
pub fn chars_of(s: &str) -> (v: Vec<char>)
    ensures
        v@ == s@,
{
    let mut v: Vec<char> = Vec::new();
    for c in it: s.chars()
        invariant
            v@ == it.seq().take(it.index()),
            it.seq() == s@,
    {
        v.push(c);
    }
    v
}


/// A `String` holding exactly the characters of `v`.
pub fn string_from_chars(v: &Vec<char>) -> (s: String)
    ensures
        s@ == v@,
{
    let mut s = String::new();
    let mut i: usize = 0;
    while i < v.len()
        invariant
            i <= v.len(),
            s@ == v@.take(i as int),
        decreases v.len() - i,
    {
        push_char(&mut s, v[i]);
        assert(v@.take(i + 1) == v@.take(i as int).push(v@[i as int]));
        i = i + 1;
    }
    assert(v@.take(v.len() as int) == v@);
    s
}

/// `a` followed by `b`.
pub fn concat_str(a: &str, b: &str) -> (s: String)
    ensures
        s@ == a@ + b@,
{
    let mut v = chars_of(a);
    let w = chars_of(b);
    let mut i: usize = 0;
    while i < w.len()
        invariant
            i <= w.len(),
            w@ == b@,
            v@ == a@ + b@.take(i as int),
        decreases w.len() - i,
    {
        v.push(w[i]);
        assert(b@.take(i + 1) == b@.take(i as int).push(b@[i as int]));
        i = i + 1;
    }
    assert(b@.take(b@.len() as int) == b@);
    string_from_chars(&v)
}

/// `s` begins with `prefix`.
pub open spec fn starts_with(s: Seq<char>, prefix: Seq<char>) -> bool {
    prefix.len() <= s.len() && s.take(prefix.len() as int) == prefix
}

/// Whether `s` holds `pat` at position `at`.
pub open spec fn occurs_at(s: Seq<char>, pat: Seq<char>, at: int) -> bool {
    0 <= at && at + pat.len() <= s.len() && s.subrange(at, at + pat.len()) == pat
}

fn matches_at(s: &Vec<char>, pat: &Vec<char>, at: usize) -> (b: bool)
    requires
        at <= s.len(),
    ensures
        b == occurs_at(s@, pat@, at as int),
{
    if pat.len() > s.len() - at {
        return false;
    }
    let mut j: usize = 0;
    while j < pat.len()
        invariant
            at + pat.len() <= s.len(),
            j <= pat.len(),
            forall|k: int| 0 <= k < j ==> s@[at + k] == pat@[k],
        decreases pat.len() - j,
    {
        if s[at + j] != pat[j] {
            assert(s@.subrange(at as int, at + pat.len())[j as int] != pat@[j as int]);
            return false;
        }
        j = j + 1;
    }
    assert(s@.subrange(at as int, at + pat.len()) =~= pat@);
    true
}

/// `str::starts_with`: whether `s` begins with `prefix`, character for character.
pub fn has_prefix(s: &str, prefix: &str) -> (b: bool)
    ensures
        b == starts_with(s@, prefix@),
{
    let sv = chars_of(s);
    let pv = chars_of(prefix);
    let b = matches_at(&sv, &pv, 0);
    proof {
        if pv@.len() <= sv@.len() {
            assert(sv@.subrange(0, pv@.len() as int) == sv@.take(pv@.len() as int));
        }
    }
    b
}

/// What `str::replace` gives: `s` scanned from the left, each occurrence of a
/// non-empty `pat` that does not overlap an earlier replaced one becomes `to`;
/// an empty `pat` puts `to` before every character and at the end.
pub open spec fn replace_all(s: Seq<char>, pat: Seq<char>, to: Seq<char>) -> Seq<char>
    decreases s.len(),
{
    if pat.len() == 0 {
        if s.len() == 0 {
            to
        } else {
            to + seq![s[0]] + replace_all(s.skip(1), pat, to)
        }
    } else if s.len() == 0 {
        s
    } else if starts_with(s, pat) {
        to + replace_all(s.skip(pat.len() as int), pat, to)
    } else {
        seq![s[0]] + replace_all(s.skip(1), pat, to)
    }
}

/// `str::replace`: every non-overlapping occurrence of `pat` in `s`, from the
/// left, replaced by `to`.
pub fn replace(s: &str, pat: &str, to: &str) -> (r: String)
    ensures
        r@ == replace_all(s@, pat@, to@),
{
    let sv = chars_of(s);
    let pv = chars_of(pat);
    let tv = chars_of(to);
    let mut out: Vec<char> = Vec::new();
    let mut i: usize = 0;
    assert(s@.skip(0) == s@);
    while i < sv.len()
        invariant
            i <= sv.len(),
            sv@ == s@,
            pv@ == pat@,
            tv@ == to@,
            replace_all(s@, pat@, to@) == out@ + replace_all(s@.skip(i as int), pat@, to@),
        decreases sv.len() - i,
    {
        let ghost rest = s@.skip(i as int);
        let ghost before = out@;
        if pv.len() > 0 && matches_at(&sv, &pv, i) {
            assert(rest.take(pat@.len() as int) == s@.subrange(i as int, i + pat@.len()));
            assert(rest.skip(pat@.len() as int) == s@.skip(i + pat@.len()));
            let mut k: usize = 0;
            while k < tv.len()
                invariant
                    k <= tv.len(),
                    tv@ == to@,
                    out@ == before + to@.take(k as int),
                decreases tv.len() - k,
            {
                out.push(tv[k]);
                assert(to@.take(k + 1) == to@.take(k as int).push(to@[k as int]));
                k = k + 1;
            }
            assert(to@.take(to@.len() as int) == to@);
            i = i + pv.len();
        } else {
            if pv.len() > 0 {
                assert(!starts_with(rest, pat@)) by {
                    if starts_with(rest, pat@) {
                        assert(rest.take(pat@.len() as int) == s@.subrange(i as int, i + pat@.len()));
                    }
                }
            } else {
                let mut k: usize = 0;
                while k < tv.len()
                    invariant
                        k <= tv.len(),
                        tv@ == to@,
                        out@ == before + to@.take(k as int),
                    decreases tv.len() - k,
                {
                    out.push(tv[k]);
                    assert(to@.take(k + 1) == to@.take(k as int).push(to@[k as int]));
                    k = k + 1;
                }
                assert(to@.take(to@.len() as int) == to@);
            }
            out.push(sv[i]);
            assert(rest.skip(1) == s@.skip(i + 1));
            assert(seq![rest[0]] == seq![s@[i as int]]);
            i = i + 1;
        }
    }
    assert(s@.skip(i as int) == Seq::<char>::empty());
    if pv.len() == 0 {
        let ghost before = out@;
        let mut k: usize = 0;
        while k < tv.len()
            invariant
                k <= tv.len(),
                tv@ == to@,
                out@ == before + to@.take(k as int),
            decreases tv.len() - k,
        {
            out.push(tv[k]);
            assert(to@.take(k + 1) == to@.take(k as int).push(to@[k as int]));
            k = k + 1;
        }
        assert(to@.take(to@.len() as int) == to@);
    }
    string_from_chars(&out)
}


/// Law: a text in which `pat` (non-empty) never occurs comes out of
/// `replace` unchanged, whatever it is replaced by.
pub proof fn lemma_replace_absent(s: Seq<char>, pat: Seq<char>, to: Seq<char>)
    requires
        pat.len() > 0,
        forall|at: int| !#[trigger] occurs_at(s, pat, at),
    ensures
        replace_all(s, pat, to) == s,
    decreases s.len(),
{
    if s.len() > 0 {
        assert(!starts_with(s, pat)) by {
            assert(!occurs_at(s, pat, 0));
            if pat.len() <= s.len() {
                assert(s.take(pat.len() as int) == s.subrange(0, pat.len() as int));
            }
        }
        let rest = s.skip(1);
        assert forall|at: int| !#[trigger] occurs_at(rest, pat, at) by {
            if occurs_at(rest, pat, at) {
                assert(rest.subrange(at, at + pat.len()) == s.subrange(at + 1, at + 1 + pat.len()));
                assert(occurs_at(s, pat, at + 1));
            }
        }
        lemma_replace_absent(rest, pat, to);
        assert(seq![s[0]] + rest == s);
    }
}

/// Law: replacing a pattern by itself leaves every text unchanged.
pub proof fn lemma_replace_by_itself(s: Seq<char>, pat: Seq<char>)
    ensures
        replace_all(s, pat, pat) == s,
    decreases s.len(),
{
    if s.len() > 0 {
        if pat.len() == 0 {
            lemma_replace_by_itself(s.skip(1), pat);
            assert(pat + seq![s[0]] + s.skip(1) == s);
        } else if starts_with(s, pat) {
            lemma_replace_by_itself(s.skip(pat.len() as int), pat);
            assert(s.take(pat.len() as int) + s.skip(pat.len() as int) == s);
        } else {
            lemma_replace_by_itself(s.skip(1), pat);
            assert(seq![s[0]] + s.skip(1) == s);
        }
    }
}

/// Whether the character `c` appears nowhere in `s`.
pub open spec fn lacks_char(s: Seq<char>, c: char) -> bool {
    forall|i: int| 0 <= i < s.len() ==> s[i] != c
}

/// Law: `s` begins with `p` exactly when `p` is no longer than `s` and each
/// of its characters equals the character of `s` at the same position; a text
/// that merely contains `p` further on does not begin with it.
pub proof fn lemma_starts_with_chars(s: Seq<char>, p: Seq<char>)
    ensures
        starts_with(s, p) <==> (p.len() <= s.len() && forall|i: int| 0 <= i < p.len() ==> s[i] == p[i]),
{
    if p.len() <= s.len() && forall|i: int| 0 <= i < p.len() ==> s[i] == p[i] {
        assert(s.take(p.len() as int) =~= p);
    }
    if starts_with(s, p) {
        assert forall|i: int| 0 <= i < p.len() implies s[i] == p[i] by {
            assert(s.take(p.len() as int)[i] == s[i]);
        }
    }
}

/// A text whose first character is not the first of `pat` keeps that
/// character, and the rest is replaced on its own.
pub(crate) proof fn lemma_replace_free_prefix(pre: Seq<char>, rest: Seq<char>, pat: Seq<char>, to: Seq<char>)
    requires
        pat.len() > 0,
        lacks_char(pre, pat[0]),
    ensures
        replace_all(pre + rest, pat, to) == pre + replace_all(rest, pat, to),
    decreases pre.len(),
{
    if pre.len() > 0 {
        let s = pre + rest;
        assert(s[0] == pre[0]);
        assert(!starts_with(s, pat)) by {
            if starts_with(s, pat) {
                assert(s.take(pat.len() as int)[0] == pat[0]);
            }
        }
        assert(s.skip(1) =~= pre.skip(1) + rest);
        lemma_replace_free_prefix(pre.skip(1), rest, pat, to);
        assert(seq![pre[0]] + pre.skip(1) =~= pre);
        assert(seq![s[0]] + (pre.skip(1) + replace_all(rest, pat, to)) =~= pre + replace_all(rest, pat, to));
    } else {
        assert(pre + rest =~= rest);
        assert(pre + replace_all(rest, pat, to) =~= replace_all(rest, pat, to));
    }
}

/// A text that begins with `pat` has it replaced by `to` there.
pub(crate) proof fn lemma_replace_at_start(pat: Seq<char>, rest: Seq<char>, to: Seq<char>)
    requires
        pat.len() > 0,
    ensures
        replace_all(pat + rest, pat, to) == to + replace_all(rest, pat, to),
{
    let s = pat + rest;
    assert(s.take(pat.len() as int) =~= pat);
    assert(s.skip(pat.len() as int) =~= rest);
}

/// Law: a text without the first character of a non-empty `pat` comes out
/// of `replace` unchanged.
pub proof fn lemma_replace_free_text(s: Seq<char>, pat: Seq<char>, to: Seq<char>)
    requires
        pat.len() > 0,
        lacks_char(s, pat[0]),
    ensures
        replace_all(s, pat, to) == s,
{
    lemma_replace_free_prefix(s, Seq::empty(), pat, to);
    assert(s + Seq::<char>::empty() =~= s);
}

/// Law: when the text around one occurrence of a non-empty `pat` holds no
/// character that could start another, `replace` gives that text with `to`
/// in place of the occurrence, and nothing else changes.
pub proof fn lemma_replace_one_placeholder(pre: Seq<char>, pat: Seq<char>, suf: Seq<char>, to: Seq<char>)
    requires
        pat.len() > 0,
        lacks_char(pre, pat[0]),
        lacks_char(suf, pat[0]),
    ensures
        replace_all(pre + pat + suf, pat, to) == pre + to + suf,
{
    assert(pre + pat + suf =~= pre + (pat + suf));
    lemma_replace_free_prefix(pre, pat + suf, pat, to);
    lemma_replace_at_start(pat, suf, to);
    lemma_replace_free_text(suf, pat, to);
    assert(pre + (to + suf) =~= pre + to + suf);
}

/// The character of a decimal digit.
pub open spec fn digit_char(d: nat) -> char {
    if d == 0 { '0' }
    else if d == 1 { '1' }
    else if d == 2 { '2' }
    else if d == 3 { '3' }
    else if d == 4 { '4' }
    else if d == 5 { '5' }
    else if d == 6 { '6' }
    else if d == 7 { '7' }
    else if d == 8 { '8' }
    else { '9' }
}

/// The decimal numeral of `n`, as `to_string` writes it: no sign, no leading zero.
pub open spec fn decimal(n: nat) -> Seq<char>
    decreases n,
{
    if n < 10 {
        seq![digit_char(n)]
    } else {
        decimal(n / 10) + seq![digit_char(n % 10)]
    }
}

fn digit(d: u8) -> (c: char)
    requires
        d < 10,
    ensures
        c == digit_char(d as nat),
{
    if d == 0 { '0' }
    else if d == 1 { '1' }
    else if d == 2 { '2' }
    else if d == 3 { '3' }
    else if d == 4 { '4' }
    else if d == 5 { '5' }
    else if d == 6 { '6' }
    else if d == 7 { '7' }
    else if d == 8 { '8' }
    else { '9' }
}

/// The number a string of decimal digits stands for.
pub open spec fn digits_value(s: Seq<char>) -> int
    decreases s.len(),
{
    if s.len() == 0 {
        0
    } else {
        digits_value(s.drop_last()) * 10 + (s.last() as int - '0' as int)
    }
}

proof fn lemma_digit_value(k: nat)
    requires
        k < 10,
    ensures
        digit_char(k) as int - '0' as int == k,
        '0' <= digit_char(k) <= '9',
{
}

/// Law: the numeral of `n` is made of the digits `0` to `9` only, begins with
/// `0` only when `n` is zero, and stands for `n`.
pub proof fn lemma_decimal(n: nat)
    ensures
        decimal(n).len() > 0,
        forall|i: int| 0 <= i < decimal(n).len() ==> '0' <= #[trigger] decimal(n)[i] <= '9',
        decimal(n)[0] == '0' ==> n == 0,
        digits_value(decimal(n)) == n,
    decreases n,
{
    lemma_digit_value(n % 10);
    if n >= 10 {
        lemma_decimal(n / 10);
        let d = decimal(n);
        assert(d.drop_last() =~= decimal(n / 10));
        assert(d[0] == decimal(n / 10)[0]);
        assert(d.last() == digit_char(n % 10));
        assert(digits_value(d) == digits_value(decimal(n / 10)) * 10 + (digit_char(n % 10) as int - '0' as int));
        assert(n == (n / 10) * 10 + n % 10);
    } else {
        let d = decimal(n);
        assert(d.drop_last() =~= Seq::<char>::empty());
        assert(digits_value(d.drop_last()) == 0);
    }
}

/// `usize::to_string`: the decimal numeral of `n`.
pub fn usize_to_string(n: usize) -> (s: String)
    ensures
        s@ == decimal(n as nat),
{
    let mut v: Vec<char> = Vec::new();
    let mut m: usize = n;
    while m >= 10
        invariant
            decimal(n as nat) == decimal(m as nat) + v@,
        decreases m,
    {
        let d = digit((m % 10) as u8);
        v.insert(0, d);
        m = m / 10;
    }
    v.insert(0, digit(m as u8));
    assert(decimal(n as nat) == v@);
    string_from_chars(&v)
}

/// The UTF-16 code units of one character.
pub open spec fn utf16_units(c: char) -> Seq<u16> {
    let v = c as u32;
    if v < 0x10000 {
        seq![v as u16]
    } else {
        seq![(0xD800 + (v - 0x10000) / 0x400) as u16, (0xDC00 + (v - 0x10000) % 0x400) as u16]
    }
}

/// The UTF-16 encoding of a character sequence.
pub open spec fn utf16(s: Seq<char>) -> Seq<u16>
    decreases s.len(),
{
    if s.len() == 0 {
        Seq::empty()
    } else {
        utf16_units(s[0]) + utf16(s.skip(1))
    }
}

/// The UTF-16 encoding of `s` (what `encode_utf16` yields, collected).
pub fn encode_utf16(s: &str) -> (units: Vec<u16>)
    ensures
        units@ == utf16(s@),
{
    let cs = chars_of(s);
    let mut out: Vec<u16> = Vec::new();
    let mut i: usize = 0;
    assert(s@.skip(0) == s@);
    while i < cs.len()
        invariant
            i <= cs.len(),
            cs@ == s@,
            utf16(s@) == out@ + utf16(s@.skip(i as int)),
        decreases cs.len() - i,
    {
        let ghost before = out@;
        let c = cs[i];
        let v = c as u32;
        if v < 0x10000 {
            out.push(v as u16);
        } else {
            assert(v <= 0x10FFFF) by {
                vstd::utf8::char_is_scalar(c);
            }
            out.push((0xD800 + (v - 0x10000) / 0x400) as u16);
            out.push((0xDC00 + (v - 0x10000) % 0x400) as u16);
        }
        assert(out@ == before + utf16_units(s@[i as int]));
        assert(s@.skip(i as int).skip(1) == s@.skip(i + 1));
        assert(s@.skip(i as int)[0] == s@[i as int]);
        i = i + 1;
    }
    assert(s@.skip(i as int) == Seq::<char>::empty());
    out
}

} // verus!
