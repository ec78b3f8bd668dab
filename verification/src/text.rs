use vstd::prelude::*;

verus! {

/// The character whose code is `48 + d`, that is the decimal digit for `d < 10`.
pub open spec fn digit_char(d: nat) -> char {
    ((d + 48) as u32) as char
}

/// The decimal representation of `n`, most significant digit first, without
/// leading zeros (`0` is written as a single `'0'`).
pub open spec fn decimal(n: nat) -> Seq<char>
    decreases n,
{
    if n < 10 {
        seq![digit_char(n)]
    } else {
        decimal(n / 10).push(digit_char(n % 10))
    }
}

fn digit_str(d: u64) -> (s: &'static str)
    requires
        d < 10,
    ensures
        s@ == seq![digit_char(d as nat)],
{
    if d == 0 {
        proof { reveal_strlit("0"); }
        "0"
    } else if d == 1 {
        proof { reveal_strlit("1"); }
        "1"
    } else if d == 2 {
        proof { reveal_strlit("2"); }
        "2"
    } else if d == 3 {
        proof { reveal_strlit("3"); }
        "3"
    } else if d == 4 {
        proof { reveal_strlit("4"); }
        "4"
    } else if d == 5 {
        proof { reveal_strlit("5"); }
        "5"
    } else if d == 6 {
        proof { reveal_strlit("6"); }
        "6"
    } else if d == 7 {
        proof { reveal_strlit("7"); }
        "7"
    } else if d == 8 {
        proof { reveal_strlit("8"); }
        "8"
    } else {
        proof { reveal_strlit("9"); }
        "9"
    }
}

/// Appends the decimal representation of `n` to `out`.
pub fn push_decimal(out: &mut String, n: u64)
    ensures
        final(out)@ == old(out)@ + decimal(n as nat),
    decreases n,
{
    if n >= 10 {
        push_decimal(out, n / 10);
    }
    out.append(digit_str(n % 10));
}

/// The characters with the Unicode `White_Space` property: what
/// `char::is_whitespace` accepts and what `str::trim` removes.
pub open spec fn is_white_space(c: char) -> bool {
    let v: u32 = c as u32;
    ||| 0x09 <= v && v <= 0x0d
    ||| v == 0x20
    ||| v == 0x85
    ||| v == 0xa0
    ||| v == 0x1680
    ||| 0x2000 <= v && v <= 0x200a
    ||| v == 0x2028
    ||| v == 0x2029
    ||| v == 0x202f
    ||| v == 0x205f
    ||| v == 0x3000
}

/// `s` without its leading white space.
pub open spec fn trim_start(s: Seq<char>) -> Seq<char>
    decreases s.len(),
{
    if s.len() > 0 && is_white_space(s[0]) {
        trim_start(s.drop_first())
    } else {
        s
    }
}

/// `s` without its trailing white space.
pub open spec fn trim_end(s: Seq<char>) -> Seq<char>
    decreases s.len(),
{
    if s.len() > 0 && is_white_space(s.last()) {
        trim_end(s.drop_last())
    } else {
        s
    }
}

/// `s` without leading and trailing white space, as `str::trim` gives it.
pub open spec fn trim(s: Seq<char>) -> Seq<char> {
    trim_end(trim_start(s))
}

pub open spec fn is_decimal_digit(c: char) -> bool {
    48 <= (c as u32) && (c as u32) <= 57
}

pub open spec fn digit_value(c: char) -> nat {
    ((c as u32) - 48) as nat
}

pub open spec fn all_digits(s: Seq<char>) -> bool {
    forall|i: int| 0 <= i < s.len() ==> is_decimal_digit(#[trigger] s[i])
}

/// The number that the decimal digits `s` stand for (0 for no digits).
pub open spec fn digits_value(s: Seq<char>) -> nat
    decreases s.len(),
{
    if s.len() == 0 {
        0
    } else {
        digits_value(s.drop_last()) * 10 + digit_value(s.last())
    }
}

/// `s` without one leading `'+'`, if it has one.
pub open spec fn unsigned_digits(s: Seq<char>) -> Seq<char> {
    if s.len() > 0 && s[0] == '+' {
        s.drop_first()
    } else {
        s
    }
}

/// What `s.parse::<u64>()` gives: one optional leading `'+'`, then at least
/// one ASCII decimal digit and nothing else, of a value that fits in `u64`.
pub open spec fn parse_u64(s: Seq<char>) -> Option<u64> {
    let d = unsigned_digits(s);
    if d.len() > 0 && all_digits(d) && digits_value(d) <= u64::MAX {
        Some(digits_value(d) as u64)
    } else {
        None
    }
}

pub fn is_white_space_char(c: char) -> (b: bool)
    ensures
        b == is_white_space(c),
{
    let v: u32 = c as u32;
    (0x09 <= v && v <= 0x0d) || v == 0x20 || v == 0x85 || v == 0xa0 || v == 0x1680 || (0x2000
        <= v && v <= 0x200a) || v == 0x2028 || v == 0x2029 || v == 0x202f || v == 0x205f || v
        == 0x3000
}

/// The characters of `s`, in order.
pub fn chars_of(s: &str) -> (v: Vec<char>)
    ensures
        v@ == s@,
{
    let mut v: Vec<char> = Vec::new();
    for c in it: s.chars()
        invariant
            v@ == it.seq().take(it.index()),
            it.seq() == s@,
    {
        v.push(c);
    }
    v
}

proof fn lemma_trim_start_step(s: Seq<char>, lo: int)
    requires
        0 <= lo < s.len(),
        is_white_space(s[lo]),
    ensures
        trim_start(s.subrange(lo, s.len() as int)) == trim_start(s.subrange(lo + 1, s.len() as int)),
{
    assert(s.subrange(lo, s.len() as int).drop_first() =~= s.subrange(lo + 1, s.len() as int));
}

proof fn lemma_trim_end_step(s: Seq<char>, lo: int, hi: int)
    requires
        0 <= lo < hi <= s.len(),
        is_white_space(s[hi - 1]),
    ensures
        trim_end(s.subrange(lo, hi)) == trim_end(s.subrange(lo, hi - 1)),
{
    assert(s.subrange(lo, hi).drop_last() =~= s.subrange(lo, hi - 1));
}

/// A prefix of a string of digits stands for no larger number than the whole.
proof fn lemma_digits_prefix_le(s: Seq<char>, k: int)
    requires
        0 <= k <= s.len(),
    ensures
        digits_value(s.subrange(0, k)) <= digits_value(s),
    decreases s.len(),
{
    if k < s.len() {
        lemma_digits_prefix_le(s.drop_last(), k);
        assert(s.drop_last().subrange(0, k) =~= s.subrange(0, k));
    } else {
        assert(s.subrange(0, k) =~= s);
    }
}

/// Parses `s` as `s.trim().parse::<u64>()` does, giving `None` where that
/// gives an error.
pub fn parse_trimmed_u64(s: &str) -> (r: Option<u64>)
    ensures
        r == parse_u64(trim(s@)),
{
    let v = chars_of(s);
    let n: usize = v.len();
    let mut lo: usize = 0;
    assert(v@.subrange(0, n as int) =~= v@);
    while lo < n && is_white_space_char(v[lo])
        invariant
            lo <= n,
            n == v@.len(),
            trim_start(v@) == trim_start(v@.subrange(lo as int, n as int)),
        decreases n - lo,
    {
        proof { lemma_trim_start_step(v@, lo as int); }
        lo = lo + 1;
    }
    assert(trim_start(v@) == v@.subrange(lo as int, n as int));
    let mut hi: usize = n;
    while hi > lo && is_white_space_char(v[hi - 1])
        invariant
            lo <= hi <= n,
            n == v@.len(),
            trim(v@) == trim_end(v@.subrange(lo as int, hi as int)),
        decreases hi,
    {
        proof { lemma_trim_end_step(v@, lo as int, hi as int); }
        hi = hi - 1;
    }
    let ghost t = v@.subrange(lo as int, hi as int);
    assert(trim(v@) == t);
    let mut i: usize = lo;
    if i < hi && v[i] == '+' {
        i = i + 1;
    }
    let start: usize = i;
    let ghost d = v@.subrange(start as int, hi as int);
    assert(unsigned_digits(t) =~= d);
    if i == hi {
        return None;
    }
    let mut acc: u64 = 0;
    while i < hi
        invariant
            lo <= start <= i <= hi <= n,
            n == v@.len(),
            v@ == s@,
            d == v@.subrange(start as int, hi as int),
            unsigned_digits(trim(v@)) == d,
            d.len() > 0,
            all_digits(v@.subrange(start as int, i as int)),
            acc == digits_value(v@.subrange(start as int, i as int)),
        decreases hi - i,
    {
        let c = v[i];
        let cv: u32 = c as u32;
        let ghost next = v@.subrange(start as int, i + 1);
        assert(next.drop_last() =~= v@.subrange(start as int, i as int));
        assert(d[i - start] == c);
        if cv < 48 || cv > 57 {
            assert(!all_digits(d));
            return None;
        }
        let dv: u64 = (cv - 48) as u64;
        assert(digits_value(next) == acc * 10 + dv);
        assert(d.subrange(0, i + 1 - start) =~= next);
        let r = acc.checked_mul(10);
        if r.is_none() {
            proof { lemma_digits_prefix_le(d, i + 1 - start); }
            return None;
        }
        let r2 = r.unwrap().checked_add(dv);
        if r2.is_none() {
            proof { lemma_digits_prefix_le(d, i + 1 - start); }
            return None;
        }
        acc = r2.unwrap();
        i = i + 1;
    }
    assert(v@.subrange(start as int, i as int) =~= d);
    Some(acc)
}

pub open spec fn all_white_space(s: Seq<char>) -> bool {
    forall|i: int| 0 <= i < s.len() ==> is_white_space(#[trigger] s[i])
}

proof fn lemma_decimal_is_digits(n: nat)
    ensures
        decimal(n).len() > 0,
        all_digits(decimal(n)),
        digits_value(decimal(n)) == n,
    decreases n,
{
    if n >= 10 {
        lemma_decimal_is_digits(n / 10);
        assert(decimal(n).drop_last() =~= decimal(n / 10));
        assert(digit_value(digit_char(n % 10)) == n % 10);
        assert(digits_value(decimal(n)) == digits_value(decimal(n / 10)) * 10 + n % 10);
    } else {
        assert(decimal(n).drop_last() =~= Seq::<char>::empty());
        assert(digit_value(digit_char(n)) == n);
        assert(digits_value(decimal(n)) == digits_value(Seq::<char>::empty()) * 10 + n);
    }
}

proof fn lemma_trim_start_skips(pre: Seq<char>, x: Seq<char>)
    requires
        all_white_space(pre),
    ensures
        trim_start(pre + x) == trim_start(x),
    decreases pre.len(),
{
    if pre.len() > 0 {
        assert((pre + x).drop_first() =~= pre.drop_first() + x);
        lemma_trim_start_skips(pre.drop_first(), x);
    } else {
        assert(pre + x =~= x);
    }
}

proof fn lemma_trim_end_skips(x: Seq<char>, post: Seq<char>)
    requires
        all_white_space(post),
    ensures
        trim_end(x + post) == trim_end(x),
    decreases post.len(),
{
    if post.len() > 0 {
        assert((x + post).drop_last() =~= x + post.drop_last());
        lemma_trim_end_skips(x, post.drop_last());
    } else {
        assert(x + post =~= x);
    }
}

/// Decimal text with white space around it reads back as the number it
/// was written from: `trim` then `parse::<u64>` undoes `to_string`.
pub proof fn lemma_parse_padded_decimal(n: u64, pre: Seq<char>, post: Seq<char>)
    requires
        all_white_space(pre),
        all_white_space(post),
    ensures
        parse_u64(trim(pre + decimal(n as nat) + post)) == Some(n),
{
    let d = decimal(n as nat);
    lemma_decimal_is_digits(n as nat);
    assert(pre + d + post =~= pre + (d + post));
    lemma_trim_start_skips(pre, d + post);
    assert(is_decimal_digit(d[0]));
    assert((d + post)[0] == d[0]);
    assert(trim_start(d + post) == d + post);
    lemma_trim_end_skips(d, post);
    assert(is_decimal_digit(d.last()));
    assert(trim_end(d) == d);
    assert(unsigned_digits(d) == d);
}

/// The digit characters are `'0'` to `'9'`, each standing for its own value.
pub proof fn lemma_digit_char_stands_for_digit(d: nat)
    requires
        d < 10,
    ensures
        is_decimal_digit(digit_char(d)),
        digit_value(digit_char(d)) == d,
{
}

/// Decimal text is made of digits only, stands for the number written, and
/// has no leading zero; so it parses back to that number.
pub proof fn lemma_decimal_spells_number(n: u64)
    ensures
        decimal(n as nat).len() > 0,
        all_digits(decimal(n as nat)),
        digits_value(decimal(n as nat)) == n,
        decimal(n as nat).len() > 1 ==> decimal(n as nat)[0] != '0',
        parse_u64(decimal(n as nat)) == Some(n),
{
    lemma_decimal_is_digits(n as nat);
    lemma_decimal_no_leading_zero(n as nat);
    assert(unsigned_digits(decimal(n as nat)) == decimal(n as nat));
}

proof fn lemma_decimal_no_leading_zero(n: nat)
    ensures
        decimal(n).len() > 1 ==> decimal(n)[0] != '0',
        n >= 10 ==> decimal(n).len() > 1,
        decimal(n).len() == 1 ==> n < 10,
    decreases n,
{
    if n >= 10 {
        lemma_decimal_no_leading_zero(n / 10);
        lemma_decimal_is_digits(n / 10);
        if decimal(n / 10).len() == 1 {
            assert(decimal(n / 10)[0] == digit_char(n / 10));
            assert(digit_value(digit_char(n / 10)) == n / 10);
        }
    }
}

proof fn lemma_trim_start_bound(s: Seq<char>) -> (k: int)
    ensures
        0 <= k <= s.len(),
        trim_start(s) == s.subrange(k, s.len() as int),
        all_white_space(s.subrange(0, k)),
        k < s.len() ==> !is_white_space(s[k]),
    decreases s.len(),
{
    if s.len() > 0 && is_white_space(s[0]) {
        let k1 = lemma_trim_start_bound(s.drop_first());
        assert(s.drop_first().subrange(k1, s.drop_first().len() as int) =~= s.subrange(
            k1 + 1,
            s.len() as int,
        ));
        assert forall|i: int| 0 <= i < k1 + 1 implies is_white_space(
            #[trigger] s.subrange(0, k1 + 1)[i],
        ) by {
            if i > 0 {
                assert(s.subrange(0, k1 + 1)[i] == s.drop_first().subrange(0, k1)[i - 1]);
            }
        }
        k1 + 1
    } else {
        assert(s.subrange(0, s.len() as int) =~= s);
        0
    }
}

proof fn lemma_trim_end_bound(s: Seq<char>) -> (j: int)
    ensures
        0 <= j <= s.len(),
        trim_end(s) == s.subrange(0, j),
        all_white_space(s.subrange(j, s.len() as int)),
        j > 0 ==> !is_white_space(s[j - 1]),
    decreases s.len(),
{
    if s.len() > 0 && is_white_space(s.last()) {
        let j1 = lemma_trim_end_bound(s.drop_last());
        assert(s.drop_last().subrange(0, j1) =~= s.subrange(0, j1));
        assert forall|i: int| 0 <= i < s.len() - j1 implies is_white_space(
            #[trigger] s.subrange(j1, s.len() as int)[i],
        ) by {
            if i < s.len() - 1 - j1 {
                assert(s.subrange(j1, s.len() as int)[i] == s.drop_last().subrange(
                    j1,
                    s.len() - 1,
                )[i]);
            }
        }
        j1
    } else {
        assert(s.subrange(0, s.len() as int) =~= s);
        s.len() as int
    }
}

/// Trimming keeps one contiguous run of `s` and removes only white space
/// before and after it; what is kept neither starts nor ends with white
/// space. Returns where the run starts and ends.
pub proof fn lemma_trim_removes_only_white_space(s: Seq<char>) -> (bounds: (int, int))
    ensures
        0 <= bounds.0 <= bounds.1 <= s.len(),
        trim(s) == s.subrange(bounds.0, bounds.1),
        all_white_space(s.subrange(0, bounds.0)),
        all_white_space(s.subrange(bounds.1, s.len() as int)),
        trim(s).len() > 0 ==> !is_white_space(trim(s)[0]) && !is_white_space(trim(s).last()),
{
    let k = lemma_trim_start_bound(s);
    let t = s.subrange(k, s.len() as int);
    let j = lemma_trim_end_bound(t);
    assert(t.subrange(0, j) =~= s.subrange(k, k + j));
    assert(t.subrange(j, t.len() as int) =~= s.subrange(k + j, s.len() as int));
    if j > 0 {
        assert(trim(s)[0] == s[k]);
        assert(trim(s).last() == t[j - 1]);
    }
    (k, k + j)
}

} // verus!
