//! Text as sequences of characters: the predicates and rewrites that the
//! naming conventions of a declaration dump are stated in.

use vstd::prelude::*;

verus! {

/// `p` stands at the start of `s`.
pub open spec fn starts_with(s: Seq<char>, p: Seq<char>) -> bool {
    p.len() <= s.len() && s.subrange(0, p.len() as int) == p
}

/// `p` stands at the end of `s`.
pub open spec fn ends_with(s: Seq<char>, p: Seq<char>) -> bool {
    p.len() <= s.len() && s.subrange(s.len() - p.len(), s.len() as int) == p
}

/// `p` stands in `s` at position `i`.
pub open spec fn occurs_at(s: Seq<char>, p: Seq<char>, i: int) -> bool {
    0 <= i && i + p.len() <= s.len() && s.subrange(i, i + p.len()) == p
}

/// `p` stands somewhere in `s`.
pub open spec fn contains(s: Seq<char>, p: Seq<char>) -> bool {
    exists|i: int| occurs_at(s, p, i)
}

/// `s` with every occurrence of `from` replaced by `to`, found from left to
/// right without overlap. An empty `from` leaves `s` as it is.
pub open spec fn replace(s: Seq<char>, from: Seq<char>, to: Seq<char>) -> Seq<char>
    decreases s.len(),
{
    if from.len() == 0 || s.len() < from.len() {
        s
    } else if occurs_at(s, from, 0) {
        to + replace(s.skip(from.len() as int), from, to)
    } else {
        seq![s[0]] + replace(s.skip(1), from, to)
    }
}

/// The pieces of `s` between occurrences of `sep`. There is always at least
/// one piece; `n` separators give `n + 1` pieces.
pub open spec fn split(s: Seq<char>, sep: char) -> Seq<Seq<char>>
    decreases s.len(),
{
    if s.len() == 0 {
        seq![Seq::<char>::empty()]
    } else {
        let rest = split(s.drop_last(), sep);
        if s.last() == sep {
            rest.push(Seq::<char>::empty())
        } else {
            rest.drop_last().push(rest.last().push(s.last()))
        }
    }
}

/// The position of the first `c` in `s`, or `s.len()` where there is none.
pub open spec fn first_index_of(s: Seq<char>, c: char) -> int
    decreases s.len(),
{
    if s.len() == 0 {
        0
    } else if s[0] == c {
        0
    } else {
        1 + first_index_of(s.skip(1), c)
    }
}

/// The position of the last `c` in `s`, or `-1` where there is none.
pub open spec fn last_index_of(s: Seq<char>, c: char) -> int
    decreases s.len(),
{
    if s.len() == 0 {
        -1
    } else if s.last() == c {
        s.len() - 1
    } else {
        last_index_of(s.drop_last(), c)
    }
}

/// What follows the last `c` in `s`; all of `s` where there is none.
pub open spec fn after_last(s: Seq<char>, c: char) -> Seq<char> {
    s.skip(last_index_of(s, c) + 1)
}

/// All the pieces of `parts`, one after the other, with `sep` between them.
pub open spec fn join(parts: Seq<Seq<char>>, sep: Seq<char>) -> Seq<char>
    decreases parts.len(),
{
    if parts.len() == 0 {
        Seq::<char>::empty()
    } else if parts.len() == 1 {
        parts[0]
    } else {
        join(parts.drop_last(), sep) + sep + parts.last()
    }
}

/// A list of strings, as sequences of characters.
pub open spec fn strings_view(v: Seq<String>) -> Seq<Seq<char>> {
    v.map_values(|s: String| s@)
}

/// Whether `c` is white space: one of the characters with the Unicode
/// property White_Space, which are these.
pub open spec fn unicode_white_space(c: char) -> bool {
    let n = c as u32;
    ||| 0x09 <= n <= 0x0d
    ||| n == 0x20
    ||| n == 0x85
    ||| n == 0xa0
    ||| n == 0x1680
    ||| 0x2000 <= n <= 0x200a
    ||| n == 0x2028
    ||| n == 0x2029
    ||| n == 0x202f
    ||| n == 0x205f
    ||| n == 0x3000
}

/// A name for what `char::to_uppercase` yields: the upper-case mapping of
/// `c`, which may be more than one character.
pub uninterp spec fn unicode_uppercase(c: char) -> Seq<char>;

/// The number of white-space characters at the start of `s`.
pub open spec fn leading_space(s: Seq<char>) -> int
    decreases s.len(),
{
    if s.len() > 0 && unicode_white_space(s[0]) {
        1 + leading_space(s.skip(1))
    } else {
        0
    }
}

/// The number of white-space characters at the end of `s`.
pub open spec fn trailing_space(s: Seq<char>) -> int
    decreases s.len(),
{
    if s.len() > 0 && unicode_white_space(s.last()) {
        1 + trailing_space(s.drop_last())
    } else {
        0
    }
}

/// `s` without the white space at its start and at its end.
pub open spec fn trim(s: Seq<char>) -> Seq<char> {
    let a = leading_space(s);
    if a == s.len() {
        Seq::<char>::empty()
    } else {
        s.subrange(a, s.len() - trailing_space(s))
    }
}

/// Calls `String::push`, which appends one character to the string.
#[verifier::external_body]
fn push_char(s: &mut String, c: char)
    ensures
        final(s)@ == old(s)@.push(c),
{
    s.push(c)
}

/// Whether `c` is white space.
pub fn is_white_space(c: char) -> (b: bool)
    ensures
        b == unicode_white_space(c),
{
    let n = c as u32;
    (0x09 <= n && n <= 0x0d) || n == 0x20 || n == 0x85 || n == 0xa0 || n == 0x1680 || (0x2000 <= n
        && n <= 0x200a) || n == 0x2028 || n == 0x2029 || n == 0x202f || n == 0x205f || n == 0x3000
}

/// Calls `char::to_uppercase` and collects what it yields; the contract
/// names the result.
#[verifier::external_body]
pub(crate) fn uppercase_of(c: char) -> (v: Vec<char>)
    ensures
        v@ == unicode_uppercase(c),
{
    c.to_uppercase().collect()
}

/// The characters of `s`, in order.
pub fn chars_of(s: &str) -> (v: Vec<char>)
    ensures
        v@ == s@,
{
    broadcast use vstd::string::group_string_axioms;

    let mut v: Vec<char> = Vec::new();
    for c in it: s.chars()
        invariant
            it.seq() == s@,
            v@ == it.seq().take(it.index()),
    {
        v.push(c);
        assert(it.seq().take(it.index() + 1) =~= it.seq().take(it.index()).push(c));
    }
    assert(v@ =~= s@);
    v
}

/// The string made of the characters `v[from..to]`.
pub fn text_between(v: &Vec<char>, from: usize, to: usize) -> (s: String)
    requires
        from <= to <= v.len(),
    ensures
        s@ == v@.subrange(from as int, to as int),
{
    let mut s = String::new();
    let mut i: usize = from;
    while i < to
        invariant
            from <= i <= to <= v.len(),
            s@ == v@.subrange(from as int, i as int),
        decreases to - i,
    {
        push_char(&mut s, v[i]);
        assert(v@.subrange(from as int, i + 1) =~= v@.subrange(from as int, i as int).push(
            v@[i as int],
        ));
        i += 1;
    }
    s
}

/// The string made of the characters of `v`.
pub fn text_of(v: &Vec<char>) -> (s: String)
    ensures
        s@ == v@,
{
    let s = text_between(v, 0, v.len());
    assert(v@.subrange(0, v.len() as int) =~= v@);
    s
}

/// Whether `p` stands in `s` at position `i`.
pub fn vec_occurs_at(s: &Vec<char>, p: &Vec<char>, i: usize) -> (b: bool)
    ensures
        b == occurs_at(s@, p@, i as int),
{
    if p.len() > s.len() || i > s.len() - p.len() {
        return false;
    }
    let mut k: usize = 0;
    while k < p.len()
        invariant
            k <= p.len(),
            i + p.len() <= s.len(),
            forall|j: int| 0 <= j < k ==> s@[i + j] == p@[j],
        decreases p.len() - k,
    {
        if s[i + k] != p[k] {
            assert(s@.subrange(i as int, i + p.len())[k as int] != p@[k as int]);
            return false;
        }
        k += 1;
    }
    assert(s@.subrange(i as int, i + p.len()) =~= p@);
    true
}

/// Whether the strings `a` and `b` hold the same characters.
pub fn str_eq(a: &str, b: &str) -> (r: bool)
    ensures
        r == (a@ == b@),
{
    let x = chars_of(a);
    let y = chars_of(b);
    if x.len() != y.len() {
        return false;
    }
    let r = vec_occurs_at(&x, &y, 0);
    assert(x@.subrange(0, x.len() as int) =~= x@);
    r
}

/// Whether `p` stands at the start of `s`.
pub fn str_starts_with(s: &str, p: &str) -> (r: bool)
    ensures
        r == starts_with(s@, p@),
{
    let x = chars_of(s);
    let y = chars_of(p);
    vec_occurs_at(&x, &y, 0)
}

/// Whether `p` stands at the end of `s`.
pub fn str_ends_with(s: &str, p: &str) -> (r: bool)
    ensures
        r == ends_with(s@, p@),
{
    let x = chars_of(s);
    let y = chars_of(p);
    if y.len() > x.len() {
        return false;
    }
    vec_occurs_at(&x, &y, x.len() - y.len())
}

/// Whether `p` stands somewhere in `s`.
pub fn str_contains(s: &str, p: &str) -> (r: bool)
    ensures
        r == contains(s@, p@),
{
    let x = chars_of(s);
    let y = chars_of(p);
    if y.len() > x.len() {
        assert(forall|i: int| !occurs_at(x@, y@, i));
        return false;
    }
    let last: usize = x.len() - y.len();
    let mut i: usize = 0;
    loop
        invariant
            i <= last,
            last == x.len() - y.len(),
            x@ == s@,
            y@ == p@,
            forall|j: int| 0 <= j < i ==> !occurs_at(x@, y@, j),
        decreases last - i,
    {
        if vec_occurs_at(&x, &y, i) {
            assert(occurs_at(x@, y@, i as int));
            return true;
        }
        if i == last {
            assert(forall|j: int| !occurs_at(x@, y@, j));
            return false;
        }
        i += 1;
    }
}

/// The replacement consumes `s` from the left: what is already written, then
/// the replacement of what is left, is the replacement of the whole.
proof fn lemma_replace_step(s: Seq<char>, from: Seq<char>, to: Seq<char>, i: int)
    requires
        from.len() > 0,
        0 <= i,
        i + from.len() <= s.len(),
    ensures
        occurs_at(s, from, i) ==> replace(s.skip(i), from, to) == to + replace(
            s.skip(i + from.len()),
            from,
            to,
        ),
        !occurs_at(s, from, i) ==> replace(s.skip(i), from, to) == seq![s[i]] + replace(
            s.skip(i + 1),
            from,
            to,
        ),
{
    let t = s.skip(i);
    assert(t.subrange(0, from.len() as int) =~= s.subrange(i, i + from.len()));
    assert(t.skip(from.len() as int) =~= s.skip(i + from.len()));
    assert(t.skip(1) =~= s.skip(i + 1));
}

/// `s` with every occurrence of `from` replaced by `to`.
pub fn str_replace(s: &str, from: &str, to: &str) -> (r: String)
    ensures
        r@ == replace(s@, from@, to@),
{
    let x = chars_of(s);
    let f = chars_of(from);
    let t = chars_of(to);
    if f.len() == 0 || f.len() > x.len() {
        return text_of(&x);
    }
    let mut out: Vec<char> = Vec::new();
    let mut i: usize = 0;
    assert(x@.skip(0) =~= x@);
    while x.len() - i >= f.len()
        invariant
            i <= x.len(),
            0 < f.len() <= x.len(),
            out@ + replace(x@.skip(i as int), f@, t@) == replace(x@, f@, t@),
        decreases x.len() - i,
    {
        proof {
            lemma_replace_step(x@, f@, t@, i as int);
        }
        let ghost before = out@;
        if vec_occurs_at(&x, &f, i) {
            let mut k: usize = 0;
            while k < t.len()
                invariant
                    k <= t.len(),
                    out@ == before + t@.take(k as int),
                decreases t.len() - k,
            {
                out.push(t[k]);
                assert(t@.take(k + 1) =~= t@.take(k as int).push(t@[k as int]));
                assert(before + t@.take(k as int).push(t@[k as int]) =~= (before + t@.take(
                    k as int,
                )).push(t@[k as int]));
                k += 1;
            }
            assert(t@.take(t.len() as int) =~= t@);
            assert((before + t@) + replace(x@.skip(i + f.len()), f@, t@) =~= before + (t@
                + replace(x@.skip(i + f.len()), f@, t@)));
            i += f.len();
        } else {
            out.push(x[i]);
            assert(before.push(x@[i as int]) + replace(x@.skip(i + 1), f@, t@) =~= before + (
            seq![x@[i as int]] + replace(x@.skip(i + 1), f@, t@)));
            i += 1;
        }
    }
    let ghost before = out@;
    let mut j: usize = i;
    while j < x.len()
        invariant
            i <= j <= x.len(),
            out@ == before + x@.subrange(i as int, j as int),
        decreases x.len() - j,
    {
        out.push(x[j]);
        assert(x@.subrange(i as int, j + 1) =~= x@.subrange(i as int, j as int).push(x@[j as int]));
        assert(before + x@.subrange(i as int, j as int).push(x@[j as int]) =~= (before
            + x@.subrange(i as int, j as int)).push(x@[j as int]));
        j += 1;
    }
    assert(x@.subrange(i as int, x.len() as int) =~= x@.skip(i as int));
    text_of(&out)
}

/// A split never comes out empty.
pub proof fn lemma_split_nonempty(s: Seq<char>, sep: char)
    ensures
        split(s, sep).len() >= 1,
    decreases s.len(),
{
    if s.len() > 0 {
        lemma_split_nonempty(s.drop_last(), sep);
    }
}

/// The pieces of `s` between occurrences of `sep`.
pub fn str_split(s: &str, sep: char) -> (parts: Vec<String>)
    ensures
        strings_view(parts@) == split(s@, sep),
{
    let x = chars_of(s);
    let mut parts: Vec<String> = Vec::new();
    let mut cur = String::new();
    let mut i: usize = 0;
    assert(x@.take(0) =~= Seq::<char>::empty());
    assert(strings_view(parts@).push(cur@) =~= split(x@.take(0), sep));
    while i < x.len()
        invariant
            i <= x.len(),
            strings_view(parts@).push(cur@) == split(x@.take(i as int), sep),
        decreases x.len() - i,
    {
        let c = x[i];
        proof {
            let t = x@.take(i + 1);
            assert(t.drop_last() =~= x@.take(i as int));
            assert(t.last() == c);
            let rest = split(x@.take(i as int), sep);
            assert(rest.last() == cur@);
            assert(rest.drop_last() =~= strings_view(parts@));
        }
        if c == sep {
            let ghost old_parts = parts@;
            parts.push(cur);
            assert(strings_view(parts@) =~= strings_view(old_parts).push(cur@));
            cur = String::new();
        } else {
            push_char(&mut cur, c);
        }
        i += 1;
    }
    assert(x@.take(x.len() as int) =~= x@);
    let ghost old_parts = parts@;
    parts.push(cur);
    assert(strings_view(parts@) =~= strings_view(old_parts).push(cur@));
    parts
}

/// The position of the last `c` in `s`, where there is one.
pub fn vec_last_index_of(s: &Vec<char>, c: char) -> (r: Option<usize>)
    ensures
        match r {
            Some(i) => i == last_index_of(s@, c) && i < s.len() && s@[i as int] == c,
            None => last_index_of(s@, c) == -1,
        },
{
    let mut i: usize = s.len();
    assert(s@.take(s.len() as int) =~= s@);
    while i > 0
        invariant
            i <= s.len(),
            last_index_of(s@, c) == last_index_of(s@.take(i as int), c),
        decreases i,
    {
        proof {
            let t = s@.take(i as int);
            assert(t.drop_last() =~= s@.take(i - 1));
            assert(t.last() == s@[i - 1]);
        }
        if s[i - 1] == c {
            return Some(i - 1);
        }
        i -= 1;
    }
    None
}

/// What follows the last `c` in `s`; all of `s` where there is none.
pub fn str_after_last(s: &str, c: char) -> (r: String)
    ensures
        r@ == after_last(s@, c),
{
    let x = chars_of(s);
    match vec_last_index_of(&x, c) {
        Some(i) => text_between(&x, i + 1, x.len()),
        None => {
            assert(x@.skip(0) =~= x@);
            text_of(&x)
        },
    }
}

/// The leading white space of `s` ends where the scan from the left stops.
proof fn lemma_leading_space(s: Seq<char>, i: int)
    requires
        0 <= i <= s.len(),
        forall|j: int| 0 <= j < i ==> unicode_white_space(#[trigger] s[j]),
        i < s.len() ==> !unicode_white_space(s[i]),
    ensures
        leading_space(s) == i,
    decreases i,
{
    if i > 0 {
        let t = s.skip(1);
        assert forall|j: int| 0 <= j < i - 1 implies unicode_white_space(#[trigger] t[j]) by {
            assert(t[j] == s[j + 1]);
        }
        lemma_leading_space(t, i - 1);
    }
}

/// The trailing white space of `s` starts where the scan from the right stops.
proof fn lemma_trailing_space(s: Seq<char>, n: int)
    requires
        0 <= n <= s.len(),
        forall|j: int| s.len() - n <= j < s.len() ==> unicode_white_space(#[trigger] s[j]),
        n < s.len() ==> !unicode_white_space(s[s.len() - n - 1]),
    ensures
        trailing_space(s) == n,
    decreases n,
{
    if n > 0 {
        let t = s.drop_last();
        assert forall|j: int| t.len() - (n - 1) <= j < t.len() implies unicode_white_space(
            #[trigger] t[j],
        ) by {
            assert(t[j] == s[j]);
        }
        lemma_trailing_space(t, n - 1);
    }
}

/// `s` without the white space at its start and at its end.
pub fn str_trim(s: &str) -> (r: String)
    ensures
        r@ == trim(s@),
{
    let x = chars_of(s);
    let mut a: usize = 0;
    while a < x.len() && is_white_space(x[a])
        invariant
            a <= x.len(),
            forall|j: int| 0 <= j < a ==> unicode_white_space(#[trigger] x@[j]),
        decreases x.len() - a,
    {
        a += 1;
    }
    proof {
        lemma_leading_space(x@, a as int);
    }
    if a == x.len() {
        return String::new();
    }
    let mut b: usize = x.len();
    while b > a && is_white_space(x[b - 1])
        invariant
            a <= b <= x.len(),
            a < x.len(),
            !unicode_white_space(x@[a as int]),
            forall|j: int| b <= j < x.len() ==> unicode_white_space(#[trigger] x@[j]),
        decreases b,
    {
        b -= 1;
    }
    proof {
        lemma_trailing_space(x@, x.len() - b);
    }
    text_between(&x, a, b)
}

/// All the pieces of `parts`, one after the other, with `sep` between them.
pub fn join_strings(parts: &Vec<String>, sep: &str) -> (r: String)
    ensures
        r@ == join(strings_view(parts@), sep@),
{
    let mut out = String::new();
    let mut i: usize = 0;
    while i < parts.len()
        invariant
            i <= parts.len(),
            out@ == join(strings_view(parts@).take(i as int), sep@),
        decreases parts.len() - i,
    {
        proof {
            let t = strings_view(parts@).take(i + 1);
            assert(t.drop_last() =~= strings_view(parts@).take(i as int));
            assert(t.last() == parts@[i as int]@);
            if i == 0 {
                assert(Seq::<char>::empty() + parts@[0]@ =~= parts@[0]@);
            }
        }
        if i > 0 {
            out.append(sep);
        }
        out.append(parts[i].as_str());
        i += 1;
    }
    assert(strings_view(parts@).take(parts.len() as int) =~= strings_view(parts@));
    out
}

/// The character that stands for the digit `d`.
pub open spec fn digit(d: int) -> char {
    if d == 0 {
        '0'
    } else if d == 1 {
        '1'
    } else if d == 2 {
        '2'
    } else if d == 3 {
        '3'
    } else if d == 4 {
        '4'
    } else if d == 5 {
        '5'
    } else if d == 6 {
        '6'
    } else if d == 7 {
        '7'
    } else if d == 8 {
        '8'
    } else {
        '9'
    }
}

/// The decimal digits of `n`, most significant first, without leading zeros.
pub open spec fn decimal(n: nat) -> Seq<char>
    decreases n,
{
    if n < 10 {
        seq![digit(n as int)]
    } else {
        decimal(n / 10).push(digit((n % 10) as int))
    }
}

/// The decimal form of `v`, with a minus sign where it is negative.
pub open spec fn signed_decimal(v: int) -> Seq<char> {
    if v < 0 {
        seq!['-'] + decimal((-v) as nat)
    } else {
        decimal(v as nat)
    }
}

fn digit_char(d: u64) -> (c: char)
    requires
        d < 10,
    ensures
        c == digit(d as int),
{
    if d == 0 {
        '0'
    } else if d == 1 {
        '1'
    } else if d == 2 {
        '2'
    } else if d == 3 {
        '3'
    } else if d == 4 {
        '4'
    } else if d == 5 {
        '5'
    } else if d == 6 {
        '6'
    } else if d == 7 {
        '7'
    } else if d == 8 {
        '8'
    } else {
        '9'
    }
}

/// The decimal form of `v`.
pub fn int_to_text(v: i64) -> (r: String)
    ensures
        r@ == signed_decimal(v as int),
{
    let magnitude: u64 = if v < 0 {
        if v == i64::MIN {
            9223372036854775808u64
        } else {
            (-v) as u64
        }
    } else {
        v as u64
    };
    let mut low: Vec<char> = Vec::new();
    let mut m: u64 = magnitude;
    assert(decimal(m as nat) + low@.reverse() =~= decimal(magnitude as nat));
    while m >= 10
        invariant
            decimal(m as nat) + low@.reverse() == decimal(magnitude as nat),
        decreases m,
    {
        let d = digit_char(m % 10);
        let ghost before = low@;
        low.push(d);
        assert(before.push(d).reverse() =~= seq![d] + before.reverse());
        assert(decimal((m / 10) as nat).push(d) + before.reverse() =~= decimal((m / 10) as nat) + (
        seq![d] + before.reverse()));
        m = m / 10;
    }
    let mut out = String::new();
    if v < 0 {
        push_char(&mut out, '-');
    }
    let ghost sign = out@;
    push_char(&mut out, digit_char(m));
    let mut k: usize = low.len();
    while k > 0
        invariant
            k <= low.len(),
            out@ == sign + decimal(m as nat) + low@.reverse().take(low.len() - k),
        decreases k,
    {
        push_char(&mut out, low[k - 1]);
        proof {
            let r = low@.reverse();
            let n = low.len() - k;
            assert(r[n] == low@[k - 1]);
            assert(r.take(n + 1) =~= r.take(n).push(r[n]));
            assert((sign + decimal(m as nat) + r.take(n)).push(r[n]) =~= sign + decimal(m as nat)
                + r.take(n).push(r[n]));
        }
        k -= 1;
    }
    proof {
        let r = low@.reverse();
        assert(r.take(low.len() as int) =~= r);
        assert(sign + decimal(m as nat) + r =~= sign + (decimal(m as nat) + r));
        if v < 0 {
            assert(sign =~= seq!['-']);
        } else {
            assert(sign + decimal(magnitude as nat) =~= decimal(magnitude as nat));
        }
    }
    out
}

/// `first_index_of` points at the first `c`, or behind the end of `s`.
pub proof fn lemma_first_index_of(s: Seq<char>, c: char)
    ensures
        0 <= first_index_of(s, c) <= s.len(),
        first_index_of(s, c) < s.len() ==> s[first_index_of(s, c)] == c,
        forall|j: int| 0 <= j < first_index_of(s, c) ==> #[trigger] s[j] != c,
    decreases s.len(),
{
    if s.len() > 0 && s[0] != c {
        let t = s.skip(1);
        lemma_first_index_of(t, c);
        assert forall|j: int| 0 <= j < first_index_of(s, c) implies #[trigger] s[j] != c by {
            if j > 0 {
                assert(t[j - 1] == s[j]);
            }
        }
    }
}

/// The position of the first `c` in `s`, where there is one.
pub fn vec_first_index_of(s: &Vec<char>, c: char) -> (r: Option<usize>)
    ensures
        match r {
            Some(i) => i == first_index_of(s@, c) && i < s.len(),
            None => first_index_of(s@, c) == s.len(),
        },
{
    let mut i: usize = 0;
    while i < s.len()
        invariant
            i <= s.len(),
            forall|j: int| 0 <= j < i ==> #[trigger] s@[j] != c,
        decreases s.len() - i,
    {
        if s[i] == c {
            proof {
                lemma_first_index_of(s@, c);
            }
            return Some(i);
        }
        i += 1;
    }
    proof {
        lemma_first_index_of(s@, c);
    }
    None
}

/// `s` without the carriage return at its end, where it has one.
pub open spec fn strip_cr(s: Seq<char>) -> Seq<char> {
    if s.len() > 0 && s.last() == '\r' {
        s.drop_last()
    } else {
        s
    }
}

/// The lines of `s`. A line ends at a line feed, or at a carriage return and
/// a line feed; neither belongs to the line. What follows the last line feed
/// is a line unless it is empty.
pub open spec fn lines(s: Seq<char>) -> Seq<Seq<char>> {
    let parts = split(s, '\n');
    let body = Seq::new((parts.len() - 1) as nat, |i: int| strip_cr(parts[i]));
    if parts.last().len() == 0 {
        body
    } else {
        body.push(parts.last())
    }
}

/// How one character stands inside a string literal.
pub open spec fn escaped_char(c: char) -> Seq<char> {
    if c == '"' {
        seq!['\\', '"']
    } else if c == '\\' {
        seq!['\\', '\\']
    } else if c == '\n' {
        seq!['\\', 'n']
    } else if c == '\r' {
        seq!['\\', 'r']
    } else if c == '\t' {
        seq!['\\', 't']
    } else {
        seq![c]
    }
}

/// `s` as it stands inside a string literal, between the quotes.
pub open spec fn escaped(s: Seq<char>) -> Seq<char>
    decreases s.len(),
{
    if s.len() == 0 {
        s
    } else {
        escaped(s.drop_last()) + escaped_char(s.last())
    }
}

/// The lines of `s`.
pub fn str_lines(s: &str) -> (r: Vec<String>)
    ensures
        strings_view(r@) == lines(s@),
{
    let parts = str_split(s, '\n');
    proof {
        lemma_split_nonempty(s@, '\n');
    }
    let ghost all = strings_view(parts@);
    let n = parts.len() - 1;
    let mut r: Vec<String> = Vec::new();
    let mut i: usize = 0;
    while i < n
        invariant
            i <= n,
            n == parts.len() - 1,
            all == strings_view(parts@),
            strings_view(r@).len() == i,
            forall|j: int| 0 <= j < i ==> #[trigger] strings_view(r@)[j] == strip_cr(all[j]),
        decreases n - i,
    {
        let x = chars_of(parts[i].as_str());
        let line = if x.len() > 0 && x[x.len() - 1] == '\r' {
            assert(x@.subrange(0, x.len() - 1) =~= x@.drop_last());
            text_between(&x, 0, x.len() - 1)
        } else {
            text_of(&x)
        };
        let ghost before = r@;
        r.push(line);
        assert(strings_view(r@) =~= strings_view(before).push(line@));
        i += 1;
    }
    let last = chars_of(parts[n].as_str());
    if last.len() > 0 {
        let line = text_of(&last);
        let ghost before = r@;
        r.push(line);
        assert(strings_view(r@) =~= strings_view(before).push(line@));
    }
    assert(strings_view(r@) =~= lines(s@));
    r
}

/// `s` as it stands inside a string literal, between the quotes.
pub fn str_escaped(s: &str) -> (r: String)
    ensures
        r@ == escaped(s@),
{
    let x = chars_of(s);
    let mut out = String::new();
    let mut i: usize = 0;
    assert(x@.take(0) =~= Seq::<char>::empty());
    while i < x.len()
        invariant
            i <= x.len(),
            out@ == escaped(x@.take(i as int)),
        decreases x.len() - i,
    {
        proof {
            let t = x@.take(i + 1);
            assert(t.drop_last() =~= x@.take(i as int));
            assert(t.last() == x@[i as int]);
        }
        let c = x[i];
        let ghost before = out@;
        if c == '"' {
            push_char(&mut out, '\\');
            push_char(&mut out, '"');
        } else if c == '\\' {
            push_char(&mut out, '\\');
            push_char(&mut out, '\\');
        } else if c == '\n' {
            push_char(&mut out, '\\');
            push_char(&mut out, 'n');
        } else if c == '\r' {
            push_char(&mut out, '\\');
            push_char(&mut out, 'r');
        } else if c == '\t' {
            push_char(&mut out, '\\');
            push_char(&mut out, 't');
        } else {
            push_char(&mut out, c);
        }
        assert(out@ =~= before + escaped_char(c));
        i += 1;
    }
    assert(x@.take(x.len() as int) =~= x@);
    out
}

} // verus!
