use vstd::prelude::*;
use vstd::std_specs::iter::IteratorSpec;

verus! {

/// The characters with the Unicode White_Space property, which separate fields and are
/// trimmed from both ends.
pub open spec fn is_space(c: char) -> bool {
    ('\u{9}' <= c && c <= '\u{d}') || c == ' ' || c == '\u{85}' || c == '\u{a0}' || c == '\u{1680}'
        || ('\u{2000}' <= c && c <= '\u{200a}') || c == '\u{2028}' || c == '\u{2029}' || c
        == '\u{202f}' || c == '\u{205f}' || c == '\u{3000}'
}

pub fn space(c: char) -> (r: bool)
    ensures
        r == is_space(c),
{
    ('\u{9}' <= c && c <= '\u{d}') || c == ' ' || c == '\u{85}' || c == '\u{a0}' || c == '\u{1680}'
        || ('\u{2000}' <= c && c <= '\u{200a}') || c == '\u{2028}' || c == '\u{2029}' || c
        == '\u{202f}' || c == '\u{205f}' || c == '\u{3000}'
}

/// `needle` stands in `hay` starting at index `i`.
pub open spec fn occurs_at(hay: Seq<char>, needle: Seq<char>, i: int) -> bool {
    0 <= i && i + needle.len() <= hay.len() && hay.subrange(i, i + needle.len()) == needle
}

/// The first index at or after `from` where `needle` stands in `hay`.
pub open spec fn find_from(hay: Seq<char>, needle: Seq<char>, from: int) -> Option<int>
    decreases hay.len() + 1 - from,
{
    if from < 0 || from + needle.len() > hay.len() {
        None
    } else if occurs_at(hay, needle, from) {
        Some(from)
    } else {
        find_from(hay, needle, from + 1)
    }
}

/// The first index at or after `i` that holds no whitespace (or the length).
pub open spec fn skip_space(s: Seq<char>, i: int) -> int
    decreases s.len() - i,
{
    if i < 0 || i >= s.len() || !is_space(s[i]) {
        i
    } else {
        skip_space(s, i + 1)
    }
}

/// The first index at or after `i` that holds whitespace (or the length).
pub open spec fn skip_word(s: Seq<char>, i: int) -> int
    decreases s.len() - i,
{
    if i < 0 || i >= s.len() || is_space(s[i]) {
        i
    } else {
        skip_word(s, i + 1)
    }
}

/// The last index at or before `j` that follows no whitespace (or zero).
pub open spec fn skip_space_back(s: Seq<char>, j: int) -> int
    decreases j,
{
    if j <= 0 || j > s.len() || !is_space(s[j - 1]) {
        j
    } else {
        skip_space_back(s, j - 1)
    }
}

/// `s` without leading and trailing whitespace.
pub open spec fn trimmed(s: Seq<char>) -> Seq<char> {
    let a = skip_space(s, 0);
    let e = skip_space_back(s, s.len() as int);
    if a < e {
        s.subrange(a, e)
    } else {
        Seq::empty()
    }
}

/// Start and end of the second whitespace-delimited field of `s`, if it has two.
pub open spec fn second_field(s: Seq<char>) -> Option<(int, int)> {
    let a = skip_space(s, 0);
    let b = skip_word(s, a);
    let c = skip_space(s, b);
    if a >= s.len() || c >= s.len() {
        None
    } else {
        Some((c, skip_word(s, c)))
    }
}

pub open spec fn is_digit(c: char) -> bool {
    '0' <= c && c <= '9'
}

pub open spec fn digit_value(c: char) -> nat {
    (c as u32 - '0' as u32) as nat
}

/// The number that a sequence of decimal digits writes.
pub open spec fn digits_value(s: Seq<char>) -> nat
    decreases s.len(),
{
    if s.len() == 0 {
        0
    } else {
        10 * digits_value(s.drop_last()) + digit_value(s.last())
    }
}

/// The digits of an unsigned decimal: the text without one leading `+`.
pub open spec fn unsigned_digits(s: Seq<char>) -> Seq<char> {
    if s.len() > 0 && s[0] == '+' {
        s.drop_first()
    } else {
        s
    }
}

/// The value of an unsigned 64-bit decimal: an optional `+`, then at least one digit
/// and nothing else, with a value that fits.
pub open spec fn decimal_u64(s: Seq<char>) -> Option<u64> {
    let d = unsigned_digits(s);
    if d.len() > 0 && (forall|i: int| 0 <= i < d.len() ==> is_digit(#[trigger] d[i]))
        && digits_value(d) <= u64::MAX {
        Some(digits_value(d) as u64)
    } else {
        None
    }
}

/// The characters of the text, in order.
pub(crate) fn chars_of(s: &str) -> (r: Vec<char>)
    ensures
        r@ == s@,
{
    broadcast use vstd::string::group_string_axioms;

    let mut it = s.chars();
    let mut r: Vec<char> = Vec::new();
    loop
        invariant
            r@ + IteratorSpec::remaining(&it) == s@,
            it.obeys_prophetic_iter_laws(),
            IteratorSpec::decrease(&it) is Some,
        ensures
            r@ == s@,
        decreases IteratorSpec::decrease(&it)->0,
    {
        let ghost before = IteratorSpec::remaining(&it);
        match it.next() {
            Some(c) => {
                r.push(c);
                assert(r@ + IteratorSpec::remaining(&it) =~= s@) by {
                    assert(before =~= seq![c] + IteratorSpec::remaining(&it));
                }
            },
            None => {
                assert(r@ =~= s@);
                break;
            },
        }
    }
    r
}

/// Relies on String's FromIterator<&char> (collect): the characters of the range, in order.
#[verifier::external_body]
pub(crate) fn string_of_range(cs: &Vec<char>, from: usize, to: usize) -> (r: String)
    requires
        from <= to <= cs@.len(),
    ensures
        r@ == cs@.subrange(from as int, to as int),
{
    cs[from..to].iter().collect()
}

/// A match found from `from` starts there or later and lies within the text.
pub proof fn lemma_find_from_bounds(hay: Seq<char>, needle: Seq<char>, from: int)
    ensures
        find_from(hay, needle, from) matches Some(p) ==> from <= p && p + needle.len() <= hay.len(),
    decreases hay.len() + 1 - from,
{
    if !(from < 0 || from + needle.len() > hay.len()) && !occurs_at(hay, needle, from) {
        lemma_find_from_bounds(hay, needle, from + 1);
    }
}

/// Whether `needle` stands in `hay` at index `i`.
pub fn occurs_at_exec(hay: &Vec<char>, needle: &Vec<char>, i: usize) -> (r: bool)
    ensures
        r == occurs_at(hay@, needle@, i as int),
{
    if needle.len() > hay.len() || i > hay.len() - needle.len() {
        return false;
    }
    let mut k: usize = 0;
    while k < needle.len()
        invariant
            i + needle@.len() <= hay@.len() <= usize::MAX,
            k <= needle@.len(),
            forall|j: int| 0 <= j < k ==> hay@[i + j] == needle@[j],
        decreases needle@.len() - k,
    {
        assert(i + k < hay@.len());
        if hay[i + k] != needle[k] {
            assert(hay@.subrange(i as int, i + needle@.len())[k as int] != needle@[k as int]);
            return false;
        }
        k += 1;
    }
    assert(hay@.subrange(i as int, i + needle@.len()) =~= needle@);
    true
}

/// The first index at or after `from` where `needle` stands in `hay`.
pub fn find(hay: &Vec<char>, needle: &Vec<char>, from: usize) -> (r: Option<usize>)
    ensures
        r matches Some(p) ==> find_from(hay@, needle@, from as int) == Some(p as int),
        r is None ==> find_from(hay@, needle@, from as int) is None,
{
    if needle.len() > hay.len() {
        return None;
    }
    if needle.len() == 0 {
        if from <= hay.len() {
            assert(hay@.subrange(from as int, from as int) =~= needle@);
            return Some(from);
        }
        return None;
    }
    let last = hay.len() - needle.len();
    let mut i = from;
    while i <= last
        invariant
            last == hay@.len() - needle@.len(),
            1 <= needle@.len() <= hay@.len() <= usize::MAX,
            from <= i,
            find_from(hay@, needle@, from as int) == find_from(hay@, needle@, i as int),
        decreases last + 1 - i,
    {
        if occurs_at_exec(hay, needle, i) {
            return Some(i);
        }
        i += 1;
    }
    None
}

/// The first index at or after `i` that holds no whitespace (or the length).
pub fn skip_space_exec(s: &Vec<char>, i: usize) -> (r: usize)
    requires
        i <= s@.len(),
    ensures
        r as int == skip_space(s@, i as int),
        i <= r <= s@.len(),
{
    let mut j = i;
    while j < s.len() && space(s[j])
        invariant
            i <= j <= s@.len(),
            skip_space(s@, i as int) == skip_space(s@, j as int),
        decreases s@.len() - j,
    {
        j += 1;
    }
    j
}

/// The first index at or after `i` that holds whitespace (or the length).
pub fn skip_word_exec(s: &Vec<char>, i: usize) -> (r: usize)
    requires
        i <= s@.len(),
    ensures
        r as int == skip_word(s@, i as int),
        i <= r <= s@.len(),
{
    let mut j = i;
    while j < s.len() && !space(s[j])
        invariant
            i <= j <= s@.len(),
            skip_word(s@, i as int) == skip_word(s@, j as int),
        decreases s@.len() - j,
    {
        j += 1;
    }
    j
}

/// The last index at or before `j` that follows no whitespace (or zero).
pub fn skip_space_back_exec(s: &Vec<char>, j: usize) -> (r: usize)
    requires
        j <= s@.len(),
    ensures
        r as int == skip_space_back(s@, j as int),
        r <= j,
{
    let mut k = j;
    while k > 0 && space(s[k - 1])
        invariant
            k <= j <= s@.len(),
            skip_space_back(s@, j as int) == skip_space_back(s@, k as int),
        decreases k,
    {
        k -= 1;
    }
    k
}

/// Whether `s` holds nothing but whitespace.
pub fn is_blank(s: &str) -> (r: bool)
    ensures
        r == (trimmed(s@).len() == 0),
{
    let cs = chars_of(s);
    let a = skip_space_exec(&cs, 0);
    let e = skip_space_back_exec(&cs, cs.len());
    a >= e
}

proof fn lemma_digits_value_push(s: Seq<char>, c: char)
    ensures
        digits_value(s.push(c)) == 10 * digits_value(s) + digit_value(c),
{
    assert(s.push(c).drop_last() =~= s);
}

/// The value of the digits in `s[from..]`, when it is an unsigned decimal that fits.
pub fn parse_u64_digits(s: &Vec<char>, from: usize) -> (r: Option<u64>)
    requires
        from <= s@.len(),
    ensures
        r == decimal_u64(s@.subrange(from as int, s@.len() as int)),
{
    let ghost t = s@.subrange(from as int, s@.len() as int);
    let mut i = from;
    if i < s.len() && s[i] == '+' {
        i += 1;
    }
    let ghost d = s@.subrange(i as int, s@.len() as int);
    assert(unsigned_digits(t) =~= d);
    if i == s.len() {
        return None;
    }
    let start = i;
    let mut acc: u64 = 0;
    while i < s.len()
        invariant
            from <= start <= i <= s@.len(),
            d == s@.subrange(start as int, s@.len() as int),
            t == s@.subrange(from as int, s@.len() as int),
            unsigned_digits(t) == d,
            acc as nat == digits_value(s@.subrange(start as int, i as int)),
            forall|j: int| start <= j < i ==> is_digit(s@[j]),
        decreases s@.len() - i,
    {
        let c = s[i];
        proof {
            assert(s@.subrange(start as int, i + 1) =~= s@.subrange(start as int, i as int).push(c));
            lemma_digits_value_push(s@.subrange(start as int, i as int), c);
        }
        if !('0' <= c && c <= '9') {
            assert(d[i - start] == c);
            assert(!is_digit(d[i - start]));
            return None;
        }
        let dv = (c as u32 - '0' as u32) as u64;
        if acc > (u64::MAX - dv) / 10 {
            proof {
                assert(10 * (acc as int) + dv as int > u64::MAX) by (nonlinear_arith)
                    requires
                        acc as int > (u64::MAX - dv as int) / 10,
                        0 <= dv as int <= 9,
                ;
                lemma_prefix_value_bound(d, (i + 1 - start) as int);
                assert(s@.subrange(start as int, i + 1) =~= d.subrange(0, i + 1 - start));
            }
            return None;
        }
        acc = acc * 10 + dv;
        i += 1;
    }
    proof {
        assert(s@.subrange(start as int, i as int) =~= d);
    }
    Some(acc)
}

/// A prefix of a run of digits writes no more than the whole.
proof fn lemma_prefix_value_bound(d: Seq<char>, k: int)
    requires
        0 <= k <= d.len(),
    ensures
        digits_value(d.subrange(0, k)) <= digits_value(d),
    decreases d.len() - k,
{
    if k < d.len() {
        lemma_prefix_value_bound(d, k + 1);
        assert(d.subrange(0, k + 1).drop_last() =~= d.subrange(0, k));
    } else {
        assert(d.subrange(0, k) =~= d);
    }
}


/// The character of a decimal digit.
pub open spec fn digit_char(d: nat) -> char {
    ((d + 48) as u8) as char
}

/// The decimal text of a natural number, without leading zeros.
pub open spec fn decimal_text(n: nat) -> Seq<char>
    decreases n,
{
    if n < 10 {
        seq![digit_char(n)]
    } else {
        decimal_text(n / 10).push(digit_char(n % 10))
    }
}

/// The decimal text of an integer, with a minus sign when negative.
pub open spec fn signed_text(n: int) -> Seq<char> {
    if n < 0 {
        seq!['-'] + decimal_text((-n) as nat)
    } else {
        decimal_text(n as nat)
    }
}

fn push_decimal(n: u32, out: &mut Vec<char>)
    ensures
        final(out)@ == old(out)@ + decimal_text(n as nat),
    decreases n,
{
    let ghost o = out@;
    if n >= 10 {
        push_decimal(n / 10, out);
    }
    let c = ((n % 10) as u8 + 48u8) as char;
    out.push(c);
    assert(out@ =~= o + decimal_text(n as nat));
}

/// The decimal text of `n`.
pub fn decimal_string(n: i32) -> (r: String)
    ensures
        r@ == signed_text(n as int),
{
    let mut out: Vec<char> = Vec::new();
    if n < 0 {
        out.push('-');
        let m = (0i64 - n as i64) as u32;
        push_decimal(m, &mut out);
    } else {
        push_decimal(n as u32, &mut out);
        assert(out@ =~= signed_text(n as int));
    }
    string_of_range(&out, 0, out.len())
}



/// The index of the first line break at or after `i` (or the length).
pub open spec fn next_newline(t: Seq<char>, i: int) -> int
    decreases t.len() - i,
{
    if i < 0 || i >= t.len() || t[i] == '\n' {
        i
    } else {
        next_newline(t, i + 1)
    }
}

/// The line break found from `i` lies at or after `i`; short of the end it is a line break.
pub proof fn lemma_next_newline(t: Seq<char>, i: int)
    requires
        0 <= i <= t.len(),
    ensures
        i <= next_newline(t, i) <= t.len(),
        next_newline(t, i) < t.len() ==> t[next_newline(t, i)] == '\n',
    decreases t.len() - i,
{
    if i < t.len() && t[i] != '\n' {
        lemma_next_newline(t, i + 1);
    }
}

/// The line of `t` that starts at `pos`, without its line break or a carriage return
/// before it.
pub open spec fn line_at(t: Seq<char>, pos: int) -> Seq<char> {
    let l = t.subrange(pos, next_newline(t, pos));
    if l.len() > 0 && l.last() == '\r' {
        l.drop_last()
    } else {
        l
    }
}

/// The lines of `t` from index `pos` on; a final line break ends the last line.
pub open spec fn text_lines(t: Seq<char>, pos: int) -> Seq<Seq<char>>
    decreases t.len() - pos,
{
    if pos < 0 || pos >= t.len() {
        Seq::empty()
    } else {
        let e = next_newline(t, pos);
        let next = if e < pos || e >= t.len() {
            t.len() as int
        } else {
            e + 1
        };
        seq![line_at(t, pos)] + text_lines(t, next)
    }
}


/// The texts of a list of character vectors.
pub open spec fn line_views(v: Seq<Vec<char>>) -> Seq<Seq<char>> {
    v.map_values(|l: Vec<char>| l@)
}

/// The lines of a text, each without its line break or a carriage return before it.
pub fn split_lines(t: &Vec<char>) -> (r: Vec<Vec<char>>)
    ensures
        line_views(r@) == text_lines(t@, 0),
{
    let n = t.len();
    let mut r: Vec<Vec<char>> = Vec::new();
    let mut pos: usize = 0;
    while pos < n
        invariant
            n == t@.len(),
            pos <= n,
            text_lines(t@, 0) == line_views(r@) + text_lines(t@, pos as int),
        decreases n - pos,
    {
        let mut e = pos;
        while e < n && t[e] != '\n'
            invariant
                pos <= e <= n,
                n == t@.len(),
                next_newline(t@, pos as int) == next_newline(t@, e as int),
            decreases n - e,
        {
            e += 1;
        }
        let mut end = e;
        if end > pos && t[end - 1] == '\r' {
            end = end - 1;
        }
        let mut line: Vec<char> = Vec::new();
        let mut k = pos;
        while k < end
            invariant
                pos <= k <= end <= n,
                n == t@.len(),
                line@ == t@.subrange(pos as int, k as int),
            decreases end - k,
        {
            line.push(t[k]);
            k += 1;
            assert(line@ =~= t@.subrange(pos as int, k as int));
        }
        proof {
            assert(next_newline(t@, e as int) == e as int);
            let full = t@.subrange(pos as int, e as int);
            if end < e {
                assert(line@ =~= full.drop_last());
            } else {
                assert(line@ =~= full);
            }
            assert(line@ == line_at(t@, pos as int));
        }
        let ghost before = line_views(r@);
        r.push(line);
        proof {
            let next = if e >= n {
                n as int
            } else {
                e + 1
            };
            assert(line_views(r@) =~= before.push(line_at(t@, pos as int)));
            assert(text_lines(t@, pos as int) == seq![line_at(t@, pos as int)] + text_lines(t@, next));
            assert(before + text_lines(t@, pos as int) =~= line_views(r@) + text_lines(t@, next));
        }
        if e >= n {
            pos = n;
        } else {
            pos = e + 1;
        }
    }
    assert(line_views(r@) + text_lines(t@, pos as int) =~= line_views(r@));
    r
}

/// The first whitespace-delimited field of `s` (empty when there is none).
pub open spec fn first_field(s: Seq<char>) -> Seq<char> {
    let a = skip_space(s, 0);
    s.subrange(a, skip_word(s, a))
}

/// Whether the first whitespace-delimited field of `line` is `word`.
pub fn first_field_is(line: &Vec<char>, word: &Vec<char>) -> (r: bool)
    ensures
        r == (first_field(line@) == word@),
{
    let a = skip_space_exec(line, 0);
    let b = skip_word_exec(line, a);
    if b - a != word.len() {
        proof {
            if first_field(line@) == word@ {
                assert(first_field(line@).len() == b - a);
            }
        }
        return false;
    }
    let r = occurs_at_exec(line, word, a);
    r
}

} // verus!
