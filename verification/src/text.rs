use vstd::prelude::*;
use vstd::string::*;

verus! {

/// The characters of each string in `v`.
pub open spec fn str_views(v: Seq<&str>) -> Seq<Seq<char>> {
    v.map_values(|w: &str| w@)
}

/// `s` begins with the character `c`.
pub open spec fn begins_with(s: Seq<char>, c: char) -> bool {
    s.len() > 0 && s[0] == c
}

/// `p` is a prefix of `s`.
pub open spec fn has_prefix(s: Seq<char>, p: Seq<char>) -> bool {
    p.len() <= s.len() && s.subrange(0, p.len() as int) == p
}

/// The pieces of `s` between the space characters, as `str::split(' ')`
/// yields them: there is always at least one piece, and two adjacent spaces
/// leave an empty piece between them.
pub open spec fn split_words(s: Seq<char>) -> Seq<Seq<char>>
    decreases s.len(),
{
    if s.len() == 0 {
        seq![Seq::empty()]
    } else {
        let prev = split_words(s.drop_last());
        if s.last() == ' ' {
            prev.push(Seq::empty())
        } else {
            prev.update(prev.len() - 1, prev.last().push(s.last()))
        }
    }
}

/// The words of `ws` joined with one space between each two.
pub open spec fn join_words(ws: Seq<Seq<char>>) -> Seq<char>
    decreases ws.len(),
{
    if ws.len() == 0 {
        Seq::empty()
    } else if ws.len() == 1 {
        ws[0]
    } else {
        join_words(ws.drop_last()) + seq![' '] + ws.last()
    }
}

/// Splitting always yields at least one piece.
pub proof fn lemma_split_nonempty(s: Seq<char>)
    ensures
        split_words(s).len() >= 1,
    decreases s.len(),
{
    if s.len() > 0 {
        lemma_split_nonempty(s.drop_last());
    }
}

/// Splitting a line on spaces and joining the pieces with spaces gives the
/// line back: no character is lost or added by the split.
pub proof fn lemma_join_split(s: Seq<char>)
    ensures
        join_words(split_words(s)) == s,
    decreases s.len(),
{
    if s.len() > 0 {
        let init = s.drop_last();
        let prev = split_words(init);
        lemma_split_nonempty(init);
        lemma_join_split(init);
        if s.last() == ' ' {
            let ws = prev.push(Seq::<char>::empty());
            assert(ws.drop_last() =~= prev);
            assert(init + seq![' '] + Seq::<char>::empty() =~= s);
        } else {
            let k = prev.len() - 1;
            let ws = prev.update(k, prev.last().push(s.last()));
            if prev.len() == 1 {
                assert(prev[0].push(s.last()) =~= s);
            } else {
                assert(ws.drop_last() =~= prev.drop_last());
                assert(join_words(prev.drop_last()) + seq![' '] + prev.last().push(s.last())
                    =~= (join_words(prev.drop_last()) + seq![' '] + prev.last()).push(s.last()));
                assert(init.push(s.last()) =~= s);
            }
        }
    }
}

/// A word without spaces is split into itself alone.
pub proof fn lemma_split_no_space(t: Seq<char>)
    requires
        !t.contains(' '),
    ensures
        split_words(t) == seq![t],
    decreases t.len(),
{
    if t.len() > 0 {
        let init = t.drop_last();
        assert(!init.contains(' ')) by {
            if init.contains(' ') {
                let i = choose|i: int| 0 <= i < init.len() && init[i] == ' ';
                assert(t[i] == ' ');
            }
        }
        lemma_split_no_space(init);
        assert(t[t.len() - 1] != ' ');
        assert(init.push(t.last()) =~= t);
        assert(seq![init].update(0, init.push(t.last())) =~= seq![t]);
    } else {
        assert(t =~= Seq::<char>::empty());
    }
}

/// Splitting at a space splits the two sides apart: the pieces of `s`, then
/// the pieces of `t`.
pub proof fn lemma_split_at_space(s: Seq<char>, t: Seq<char>)
    ensures
        split_words(s + seq![' '] + t) == split_words(s) + split_words(t),
    decreases t.len(),
{
    let u = s + seq![' '] + t;
    lemma_split_nonempty(s);
    if t.len() == 0 {
        assert(u.drop_last() =~= s);
        assert(split_words(s).push(Seq::empty()) =~= split_words(s) + seq![Seq::<char>::empty()]);
    } else {
        let ti = t.drop_last();
        assert(u.drop_last() =~= s + seq![' '] + ti);
        lemma_split_at_space(s, ti);
        lemma_split_nonempty(ti);
        let a = split_words(s);
        let b = split_words(ti);
        if t.last() == ' ' {
            assert((a + b).push(Seq::empty()) =~= a + b.push(Seq::empty()));
        } else {
            assert((a + b).update((a + b).len() - 1, (a + b).last().push(t.last())) =~= a
                + b.update(b.len() - 1, b.last().push(t.last())));
        }
    }
}

/// Returns whether the string `s` begins with the character `c`.
pub fn str_begins_with(s: &str, c: char) -> (r: bool)
    ensures
        r == begins_with(s@, c),
{
    let n = s.unicode_len();
    if n == 0 {
        false
    } else {
        s.get_char(0) == c
    }
}

/// Returns whether the strings `a` and `b` hold the same characters.
pub fn str_equal(a: &str, b: &str) -> (r: bool)
    ensures
        r == (a@ == b@),
{
    let n = a.unicode_len();
    if n != b.unicode_len() {
        return false;
    }
    let mut i: usize = 0;
    while i < n
        invariant
            n == a@.len(),
            n == b@.len(),
            i <= n,
            forall|j: int| 0 <= j < i ==> a@[j] == b@[j],
        decreases n - i,
    {
        if a.get_char(i) != b.get_char(i) {
            return false;
        }
        i = i + 1;
    }
    assert(a@ =~= b@);
    true
}

/// Returns whether `p` is a prefix of `s`.
pub fn str_has_prefix(s: &str, p: &str) -> (r: bool)
    ensures
        r == has_prefix(s@, p@),
{
    let n = p.unicode_len();
    if n > s.unicode_len() {
        return false;
    }
    let mut i: usize = 0;
    while i < n
        invariant
            n == p@.len(),
            n <= s@.len(),
            i <= n,
            forall|j: int| 0 <= j < i ==> s@[j] == p@[j],
        decreases n - i,
    {
        if s.get_char(i) != p.get_char(i) {
            assert(s@.subrange(0, n as int)[i as int] != p@[i as int]);
            return false;
        }
        i = i + 1;
    }
    assert(s@.subrange(0, n as int) =~= p@);
    true
}

/// Returns whether the character `c` occurs in `s`.
pub fn str_contains_char(s: &str, c: char) -> (r: bool)
    ensures
        r == s@.contains(c),
{
    let n = s.unicode_len();
    let mut i: usize = 0;
    while i < n
        invariant
            n == s@.len(),
            i <= n,
            forall|j: int| 0 <= j < i ==> s@[j] != c,
        decreases n - i,
    {
        if s.get_char(i) == c {
            assert(s@[i as int] == c);
            return true;
        }
        i = i + 1;
    }
    false
}

/// Splits `s` on every space character, keeping empty pieces.
pub fn split_on_spaces<'a>(s: &'a str) -> (words: Vec<&'a str>)
    ensures
        str_views(words@) == split_words(s@),
{
    let n = s.unicode_len();
    let mut words: Vec<&'a str> = Vec::new();
    let mut start: usize = 0;
    let mut i: usize = 0;
    assert(s@.take(0) =~= Seq::<char>::empty());
    assert(str_views(words@).push(s@.subrange(0, 0)) =~= split_words(s@.take(0)));
    while i < n
        invariant
            n == s@.len(),
            start <= i <= n,
            str_views(words@).push(s@.subrange(start as int, i as int)) == split_words(
                s@.take(i as int),
            ),
        decreases n - i,
    {
        let ghost prev = str_views(words@).push(s@.subrange(start as int, i as int));
        assert(s@.take(i + 1).drop_last() =~= s@.take(i as int));
        if s.get_char(i) == ' ' {
            let w = s.substring_char(start, i);
            let ghost before = words@;
            words.push(w);
            assert(str_views(words@) =~= str_views(before).push(w@));
            start = i + 1;
            assert(s@.subrange(start as int, (i + 1) as int) =~= Seq::<char>::empty());
            assert(str_views(words@).push(s@.subrange(start as int, (i + 1) as int))
                =~= prev.push(Seq::empty()));
        } else {
            assert(s@.subrange(start as int, (i + 1) as int) =~= s@.subrange(
                start as int,
                i as int,
            ).push(s@[i as int]));
            assert(str_views(words@).push(s@.subrange(start as int, (i + 1) as int))
                =~= prev.update(prev.len() - 1, prev.last().push(s@[i as int])));
        }
        i = i + 1;
    }
    let w = s.substring_char(start, n);
    let ghost before = words@;
    words.push(w);
    assert(str_views(words@) =~= str_views(before).push(w@));
    assert(s@.take(n as int) =~= s@);
    words
}

/// Appends the character `c` to `s`.
///
/// Trusted: a call of std's `String::push`, whose documentation says that it
/// appends the given char to the end of the string.
#[verifier::external_body]
pub(crate) fn push_char(s: &mut String, c: char)
    ensures
        final(s)@ == old(s)@.push(c),
{
    s.push(c);
}

/// The character of the decimal digit `d`.
pub open spec fn digit_char(d: nat) -> char {
    if d == 0 { '0' }
    else if d == 1 { '1' }
    else if d == 2 { '2' }
    else if d == 3 { '3' }
    else if d == 4 { '4' }
    else if d == 5 { '5' }
    else if d == 6 { '6' }
    else if d == 7 { '7' }
    else if d == 8 { '8' }
    else { '9' }
}

/// The decimal digits of `n`, most significant first, with no leading zero.
pub open spec fn decimal(n: nat) -> Seq<char>
    decreases n,
{
    if n < 10 {
        seq![digit_char(n)]
    } else {
        decimal(n / 10).push(digit_char(n % 10))
    }
}

fn digit_of(d: u64) -> (c: char)
    requires
        d < 10,
    ensures
        c == digit_char(d as nat),
{
    if d == 0 { '0' }
    else if d == 1 { '1' }
    else if d == 2 { '2' }
    else if d == 3 { '3' }
    else if d == 4 { '4' }
    else if d == 5 { '5' }
    else if d == 6 { '6' }
    else if d == 7 { '7' }
    else if d == 8 { '8' }
    else { '9' }
}

/// Appends the decimal digits of `n` to `out`.
pub fn push_decimal(out: &mut String, n: u64)
    ensures
        final(out)@ == old(out)@ + decimal(n as nat),
    decreases n,
{
    if n >= 10 {
        push_decimal(out, n / 10);
    }
    push_char(out, digit_of(n % 10));
    assert(final(out)@ =~= old(out)@ + decimal(n as nat));
}

/// `n` space characters.
pub open spec fn spaces(n: nat) -> Seq<char> {
    Seq::new(n, |i: int| ' ')
}

/// `s` preceded by spaces up to `width` characters, as `{:>width}` renders it.
pub open spec fn pad_left(s: Seq<char>, width: nat) -> Seq<char> {
    if s.len() >= width { s } else { spaces((width - s.len()) as nat) + s }
}

/// `s` followed by spaces up to `width` characters, as `{:width}` renders a string.
pub open spec fn pad_right(s: Seq<char>, width: nat) -> Seq<char> {
    if s.len() >= width { s } else { s + spaces((width - s.len()) as nat) }
}

/// Appends `count` spaces to `out`.
pub fn push_spaces(out: &mut String, count: usize)
    ensures
        final(out)@ == old(out)@ + spaces(count as nat),
{
    let mut i: usize = 0;
    while i < count
        invariant
            i <= count,
            out@ == old(out)@ + spaces(i as nat),
        decreases count - i,
    {
        push_char(out, ' ');
        assert(old(out)@ + spaces((i + 1) as nat) =~= (old(out)@ + spaces(i as nat)).push(' '));
        i = i + 1;
    }
}

/// Appends `s` to `out`.
pub fn push_str(out: &mut String, s: &str)
    ensures
        final(out)@ == old(out)@ + s@,
{
    out.append(s);
}


/// The value of a decimal digit character (0 for any other character).
pub open spec fn digit_value(c: char) -> int {
    if '0' <= c && c <= '9' {
        c as int - '0' as int
    } else {
        0
    }
}

/// Whether `c` is one of the ten decimal digit characters.
pub open spec fn is_digit(c: char) -> bool {
    '0' <= c && c <= '9'
}

/// The number that a string of digits reads as in base 10.
pub open spec fn numeral_value(s: Seq<char>) -> int
    decreases s.len(),
{
    if s.len() == 0 {
        0
    } else {
        numeral_value(s.drop_last()) * 10 + digit_value(s.last())
    }
}

/// Each digit character stands for its own value.
proof fn lemma_digit(k: nat)
    requires
        k < 10,
    ensures
        is_digit(digit_char(k)),
        digit_value(digit_char(k)) == k,
{
}

/// The decimal digits of `n` read back as `n`: they are all digits, there is
/// at least one, the first is `0` only for zero itself, and read in base 10
/// they give `n`.
pub proof fn lemma_decimal_reads_back(n: nat)
    ensures
        decimal(n).len() >= 1,
        forall|i: int| 0 <= i < decimal(n).len() ==> is_digit(#[trigger] decimal(n)[i]),
        decimal(n)[0] == '0' ==> n == 0,
        numeral_value(decimal(n)) == n,
    decreases n,
{
    lemma_digit((n % 10) as nat);
    if n < 10 {
        vstd::arithmetic::div_mod::lemma_small_mod(n, 10);
        assert(decimal(n).drop_last() =~= Seq::<char>::empty());
        assert(numeral_value(decimal(n)) == numeral_value(Seq::<char>::empty()) * 10 + digit_value(digit_char(n)));
        assert(numeral_value(decimal(n)) == n);
    } else {
        lemma_decimal_reads_back(n / 10);
        vstd::arithmetic::div_mod::lemma_fundamental_div_mod(n as int, 10);
        let d = decimal(n);
        assert(d.drop_last() =~= decimal(n / 10));
        assert(numeral_value(d) == numeral_value(decimal(n / 10)) * 10 + (n % 10));
        assert(numeral_value(d) == n);
        assert forall|i: int| 0 <= i < d.len() implies is_digit(#[trigger] d[i]) by {
            if i < d.len() - 1 {
                assert(d[i] == decimal(n / 10)[i]);
            }
        }
        assert(d[0] == decimal(n / 10)[0]);
    }
}

/// A number below ten thousand million has at most ten decimal digits, and
/// one of at least ten has at least two: the numeral grows with the number.
pub proof fn lemma_decimal_length(n: nat)
    ensures
        n < 10 <==> decimal(n).len() == 1,
        decimal(n).len() <= decimal(n / 10).len() + 1,
    decreases n,
{
    if n >= 10 {
        lemma_decimal_reads_back(n / 10);
    }
}

/// Left padding keeps the text as its tail, fills the front with spaces, and
/// makes the whole at least `width` long.
pub proof fn lemma_pad_left(s: Seq<char>, width: nat)
    ensures
        pad_left(s, width).len() == if s.len() >= width { s.len() } else { width },
        pad_left(s, width).subrange(pad_left(s, width).len() - s.len(), pad_left(s, width).len() as int) == s,
        forall|i: int| 0 <= i < pad_left(s, width).len() - s.len() ==> #[trigger] pad_left(s, width)[i] == ' ',
{
    let p = pad_left(s, width);
    assert(p.subrange(p.len() - s.len(), p.len() as int) =~= s);
}

/// Right padding keeps the text as its head, fills the end with spaces, and
/// makes the whole at least `width` long.
pub proof fn lemma_pad_right(s: Seq<char>, width: nat)
    ensures
        pad_right(s, width).len() == if s.len() >= width { s.len() } else { width },
        pad_right(s, width).subrange(0, s.len() as int) == s,
        forall|i: int| s.len() <= i < pad_right(s, width).len() ==> #[trigger] pad_right(s, width)[i] == ' ',
{
    let p = pad_right(s, width);
    assert(p.subrange(0, s.len() as int) =~= s);
}

} // verus!
