//! Character-level helpers shared by the rest of the crate.
//!
//! Every routine works on sequences of `char`s.  Strings are turned into
//! `Vec<char>` on the way in and back into `String` on the way out, so the
//! contracts can speak of `Seq<char>` throughout.

use vstd::prelude::*;

verus! {

/// `String::push` of the standard library: the string afterwards is the
/// string before with `c` appended, as its documentation says.
pub assume_specification[ String::push ](s: &mut String, c: char)
    ensures
        final(s)@ == old(s)@.push(c),
;

/// What `str::to_lowercase` of the standard library returns for `s`.
pub uninterp spec fn lowercased(s: Seq<char>) -> Seq<char>;

/// `str::to_lowercase` of the standard library.  Its result depends on the
/// characters of the string alone; the contract gives that result its name
/// and claims nothing else of it.
pub assume_specification[ str::to_lowercase ](s: &str) -> (r: String)
    ensures
        r@ == lowercased(s@),
;

/// The characters of `s`, in order.
pub fn chars_of(s: &str) -> (v: Vec<char>)
    ensures
        v@ == s@,
{
    broadcast use vstd::string::group_string_axioms;

    let mut v: Vec<char> = Vec::new();
    for c in it: s.chars()
        invariant
            it.seq() == s@,
            v@ == s@.take(it.index() as int),
    {
        v.push(c);
    }
    v
}

/// A string holding exactly the characters of `v`.
pub fn string_of(v: &Vec<char>) -> (s: String)
    ensures
        s@ == v@,
{
    let mut s = String::new();
    let mut i: usize = 0;
    while i < v.len()
        invariant
            i <= v.len(),
            s@ == v@.take(i as int),
        decreases v.len() - i,
    {
        s.push(v[i]);
        i += 1;
    }
    s
}

/// Whether `a` and `b` hold the same characters.
pub fn same_text(a: &str, b: &str) -> (same: bool)
    ensures
        same == (a@ == b@),
{
    let x = chars_of(a);
    let y = chars_of(b);
    if x.len() != y.len() {
        return false;
    }
    let mut i: usize = 0;
    while i < x.len()
        invariant
            i <= x.len(),
            x.len() == y.len(),
            x@ == a@,
            y@ == b@,
            forall|k: int| 0 <= k < i ==> x@[k] == y@[k],
        decreases x.len() - i,
    {
        if x[i] != y[i] {
            return false;
        }
        i += 1;
    }
    assert(x@ =~= y@);
    true
}

/// Whether `c` is Unicode white space (the `White_Space` property).
pub open spec fn is_space(c: char) -> bool {
    let n = c as u32;
    ||| 0x09 <= n <= 0x0d
    ||| n == 0x20
    ||| n == 0x85
    ||| n == 0xa0
    ||| n == 0x1680
    ||| 0x2000 <= n <= 0x200a
    ||| n == 0x2028
    ||| n == 0x2029
    ||| n == 0x202f
    ||| n == 0x205f
    ||| n == 0x3000
}

/// Decides [`is_space`].
pub fn is_whitespace(c: char) -> (b: bool)
    ensures
        b == is_space(c),
{
    let n: u32 = c as u32;
    (0x09 <= n && n <= 0x0d) || n == 0x20 || n == 0x85 || n == 0xa0 || n == 0x1680 || (0x2000 <= n
        && n <= 0x200a) || n == 0x2028 || n == 0x2029 || n == 0x202f || n == 0x205f || n == 0x3000
}

/// A class of characters, for counting runs.
#[derive(Clone, Copy)]
pub enum Class {
    /// White space.
    Space,
    /// Anything but white space.
    Word,
    /// One given character.
    Just(char),
    /// Anything but one given character.
    Not(char),
}

impl Class {
    /// Whether `c` belongs to the class.
    pub open spec fn has(self, c: char) -> bool {
        match self {
            Class::Space => is_space(c),
            Class::Word => !is_space(c),
            Class::Just(d) => c == d,
            Class::Not(d) => c != d,
        }
    }

    /// Decides [`Class::has`].
    pub fn holds(self, c: char) -> (b: bool)
        ensures
            b == self.has(c),
    {
        match self {
            Class::Space => is_whitespace(c),
            Class::Word => !is_whitespace(c),
            Class::Just(d) => c == d,
            Class::Not(d) => c != d,
        }
    }
}

/// How many characters at the front of `s` belong to `class` without a break.
pub open spec fn leading(s: Seq<char>, class: Class) -> nat
    decreases s.len(),
{
    if s.len() > 0 && class.has(s[0]) {
        1 + leading(s.drop_first(), class)
    } else {
        0
    }
}

/// `leading` never counts past the end, counts members only, and stops at
/// the first character outside the class.
pub proof fn lemma_leading(s: Seq<char>, class: Class)
    ensures
        leading(s, class) <= s.len(),
        forall|i: int| 0 <= i < leading(s, class) ==> class.has(#[trigger] s[i]),
        leading(s, class) < s.len() ==> !class.has(s[leading(s, class) as int]),
    decreases s.len(),
{
    if s.len() > 0 && class.has(s[0]) {
        let t = s.drop_first();
        lemma_leading(t, class);
        assert forall|i: int| 0 <= i < leading(s, class) implies class.has(#[trigger] s[i]) by {
            if i > 0 {
                assert(s[i] == t[i - 1]);
            }
        }
        if leading(s, class) < s.len() {
            assert(s[leading(s, class) as int] == t[leading(t, class) as int]);
        }
    }
}

/// A run of `n` members that ends at the end of `s`, or before a character
/// outside the class, is the leading run.
pub proof fn lemma_leading_is(s: Seq<char>, class: Class, n: nat)
    requires
        n <= s.len(),
        forall|i: int| 0 <= i < n ==> class.has(#[trigger] s[i]),
        n < s.len() ==> !class.has(s[n as int]),
    ensures
        leading(s, class) == n,
    decreases s.len(),
{
    if n > 0 {
        let t = s.drop_first();
        assert forall|i: int| 0 <= i < n - 1 implies class.has(#[trigger] t[i]) by {
            assert(t[i] == s[i + 1]);
        }
        lemma_leading_is(t, class, (n - 1) as nat);
    }
}

/// Counts the run of `class` that starts at index `from`.
pub fn count_leading(v: &Vec<char>, from: usize, class: Class) -> (n: usize)
    requires
        from <= v.len(),
    ensures
        n == leading(v@.skip(from as int), class),
        from + n <= v.len(),
{
    let mut j: usize = from;
    while j < v.len() && class.holds(v[j])
        invariant
            from <= j <= v.len(),
            forall|k: int| from <= k < j ==> class.has(#[trigger] v@[k]),
        decreases v.len() - j,
    {
        j += 1;
    }
    proof {
        let s = v@.skip(from as int);
        assert forall|i: int| 0 <= i < j - from implies class.has(#[trigger] s[i]) by {
            assert(s[i] == v@[from + i]);
        }
        lemma_leading_is(s, class, (j - from) as nat);
    }
    j - from
}

/// A copy of the characters of `v` from index `from` up to, not including, `to`.
pub fn slice_of(v: &Vec<char>, from: usize, to: usize) -> (r: Vec<char>)
    requires
        from <= to <= v.len(),
    ensures
        r@ == v@.subrange(from as int, to as int),
{
    let mut r: Vec<char> = Vec::new();
    let mut i: usize = from;
    while i < to
        invariant
            from <= i <= to <= v.len(),
            r@ == v@.subrange(from as int, i as int),
        decreases to - i,
    {
        r.push(v[i]);
        i += 1;
    }
    r
}

/// The words of `s`: its maximal runs of characters that are not white
/// space, from left to right.
pub open spec fn tokens(s: Seq<char>) -> Seq<Seq<char>>
    decreases s.len(),
    via tokens_decreases
{
    let rest = s.skip(leading(s, Class::Space) as int);
    let n = leading(rest, Class::Word);
    if n == 0 {
        Seq::empty()
    } else {
        seq![rest.take(n as int)] + tokens(rest.skip(n as int))
    }
}

#[via_fn]
proof fn tokens_decreases(s: Seq<char>) {
    lemma_leading(s, Class::Space);
    lemma_leading(s.skip(leading(s, Class::Space) as int), Class::Word);
}

/// The views of the items of `s`, in order.
pub open spec fn views<T: View>(s: Seq<T>) -> Seq<T::V> {
    s.map_values(|t: T| t@)
}

/// Splits `v` into its words.
pub fn split_words(v: &Vec<char>) -> (words: Vec<Vec<char>>)
    ensures
        views(words@) == tokens(v@),
{
    let mut words: Vec<Vec<char>> = Vec::new();
    let mut i: usize = 0;
    proof {
        assert(v@.skip(0) == v@);
        assert(views(words@) + tokens(v@) == tokens(v@));
    }
    loop
        invariant
            i <= v.len(),
            views(words@) + tokens(v@.skip(i as int)) == tokens(v@),
        ensures
            views(words@) == tokens(v@),
        decreases v.len() - i,
    {
        let a = count_leading(v, i, Class::Space);
        let start = i + a;
        let n = count_leading(v, start, Class::Word);
        proof {
            assert(v@.skip(i as int).skip(a as int) == v@.skip(start as int));
        }
        if n == 0 {
            break;
        }
        let word = slice_of(v, start, start + n);
        proof {
            let rest = v@.skip(start as int);
            assert(rest.take(n as int) == word@);
            assert(rest.skip(n as int) == v@.skip(start + n));
            assert(views(words@.push(word)) == views(words@) + seq![word@]);
        }
        words.push(word);
        i = start + n;
    }
    words
}

/// Whether `c` is one of the ten decimal digits.
pub open spec fn is_digit(c: char) -> bool {
    '0' <= c <= '9'
}

/// The value of the decimal digit `c`.
pub open spec fn digit_value(c: char) -> nat {
    (c as u32 - '0' as u32) as nat
}

/// The number that the decimal digits `s` write; 0 for no digits.
pub open spec fn digits_value(s: Seq<char>) -> nat
    decreases s.len(),
{
    if s.len() == 0 {
        0
    } else {
        digits_value(s.drop_last()) * 10 + digit_value(s.last())
    }
}

/// The digits of a number text: the text itself, without one leading `+`.
pub open spec fn unsigned_part(s: Seq<char>) -> Seq<char> {
    if s.len() > 0 && s[0] == '+' {
        s.drop_first()
    } else {
        s
    }
}

/// Whether `s` writes a number: an optional `+`, then one or more decimal
/// digits and nothing else.
pub open spec fn is_number(s: Seq<char>) -> bool {
    let d = unsigned_part(s);
    d.len() > 0 && forall|i: int| 0 <= i < d.len() ==> is_digit(#[trigger] d[i])
}

/// The `usize` that `s` writes, if it writes a number and that number fits.
pub open spec fn number_of(s: Seq<char>) -> Option<usize> {
    if is_number(s) && digits_value(unsigned_part(s)) <= usize::MAX {
        Some(digits_value(unsigned_part(s)) as usize)
    } else {
        None
    }
}

/// A longer digit string never writes a smaller number than its prefix.
pub proof fn lemma_digits_value_grows(s: Seq<char>, k: int)
    requires
        0 <= k <= s.len(),
    ensures
        digits_value(s.take(k)) <= digits_value(s),
    decreases s.len(),
{
    if k < s.len() {
        lemma_digits_value_grows(s.drop_last(), k);
        assert(s.drop_last().take(k) == s.take(k));
    } else {
        assert(s.take(k) == s);
    }
}

/// Reads `v` as a `usize`.
pub fn parse_usize(v: &Vec<char>) -> (r: Option<usize>)
    ensures
        r == number_of(v@),
{
    let start: usize = if v.len() > 0 && v[0] == '+' {
        1
    } else {
        0
    };
    let ghost d = unsigned_part(v@);
    assert(d == v@.skip(start as int));
    if start == v.len() {
        return None;
    }
    let mut acc: usize = 0;
    let mut i: usize = start;
    while i < v.len()
        invariant
            start <= i <= v.len(),
            d == unsigned_part(v@),
            d == v@.skip(start as int),
            forall|k: int| 0 <= k < i - start ==> is_digit(#[trigger] d[k]),
            acc == digits_value(d.take(i - start)),
        decreases v.len() - i,
    {
        let c = v[i];
        assert(c == d[i - start]);
        if !('0' <= c && c <= '9') {
            assert(!is_digit(d[i - start]));
            return None;
        }
        let digit: usize = (c as u32 - '0' as u32) as usize;
        proof {
            let next = d.take(i - start + 1);
            assert(next.drop_last() == d.take(i - start));
            assert(next.last() == c);
            assert(digits_value(next) == acc * 10 + digit);
            lemma_digits_value_grows(d, i - start + 1);
        }
        if acc > (usize::MAX - digit) / 10 {
            assert(acc * 10 + digit > usize::MAX);
            return None;
        }
        acc = acc * 10 + digit;
        i += 1;
    }
    assert(d.take(i - start) == d);
    Some(acc)
}

/// The character that writes the digit `d`.
pub open spec fn digit_char(d: nat) -> char {
    (48 + d) as u8 as char
}

/// `n` in decimal, without leading zeros.
pub open spec fn decimal(n: nat) -> Seq<char>
    decreases n,
{
    if n < 10 {
        seq![digit_char(n)]
    } else {
        decimal(n / 10).push(digit_char(n % 10))
    }
}

/// Appends `n` in decimal to `out`.
pub fn push_decimal(out: &mut Vec<char>, n: u128)
    ensures
        final(out)@ == old(out)@ + decimal(n as nat),
    decreases n,
{
    if n >= 10 {
        push_decimal(out, n / 10);
    }
    let d: u8 = (n % 10) as u8;
    out.push((48u8 + d) as char);
}

/// `n` copies of `c`.
pub open spec fn repeat(c: char, n: nat) -> Seq<char> {
    Seq::new(n, |i: int| c)
}

/// Appends `n` copies of `c` to `out`.
pub fn push_repeat(out: &mut Vec<char>, c: char, n: usize)
    ensures
        final(out)@ == old(out)@ + repeat(c, n as nat),
{
    let mut i: usize = 0;
    while i < n
        invariant
            i <= n,
            out@ == old(out)@ + repeat(c, i as nat),
        decreases n - i,
    {
        out.push(c);
        i += 1;
    }
}

/// Appends the characters of `more` to `out`.
pub fn push_all(out: &mut Vec<char>, more: &Vec<char>)
    ensures
        final(out)@ == old(out)@ + more@,
{
    let mut i: usize = 0;
    while i < more.len()
        invariant
            i <= more.len(),
            out@ == old(out)@ + more@.take(i as int),
        decreases more.len() - i,
    {
        out.push(more[i]);
        i += 1;
    }
    assert(more@.take(more.len() as int) == more@);
}

/// Appends the characters of `more` to `out`.
pub fn push_str(out: &mut Vec<char>, more: &str)
    ensures
        final(out)@ == old(out)@ + more@,
{
    let chars = chars_of(more);
    push_all(out, &chars);
}

/// `s` without every copy of `p` that stands at its front, one after the
/// other.  An empty `p` strips nothing.
pub open spec fn strip_all(s: Seq<char>, p: Seq<char>) -> Seq<char>
    decreases s.len(),
{
    if p.len() > 0 && p.is_prefix_of(s) {
        strip_all(s.skip(p.len() as int), p)
    } else {
        s
    }
}

/// Whether `p` stands in `v` at index `from`.
pub fn starts_with_at(v: &Vec<char>, from: usize, p: &Vec<char>) -> (b: bool)
    requires
        from <= v.len(),
    ensures
        b == p@.is_prefix_of(v@.skip(from as int)),
{
    if p.len() > v.len() - from {
        return false;
    }
    let ghost s = v@.skip(from as int);
    let mut i: usize = 0;
    while i < p.len()
        invariant
            i <= p.len() <= v.len() - from,
            s == v@.skip(from as int),
            forall|k: int| 0 <= k < i ==> p@[k] == #[trigger] s[k],
        decreases p.len() - i,
    {
        if v[from + i] != p[i] {
            assert(s.subrange(0, p.len() as int)[i as int] == s[i as int]);
            return false;
        }
        i += 1;
    }
    assert(p@ =~= s.subrange(0, p.len() as int));
    true
}

/// The index at which `v` goes on once every copy of `p` that stands at
/// index `from`, one after the other, has been passed.
pub fn skip_copies(v: &Vec<char>, from: usize, p: &Vec<char>) -> (to: usize)
    requires
        from <= v.len(),
    ensures
        from <= to <= v.len(),
        v@.skip(to as int) == strip_all(v@.skip(from as int), p@),
{
    let mut to: usize = from;
    if p.len() == 0 {
        return to;
    }
    while starts_with_at(v, to, p)
        invariant
            from <= to <= v.len(),
            p.len() > 0,
            strip_all(v@.skip(to as int), p@) == strip_all(v@.skip(from as int), p@),
        decreases v.len() - to,
    {
        assert(v@.skip(to as int).skip(p.len() as int) == v@.skip(to + p.len()));
        to += p.len();
    }
    to
}

/// `s`, filled up on the right with blanks to `width` characters.
pub open spec fn pad_right(s: Seq<char>, width: nat) -> Seq<char> {
    if s.len() >= width {
        s
    } else {
        s + repeat(' ', (width - s.len()) as nat)
    }
}

/// `s`, filled up on the left with `fill` to `width` characters.
pub open spec fn pad_left(s: Seq<char>, width: nat, fill: char) -> Seq<char> {
    if s.len() >= width {
        s
    } else {
        repeat(fill, (width - s.len()) as nat) + s
    }
}

/// Appends `text` to `out`, filled up on the right with blanks to `width`.
pub fn push_padded_right(out: &mut Vec<char>, text: &Vec<char>, width: usize)
    ensures
        final(out)@ == old(out)@ + pad_right(text@, width as nat),
{
    push_all(out, text);
    if text.len() < width {
        push_repeat(out, ' ', width - text.len());
    }
    assert(out@ == old(out)@ + pad_right(text@, width as nat));
}

/// Appends `text` to `out`, filled up on the left with `fill` to `width`.
pub fn push_padded_left(out: &mut Vec<char>, text: &Vec<char>, width: usize, fill: char)
    ensures
        final(out)@ == old(out)@ + pad_left(text@, width as nat, fill),
{
    if text.len() < width {
        push_repeat(out, fill, width - text.len());
    }
    push_all(out, text);
    assert(out@ == old(out)@ + pad_left(text@, width as nat, fill));
}

} // verus!
