//! Plain text operations on strings, stated over their characters.

use vstd::prelude::*;
use vstd::string::*;

verus! {

/// `String::push` appends the character to the end of the string.
pub assume_specification[ String::push ](s: &mut String, c: char)
    ensures
        final(s)@ == old(s)@.push(c),
;

/// The characters of a text that may be absent.
pub open spec fn optional_text(text: Option<String>) -> Option<Seq<char>> {
    match text {
        Some(text) => Some(text@),
        None => None,
    }
}

/// The lowercase form that `str::to_lowercase` gives a text.
pub uninterp spec fn lowercase(text: Seq<char>) -> Seq<char>;

/// `str::to_lowercase` maps a text to its Unicode lowercase form, which depends on the text alone.
/// On a text of ASCII characters that form is the ASCII one. A character without case stays as it is
/// and one with case turns into small letters, so a form that is blank is that of a blank text.
pub assume_specification[ str::to_lowercase ](s: &str) -> (r: String)
    ensures
        r@ == lowercase(s@),
        is_ascii(s) ==> r@ == ascii_lowercase(s@),
        blank(r@) ==> blank(s@),
;

/// Whether `c` has the Unicode property White_Space.
pub open spec fn white_space(c: char) -> bool {
    let n = c as u32;
    ||| 0x09 <= n <= 0x0d
    ||| n == 0x20
    ||| n == 0x85
    ||| n == 0xa0
    ||| n == 0x1680
    ||| 0x2000 <= n <= 0x200a
    ||| n == 0x2028
    ||| n == 0x2029
    ||| n == 0x202f
    ||| n == 0x205f
    ||| n == 0x3000
}

/// Tells whether a character has the Unicode property White_Space.
pub fn is_white_space(c: char) -> (r: bool)
    ensures
        r == white_space(c),
{
    let n: u32 = c as u32;
    (0x09 <= n && n <= 0x0d) || n == 0x20 || n == 0x85 || n == 0xa0 || n == 0x1680 || (0x2000 <= n
        && n <= 0x200a) || n == 0x2028 || n == 0x2029 || n == 0x202f || n == 0x205f || n == 0x3000
}

/// `s` without its leading white space.
pub open spec fn trimmed_start(s: Seq<char>) -> Seq<char>
    decreases s.len(),
{
    if s.len() > 0 && white_space(s.first()) {
        trimmed_start(s.drop_first())
    } else {
        s
    }
}

/// `s` without its trailing white space.
pub open spec fn trimmed_end(s: Seq<char>) -> Seq<char>
    decreases s.len(),
{
    if s.len() > 0 && white_space(s.last()) {
        trimmed_end(s.drop_last())
    } else {
        s
    }
}

/// `s` without white space at either end.
pub open spec fn trimmed(s: Seq<char>) -> Seq<char> {
    trimmed_end(trimmed_start(s))
}

/// Whether nothing but white space stands in `s`.
pub open spec fn blank(s: Seq<char>) -> bool {
    forall|i: int| 0 <= i < s.len() ==> white_space(#[trigger] s[i])
}

/// A text is blank exactly when trimming leaves nothing of it.
pub proof fn lemma_blank_trims_to_nothing(s: Seq<char>)
    ensures
        blank(s) <==> trimmed(s).len() == 0,
    decreases s.len(),
{
    if s.len() > 0 && white_space(s.first()) {
        lemma_blank_trims_to_nothing(s.drop_first());
        let rest = s.drop_first();
        if blank(rest) {
            assert forall|i: int| 0 <= i < s.len() implies white_space(#[trigger] s[i]) by {
                if i > 0 {
                    assert(s[i] == rest[i - 1]);
                }
            }
        }
        if blank(s) {
            assert forall|i: int| 0 <= i < rest.len() implies white_space(#[trigger] rest[i]) by {
                assert(rest[i] == s[i + 1]);
            }
        }
    } else if s.len() > 0 {
        assert(!blank(s)) by {
            assert(!white_space(s[0]));
        }
        lemma_trimmed_end_keeps_first(s);
    }
}

/// Trimming the end of a text whose first character is no white space keeps that character.
proof fn lemma_trimmed_end_keeps_first(s: Seq<char>)
    requires
        s.len() > 0,
        !white_space(s.first()),
    ensures
        trimmed_end(s).len() > 0,
        trimmed_end(s).first() == s.first(),
    decreases s.len(),
{
    if white_space(s.last()) {
        assert(s.drop_last().first() == s.first());
        lemma_trimmed_end_keeps_first(s.drop_last());
    }
}

/// Trimming the end of a text leaves no white space there.
proof fn lemma_trimmed_end_ends(s: Seq<char>)
    ensures
        trimmed_end(s).len() > 0 ==> !white_space(trimmed_end(s).last()),
    decreases s.len(),
{
    if s.len() > 0 && white_space(s.last()) {
        lemma_trimmed_end_ends(s.drop_last());
    }
}

/// A trimmed text neither begins nor ends with white space.
pub proof fn lemma_trimmed_ends(s: Seq<char>)
    ensures
        trimmed(s).len() > 0 ==> !white_space(trimmed(s).first()) && !white_space(
            trimmed(s).last(),
        ),
    decreases s.len(),
{
    if s.len() > 0 && white_space(s.first()) {
        lemma_trimmed_ends(s.drop_first());
    } else if s.len() > 0 {
        lemma_trimmed_end_keeps_first(s);
        lemma_trimmed_end_ends(s);
    }
}

/// The characters of a text, one by one.
pub fn characters(s: &str) -> (r: Vec<char>)
    ensures
        r@ == s@,
{
    let mut out: Vec<char> = Vec::new();
    for c in it: s.chars()
        invariant
            it.seq() == s@,
            out@ == s@.take(it.index() as int),
    {
        out.push(c);
    }
    assert(s@.take(s@.len() as int) == s@);
    out
}

/// Removes the white space at both ends.
pub fn trim(s: &str) -> (r: &str)
    ensures
        r@ == trimmed(s@),
{
    let chars = characters(s);
    let mut from: usize = 0;
    assert(s@.subrange(0, s@.len() as int) == s@);
    while from < chars.len() && is_white_space(chars[from])
        invariant
            chars@ == s@,
            from <= chars@.len(),
            trimmed_start(s@) == trimmed_start(s@.subrange(from as int, s@.len() as int)),
        ensures
            from <= chars@.len(),
            trimmed_start(s@) == s@.subrange(from as int, s@.len() as int),
        decreases chars.len() - from,
    {
        assert(s@.subrange(from as int, s@.len() as int).drop_first() == s@.subrange(
            from + 1,
            s@.len() as int,
        ));
        from = from + 1;
    }
    let mut to: usize = chars.len();
    while to > from && is_white_space(chars[to - 1])
        invariant
            chars@ == s@,
            from <= to <= chars@.len(),
            trimmed(s@) == trimmed_end(s@.subrange(from as int, to as int)),
        ensures
            from <= to <= chars@.len(),
            trimmed(s@) == s@.subrange(from as int, to as int),
        decreases to - from,
    {
        assert(s@.subrange(from as int, to as int).drop_last() == s@.subrange(
            from as int,
            to - 1,
        ));
        to = to - 1;
    }
    s.substring_char(from, to)
}

/// Tells whether a text holds nothing but white space.
pub fn is_blank(s: &str) -> (r: bool)
    ensures
        r == blank(s@),
{
    proof {
        lemma_blank_trims_to_nothing(s@);
    }
    trim(s).is_empty()
}

/// `c`, with an ASCII capital letter turned into its small one.
pub open spec fn ascii_lowercase_char(c: char) -> char {
    if 'A' <= c <= 'Z' {
        ((c as u8) + 32) as char
    } else {
        c
    }
}

/// `s`, with its ASCII capital letters turned into small ones.
pub open spec fn ascii_lowercase(s: Seq<char>) -> Seq<char> {
    s.map_values(|c: char| ascii_lowercase_char(c))
}

/// Turns ASCII capital letters into small ones and keeps every other character.
pub fn to_ascii_lowercase(s: &str) -> (r: String)
    ensures
        r@ == ascii_lowercase(s@),
{
    let chars = characters(s);
    let mut out = String::new();
    let mut i: usize = 0;
    while i < chars.len()
        invariant
            chars@ == s@,
            i <= chars@.len(),
            out@ == ascii_lowercase(s@.take(i as int)),
        decreases chars.len() - i,
    {
        let c = chars[i];
        let lower = if c >= 'A' && c <= 'Z' {
            ((c as u8) + 32) as char
        } else {
            c
        };
        out.push(lower);
        proof {
            assert(s@.take(i + 1) == s@.take(i as int).push(c));
            assert(ascii_lowercase(s@.take(i + 1)) =~= ascii_lowercase(s@.take(i as int)).push(lower));
        }
        i = i + 1;
    }
    assert(s@.take(s@.len() as int) == s@);
    out
}

/// Tells whether two texts are the same.
pub fn same_text(a: &str, b: &str) -> (r: bool)
    ensures
        r == (a@ == b@),
{
    a.to_owned() == b.to_owned()
}

/// `s` without the slashes it ends in.
pub open spec fn without_trailing_slashes(s: Seq<char>) -> Seq<char>
    decreases s.len(),
{
    if s.len() > 0 && s.last() == '/' {
        without_trailing_slashes(s.drop_last())
    } else {
        s
    }
}

/// Removes every slash at the end.
pub fn trim_end_slashes(s: &str) -> (r: &str)
    ensures
        r@ == without_trailing_slashes(s@),
{
    let chars = characters(s);
    let mut to: usize = chars.len();
    assert(s@.take(to as int) == s@);
    while to > 0 && chars[to - 1] == '/'
        invariant
            chars@ == s@,
            to <= chars@.len(),
            without_trailing_slashes(s@) == without_trailing_slashes(s@.take(to as int)),
        ensures
            to <= chars@.len(),
            without_trailing_slashes(s@) == s@.take(to as int),
        decreases to,
    {
        assert(s@.take(to as int).drop_last() == s@.take(to - 1));
        to = to - 1;
    }
    s.substring_char(0, to)
}

/// The part of `s` in front of the first `c`, or all of `s` where it has none.
pub open spec fn before(s: Seq<char>, c: char) -> Seq<char>
    decreases s.len(),
{
    if s.len() == 0 || s.first() == c {
        Seq::empty()
    } else {
        seq![s.first()] + before(s.drop_first(), c)
    }
}

/// A text without `c` in front of `c` is what stands before the first `c`.
pub proof fn lemma_before_splits(head: Seq<char>, c: char, tail: Seq<char>)
    requires
        !head.contains(c),
    ensures
        before(head + seq![c] + tail, c) == head,
        before(head, c) == head,
    decreases head.len(),
{
    if head.len() > 0 {
        let rest = head.drop_first();
        assert(head[0] != c);
        assert forall|x: char| rest.contains(x) implies head.contains(x) by {
            let i = choose|i: int| 0 <= i < rest.len() && rest[i] == x;
            assert(head[i + 1] == x);
        }
        lemma_before_splits(rest, c, tail);
        assert((head + seq![c] + tail).drop_first() == rest + seq![c] + tail);
        assert(seq![head.first()] + rest == head);
    }
}

/// What `before` gives on a text whose first `n` characters are not `c`.
proof fn lemma_before_at(s: Seq<char>, c: char, n: int)
    requires
        0 <= n <= s.len(),
        forall|i: int| 0 <= i < n ==> s[i] != c,
        n == s.len() || s[n] == c,
    ensures
        before(s, c) == s.take(n),
    decreases s.len(),
{
    if n == 0 {
        assert(s.take(0) =~= Seq::empty());
    } else {
        assert forall|i: int| 0 <= i < n - 1 implies s.drop_first()[i] != c by {
            assert(s.drop_first()[i] == s[i + 1]);
        }
        lemma_before_at(s.drop_first(), c, n - 1);
        assert(seq![s.first()] + s.drop_first().take(n - 1) =~= s.take(n));
    }
}

/// Gives the part of a text in front of the first `c`, or all of it where it has none.
pub fn take_before(s: &str, c: char) -> (r: &str)
    ensures
        r@ == before(s@, c),
{
    let chars = characters(s);
    let mut n: usize = 0;
    while n < chars.len() && chars[n] != c
        invariant
            chars@ == s@,
            n <= chars@.len(),
            forall|i: int| 0 <= i < n ==> s@[i] != c,
        ensures
            n <= chars@.len(),
            n == chars@.len() || s@[n as int] == c,
            forall|i: int| 0 <= i < n ==> s@[i] != c,
        decreases chars.len() - n,
    {
        n = n + 1;
    }
    proof {
        lemma_before_at(s@, c, n as int);
    }
    s.substring_char(0, n)
}

/// The pieces of `s` between the separators, one more than there are separators.
pub open spec fn pieces(s: Seq<char>, separator: char) -> Seq<Seq<char>>
    decreases s.len(),
{
    if s.len() == 0 {
        seq![Seq::empty()]
    } else {
        let front = pieces(s.drop_last(), separator);
        if s.last() == separator {
            front.push(Seq::empty())
        } else {
            front.drop_last().push(front.last().push(s.last()))
        }
    }
}

/// The characters of each string of a list.
pub open spec fn texts(list: Seq<String>) -> Seq<Seq<char>> {
    list.map_values(|s: String| s@)
}

/// Splits a text at every separator.
pub fn split(s: &str, separator: char) -> (r: Vec<String>)
    ensures
        texts(r@) == pieces(s@, separator),
{
    let chars = characters(s);
    let mut done: Vec<String> = Vec::new();
    let mut current = String::new();
    let mut i: usize = 0;
    assert(texts(done@).push(current@) =~= pieces(s@.take(0), separator));
    while i < chars.len()
        invariant
            chars@ == s@,
            i <= chars@.len(),
            texts(done@).push(current@) == pieces(s@.take(i as int), separator),
        decreases chars.len() - i,
    {
        let c = chars[i];
        let ghost front = texts(done@).push(current@);
        let ghost last = current@;
        let ghost before_done = done@;
        assert(s@.take(i + 1).drop_last() == s@.take(i as int));
        assert(s@.take(i + 1).last() == c);
        assert(front.last() == last);
        assert(front.drop_last() =~= texts(before_done));
        if c == separator {
            done.push(current);
            current = String::new();
            assert(texts(done@) =~= front);
        } else {
            current.push(c);
        }
        i = i + 1;
    }
    assert(s@.take(s@.len() as int) == s@);
    let ghost all = texts(done@).push(current@);
    done.push(current);
    assert(texts(done@) =~= all);
    done
}

/// `s` with each `c` replaced by `with`.
pub open spec fn replaced(s: Seq<char>, c: char, with: Seq<char>) -> Seq<char>
    decreases s.len(),
{
    if s.len() == 0 {
        Seq::empty()
    } else {
        replaced(s.drop_last(), c, with) + (if s.last() == c {
            with
        } else {
            seq![s.last()]
        })
    }
}

/// Replaces each `c` by a text.
pub fn replace_char(s: &str, c: char, with: &str) -> (r: String)
    ensures
        r@ == replaced(s@, c, with@),
{
    let chars = characters(s);
    let mut out = String::new();
    let mut i: usize = 0;
    while i < chars.len()
        invariant
            chars@ == s@,
            i <= chars@.len(),
            out@ == replaced(s@.take(i as int), c, with@),
        decreases chars.len() - i,
    {
        let current = chars[i];
        assert(s@.take(i + 1).drop_last() == s@.take(i as int));
        if current == c {
            out.append(with);
        } else {
            let ghost earlier = out@;
            out.push(current);
            assert(out@ =~= earlier + seq![current]);
        }
        i = i + 1;
    }
    assert(s@.take(s@.len() as int) == s@);
    out
}

/// The decimal digit for `n`.
pub open spec fn digit(n: nat) -> char {
    (48 + n) as char
}

/// `n` in decimal notation, without leading zeros.
pub open spec fn decimal(n: nat) -> Seq<char>
    decreases n,
{
    if n < 10 {
        seq![digit(n)]
    } else {
        decimal(n / 10).push(digit(n % 10))
    }
}

/// Writes a number in decimal notation.
pub fn to_decimal(n: u64) -> (r: String)
    ensures
        r@ == decimal(n as nat),
    decreases n,
{
    if n < 10 {
        let mut out = String::new();
        out.push((48u8 + n as u8) as char);
        assert(out@ =~= seq![digit(n as nat)]);
        out
    } else {
        let mut out = to_decimal(n / 10);
        out.push((48u8 + (n % 10) as u8) as char);
        out
    }
}

/// Appends one text to another.
pub fn joined(a: &str, b: &str) -> (r: String)
    ensures
        r@ == a@ + b@,
{
    let mut out = a.to_owned();
    out.append(b);
    out
}

/// `std::str::from_utf8`: the text that bytes encode in UTF-8, and nothing where they are not UTF-8.
#[verifier::external_body]
fn utf8_text(bytes: &[u8]) -> (r: Option<&str>)
    ensures
        match r {
            Some(text) => vstd::utf8::valid_utf8(bytes@) && text@ == vstd::utf8::decode_utf8(bytes@),
            None => !vstd::utf8::valid_utf8(bytes@),
        },
{
    std::str::from_utf8(bytes).ok()
}

/// The text that bytes encode in UTF-8, without the white space around it.
pub open spec fn trimmed_utf8(bytes: Seq<u8>) -> Option<Seq<char>> {
    if vstd::utf8::valid_utf8(bytes) {
        Some(trimmed(vstd::utf8::decode_utf8(bytes)))
    } else {
        None
    }
}

/// Reads bytes as UTF-8 and takes off the white space around the text.
pub fn trim_utf8(bytes: &[u8]) -> (r: Option<&str>)
    ensures
        match r {
            Some(text) => trimmed_utf8(bytes@) == Some(text@),
            None => trimmed_utf8(bytes@) is None,
        },
{
    match utf8_text(bytes) {
        Some(text) => Some(trim(text)),
        None => None,
    }
}

}
