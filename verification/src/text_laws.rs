//! What the text operations are for, stated over characters.

use vstd::prelude::*;
use vstd::string::*;

verus! {

/// Trimming takes off the white space around a text and nothing else: of white space, a text that
/// has none at its ends, and white space again, it gives that text.
pub proof fn law_trimming_keeps_the_text(a: Seq<char>, t: Seq<char>, b: Seq<char>)
    requires
        forall|i: int| 0 <= i < a.len() ==> crate::text::white_space(#[trigger] a[i]),
        forall|i: int| 0 <= i < b.len() ==> crate::text::white_space(#[trigger] b[i]),
        t.len() > 0 ==> !crate::text::white_space(t[0]) && !crate::text::white_space(
            t[t.len() - 1],
        ),
    ensures
        crate::text::trimmed(a + t + b) == t,
    decreases a.len() + b.len(),
{
    let s = a + t + b;
    if a.len() > 0 {
        assert(s.first() == a[0]);
        assert(s.drop_first() =~= a.drop_first() + t + b);
        assert forall|i: int| 0 <= i < a.drop_first().len() implies crate::text::white_space(
            #[trigger] a.drop_first()[i],
        ) by {
            assert(a.drop_first()[i] == a[i + 1]);
        }
        law_trimming_keeps_the_text(a.drop_first(), t, b);
        assert(crate::text::trimmed_start(s) == crate::text::trimmed_start(s.drop_first()));
    } else if t.len() == 0 {
        if b.len() > 0 {
            assert(s =~= b);
            assert forall|i: int| 0 <= i < b.drop_first().len() implies crate::text::white_space(
                #[trigger] b.drop_first()[i],
            ) by {
                assert(b.drop_first()[i] == b[i + 1]);
            }
            law_trimming_keeps_the_text(a, t, b.drop_first());
            assert(a + t + b.drop_first() =~= s.drop_first());
            assert(crate::text::white_space(b[0]));
            assert(crate::text::trimmed_start(s) == crate::text::trimmed_start(s.drop_first()));
        } else {
            assert(s =~= t);
        }
    } else {
        assert(s.first() == t[0]);
        assert(crate::text::trimmed_start(s) == s);
        lemma_end_is_taken_off(t, b);
        assert(s =~= t + b);
    }
}

proof fn lemma_end_is_taken_off(t: Seq<char>, b: Seq<char>)
    requires
        forall|i: int| 0 <= i < b.len() ==> crate::text::white_space(#[trigger] b[i]),
        t.len() > 0,
        !crate::text::white_space(t[t.len() - 1]),
    ensures
        crate::text::trimmed_end(t + b) == t,
    decreases b.len(),
{
    let s = t + b;
    if b.len() > 0 {
        assert(s.last() == b[b.len() - 1]);
        assert(s.drop_last() =~= t + b.drop_last());
        assert forall|i: int| 0 <= i < b.drop_last().len() implies crate::text::white_space(
            #[trigger] b.drop_last()[i],
        ) by {
            assert(b.drop_last()[i] == b[i]);
        }
        lemma_end_is_taken_off(t, b.drop_last());
    } else {
        assert(s =~= t);
        assert(s.last() == t[t.len() - 1]);
    }
}

/// Every text is white space, its trimmed form, and white space again; the trimmed form has no white
/// space at its ends.
pub proof fn law_every_text_can_be_trimmed(s: Seq<char>) -> (ends: (Seq<char>, Seq<char>))
    ensures
        s == ends.0 + crate::text::trimmed(s) + ends.1,
        forall|i: int| 0 <= i < ends.0.len() ==> crate::text::white_space(#[trigger] ends.0[i]),
        forall|i: int| 0 <= i < ends.1.len() ==> crate::text::white_space(#[trigger] ends.1[i]),
        crate::text::trimmed(s).len() > 0 ==> !crate::text::white_space(crate::text::trimmed(s)[0])
            && !crate::text::white_space(crate::text::trimmed(s).last()),
    decreases s.len(),
{
    crate::text::lemma_trimmed_ends(s);
    if s.len() > 0 && crate::text::white_space(s.first()) {
        let inner = law_every_text_can_be_trimmed(s.drop_first());
        let front = seq![s.first()] + inner.0;
        assert(crate::text::trimmed(s) == crate::text::trimmed(s.drop_first()));
        assert(s =~= seq![s.first()] + s.drop_first());
        assert(s =~= front + crate::text::trimmed(s) + inner.1);
        (front, inner.1)
    } else {
        let back = lemma_end_was_white(s);
        assert(crate::text::trimmed_start(s) == s);
        assert(s =~= Seq::<char>::empty() + crate::text::trimmed(s) + back);
        (Seq::empty(), back)
    }
}

proof fn lemma_end_was_white(s: Seq<char>) -> (back: Seq<char>)
    ensures
        s == crate::text::trimmed_end(s) + back,
        forall|i: int| 0 <= i < back.len() ==> crate::text::white_space(#[trigger] back[i]),
    decreases s.len(),
{
    if s.len() > 0 && crate::text::white_space(s.last()) {
        let back = lemma_end_was_white(s.drop_last());
        assert(s =~= s.drop_last().push(s.last()));
        assert(s =~= crate::text::trimmed_end(s) + back.push(s.last()));
        back.push(s.last())
    } else {
        assert(s =~= s + Seq::<char>::empty());
        Seq::empty()
    }
}

/// A text is blank exactly if each of its characters is white space.
pub proof fn law_blank_texts(s: Seq<char>)
    ensures
        crate::text::blank(s) <==> forall|i: int|
            0 <= i < s.len() ==> crate::text::white_space(#[trigger] s[i]),
        crate::text::blank(s) <==> crate::text::trimmed(s).len() == 0,
{
    crate::text::lemma_blank_trims_to_nothing(s);
}

/// The ASCII lowercase form has the same length and differs in the capitals only, each of which is
/// 32 less than its small letter.
pub proof fn law_ascii_lowercase_changes_capitals_only(s: Seq<char>)
    ensures
        crate::text::ascii_lowercase(s).len() == s.len(),
        forall|i: int|
            0 <= i < s.len() ==> (#[trigger] crate::text::ascii_lowercase(s)[i]) as int == s[i] as int
                + (if 65 <= s[i] as int <= 90 {
                32int
            } else {
                0int
            }),
{
    assert forall|i: int|
        0 <= i < s.len() implies (#[trigger] crate::text::ascii_lowercase(s)[i]) as int == s[i]
        as int + (if 65 <= s[i] as int <= 90 {
        32int
    } else {
        0int
    }) by {
        let c = s[i];
        assert(crate::text::ascii_lowercase(s)[i] == crate::text::ascii_lowercase_char(c));
    }
}

/// The slashes at the end of a text go, however many there are, and nothing else does.
pub proof fn law_trailing_slashes_go(t: Seq<char>, slashes: Seq<char>)
    requires
        t.len() == 0 || t[t.len() - 1] != '/',
        forall|i: int| 0 <= i < slashes.len() ==> #[trigger] slashes[i] == '/',
    ensures
        crate::text::without_trailing_slashes(t + slashes) == t,
    decreases slashes.len(),
{
    let s = t + slashes;
    if slashes.len() > 0 {
        assert(s.last() == slashes[slashes.len() - 1]);
        assert(s.drop_last() =~= t + slashes.drop_last());
        assert forall|i: int| 0 <= i < slashes.drop_last().len() implies #[trigger] slashes.drop_last()[i]
            == '/' by {
            assert(slashes.drop_last()[i] == slashes[i]);
        }
        law_trailing_slashes_go(t, slashes.drop_last());
    } else {
        assert(s =~= t);
    }
}

/// What stands before the first of a character is all up to it, and the whole text where it has none.
pub proof fn law_before_the_first(head: Seq<char>, c: char, tail: Seq<char>)
    requires
        forall|i: int| 0 <= i < head.len() ==> #[trigger] head[i] != c,
    ensures
        crate::text::before(head + seq![c] + tail, c) == head,
        crate::text::before(head, c) == head,
{
    crate::text::lemma_before_splits(head, c, tail);
}

/// A text put together from parts, with a separator between each two.
pub open spec fn with_separators(parts: Seq<Seq<char>>, separator: char) -> Seq<char>
    decreases parts.len(),
{
    if parts.len() == 0 {
        Seq::empty()
    } else if parts.len() == 1 {
        parts[0]
    } else {
        with_separators(parts.drop_last(), separator) + seq![separator] + parts.last()
    }
}

proof fn lemma_pieces_of_plain(s: Seq<char>, separator: char)
    requires
        forall|i: int| 0 <= i < s.len() ==> #[trigger] s[i] != separator,
    ensures
        crate::text::pieces(s, separator) == seq![s],
    decreases s.len(),
{
    if s.len() > 0 {
        assert forall|i: int| 0 <= i < s.drop_last().len() implies #[trigger] s.drop_last()[i]
            != separator by {
            assert(s.drop_last()[i] == s[i]);
        }
        lemma_pieces_of_plain(s.drop_last(), separator);
        assert(s.last() == s[s.len() - 1]);
        assert(s.drop_last().push(s.last()) =~= s);
        assert(crate::text::pieces(s, separator) =~= seq![s]);
    } else {
        assert(s =~= Seq::empty());
        assert(crate::text::pieces(s, separator) =~= seq![s]);
    }
}

proof fn lemma_pieces_append(s: Seq<char>, separator: char, last: Seq<char>)
    requires
        forall|i: int| 0 <= i < last.len() ==> #[trigger] last[i] != separator,
    ensures
        crate::text::pieces(s + seq![separator] + last, separator) == crate::text::pieces(
            s,
            separator,
        ).push(last),
    decreases last.len(),
{
    let all = s + seq![separator] + last;
    if last.len() == 0 {
        assert(all.drop_last() =~= s);
        assert(all.last() == separator);
        assert(last =~= Seq::empty());
    } else {
        assert forall|i: int| 0 <= i < last.drop_last().len() implies #[trigger] last.drop_last()[i]
            != separator by {
            assert(last.drop_last()[i] == last[i]);
        }
        lemma_pieces_append(s, separator, last.drop_last());
        assert(all.drop_last() =~= s + seq![separator] + last.drop_last());
        assert(all.last() == last[last.len() - 1]);
        let front = crate::text::pieces(all.drop_last(), separator);
        assert(front.last() == last.drop_last());
        assert(last.drop_last().push(last.last()) =~= last);
        assert(front.drop_last() =~= crate::text::pieces(s, separator));
    }
}

/// Splitting undoes joining: parts without the separator, put together with it, are split into the
/// same parts again.
pub proof fn law_splitting_undoes_joining(parts: Seq<Seq<char>>, separator: char)
    requires
        parts.len() > 0,
        forall|k: int, i: int|
            0 <= k < parts.len() && 0 <= i < parts[k].len() ==> #[trigger] parts[k][i] != separator,
    ensures
        crate::text::pieces(with_separators(parts, separator), separator) == parts,
    decreases parts.len(),
{
    if parts.len() == 1 {
        lemma_pieces_of_plain(parts[0], separator);
        assert(parts =~= seq![parts[0]]);
    } else {
        let front = parts.drop_last();
        assert forall|k: int, i: int|
            0 <= k < front.len() && 0 <= i < front[k].len() implies #[trigger] front[k][i]
            != separator by {
            assert(front[k] == parts[k]);
            assert(parts[k][i] != separator);
        }
        law_splitting_undoes_joining(front, separator);
        let last = parts.last();
        assert forall|i: int| 0 <= i < last.len() implies #[trigger] last[i] != separator by {
            assert(parts[parts.len() - 1][i] != separator);
        }
        lemma_pieces_append(with_separators(front, separator), separator, last);
        assert(front.push(last) =~= parts);
    }
}

/// Splitting loses nothing: put together with the separator, the pieces of a text are the text, and
/// none of them holds the separator.
pub proof fn law_pieces_make_up_the_text(s: Seq<char>, separator: char)
    ensures
        crate::text::pieces(s, separator).len() > 0,
        with_separators(crate::text::pieces(s, separator), separator) == s,
        forall|k: int, i: int|
            0 <= k < crate::text::pieces(s, separator).len() && 0 <= i < crate::text::pieces(
                s,
                separator,
            )[k].len() ==> #[trigger] crate::text::pieces(s, separator)[k][i] != separator,
    decreases s.len(),
{
    let all = crate::text::pieces(s, separator);
    if s.len() > 0 {
        law_pieces_make_up_the_text(s.drop_last(), separator);
        let front = crate::text::pieces(s.drop_last(), separator);
        assert(s =~= s.drop_last().push(s.last()));
        if s.last() == separator {
            assert(all.drop_last() =~= front);
            assert(with_separators(all, separator) =~= s.drop_last() + seq![separator]);
            assert forall|k: int, i: int|
                0 <= k < all.len() && 0 <= i < all[k].len() implies #[trigger] all[k][i]
                != separator by {
                assert(k < front.len());
                assert(front[k][i] != separator);
            }
        } else {
            assert(all.drop_last() =~= front.drop_last());
            assert(all.last() =~= front.last().push(s.last()));
            assert(front =~= front.drop_last().push(front.last()));
            if front.len() == 1 {
                assert(with_separators(all, separator) =~= s);
            } else {
                assert(with_separators(all, separator) =~= with_separators(front, separator).push(
                    s.last(),
                ));
            }
            assert forall|k: int, i: int|
                0 <= k < all.len() && 0 <= i < all[k].len() implies #[trigger] all[k][i]
                != separator by {
                if i < front[k].len() {
                    assert(front[k][i] != separator);
                    assert(all[k][i] == front[k][i]);
                }
            }
        }
    }
}

/// Replacing works on each character by itself: it goes through a text from end to end, puts the new
/// text for each of the character, and leaves any other as it is.
pub proof fn law_replacing_goes_by_character(
    a: Seq<char>,
    x: char,
    b: Seq<char>,
    c: char,
    with: Seq<char>,
)
    ensures
        crate::text::replaced(Seq::empty(), c, with) == Seq::<char>::empty(),
        crate::text::replaced(a + seq![x] + b, c, with) == crate::text::replaced(a, c, with) + (if x
            == c {
            with
        } else {
            seq![x]
        }) + crate::text::replaced(b, c, with),
    decreases b.len(),
{
    let s = a + seq![x] + b;
    if b.len() == 0 {
        assert(s.drop_last() =~= a);
        assert(s.last() == x);
        assert(crate::text::replaced(b, c, with) =~= Seq::empty());
    } else {
        law_replacing_goes_by_character(a, x, b.drop_last(), c, with);
        assert(s.drop_last() =~= a + seq![x] + b.drop_last());
        assert(s.last() == b.last());
        assert(crate::text::replaced(s, c, with) =~= crate::text::replaced(a, c, with) + (if x == c {
            with
        } else {
            seq![x]
        }) + crate::text::replaced(b, c, with));
    }
}

/// The number that decimal digits stand for.
pub open spec fn number_in(digits: Seq<char>) -> int
    decreases digits.len(),
{
    if digits.len() == 0 {
        0
    } else {
        10 * number_in(digits.drop_last()) + (digits.last() as int - 48)
    }
}

/// Decimal notation stands for its number, is made of digits, and has no leading zero.
pub proof fn law_decimal_notation(n: nat)
    ensures
        number_in(crate::text::decimal(n)) == n,
        crate::text::decimal(n).len() > 0,
        forall|i: int|
            0 <= i < crate::text::decimal(n).len() ==> 48 <= (#[trigger] crate::text::decimal(
                n,
            )[i]) as int <= 57,
        n > 0 ==> crate::text::decimal(n)[0] as int != 48,
        crate::text::decimal(0).len() == 1,
    decreases n,
{
    let digits = crate::text::decimal(n);
    if n < 10 {
        assert(digits.drop_last() =~= Seq::empty());
        assert(number_in(digits.drop_last()) == 0);
        assert(digits.last() as int == 48 + n);
    } else {
        law_decimal_notation(n / 10);
        assert(digits.drop_last() =~= crate::text::decimal(n / 10));
        assert(digits.last() as int == 48 + n % 10);
        assert forall|i: int| 0 <= i < digits.len() implies 48 <= (#[trigger] digits[i]) as int
            <= 57 by {
            if i < digits.len() - 1 {
                assert(digits[i] == crate::text::decimal(n / 10)[i]);
            }
        }
        assert(digits[0] == crate::text::decimal(n / 10)[0]);
    }
}

/// The characters of a list of strings are those of each string, in order.
pub proof fn law_texts_of_a_list(list: Seq<String>)
    ensures
        crate::text::texts(list).len() == list.len(),
        forall|i: int|
            0 <= i < list.len() ==> #[trigger] crate::text::texts(list)[i] == list[i]@,
{
}

/// The characters of a string that may be absent.
pub proof fn law_optional_texts(text: String)
    ensures
        crate::text::optional_text(Some(text)) == Some(text@),
        crate::text::optional_text(None) == None::<Seq<char>>,
{
}

/// Of the UTF-8 bytes of white space, a text, and white space again, reading and trimming gives that
/// text; bytes that no text encodes to give nothing.
pub proof fn law_utf8_is_read_and_trimmed(
    a: Seq<char>,
    t: Seq<char>,
    b: Seq<char>,
    bytes: Seq<u8>,
)
    requires
        forall|i: int| 0 <= i < a.len() ==> crate::text::white_space(#[trigger] a[i]),
        forall|i: int| 0 <= i < b.len() ==> crate::text::white_space(#[trigger] b[i]),
        t.len() > 0 ==> !crate::text::white_space(t[0]) && !crate::text::white_space(
            t[t.len() - 1],
        ),
    ensures
        crate::text::trimmed_utf8(vstd::utf8::encode_utf8(a + t + b)) == Some(t),
        crate::text::trimmed_utf8(bytes) is None ==> forall|text: Seq<char>|
            #[trigger] vstd::utf8::encode_utf8(text) != bytes,
        crate::text::trimmed_utf8(bytes) is Some ==> exists|text: Seq<char>|
            #[trigger] vstd::utf8::encode_utf8(text) == bytes,
{
    broadcast use {
        vstd::utf8::encode_utf8_valid_utf8,
        vstd::utf8::encode_utf8_decode_utf8,
        vstd::utf8::decode_utf8_encode_utf8,
    };

    law_trimming_keeps_the_text(a, t, b);
    assert(vstd::utf8::valid_utf8(vstd::utf8::encode_utf8(a + t + b)));
    assert(vstd::utf8::decode_utf8(vstd::utf8::encode_utf8(a + t + b)) == a + t + b);
    if vstd::utf8::valid_utf8(bytes) {
        assert(vstd::utf8::encode_utf8(vstd::utf8::decode_utf8(bytes)) == bytes);
    }
}

}
