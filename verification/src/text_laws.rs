//! What holds of texts that are trimmed, split, changed, read as numbers, and written as numbers.

use crate::settings;
use crate::text;
use vstd::prelude::*;

verus! {

/// The characters that Unicode calls white space.
pub open spec fn blank(c: char) -> bool {
    c == '\t' || c == '\n' || c == '\u{b}' || c == '\u{c}' || c == '\r' || c == ' ' || c == '\u{85}'
        || c == '\u{a0}' || c == '\u{1680}' || '\u{2000}' <= c <= '\u{200a}' || c == '\u{2028}' || c
        == '\u{2029}' || c == '\u{202f}' || c == '\u{205f}' || c == '\u{3000}'
}

/// The text is made of white space.
pub open spec fn all_blank(s: Seq<char>) -> bool {
    forall|i: int| 0 <= i < s.len() ==> blank(#[trigger] s[i])
}

proof fn lemma_blank(c: char)
    ensures
        text::is_white(c) == blank(c),
{
}

proof fn lemma_start(a: Seq<char>, r: Seq<char>)
    requires
        all_blank(a),
        r.len() == 0 || !blank(r[0]),
    ensures
        text::trim_start(a + r) == r,
    decreases a.len(),
{
    if a.len() == 0 {
        assert(a + r =~= r);
        if r.len() > 0 {
            lemma_blank(r[0]);
        }
    } else {
        lemma_blank(a[0]);
        assert((a + r).drop_first() =~= a.drop_first() + r);
        lemma_start(a.drop_first(), r);
    }
}

proof fn lemma_end(t: Seq<char>, b: Seq<char>)
    requires
        all_blank(b),
        t.len() == 0 || !blank(t.last()),
    ensures
        text::trim_end(t + b) == t,
    decreases b.len(),
{
    if b.len() == 0 {
        assert(t + b =~= t);
        if t.len() > 0 {
            lemma_blank(t.last());
        }
    } else {
        lemma_blank(b.last());
        assert((t + b).drop_last() =~= t + b.drop_last());
        lemma_end(t, b.drop_last());
    }
}

/// Trimming takes off the white space on both sides, all of it, and nothing else.
pub proof fn trimming_leaves_the_inside(before: Seq<char>, inside: Seq<char>, behind: Seq<char>)
    requires
        all_blank(before),
        all_blank(behind),
        inside.len() == 0 || (!blank(inside[0]) && !blank(inside.last())),
    ensures
        text::trimmed(before + inside + behind) == inside,
{
    if inside.len() == 0 {
        let all = before + inside + behind;
        assert(all_blank(all));
        assert(all + inside =~= all);
        lemma_start(all, inside);
        assert(inside =~= Seq::<char>::empty());
    } else {
        assert(before + inside + behind =~= before + (inside + behind));
        lemma_start(before, inside + behind);
        lemma_end(inside, behind);
    }
}

/// Trimming off a character takes it off at the end, as often as it stands there, and nothing else.
pub proof fn trailing_characters_are_taken_off(inside: Seq<char>, c: char, n: nat)
    requires
        inside.len() == 0 || inside.last() != c,
    ensures
        text::without_trailing(inside + Seq::new(n, |i: int| c), c) == inside,
    decreases n,
{
    let tail = Seq::new(n, |i: int| c);
    if n == 0 {
        assert(inside + tail =~= inside);
    } else {
        let less = Seq::new((n - 1) as nat, |i: int| c);
        trailing_characters_are_taken_off(inside, c, (n - 1) as nat);
        assert((inside + tail).last() == c);
        assert((inside + tail).drop_last() =~= inside + less);
    }
}

/// A text that does not have the character is one piece.
pub proof fn text_without_the_character_is_one_piece(s: Seq<char>, c: char)
    requires
        forall|i: int| 0 <= i < s.len() ==> #[trigger] s[i] != c,
    ensures
        text::pieces(s, c) == seq![s],
{
    text::lemma_one_piece(s, c);
}

/// Splitting cuts at the first place where the character stands, leaves it out, and goes on behind it.
pub proof fn splitting_cuts_at_each_character(head: Seq<char>, c: char, tail: Seq<char>)
    requires
        forall|i: int| 0 <= i < head.len() ==> #[trigger] head[i] != c,
    ensures
        text::pieces(head.push(c) + tail, c) == seq![head] + text::pieces(tail, c),
{
    text::lemma_first_piece(head, c, tail);
}

/// The pattern does not stand in the text at a place before `end`.
pub open spec fn not_before(s: Seq<char>, pat: Seq<char>, end: int) -> bool {
    forall|i: int|
        #![trigger s.subrange(i, i + pat.len())]
        0 <= i < end && i + pat.len() <= s.len() ==> s.subrange(i, i + pat.len()) != pat
}

proof fn lemma_replaced_up_to(s: Seq<char>, pat: Seq<char>, to: Seq<char>, i: int, end: int)
    requires
        pat.len() > 0,
        0 <= i <= end <= s.len(),
        not_before(s, pat, end),
    ensures
        text::replaced_from(s, pat, to, i) == s.subrange(i, end) + text::replaced_from(
            s,
            pat,
            to,
            end,
        ),
    decreases end - i,
{
    if i < end {
        lemma_replaced_up_to(s, pat, to, i + 1, end);
        if i + pat.len() <= s.len() {
            assert(s.subrange(i, i + pat.len()) != pat);
        }
        assert(seq![s[i]] + s.subrange(i + 1, end) =~= s.subrange(i, end));
        assert(seq![s[i]] + (s.subrange(i + 1, end) + text::replaced_from(s, pat, to, end))
            =~= s.subrange(i, end) + text::replaced_from(s, pat, to, end));
    } else {
        assert(s.subrange(i, end) + text::replaced_from(s, pat, to, end) =~= text::replaced_from(
            s,
            pat,
            to,
            end,
        ));
    }
}

/// A text in which the pattern does not stand stays as it is.
pub proof fn nothing_else_is_replaced(s: Seq<char>, pat: Seq<char>, to: Seq<char>)
    requires
        pat.len() > 0,
        not_before(s, pat, s.len() as int),
    ensures
        text::replaced(s, pat, to) == s,
        text::replaced_first(s, pat, to) == s,
{
    lemma_replaced_up_to(s, pat, to, 0, s.len() as int);
    assert(s.subrange(0, s.len() as int) + s.skip(s.len() as int) =~= s);
    lemma_pattern(s, pat, 0, s.len() as int);
}

proof fn lemma_pattern(s: Seq<char>, pat: Seq<char>, i: int, end: int)
    requires
        pat.len() > 0,
        0 <= i <= end <= s.len(),
        not_before(s, pat, end),
        end == s.len() || (end + pat.len() <= s.len() && s.subrange(end, end + pat.len()) == pat),
    ensures
        text::pattern_from(s, pat, i) == end,
    decreases end - i,
{
    if i < end {
        if i + pat.len() <= s.len() {
            assert(s.subrange(i, i + pat.len()) != pat);
        }
        lemma_pattern(s, pat, i + 1, end);
    }
}

/// The first pattern in a text gives way to the other text, and what stands before it and behind it
/// stays. Where all are replaced, that goes on behind it.
pub proof fn pattern_gives_way(head: Seq<char>, pat: Seq<char>, to: Seq<char>, tail: Seq<char>)
    requires
        pat.len() > 0,
        not_before(head + pat + tail, pat, head.len() as int),
    ensures
        text::replaced(head + pat + tail, pat, to) == head + to + text::replaced(tail, pat, to),
        text::replaced_first(head + pat + tail, pat, to) == head + to + tail,
{
    let s = head + pat + tail;
    let h = head.len() as int;
    let n = h + pat.len();
    assert(s.subrange(h, n) =~= pat);
    lemma_replaced_up_to(s, pat, to, 0, h);
    assert(s.subrange(0, h) =~= head);
    text::lemma_replace_skip(s, pat, to, n, 0);
    assert(s.skip(n) =~= tail);
    assert(text::replaced_from(s, pat, to, h) == to + text::replaced(tail, pat, to));
    assert(head + (to + text::replaced(tail, pat, to)) =~= head + to + text::replaced(
        tail,
        pat,
        to,
    ));
    lemma_pattern(s, pat, 0, h);
    assert(s.take(h) =~= head);
}

/// A digit is the number that it looks like.
pub proof fn digit_is_read(v: u32, max: nat)
    requires
        v <= 9,
    ensures
        text::parsed_unsigned(seq![(48 + v) as char], max) == if v <= max {
            Some(v as nat)
        } else {
            None
        },
{
    let c = (48 + v) as char;
    let s = seq![c];
    assert(text::is_digit(s[0]));
    assert(text::unsigned_part(s) == s);
    assert(s.drop_last() =~= Seq::<char>::empty());
    assert(text::digits_value(s.drop_last()) == 0);
    assert(text::digits_value(s) == v);
}

/// Another digit makes a number ten times as great and adds itself. A number beyond the greatest is
/// none.
pub proof fn number_is_read_digit_by_digit(s: Seq<char>, n: nat, bound: nat, v: u32, max: nat)
    requires
        text::parsed_unsigned(s, bound) == Some(n),
        v <= 9,
    ensures
        text::parsed_unsigned(s.push((48 + v) as char), max) == if 10 * n + v <= max {
            Some((10 * n + v) as nat)
        } else {
            None
        },
{
    let c = (48 + v) as char;
    let d = text::unsigned_part(s);
    let e = text::unsigned_part(s.push(c));
    assert(e =~= d.push(c));
    assert(e.drop_last() =~= d);
    assert(text::digits_value(e) == text::digits_value(d) * 10 + v);
    assert forall|i: int| 0 <= i < e.len() implies text::is_digit(#[trigger] e[i]) by {
        if i < d.len() {
            assert(e[i] == d[i]);
        }
    }
}

/// A text is no number that has no digit, or any other character than digits behind a plus sign.
pub proof fn other_texts_are_no_numbers(s: Seq<char>, i: int, max: nat)
    requires
        ({
            ||| s.len() == 0
            ||| s == seq!['+']
            ||| 0 <= i < s.len() && !('0' <= s[i] <= '9') && (i > 0 || s[i] != '+')
        }),
    ensures
        text::parsed_unsigned(s, max) is None,
{
    let d = text::unsigned_part(s);
    if s.len() > 0 && s != seq!['+'] {
        if s[0] == '+' {
            assert(d[i - 1] == s[i]);
        } else {
            assert(d[i] == s[i]);
        }
    }
}

/// A plus sign before a number changes nothing.
pub proof fn plus_sign_changes_nothing(s: Seq<char>, max: nat)
    requires
        s.len() > 0,
        s[0] != '+',
    ensures
        text::parsed_unsigned(seq!['+'] + s, max) == text::parsed_unsigned(s, max),
{
    assert((seq!['+'] + s).drop_first() =~= s);
}

/// A number is written in digits, as many as it needs: the first is no zero, but for the number zero.
pub proof fn number_is_written_short(n: nat)
    ensures
        text::decimal(n).len() >= 1,
        forall|i: int| 0 <= i < text::decimal(n).len() ==> '0' <= #[trigger] text::decimal(n)[i]
            <= '9',
        n > 0 ==> text::decimal(n)[0] != '0',
        n == 0 ==> text::decimal(n) == seq!['0'],
        text::parsed_unsigned(text::decimal(n), n) == Some(n),
    decreases n,
{
    text::lemma_decimal(n);
    text::decimal_roundtrip(n, n);
    assert forall|i: int| 0 <= i < text::decimal(n).len() implies '0' <= #[trigger] text::decimal(
        n,
    )[i] <= '9' by {
        assert(text::is_digit(text::decimal(n)[i]));
    }
    if n >= 10 {
        number_is_written_short(n / 10);
    }
}

/// The port is the one that the text says, from 0 to 65535; 20020 where it says none.
pub proof fn port_is_the_one_that_is_set(s: Seq<char>, n: nat)
    ensures
        n <= 65535 ==> settings::port_of(text::decimal(n)) == n,
        n > 65535 ==> settings::port_of(text::decimal(n)) == 20020,
        text::parsed_unsigned(s, 65535) is None ==> settings::port_of(s) == 20020,
{
    text::lemma_decimal(n);
    if n <= 65535 {
        text::decimal_roundtrip(n, 65535);
    } else {
        let d = text::decimal(n);
        assert(text::is_digit(d[0]));
        assert(text::unsigned_part(d) == d);
    }
}

/// A switch is on where its setting is the one character 1, and off in every other case.
pub proof fn switch_is_on_at_one(s: &str)
    ensures
        settings::switched_on(Some(s)) <==> s@.len() == 1 && s@[0] == '1',
        !settings::switched_on(None),
{
    reveal_strlit("1");
    if s@.len() == 1 && s@[0] == '1' {
        assert(s@ =~= "1"@);
    }
}

} // verus!
