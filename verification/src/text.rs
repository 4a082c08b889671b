//! Texts as sequences of characters: trimming, splitting, replacing, and decimal numbers.

use vstd::prelude::*;

verus! {

/// `String::push`: appends the character.
pub assume_specification[ String::push ](s: &mut String, c: char)
    ensures
        final(s)@ == old(s)@.push(c),
;

/// The characters of a text, one after the other.
pub fn chars_of(s: &str) -> (v: Vec<char>)
    ensures
        v@ == s@,
{
    let mut out: Vec<char> = Vec::new();
    for c in it: s.chars()
        invariant
            it.seq() == s@,
            out@ == s@.take(it.index()),
    {
        out.push(c);
        assert(s@.take(it.index() + 1) =~= s@.take(it.index()).push(c));
    }
    assert(s@.take(s@.len() as int) =~= s@);
    out
}

/// The text made of these characters.
pub fn string_of(v: &Vec<char>) -> (s: String)
    ensures
        s@ == v@,
{
    let mut out: String = String::new();
    let mut i: usize = 0;
    while i < v.len()
        invariant
            i <= v.len(),
            out@ == v@.take(i as int),
        decreases v.len() - i,
    {
        out.push(v[i]);
        i = i + 1;
        assert(v@.take(i as int) =~= v@.take(i - 1).push(v@[i - 1]));
    }
    assert(v@.take(v@.len() as int) =~= v@);
    out
}

/// The characters from `i` up to `j`.
pub fn part(v: &Vec<char>, i: usize, j: usize) -> (r: Vec<char>)
    requires
        i <= j <= v.len(),
    ensures
        r@ == v@.subrange(i as int, j as int),
{
    let mut out: Vec<char> = Vec::new();
    let mut k: usize = i;
    while k < j
        invariant
            i <= k <= j <= v.len(),
            out@ == v@.subrange(i as int, k as int),
        decreases j - k,
    {
        out.push(v[k]);
        k = k + 1;
        assert(v@.subrange(i as int, k as int) =~= v@.subrange(i as int, k - 1).push(v@[k - 1]));
    }
    out
}

/// The two texts are the same.
pub fn same(v: &Vec<char>, s: &str) -> (b: bool)
    ensures
        b == (v@ == s@),
{
    let w: Vec<char> = chars_of(s);
    if v.len() != w.len() {
        return false;
    }
    let mut i: usize = 0;
    while i < v.len()
        invariant
            i <= v.len(),
            v.len() == w.len(),
            w@ == s@,
            forall|k: int| 0 <= k < i ==> v@[k] == w@[k],
        decreases v.len() - i,
    {
        if v[i] != w[i] {
            return false;
        }
        i = i + 1;
    }
    assert(v@ =~= s@);
    true
}

/// The text has no character.
pub fn is_empty(s: &String) -> (b: bool)
    ensures
        b == (s@.len() == 0),
{
    let v: Vec<char> = chars_of(s.as_str());
    v.len() == 0
}

/// A character with the Unicode property White_Space.
pub open spec fn is_white(c: char) -> bool {
    let u = c as u32;
    ||| 0x9 <= u <= 0xD
    ||| u == 0x20
    ||| u == 0x85
    ||| u == 0xA0
    ||| u == 0x1680
    ||| 0x2000 <= u <= 0x200A
    ||| u == 0x2028
    ||| u == 0x2029
    ||| u == 0x202F
    ||| u == 0x205F
    ||| u == 0x3000
}

fn white(c: char) -> (b: bool)
    ensures
        b == is_white(c),
{
    let u: u32 = c as u32;
    (0x9 <= u && u <= 0xD) || u == 0x20 || u == 0x85 || u == 0xA0 || u == 0x1680 || (0x2000 <= u
        && u <= 0x200A) || u == 0x2028 || u == 0x2029 || u == 0x202F || u == 0x205F || u == 0x3000
}

/// The text without the white space that it begins with.
pub open spec fn trim_start(s: Seq<char>) -> Seq<char>
    decreases s.len(),
{
    if s.len() > 0 && is_white(s[0]) {
        trim_start(s.drop_first())
    } else {
        s
    }
}

/// The text without the white space that it ends with.
pub open spec fn trim_end(s: Seq<char>) -> Seq<char>
    decreases s.len(),
{
    if s.len() > 0 && is_white(s.last()) {
        trim_end(s.drop_last())
    } else {
        s
    }
}

/// The text without the white space around it.
pub open spec fn trimmed(s: Seq<char>) -> Seq<char> {
    trim_end(trim_start(s))
}

/// Takes off the white space around a text.
pub fn trim(v: &Vec<char>) -> (r: Vec<char>)
    ensures
        r@ == trimmed(v@),
{
    let n: usize = v.len();
    let mut i: usize = 0;
    assert(v@.skip(0) =~= v@);
    while i < n && white(v[i])
        invariant
            i <= n,
            n == v.len(),
            trim_start(v@) == trim_start(v@.skip(i as int)),
        decreases n - i,
    {
        assert(v@.skip(i as int).drop_first() =~= v@.skip(i + 1));
        i = i + 1;
    }
    assert(trim_start(v@) == v@.skip(i as int));
    let mut j: usize = n;
    assert(v@.subrange(i as int, n as int) =~= v@.skip(i as int));
    while i < j && white(v[j - 1])
        invariant
            i <= j <= n,
            n == v.len(),
            trimmed(v@) == trim_end(v@.subrange(i as int, j as int)),
        decreases j,
    {
        assert(v@.subrange(i as int, j as int).drop_last() =~= v@.subrange(i as int, j - 1));
        j = j - 1;
    }
    part(v, i, j)
}

/// The text without the characters `c` that it ends with.
pub open spec fn without_trailing(s: Seq<char>, c: char) -> Seq<char>
    decreases s.len(),
{
    if s.len() > 0 && s.last() == c {
        without_trailing(s.drop_last(), c)
    } else {
        s
    }
}

/// Takes off the characters `c` at the end of a text.
pub fn trim_trailing(v: &Vec<char>, c: char) -> (r: Vec<char>)
    ensures
        r@ == without_trailing(v@, c),
{
    let mut j: usize = v.len();
    assert(v@.subrange(0, j as int) =~= v@);
    while 0 < j && v[j - 1] == c
        invariant
            j <= v.len(),
            without_trailing(v@, c) == without_trailing(v@.subrange(0, j as int), c),
        decreases j,
    {
        assert(v@.subrange(0, j as int).drop_last() =~= v@.subrange(0, j - 1));
        j = j - 1;
    }
    part(v, 0, j)
}

/// Where `c` first stands in the text at or after `from`; the length where it does not.
pub open spec fn index_from(s: Seq<char>, c: char, from: int) -> int
    decreases s.len() - from,
{
    if from >= s.len() {
        s.len() as int
    } else if s[from] == c {
        from
    } else {
        index_from(s, c, from + 1)
    }
}

/// Finds where `c` first stands in the text at or after `from`.
pub fn find_from(v: &Vec<char>, c: char, from: usize) -> (r: usize)
    requires
        from <= v.len(),
    ensures
        r == index_from(v@, c, from as int),
        from <= r <= v.len(),
        r < v.len() ==> v@[r as int] == c,
{
    let mut i: usize = from;
    while i < v.len() && v[i] != c
        invariant
            from <= i <= v.len(),
            index_from(v@, c, from as int) == index_from(v@, c, i as int),
        decreases v.len() - i,
    {
        i = i + 1;
    }
    i
}

/// The pieces of the text between the characters `c`, from `from` on.
pub open spec fn pieces_from(s: Seq<char>, c: char, from: int) -> Seq<Seq<char>>
    decreases s.len() - from,
{
    let i = index_from(s, c, from);
    if from < 0 || from > i || i >= s.len() {
        seq![s.skip(from)]
    } else {
        seq![s.subrange(from, i)] + pieces_from(s, c, i + 1)
    }
}

/// The pieces of the text between the characters `c`.
pub open spec fn pieces(s: Seq<char>, c: char) -> Seq<Seq<char>> {
    pieces_from(s, c, 0)
}

/// What a list of character vectors holds.
pub open spec fn views(v: Seq<Vec<char>>) -> Seq<Seq<char>> {
    v.map_values(|x: Vec<char>| x@)
}

/// Splits a text at the characters `c`.
pub fn split(v: &Vec<char>, c: char) -> (r: Vec<Vec<char>>)
    ensures
        views(r@) == pieces(v@, c),
{
    let mut out: Vec<Vec<char>> = Vec::new();
    let mut from: usize = 0;
    let mut i: usize = find_from(v, c, 0);
    assert(views(out@) + pieces_from(v@, c, 0) =~= pieces(v@, c));
    while i < v.len()
        invariant
            from <= i <= v.len(),
            i == index_from(v@, c, from as int),
            views(out@) + pieces_from(v@, c, from as int) == pieces(v@, c),
        decreases v.len() - from,
    {
        let ghost before = out@;
        out.push(part(v, from, i));
        assert(views(out@) =~= views(before).push(v@.subrange(from as int, i as int)));
        assert(views(out@) + pieces_from(v@, c, i + 1) =~= views(before) + pieces_from(
            v@,
            c,
            from as int,
        ));
        from = i + 1;
        i = find_from(v, c, from);
    }
    let ghost before = out@;
    out.push(part(v, from, v.len()));
    assert(v@.subrange(from as int, v@.len() as int) =~= v@.skip(from as int));
    assert(views(out@) =~= views(before) + pieces_from(v@, c, from as int));
    out
}

/// `pat` stands in the text from `i` on.
pub open spec fn stands_at(s: Seq<char>, pat: Seq<char>, i: int) -> bool {
    i + pat.len() <= s.len() && s.subrange(i, i + pat.len()) == pat
}

fn match_at(v: &Vec<char>, pat: &Vec<char>, i: usize) -> (b: bool)
    requires
        i <= v.len(),
    ensures
        b == stands_at(v@, pat@, i as int),
{
    if v.len() - i < pat.len() {
        return false;
    }
    let mut k: usize = 0;
    while k < pat.len()
        invariant
            k <= pat.len(),
            i + pat.len() <= v.len(),
            forall|m: int| 0 <= m < k ==> v@[i + m] == pat@[m],
        decreases pat.len() - k,
    {
        if v[i + k] != pat[k] {
            assert(v@.subrange(i as int, i + pat@.len())[k as int] != pat@[k as int]);
            return false;
        }
        k = k + 1;
    }
    assert(v@.subrange(i as int, i + pat@.len()) =~= pat@);
    true
}

/// Tells whether the text begins with `pat`.
pub fn starts_with(v: &Vec<char>, pat: &str) -> (b: bool)
    ensures
        b == stands_at(v@, pat@, 0),
{
    let p: Vec<char> = chars_of(pat);
    match_at(v, &p, 0)
}

/// The text from `i` on with each `pat`, taken from the left, replaced by `to`.
pub open spec fn replaced_from(s: Seq<char>, pat: Seq<char>, to: Seq<char>, i: int) -> Seq<char>
    decreases s.len() - i,
{
    if i >= s.len() || pat.len() == 0 {
        s.skip(i)
    } else if stands_at(s, pat, i) {
        to + replaced_from(s, pat, to, i + pat.len())
    } else {
        seq![s[i]] + replaced_from(s, pat, to, i + 1)
    }
}

/// The text with each `pat` replaced by `to`.
pub open spec fn replaced(s: Seq<char>, pat: Seq<char>, to: Seq<char>) -> Seq<char> {
    replaced_from(s, pat, to, 0)
}

fn push_all(out: &mut Vec<char>, more: &Vec<char>)
    ensures
        final(out)@ == old(out)@ + more@,
{
    let ghost start = out@;
    let mut i: usize = 0;
    assert(start + more@.take(0) =~= start);
    while i < more.len()
        invariant
            i <= more.len(),
            out@ == start + more@.take(i as int),
        decreases more.len() - i,
    {
        out.push(more[i]);
        i = i + 1;
        assert(start + more@.take(i as int) =~= (start + more@.take(i - 1)).push(more@[i - 1]));
    }
    assert(more@.take(more@.len() as int) =~= more@);
}

/// Replaces each `pat`, taken from the left, by `to`.
pub fn replace(v: &Vec<char>, pat: &str, to: &str) -> (r: Vec<char>)
    requires
        pat@.len() > 0,
    ensures
        r@ == replaced(v@, pat@, to@),
{
    let p: Vec<char> = chars_of(pat);
    let t: Vec<char> = chars_of(to);
    let mut out: Vec<char> = Vec::new();
    let mut i: usize = 0;
    assert(out@ + replaced_from(v@, pat@, to@, 0) =~= replaced(v@, pat@, to@));
    while i < v.len()
        invariant
            i <= v.len(),
            p@ == pat@,
            t@ == to@,
            pat@.len() > 0,
            out@ + replaced_from(v@, pat@, to@, i as int) == replaced(v@, pat@, to@),
        decreases v.len() - i,
    {
        let ghost before = out@;
        if match_at(v, &p, i) {
            push_all(&mut out, &t);
            i = i + p.len();
            assert(out@ + replaced_from(v@, pat@, to@, i as int) =~= before + replaced_from(
                v@,
                pat@,
                to@,
                i - p@.len(),
            ));
        } else {
            out.push(v[i]);
            i = i + 1;
            assert(out@ + replaced_from(v@, pat@, to@, i as int) =~= before + replaced_from(
                v@,
                pat@,
                to@,
                i - 1,
            ));
        }
    }
    assert(out@ + v@.skip(v@.len() as int) =~= out@);
    out
}

/// Where `pat` first stands in the text at or after `i`; the length where it does not.
pub open spec fn pattern_from(s: Seq<char>, pat: Seq<char>, i: int) -> int
    decreases s.len() - i,
{
    if i >= s.len() {
        s.len() as int
    } else if stands_at(s, pat, i) {
        i
    } else {
        pattern_from(s, pat, i + 1)
    }
}

/// The text with the first `pat` replaced by `to`.
pub open spec fn replaced_first(s: Seq<char>, pat: Seq<char>, to: Seq<char>) -> Seq<char> {
    let i = pattern_from(s, pat, 0);
    if i >= s.len() {
        s
    } else {
        s.take(i) + to + s.skip(i + pat.len())
    }
}

/// Replaces the first `pat` by `to`.
pub fn replace_first(v: &Vec<char>, pat: &str, to: &str) -> (r: Vec<char>)
    requires
        pat@.len() > 0,
    ensures
        r@ == replaced_first(v@, pat@, to@),
{
    let p: Vec<char> = chars_of(pat);
    let t: Vec<char> = chars_of(to);
    let mut i: usize = 0;
    while i < v.len()
        invariant
            i <= v.len(),
            p@ == pat@,
            t@ == to@,
            pat@.len() > 0,
            pattern_from(v@, pat@, 0) == pattern_from(v@, pat@, i as int),
        decreases v.len() - i,
    {
        if match_at(v, &p, i) {
            let mut out: Vec<char> = part(v, 0, i);
            push_all(&mut out, &t);
            let rest: Vec<char> = part(v, i + p.len(), v.len());
            push_all(&mut out, &rest);
            assert(v@.subrange(0, i as int) =~= v@.take(i as int));
            assert(v@.subrange(i + p@.len(), v@.len() as int) =~= v@.skip(i + p@.len()));
            return out;
        }
        i = i + 1;
    }
    let out: Vec<char> = part(v, 0, v.len());
    assert(v@.subrange(0, v@.len() as int) =~= v@);
    out
}

/// A decimal digit.
pub open spec fn is_digit(c: char) -> bool {
    '0' <= c && c <= '9'
}

/// The number that decimal digits spell.
pub open spec fn digits_value(s: Seq<char>) -> nat
    decreases s.len(),
{
    if s.len() == 0 {
        0
    } else {
        digits_value(s.drop_last()) * 10 + (s.last() as u32 - '0' as u32) as nat
    }
}

/// The text without the plus sign that it may begin with.
pub open spec fn unsigned_part(s: Seq<char>) -> Seq<char> {
    if s.len() > 0 && s[0] == '+' {
        s.drop_first()
    } else {
        s
    }
}

/// The number up to `max` that a text spells: decimal digits, at least one, after a plus sign or
/// none.
pub open spec fn parsed_unsigned(s: Seq<char>, max: nat) -> Option<nat> {
    let d = unsigned_part(s);
    if d.len() > 0 && (forall|i: int| 0 <= i < d.len() ==> is_digit(#[trigger] d[i]))
        && digits_value(d) <= max {
        Some(digits_value(d))
    } else {
        None
    }
}

proof fn lemma_value_grows(s: Seq<char>, i: int, j: int)
    requires
        0 <= i <= j <= s.len(),
        forall|k: int| 0 <= k < s.len() ==> is_digit(#[trigger] s[k]),
    ensures
        digits_value(s.take(i)) <= digits_value(s.take(j)),
    decreases j - i,
{
    if i < j {
        lemma_value_grows(s, i, j - 1);
        assert(s.take(j).drop_last() =~= s.take(j - 1));
    }
}

/// Reads a number up to `max`.
pub fn parse_unsigned(v: &Vec<char>, max: u64) -> (r: Option<u64>)
    ensures
        match r {
            Some(n) => parsed_unsigned(v@, max as nat) == Some(n as nat),
            None => parsed_unsigned(v@, max as nat) is None,
        },
{
    let d: Vec<char> = if v.len() > 0 && v[0] == '+' {
        part(v, 1, v.len())
    } else {
        part(v, 0, v.len())
    };
    proof {
        assert(v@.subrange(0, v@.len() as int) =~= v@);
        if v@.len() > 0 {
            assert(v@.subrange(1, v@.len() as int) =~= v@.drop_first());
        }
        assert(d@ == unsigned_part(v@));
    }
    if d.len() == 0 {
        return None;
    }
    let mut i: usize = 0;
    while i < d.len()
        invariant
            i <= d.len(),
            d@ == unsigned_part(v@),
            forall|k: int| 0 <= k < i ==> is_digit(#[trigger] d@[k]),
        decreases d.len() - i,
    {
        if d[i] < '0' || d[i] > '9' {
            assert(!is_digit(d@[i as int]));
            return None;
        }
        i = i + 1;
    }
    let mut n: u64 = 0;
    let mut k: usize = 0;
    assert(d@.take(0) =~= Seq::<char>::empty());
    assert(d@.take(d@.len() as int) =~= d@);
    while k < d.len()
        invariant
            k <= d.len(),
            d@ == unsigned_part(v@),
            d@.len() > 0,
            forall|m: int| 0 <= m < d@.len() ==> is_digit(#[trigger] d@[m]),
            d@.take(d@.len() as int) == d@,
            n == digits_value(d@.take(k as int)),
            n <= max,
        decreases d.len() - k,
    {
        assert(is_digit(d@[k as int]));
        let digit: u64 = d[k] as u64 - '0' as u64;
        proof {
            assert(d@.take(k + 1).drop_last() =~= d@.take(k as int));
            assert(digits_value(d@.take(k + 1)) == n * 10 + digit);
            lemma_value_grows(d@, k + 1, d@.len() as int);
        }
        if n > max / 10 || digit > max - n * 10 {
            return None;
        }
        n = n * 10 + digit;
        k = k + 1;
    }
    Some(n)
}

/// The character of a digit.
pub open spec fn digit_char(d: nat) -> char {
    ('0' as u32 + d) as char
}

/// The decimal digits of a number.
pub open spec fn decimal(n: nat) -> Seq<char>
    decreases n,
{
    if n < 10 {
        seq![digit_char(n)]
    } else {
        decimal(n / 10).push(digit_char(n % 10))
    }
}

fn digit_of(d: u64) -> (c: char)
    requires
        d < 10,
    ensures
        c == digit_char(d as nat),
{
    match d {
        0 => '0',
        1 => '1',
        2 => '2',
        3 => '3',
        4 => '4',
        5 => '5',
        6 => '6',
        7 => '7',
        8 => '8',
        _ => '9',
    }
}

/// Writes a number in decimal digits.
pub fn decimal_of(n: u64) -> (s: String)
    ensures
        s@ == decimal(n as nat),
    decreases n,
{
    let mut out: String = if n < 10 {
        String::new()
    } else {
        decimal_of(n / 10)
    };
    out.push(digit_of(n % 10));
    assert(out@ =~= decimal(n as nat));
    out
}

/// A number is read back from its decimal digits.
pub proof fn decimal_roundtrip(n: nat, max: nat)
    requires
        n <= max,
    ensures
        parsed_unsigned(decimal(n), max) == Some(n),
{
    lemma_decimal(n);
    assert(unsigned_part(decimal(n)) == decimal(n)) by {
        assert(is_digit(decimal(n)[0]));
    }
}

/// The character does not occur in the text.
pub open spec fn lacks(s: Seq<char>, c: char) -> bool {
    forall|i: int| 0 <= i < s.len() ==> #[trigger] s[i] != c
}

/// There is no white space in the text.
pub open spec fn unbroken(s: Seq<char>) -> bool {
    forall|i: int| 0 <= i < s.len() ==> !is_white(#[trigger] s[i])
}

/// The first `c` behind a text that lacks it stands right behind it.
pub proof fn lemma_index_behind(head: Seq<char>, c: char, tail: Seq<char>, from: int)
    requires
        lacks(head, c),
        0 <= from <= head.len(),
    ensures
        index_from(head.push(c) + tail, c, from) == head.len(),
    decreases head.len() - from,
{
    if from < head.len() {
        lemma_index_behind(head, c, tail, from + 1);
    }
}

/// A text that lacks `c` has no place for it.
pub proof fn lemma_index_none(s: Seq<char>, c: char, from: int)
    requires
        lacks(s, c),
        0 <= from <= s.len(),
    ensures
        index_from(s, c, from) == s.len(),
    decreases s.len() - from,
{
    if from < s.len() {
        lemma_index_none(s, c, from + 1);
    }
}

proof fn lemma_index_skip(s: Seq<char>, c: char, n: int, from: int)
    requires
        0 <= n <= s.len(),
        0 <= from <= s.len() - n,
    ensures
        index_from(s, c, n + from) == n + index_from(s.skip(n), c, from),
    decreases s.len() - n - from,
{
    if from < s.len() - n {
        lemma_index_skip(s, c, n, from + 1);
    }
}

proof fn lemma_index_range(s: Seq<char>, c: char, from: int)
    requires
        0 <= from <= s.len(),
    ensures
        from <= index_from(s, c, from) <= s.len(),
    decreases s.len() - from,
{
    if from < s.len() {
        lemma_index_range(s, c, from + 1);
    }
}

proof fn lemma_pieces_skip(s: Seq<char>, c: char, n: int, from: int)
    requires
        0 <= n <= s.len(),
        0 <= from <= s.len() - n,
    ensures
        pieces_from(s, c, n + from) == pieces_from(s.skip(n), c, from),
    decreases s.len() - n - from,
{
    let t = s.skip(n);
    let i = index_from(t, c, from);
    lemma_index_skip(s, c, n, from);
    lemma_index_range(t, c, from);
    if i < t.len() {
        lemma_pieces_skip(s, c, n, i + 1);
        assert(s.subrange(n + from, n + i) =~= t.subrange(from, i));
    } else {
        assert(s.skip(n + from) =~= t.skip(from));
    }
}

/// A text that lacks `c` is one piece.
pub proof fn lemma_one_piece(s: Seq<char>, c: char)
    requires
        lacks(s, c),
    ensures
        pieces(s, c) == seq![s],
{
    lemma_index_none(s, c, 0);
    assert(s.skip(0) =~= s);
}

/// What stands before the first `c` is the first piece; the others are those behind it.
pub proof fn lemma_first_piece(head: Seq<char>, c: char, tail: Seq<char>)
    requires
        lacks(head, c),
    ensures
        pieces(head.push(c) + tail, c) == seq![head] + pieces(tail, c),
{
    let s = head.push(c) + tail;
    let n = head.len() as int + 1;
    lemma_index_behind(head, c, tail, 0);
    lemma_pieces_skip(s, c, n, 0);
    assert(s.skip(n) =~= tail);
    assert(s.subrange(0, head.len() as int) =~= head);
}

/// A text without white space stays as it is when trimmed.
pub proof fn lemma_trim_nothing(s: Seq<char>)
    requires
        unbroken(s),
    ensures
        trimmed(s) == s,
{
}

proof fn lemma_stands_skip(s: Seq<char>, pat: Seq<char>, n: int, i: int)
    requires
        0 <= n <= s.len(),
        0 <= i,
    ensures
        stands_at(s, pat, n + i) == stands_at(s.skip(n), pat, i),
{
    if n + i + pat.len() <= s.len() {
        assert(s.subrange(n + i, n + i + pat.len()) =~= s.skip(n).subrange(i, i + pat.len()));
    }
}

/// Replacing goes on behind a place as it would in the text that begins there.
pub proof fn lemma_replace_skip(s: Seq<char>, pat: Seq<char>, to: Seq<char>, n: int, i: int)
    requires
        0 <= n <= s.len(),
        0 <= i <= s.len() - n,
    ensures
        replaced_from(s, pat, to, n + i) == replaced_from(s.skip(n), pat, to, i),
    decreases s.len() - n - i,
{
    let t = s.skip(n);
    lemma_stands_skip(s, pat, n, i);
    if i >= t.len() || pat.len() == 0 {
        assert(s.skip(n + i) =~= t.skip(i));
    } else if stands_at(t, pat, i) {
        lemma_replace_skip(s, pat, to, n, i + pat.len());
    } else {
        lemma_replace_skip(s, pat, to, n, i + 1);
    }
}

/// A text that lacks the first character of a pattern stays as it is when the pattern is replaced.
pub proof fn lemma_replace_nothing(s: Seq<char>, pat: Seq<char>, to: Seq<char>, i: int)
    requires
        pat.len() > 0,
        lacks(s, pat[0]),
        0 <= i <= s.len(),
    ensures
        replaced_from(s, pat, to, i) == s.skip(i),
    decreases s.len() - i,
{
    if i < s.len() {
        if stands_at(s, pat, i) {
            assert(s.subrange(i, i + pat.len())[0] == s[i]);
        }
        lemma_replace_nothing(s, pat, to, i + 1);
        assert(seq![s[i]] + s.skip(i + 1) =~= s.skip(i));
    }
}

/// The decimal digits of a number are digits, and there is at least one.
pub proof fn lemma_decimal(n: nat)
    ensures
        decimal(n).len() > 0,
        forall|i: int| 0 <= i < decimal(n).len() ==> is_digit(#[trigger] decimal(n)[i]),
        digits_value(decimal(n)) == n,
    decreases n,
{
    if n < 10 {
        assert(decimal(n).drop_last() =~= Seq::<char>::empty());
        assert(digits_value(decimal(n).drop_last()) == 0);
    } else {
        lemma_decimal(n / 10);
        assert(decimal(n).drop_last() =~= decimal(n / 10));
    }
}

} // verus!
