//! Strings as sequences of characters: comparison, case, trimming, splitting, numbers.
use vstd::prelude::*;
use vstd::string::StringSliceAdditionalSpecFns;
use vstd::utf8::{decode_utf8, valid_utf8};

verus! {

broadcast use vstd::string::group_string_axioms;

/// `String::push` appends one character.
pub assume_specification[ String::push ](s: &mut String, c: char)
    ensures
        final(s)@ == old(s)@.push(c),
;

/// Whether two texts hold the same characters in the same order.
pub fn same(a: &str, b: &str) -> (r: bool)
    ensures
        r == (a@ == b@),
{
    let av = chars_of(a);
    let bv = chars_of(b);
    if av.len() != bv.len() {
        return false;
    }
    let mut i: usize = 0;
    while i < av.len()
        invariant
            i <= av@.len(),
            av@ == a@,
            bv@ == b@,
            av@.len() == bv@.len(),
            forall|j: int| 0 <= j < i ==> av@[j] == bv@[j],
        decreases av@.len() - i,
    {
        if av[i] != bv[i] {
            return false;
        }
        i += 1;
    }
    assert(a@ =~= b@);
    true
}

/// `std::str::from_utf8`: the bytes read as UTF-8, or nothing where they are not UTF-8.
#[verifier::external_body]
pub(crate) fn utf8_text<'a>(bytes: &'a [u8]) -> (r: Option<&'a str>)
    ensures
        r is Some <==> valid_utf8(bytes@),
        r matches Some(s) ==> s.spec_bytes() == bytes@ && s@ == decode_utf8(bytes@),
{
    std::str::from_utf8(bytes).ok()
}

/// What `String::from_utf8_lossy` makes of a byte sequence.
pub uninterp spec fn lossy_text(bytes: Seq<u8>) -> Seq<char>;

/// `String::from_utf8_lossy`: UTF-8 is read as it stands; what is not UTF-8 is replaced by
/// U+FFFD, in a way that is left unsaid here.
#[verifier::external_body]
pub(crate) fn decode_lossy(bytes: &[u8]) -> (s: String)
    ensures
        s@ == lossy_text(bytes@),
        valid_utf8(bytes@) ==> s@ == decode_utf8(bytes@),
{
    String::from_utf8_lossy(bytes).into_owned()
}

/// The characters of a string, for access by index.
pub fn chars_of(s: &str) -> (v: Vec<char>)
    ensures
        v@ == s@,
{
    let mut v: Vec<char> = Vec::new();
    for c in it: s.chars()
        invariant
            v@ == it.seq().take(it.index() as int),
    {
        v.push(c);
        assert(it.seq().take(it.index() + 1) == it.seq().take(it.index() as int).push(c));
    }
    v
}

/// The string of the characters `from..to`.
pub fn string_of(v: &Vec<char>, from: usize, to: usize) -> (s: String)
    requires
        from <= to <= v@.len(),
    ensures
        s@ == v@.subrange(from as int, to as int),
{
    let mut s = String::new();
    let mut i: usize = from;
    while i < to
        invariant
            from <= i <= to <= v@.len(),
            s@ == v@.subrange(from as int, i as int),
        decreases to - i,
    {
        s.push(v[i]);
        assert(v@.subrange(from as int, i + 1) == v@.subrange(from as int, i as int).push(
            v@[i as int],
        ));
        i += 1;
    }
    s
}

/// One letter in lower case, where it is an ASCII capital.
pub open spec fn lower_char(c: char) -> char {
    if 'A' <= c <= 'Z' {
        ((c as u8 + 32) as u8) as char
    } else {
        c
    }
}

/// The text with its ASCII capitals in lower case.
pub open spec fn ascii_lower(s: Seq<char>) -> Seq<char> {
    Seq::new(s.len(), |i: int| lower_char(s[i]))
}

pub fn to_lower(s: &str) -> (r: String)
    ensures
        r@ == ascii_lower(s@),
{
    let v = chars_of(s);
    let mut r = String::new();
    let mut i: usize = 0;
    while i < v.len()
        invariant
            i <= v@.len(),
            v@ == s@,
            r@ == ascii_lower(s@).take(i as int),
        decreases v@.len() - i,
    {
        let c: char = v[i];
        let low: char = if 'A' <= c && c <= 'Z' {
            (c as u8 + 32) as char
        } else {
            c
        };
        r.push(low);
        assert(ascii_lower(s@).take(i + 1) == ascii_lower(s@).take(i as int).push(low));
        i += 1;
    }
    assert(ascii_lower(s@).take(i as int) == ascii_lower(s@));
    r
}

/// Whether `part` stands in `s` from position `at` on.
pub open spec fn stands_at(s: Seq<char>, part: Seq<char>, at: int) -> bool {
    0 <= at && at + part.len() <= s.len() && s.subrange(at, at + part.len()) == part
}

/// Whether `part` occurs in `s`.
pub open spec fn occurs(s: Seq<char>, part: Seq<char>) -> bool {
    exists|at: int| stands_at(s, part, at)
}

fn matches_at(s: &Vec<char>, part: &Vec<char>, at: usize) -> (r: bool)
    requires
        at + part@.len() <= s@.len(),
    ensures
        r == stands_at(s@, part@, at as int),
{
    let mut i: usize = 0;
    while i < part.len()
        invariant
            i <= part@.len(),
            at + part.len() <= s.len(),
            forall|j: int| 0 <= j < i ==> s@[at + j] == part@[j],
        decreases part@.len() - i,
    {
        if s[at + i] != part[i] {
            assert(s@.subrange(at as int, at + part@.len())[i as int] != part@[i as int]);
            return false;
        }
        i += 1;
    }
    assert(s@.subrange(at as int, at + part@.len()) == part@);
    true
}

pub fn starts_with(s: &str, part: &str) -> (r: bool)
    ensures
        r == part@.is_prefix_of(s@),
{
    let sv = chars_of(s);
    let pv = chars_of(part);
    if pv.len() > sv.len() {
        return false;
    }
    matches_at(&sv, &pv, 0)
}

pub fn ends_with(s: &str, part: &str) -> (r: bool)
    ensures
        r == part@.is_suffix_of(s@),
{
    let sv = chars_of(s);
    let pv = chars_of(part);
    if pv.len() > sv.len() {
        return false;
    }
    matches_at(&sv, &pv, sv.len() - pv.len())
}

pub fn contains(s: &str, part: &str) -> (r: bool)
    ensures
        r == occurs(s@, part@),
{
    let sv = chars_of(s);
    let pv = chars_of(part);
    if pv.len() > sv.len() {
        return false;
    }
    let last: usize = sv.len() - pv.len();
    let mut at: usize = 0;
    while at <= last
        invariant
            sv@ == s@,
            pv@ == part@,
            last + pv@.len() == sv@.len(),
            at <= last + 1,
            forall|k: int| 0 <= k < at ==> !stands_at(s@, part@, k),
        decreases last + 1 - at,
    {
        if matches_at(&sv, &pv, at) {
            return true;
        }
        if at == last {
            assert(forall|k: int| stands_at(s@, part@, k) ==> k <= last);
            return false;
        }
        at += 1;
    }
    false
}

/// Which characters count as blank.
#[derive(Debug, Clone, Copy, PartialEq, Eq, Structural)]
pub enum Blank {
    /// The characters of `char::is_ascii_whitespace`.
    Ascii,
    /// The characters of `char::is_whitespace`.
    Unicode,
}

pub open spec fn blank(kind: Blank, c: char) -> bool {
    match kind {
        Blank::Ascii => c == ' ' || c == '\t' || c == '\n' || c == '\u{c}' || c == '\r',
        Blank::Unicode => '\t' <= c <= '\r' || c == ' ' || c == '\u{85}' || c == '\u{a0}' || c
            == '\u{1680}' || '\u{2000}' <= c <= '\u{200a}' || c == '\u{2028}' || c == '\u{2029}'
            || c == '\u{202f}' || c == '\u{205f}' || c == '\u{3000}',
    }
}

fn is_blank(kind: Blank, c: char) -> (r: bool)
    ensures
        r == blank(kind, c),
{
    match kind {
        Blank::Ascii => c == ' ' || c == '\t' || c == '\n' || c == '\u{c}' || c == '\r',
        Blank::Unicode => ('\t' <= c && c <= '\r') || c == ' ' || c == '\u{85}' || c == '\u{a0}'
            || c == '\u{1680}' || ('\u{2000}' <= c && c <= '\u{200a}') || c == '\u{2028}' || c
            == '\u{2029}' || c == '\u{202f}' || c == '\u{205f}' || c == '\u{3000}',
    }
}

/// `s` without the blanks at its start.
pub open spec fn trim_left(kind: Blank, s: Seq<char>) -> Seq<char>
    decreases s.len(),
{
    if s.len() > 0 && blank(kind, s[0]) {
        trim_left(kind, s.drop_first())
    } else {
        s
    }
}

/// `s` without the blanks at its end.
pub open spec fn trim_right(kind: Blank, s: Seq<char>) -> Seq<char>
    decreases s.len(),
{
    if s.len() > 0 && blank(kind, s.last()) {
        trim_right(kind, s.drop_last())
    } else {
        s
    }
}

/// `s` without the blanks at either end.
pub open spec fn trimmed(kind: Blank, s: Seq<char>) -> Seq<char> {
    trim_right(kind, trim_left(kind, s))
}

pub fn trim(kind: Blank, s: &str) -> (r: String)
    ensures
        r@ == trimmed(kind, s@),
{
    let v = chars_of(s);
    let mut from: usize = 0;
    assert(v@.skip(0) == s@);
    while from < v.len() && is_blank(kind, v[from])
        invariant
            v@ == s@,
            from <= v@.len(),
            trim_left(kind, v@.skip(from as int)) == trim_left(kind, s@),
        decreases v@.len() - from,
    {
        assert(v@.skip(from as int).drop_first() == v@.skip(from + 1));
        from += 1;
    }
    let mut to: usize = v.len();
    assert(v@.subrange(from as int, to as int) == v@.skip(from as int));
    while to > from && is_blank(kind, v[to - 1])
        invariant
            v@ == s@,
            from <= to <= v@.len(),
            trim_right(kind, v@.subrange(from as int, to as int)) == trimmed(kind, s@),
        decreases to - from,
    {
        assert(v@.subrange(from as int, to as int).drop_last() == v@.subrange(
            from as int,
            to - 1,
        ));
        to -= 1;
    }
    string_of(&v, from, to)
}

/// Neither end of trimmed text is blank.
pub proof fn trimmed_has_no_blank_ends(kind: Blank, s: Seq<char>)
    ensures
        trimmed(kind, s).len() > 0 ==> !blank(kind, trimmed(kind, s)[0]) && !blank(
            kind,
            trimmed(kind, s).last(),
        ),
{
    lemma_trim_left(kind, s);
    lemma_trim_right(kind, trim_left(kind, s));
}

/// Trimming trimmed text changes nothing.
pub proof fn trimming_twice_is_trimming_once(kind: Blank, s: Seq<char>)
    ensures
        trimmed(kind, trimmed(kind, s)) == trimmed(kind, s),
{
    trimmed_has_no_blank_ends(kind, s);
}

proof fn lemma_trim_left(kind: Blank, s: Seq<char>)
    ensures
        trim_left(kind, s).len() > 0 ==> !blank(kind, trim_left(kind, s)[0]),
    decreases s.len(),
{
    if s.len() > 0 && blank(kind, s[0]) {
        lemma_trim_left(kind, s.drop_first());
    }
}

proof fn lemma_trim_right(kind: Blank, s: Seq<char>)
    ensures
        trim_right(kind, s).len() > 0 ==> !blank(kind, trim_right(kind, s).last()),
        trim_right(kind, s).len() > 0 ==> trim_right(kind, s)[0] == s[0],
    decreases s.len(),
{
    if s.len() > 0 && blank(kind, s.last()) {
        lemma_trim_right(kind, s.drop_last());
    }
}

/// The pieces between the separators of `s`, of which there is always at least one.
pub open spec fn pieces(s: Seq<char>, sep: char) -> Seq<Seq<char>>
    decreases s.len(),
{
    if s.len() == 0 {
        seq![Seq::empty()]
    } else {
        let before = pieces(s.drop_last(), sep);
        if s.last() == sep {
            before.push(Seq::empty())
        } else {
            before.drop_last().push(before.last().push(s.last()))
        }
    }
}

/// No piece holds the separator.
pub proof fn pieces_hold_no_separator(s: Seq<char>, sep: char)
    ensures
        pieces(s, sep).len() > 0,
        forall|i: int| 0 <= i < pieces(s, sep).len() ==> !(#[trigger] pieces(s, sep)[i]).contains(
            sep,
        ),
    decreases s.len(),
{
    if s.len() > 0 {
        pieces_hold_no_separator(s.drop_last(), sep);
        let before = pieces(s.drop_last(), sep);
        let all = pieces(s, sep);
        assert forall|i: int| 0 <= i < all.len() implies !(#[trigger] all[i]).contains(sep) by {
            if i < before.len() - 1 {
                assert(all[i] == before[i]);
            } else if s.last() != sep {
                let last = before.last();
                assert(!last.contains(sep));
                assert(all[i] == last.push(s.last()));
                assert forall|k: int| 0 <= k < all[i].len() implies all[i][k] != sep by {
                    if k < last.len() {
                        assert(last.contains(last[k]));
                    }
                }
            } else if i < before.len() {
                assert(all[i] == before[i]);
            }
        }
    }
}

/// Text without the separator is its own only piece; a separator at its end adds an empty one.
pub proof fn text_without_separator_is_one_piece(s: Seq<char>, sep: char)
    requires
        !s.contains(sep),
    ensures
        pieces(s, sep) == seq![s],
        pieces(s.push(sep), sep) == seq![s, Seq::empty()],
    decreases s.len(),
{
    if s.len() > 0 {
        assert(s.contains(s.last()));
        assert forall|k: int| 0 <= k < s.drop_last().len() implies s.drop_last()[k] != sep by {
            assert(s.contains(s[k]));
        }
        text_without_separator_is_one_piece(s.drop_last(), sep);
        assert(s.drop_last().push(s.last()) == s);
        assert(seq![s.drop_last()].drop_last().push(s) =~= seq![s]);
    } else {
        assert(s == Seq::<char>::empty());
    }
    assert(pieces(s, sep) =~= seq![s]);
    assert(s.push(sep).drop_last() == s && s.push(sep).last() == sep);
    assert(pieces(s.push(sep), sep) == pieces(s, sep).push(Seq::<char>::empty()));
    assert(seq![s].push(Seq::<char>::empty()) =~= seq![s, Seq::<char>::empty()]);
}

/// Trimming brings in no character.
pub proof fn trimming_adds_nothing(kind: Blank, s: Seq<char>, c: char)
    requires
        trimmed(kind, s).contains(c),
    ensures
        s.contains(c),
{
    lemma_trim_right_subset(kind, trim_left(kind, s), c);
    lemma_trim_left_subset(kind, s, c);
}

proof fn lemma_trim_left_subset(kind: Blank, s: Seq<char>, c: char)
    requires
        trim_left(kind, s).contains(c),
    ensures
        s.contains(c),
    decreases s.len(),
{
    if s.len() > 0 && blank(kind, s[0]) {
        lemma_trim_left_subset(kind, s.drop_first(), c);
        let k = choose|k: int| 0 <= k < s.drop_first().len() && s.drop_first()[k] == c;
        assert(s[k + 1] == c);
    }
}

proof fn lemma_trim_right_subset(kind: Blank, s: Seq<char>, c: char)
    requires
        trim_right(kind, s).contains(c),
    ensures
        s.contains(c),
    decreases s.len(),
{
    if s.len() > 0 && blank(kind, s.last()) {
        lemma_trim_right_subset(kind, s.drop_last(), c);
        let k = choose|k: int| 0 <= k < s.drop_last().len() && s.drop_last()[k] == c;
        assert(s[k] == c);
    }
}

/// The texts of a list of strings.
pub open spec fn texts(v: Seq<String>) -> Seq<Seq<char>> {
    Seq::new(v.len(), |i: int| v[i]@)
}

pub fn split(s: &str, sep: char) -> (r: Vec<String>)
    ensures
        texts(r@) == pieces(s@, sep),
        r@.len() > 0,
{
    let v = chars_of(s);
    let mut r: Vec<String> = Vec::new();
    let mut piece = String::new();
    let mut i: usize = 0;
    assert(s@.take(0) == Seq::<char>::empty());
    assert(texts(r@).push(piece@) == seq![Seq::<char>::empty()]);
    while i < v.len()
        invariant
            v@ == s@,
            i <= v@.len(),
            texts(r@).push(piece@) == pieces(s@.take(i as int), sep),
        decreases v@.len() - i,
    {
        let ghost before = texts(r@);
        let ghost part = piece@;
        assert(s@.take(i + 1).drop_last() == s@.take(i as int));
        assert(before.push(part).drop_last() == before);
        if v[i] == sep {
            let ghost done = r@;
            r.push(piece);
            piece = String::new();
            assert(texts(r@) == before.push(part));
        } else {
            piece.push(v[i]);
        }
        i += 1;
    }
    assert(s@.take(i as int) == s@);
    let ghost before = texts(r@);
    let ghost part = piece@;
    r.push(piece);
    assert(texts(r@) == before.push(part));
    r
}

/// The digit of a number below ten.
pub open spec fn digit(d: nat) -> char {
    (('0' as nat + d) as u8) as char
}

/// A number in decimal, without leading zeros.
pub open spec fn decimal(n: nat) -> Seq<char>
    decreases n,
{
    if n < 10 {
        seq![digit(n)]
    } else {
        decimal(n / 10).push(digit(n % 10))
    }
}

pub fn push_decimal(s: &mut String, n: u32)
    ensures
        final(s)@ == old(s)@ + decimal(n as nat),
    decreases n,
{
    if n >= 10 {
        push_decimal(s, n / 10);
    }
    let ghost before = s@;
    let d: u8 = 48 + (n % 10) as u8;
    s.push(d as char);
    assert(s@ == old(s)@ + decimal(n as nat));
}

/// The number that a sequence of decimal digits denotes.
pub open spec fn digits_value(s: Seq<char>) -> nat
    decreases s.len(),
{
    if s.len() == 0 {
        0
    } else {
        digits_value(s.drop_last()) * 10 + (s.last() as nat - '0' as nat) as nat
    }
}

pub open spec fn all_digits(s: Seq<char>) -> bool {
    forall|i: int| 0 <= i < s.len() ==> '0' <= #[trigger] s[i] <= '9'
}

/// The digits of a number that may carry a plus sign.
pub open spec fn unsigned_part(s: Seq<char>) -> Seq<char> {
    if s.len() > 0 && s[0] == '+' {
        s.drop_first()
    } else {
        s
    }
}

/// The 32-bit number that `s` denotes: at least one digit, with an optional plus sign in front.
pub open spec fn number_of(s: Seq<char>) -> Option<u32> {
    let d = unsigned_part(s);
    if d.len() > 0 && all_digits(d) && digits_value(d) <= u32::MAX {
        Some(digits_value(d) as u32)
    } else {
        None
    }
}

proof fn lemma_digits_value_grows(s: Seq<char>, k: int)
    requires
        0 <= k <= s.len(),
    ensures
        digits_value(s.take(k)) <= digits_value(s),
    decreases s.len(),
{
    if k < s.len() {
        lemma_digits_value_grows(s.drop_last(), k);
        assert(s.drop_last().take(k) == s.take(k));
    } else {
        assert(s.take(k) == s);
    }
}

pub fn parse_u32(s: &str) -> (r: Option<u32>)
    ensures
        r == number_of(s@),
{
    let v = chars_of(s);
    let start: usize = if v.len() > 0 && v[0] == '+' {
        1
    } else {
        0
    };
    let ghost d = unsigned_part(s@);
    assert(d == v@.skip(start as int));
    if start == v.len() {
        return None;
    }
    let mut value: u32 = 0;
    let mut i: usize = start;
    assert(d.take(0) == Seq::<char>::empty());
    while i < v.len()
        invariant
            start <= i <= v@.len(),
            d == v@.skip(start as int),
            d == unsigned_part(s@),
            d.len() > 0,
            all_digits(d.take(i - start)),
            value == digits_value(d.take(i - start)),
        decreases v@.len() - i,
    {
        let c: char = v[i];
        assert(c == d[i - start]);
        if c < '0' || c > '9' {
            return None;
        }
        let unit: u32 = c as u32 - '0' as u32;
        let ghost k = i - start;
        assert(d.take(k + 1).drop_last() == d.take(k));
        assert(digits_value(d.take(k + 1)) == value * 10 + unit);
        proof {
            lemma_digits_value_grows(d, k + 1);
        }
        if value > (u32::MAX - unit) / 10 {
            return None;
        }
        assert(all_digits(d.take(k + 1))) by {
            assert forall|j: int| 0 <= j < d.take(k + 1).len() implies '0' <= #[trigger] d.take(
                k + 1,
            )[j] <= '9' by {
                if j < k {
                    assert(d.take(k)[j] == d.take(k + 1)[j]);
                }
            }
        }
        value = value * 10 + unit;
        i += 1;
    }
    assert(d.take(i - start) == d);
    Some(value)
}

/// Trimming takes away blanks at both ends, all of them, and nothing else.
pub proof fn trimming_takes_blanks_only(kind: Blank, s: Seq<char>)
    ensures
        exists|i: int, j: int|
            0 <= i <= j <= s.len() && trimmed(kind, s) == #[trigger] s.subrange(i, j) && (forall|
                k: int,
            |
                0 <= k < i || j <= k < s.len() ==> blank(kind, #[trigger] s[k])),
        trimmed(kind, s).len() > 0 ==> !blank(kind, trimmed(kind, s)[0]) && !blank(
            kind,
            trimmed(kind, s).last(),
        ),
{
    let left = trim_left(kind, s);
    let i = s.len() - left.len();
    lemma_trim_left_cut(kind, s);
    lemma_trim_right_cut(kind, left);
    let j = i + trimmed(kind, s).len();
    assert(trimmed(kind, s) =~= s.subrange(i, j));
    assert forall|k: int| 0 <= k < i || j <= k < s.len() implies blank(kind, #[trigger] s[k]) by {
        if j <= k {
            assert(left[k - i] == s[k]);
        }
    }
    trimmed_has_no_blank_ends(kind, s);
}

proof fn lemma_trim_left_cut(kind: Blank, s: Seq<char>)
    ensures
        trim_left(kind, s).len() <= s.len(),
        trim_left(kind, s) == s.skip(s.len() - trim_left(kind, s).len()),
        forall|k: int|
            0 <= k < s.len() - trim_left(kind, s).len() ==> blank(kind, #[trigger] s[k]),
    decreases s.len(),
{
    if s.len() > 0 && blank(kind, s[0]) {
        let t = s.drop_first();
        lemma_trim_left_cut(kind, t);
        let n = s.len() - trim_left(kind, s).len();
        assert(trim_left(kind, s) =~= s.skip(n));
        assert forall|k: int| 0 <= k < n implies blank(kind, #[trigger] s[k]) by {
            if k > 0 {
                assert(t[k - 1] == s[k]);
            }
        }
    } else {
        assert(s.skip(0) =~= s);
    }
}

proof fn lemma_trim_right_cut(kind: Blank, s: Seq<char>)
    ensures
        trim_right(kind, s).len() <= s.len(),
        trim_right(kind, s) == s.take(trim_right(kind, s).len() as int),
        forall|k: int|
            trim_right(kind, s).len() <= k < s.len() ==> blank(kind, #[trigger] s[k]),
    decreases s.len(),
{
    if s.len() > 0 && blank(kind, s.last()) {
        let t = s.drop_last();
        lemma_trim_right_cut(kind, t);
        assert(trim_right(kind, s) =~= s.take(trim_right(kind, s).len() as int));
        assert forall|k: int| trim_right(kind, s).len() <= k < s.len() implies blank(
            kind,
            #[trigger] s[k],
        ) by {
            if k < t.len() {
                assert(t[k] == s[k]);
            }
        }
    } else {
        assert(s.take(s.len() as int) =~= s);
    }
}

/// The blanks of ASCII are the tab, the line feed, the form feed, the carriage return and the
/// space; Unicode has those that its `White_Space` property names.
pub proof fn these_are_the_blanks(c: char)
    ensures
        blank(Blank::Ascii, c) <==> (c as int == 9 || c as int == 10 || c as int == 12 || c as int
            == 13 || c as int == 32),
        blank(Blank::Unicode, c) <==> (9 <= c as int <= 13 || c as int == 32 || c as int == 0x85
            || c as int == 0xA0 || c as int == 0x1680 || 0x2000 <= c as int <= 0x200A || c as int
            == 0x2028 || c as int == 0x2029 || c as int == 0x202F || c as int == 0x205F || c as int
            == 0x3000),
{
}

/// Texts put together with a separator between each two.
pub open spec fn put_together(parts: Seq<Seq<char>>, sep: char) -> Seq<char>
    decreases parts.len(),
{
    if parts.len() == 0 {
        Seq::empty()
    } else if parts.len() == 1 {
        parts[0]
    } else {
        put_together(parts.drop_last(), sep).push(sep) + parts.last()
    }
}

/// The pieces of a text, put together again, are the text; and texts without the separator are the
/// pieces of what they are put together to.
pub proof fn pieces_make_the_text(s: Seq<char>, sep: char)
    ensures
        put_together(pieces(s, sep), sep) == s,
        pieces(s, sep).len() > 0,
        forall|i: int| 0 <= i < pieces(s, sep).len() ==> !(#[trigger] pieces(s, sep)[i]).contains(
            sep,
        ),
    decreases s.len(),
{
    pieces_hold_no_separator(s, sep);
    if s.len() > 0 {
        pieces_make_the_text(s.drop_last(), sep);
        let before = pieces(s.drop_last(), sep);
        let all = pieces(s, sep);
        if s.last() == sep {
            assert(all.drop_last() =~= before);
            assert(put_together(all, sep) =~= put_together(before, sep).push(sep));
        } else {
            assert(all.drop_last() =~= before.drop_last());
            if before.len() > 1 {
                assert(put_together(all, sep) =~= put_together(before, sep).push(s.last()));
            }
        }
        assert(s.drop_last().push(s.last()) =~= s);
    }
}

/// Text without the separator, a separator and more text: the first piece is that text, and the
/// others are the pieces of the rest.
pub proof fn a_piece_ends_at_the_separator(first: Seq<char>, rest: Seq<char>, sep: char)
    requires
        !first.contains(sep),
    ensures
        pieces(first.push(sep) + rest, sep) == seq![first] + pieces(rest, sep),
    decreases rest.len(),
{
    let all = first.push(sep) + rest;
    if rest.len() == 0 {
        assert(all =~= first.push(sep));
        text_without_separator_is_one_piece(first, sep);
        assert(seq![first] + seq![Seq::<char>::empty()] =~= seq![first, Seq::<char>::empty()]);
    } else {
        let less = rest.drop_last();
        a_piece_ends_at_the_separator(first, less, sep);
        assert(all.drop_last() =~= first.push(sep) + less);
        pieces_hold_no_separator(less, sep);
        let before = pieces(less, sep);
        let joined = seq![first] + before;
        if rest.last() == sep {
            assert(joined.push(Seq::<char>::empty()) =~= seq![first] + before.push(Seq::empty()));
        } else {
            let grown = before.last().push(rest.last());
            assert(joined.drop_last().push(grown) =~= seq![first] + before.drop_last().push(grown));
        }
    }
}

/// A number in decimal is made of digits, has no leading zero, and is read back as the number.
pub proof fn decimals_are_read_back(n: nat)
    ensures
        decimal(n).len() > 0,
        all_digits(decimal(n)),
        decimal(n)[0] == '0' ==> n == 0,
        digits_value(decimal(n)) == n,
        n <= u32::MAX ==> number_of(decimal(n)) == Some(n as u32),
    decreases n,
{
    let s = decimal(n);
    if n < 10 {
        assert(s.drop_last() =~= Seq::<char>::empty());
        reveal_with_fuel(digits_value, 2);
    } else {
        let t = decimal(n / 10);
        decimals_are_read_back(n / 10);
        assert(s.drop_last() =~= t);
        assert(s[0] == t[0]);
        assert forall|i: int| 0 <= i < s.len() implies '0' <= #[trigger] s[i] <= '9' by {
            if i < t.len() {
                assert(s[i] == t[i]);
            }
        }
    }
    assert(s[0] != '+');
}

/// A number is read from digits alone, of which there is at least one, with or without a plus sign
/// in front. Each digit counts ten times as much as the one behind it. What passes 32 bits is no
/// number.
pub proof fn numbers_are_digits(s: Seq<char>, d: char)
    ensures
        number_of(Seq::empty()) is None,
        digits_value(Seq::empty()) == 0,
        '0' <= d <= '9' ==> digits_value(s.push(d)) == 10 * digits_value(s) + (d as int - 48),
        s.len() > 0 && all_digits(s) ==> number_of(s) == if digits_value(s) <= 0xFFFF_FFFF {
            Some(digits_value(s) as u32)
        } else {
            None
        },
        s.len() > 0 && all_digits(s) ==> number_of(seq!['+'] + s) == number_of(s),
        !all_digits(s) && !(s.len() > 1 && s[0] == '+' && all_digits(s.skip(1))) ==> number_of(s)
            is None,
        all_digits(s) <==> forall|i: int| 0 <= i < s.len() ==> 48 <= (#[trigger] s[i]) as int <= 57,
{
    assert(s.push(d).drop_last() =~= s);
    if s.len() > 0 && all_digits(s) {
        assert('0' <= s[0] <= '9');
        assert((seq!['+'] + s).drop_first() =~= s);
    }
    assert(s.len() > 0 ==> s.drop_first() =~= s.skip(1));
}

/// Only the 26 capitals of ASCII change in lower case, each to the letter 32 places on.
pub proof fn capitals_become_small(s: Seq<char>)
    ensures
        ascii_lower(s).len() == s.len(),
        forall|i: int|
            0 <= i < s.len() ==> (#[trigger] ascii_lower(s)[i]) as int == if 65 <= s[i] as int
                <= 90 {
                s[i] as int + 32
            } else {
                s[i] as int
            },
{
}

/// A text occurs in another where it stands between two others, and only there.
pub proof fn a_text_occurs_between_others(a: Seq<char>, part: Seq<char>, b: Seq<char>, s: Seq<char>)
    ensures
        occurs(a + part + b, part),
        occurs(s, part) ==> exists|at: int|
            0 <= at && at + part.len() <= s.len() && s == #[trigger] s.take(at) + part + s.skip(
                at + part.len(),
            ),
{
    let all = a + part + b;
    assert(all.subrange(a.len() as int, (a.len() + part.len()) as int) =~= part);
    assert(stands_at(all, part, a.len() as int));
    if occurs(s, part) {
        let at = choose|at: int| stands_at(s, part, at);
        assert(s =~= s.take(at) + part + s.skip(at + part.len())) by {
            assert(s.subrange(at, at + part.len()) == part);
            assert forall|k: int| 0 <= k < part.len() implies s[at + k] == part[k] by {
                assert(s.subrange(at, at + part.len())[k] == part[k]);
            }
        }
    }
}

/// Blanks around a text do not count: what is left is the text, where its own ends are no blanks.
pub proof fn blanks_around_do_not_count(kind: Blank, a: Seq<char>, s: Seq<char>, b: Seq<char>)
    requires
        forall|i: int| 0 <= i < a.len() ==> blank(kind, #[trigger] a[i]),
        forall|i: int| 0 <= i < b.len() ==> blank(kind, #[trigger] b[i]),
        s.len() > 0 ==> !blank(kind, s[0]) && !blank(kind, s.last()),
    ensures
        trimmed(kind, a + s + b) == s,
{
    let all = a + s + b;
    let t = trimmed(kind, all);
    trimming_takes_blanks_only(kind, all);
    let (i, j) = choose|i: int, j: int|
        0 <= i <= j <= all.len() && t == #[trigger] all.subrange(i, j) && (forall|k: int|
            0 <= k < i || j <= k < all.len() ==> blank(kind, #[trigger] all[k]));
    if s.len() > 0 {
        assert(all[a.len() as int] == s[0]);
        assert(all[a.len() + s.len() - 1] == s.last());
        assert(i <= a.len() && j >= a.len() + s.len());
        assert(t[0] == all[i]);
        assert(t.last() == all[j - 1]);
        if i < a.len() {
            assert(all[i] == a[i]);
        }
        if j > a.len() + s.len() {
            assert(all[j - 1] == b[j - 1 - a.len() - s.len()]);
        }
    } else if t.len() > 0 {
        assert(t[0] == all[i]);
        assert(all[i] == if i < a.len() {
            a[i]
        } else {
            b[i - a.len()]
        });
    }
    assert(t =~= s);
}

} // verus!
