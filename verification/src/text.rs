//! Text as sequences of characters: the vocabulary that the contracts of the
//! other modules are written in, and the executable functions that match it.
use vstd::prelude::*;

verus! {

broadcast use vstd::string::group_string_axioms;

/// `String::push` of the standard library appends one character to the end of
/// the string.
pub assume_specification[ String::push ](s: &mut String, c: char)
    ensures
        final(s)@ == old(s)@.push(c),
;

/// The texts that a list of strings holds.
pub open spec fn texts(strings: Seq<String>) -> Seq<Seq<char>> {
    strings.map_values(|s: String| s@)
}

/// The text inside an optional string.
pub open spec fn opt_text(s: Option<String>) -> Option<Seq<char>> {
    match s {
        Some(t) => Some(t@),
        None => None,
    }
}

/// The text inside an optional string slice.
pub open spec fn opt_str(s: Option<&str>) -> Option<Seq<char>> {
    match s {
        Some(t) => Some(t@),
        None => None,
    }
}

/// The optional text, or the given one where there is none.
pub open spec fn text_or(s: Option<Seq<char>>, default: Seq<char>) -> Seq<char> {
    match s {
        Some(t) => t,
        None => default,
    }
}

/// The characters with the Unicode property `White_Space`.
pub open spec fn is_white_space(c: char) -> bool {
    ||| '\u{9}' <= c <= '\u{d}'
    ||| c == ' '
    ||| c == '\u{85}'
    ||| c == '\u{a0}'
    ||| c == '\u{1680}'
    ||| '\u{2000}' <= c <= '\u{200a}'
    ||| c == '\u{2028}'
    ||| c == '\u{2029}'
    ||| c == '\u{202f}'
    ||| c == '\u{205f}'
    ||| c == '\u{3000}'
}

/// The characters of the Unicode general category `Cc`.
pub open spec fn is_control(c: char) -> bool {
    c <= '\u{1f}' || '\u{7f}' <= c <= '\u{9f}'
}

/// Does the character count as white space?
pub fn white_space(c: char) -> (r: bool)
    ensures
        r == is_white_space(c),
{
    ('\u{9}' <= c && c <= '\u{d}') || c == ' ' || c == '\u{85}' || c == '\u{a0}' || c == '\u{1680}'
        || ('\u{2000}' <= c && c <= '\u{200a}') || c == '\u{2028}' || c == '\u{2029}' || c
        == '\u{202f}' || c == '\u{205f}' || c == '\u{3000}'
}

/// Is it a control character?
pub fn control(c: char) -> (r: bool)
    ensures
        r == is_control(c),
{
    c <= '\u{1f}' || ('\u{7f}' <= c && c <= '\u{9f}')
}

/// The text without the white space it starts with.
pub open spec fn trim_start(s: Seq<char>) -> Seq<char>
    decreases s.len(),
{
    if s.len() > 0 && is_white_space(s[0]) {
        trim_start(s.skip(1))
    } else {
        s
    }
}

/// The text without the white space it ends with.
pub open spec fn trim_end(s: Seq<char>) -> Seq<char>
    decreases s.len(),
{
    if s.len() > 0 && is_white_space(s.last()) {
        trim_end(s.drop_last())
    } else {
        s
    }
}

/// The text without white space at either end.
pub open spec fn trimmed(s: Seq<char>) -> Seq<char> {
    trim_end(trim_start(s))
}

/// Nothing but white space.
pub open spec fn is_blank(s: Seq<char>) -> bool {
    trimmed(s).len() == 0
}

/// The characters of a string, in order.
pub fn chars_of(s: &str) -> (v: Vec<char>)
    ensures
        v@ == s@,
{
    let mut v: Vec<char> = Vec::new();
    for c in it: s.chars()
        invariant
            it.seq() == s@,
            v@ == s@.take(it.index()),
    {
        proof {
            assert(s@.take(it.index() + 1) =~= s@.take(it.index()).push(s@[it.index()]));
        }
        v.push(c);
    }
    proof {
        assert(s@.take(s@.len() as int) =~= s@);
    }
    v
}

proof fn lemma_trim_start_skip(s: Seq<char>, n: int)
    requires
        0 <= n <= s.len(),
        forall|i: int| 0 <= i < n ==> is_white_space(#[trigger] s[i]),
        n < s.len() ==> !is_white_space(s[n]),
    ensures
        trim_start(s) == s.skip(n),
    decreases n,
{
    if n > 0 {
        assert(is_white_space(s[0]));
        let t = s.skip(1);
        assert forall|i: int| 0 <= i < n - 1 implies is_white_space(#[trigger] t[i]) by {
            assert(t[i] == s[i + 1]);
        }
        lemma_trim_start_skip(t, n - 1);
        assert(t.skip(n - 1) =~= s.skip(n));
    } else {
        assert(s.skip(0) =~= s);
    }
}

proof fn lemma_trim_end_take(s: Seq<char>, n: int)
    requires
        0 <= n <= s.len(),
        forall|i: int| n <= i < s.len() ==> is_white_space(#[trigger] s[i]),
        n > 0 ==> !is_white_space(s[n - 1]),
    ensures
        trim_end(s) == s.take(n),
    decreases s.len(),
{
    if n < s.len() {
        assert(is_white_space(s[s.len() - 1]));
        let t = s.drop_last();
        assert forall|i: int| n <= i < t.len() implies is_white_space(#[trigger] t[i]) by {
            assert(t[i] == s[i]);
        }
        lemma_trim_end_take(t, n);
        assert(t.take(n) =~= s.take(n));
    } else {
        assert(s.take(n) =~= s);
        if s.len() > 0 {
            assert(s.last() == s[n - 1]);
        }
    }
}

/// The string without white space at either end.
pub fn trim<'a>(s: &'a str) -> (r: &'a str)
    ensures
        r@ == trimmed(s@),
{
    let v = chars_of(s);
    let mut start: usize = 0;
    while start < v.len() && white_space(v[start])
        invariant
            start <= v@.len(),
            forall|i: int| 0 <= i < start ==> is_white_space(#[trigger] v@[i]),
        decreases v@.len() - start,
    {
        start = start + 1;
    }
    let mut end: usize = v.len();
    while end > start && white_space(v[end - 1])
        invariant
            start <= end <= v@.len(),
            forall|i: int| end <= i < v@.len() ==> is_white_space(#[trigger] v@[i]),
        decreases end,
    {
        end = end - 1;
    }
    proof {
        lemma_trim_start_skip(v@, start as int);
        let t = v@.skip(start as int);
        assert forall|i: int| end - start <= i < t.len() implies is_white_space(
            #[trigger] t[i],
        ) by {
            assert(t[i] == v@[i + start]);
        }
        if end > start {
            assert(t[end - start - 1] == v@[end - 1]);
        }
        lemma_trim_end_take(t, end - start);
        assert(t.take(end - start) =~= v@.subrange(start as int, end as int));
    }
    s.substring_char(start, end)
}

/// The decimal digit of a number below ten.
pub open spec fn digit(n: nat) -> char {
    (48 + n) as char
}

/// The number in decimal notation.
pub open spec fn decimal(n: nat) -> Seq<char>
    decreases n,
{
    if n < 10 {
        seq![digit(n)]
    } else {
        decimal(n / 10).push(digit(n % 10))
    }
}

fn digit_char(n: u64) -> (c: char)
    requires
        n < 10,
    ensures
        c == digit(n as nat),
{
    (48 + n as u8) as char
}

/// Writes a number in decimal notation at the end of the string.
pub fn push_decimal(out: &mut String, n: u64)
    ensures
        final(out)@ == old(out)@ + decimal(n as nat),
    decreases n,
{
    if n >= 10 {
        push_decimal(out, n / 10);
    }
    out.push(digit_char(n % 10));
    proof {
        assert(final(out)@ =~= old(out)@ + decimal(n as nat));
    }
}

/// Pieces of text with a separator between each two.
pub open spec fn join(parts: Seq<Seq<char>>, sep: Seq<char>) -> Seq<char>
    decreases parts.len(),
{
    if parts.len() == 0 {
        Seq::empty()
    } else if parts.len() == 1 {
        parts[0]
    } else {
        join(parts.drop_last(), sep) + sep + parts.last()
    }
}

/// The strings with a separator between each two.
pub fn join_strings(parts: &[String], sep: &str) -> (r: String)
    ensures
        r@ == join(texts(parts@), sep@),
{
    let mut out = String::new();
    let mut i: usize = 0;
    while i < parts.len()
        invariant
            i <= parts@.len(),
            out@ == join(texts(parts@).take(i as int), sep@),
        decreases parts@.len() - i,
    {
        let ghost before = texts(parts@).take(i as int);
        if i > 0 {
            out.append(sep);
        }
        out.append(parts[i].as_str());
        proof {
            let after = texts(parts@).take(i + 1);
            assert(after.drop_last() =~= before);
            assert(after.last() == parts@[i as int]@);
            if i == 0 {
                assert(out@ =~= after[0]);
            }
        }
        i = i + 1;
    }
    proof {
        assert(texts(parts@).take(parts@.len() as int) =~= texts(parts@));
    }
    out
}

/// Does `part` stand in `s` at position `at`?
pub open spec fn stands_at(s: Seq<char>, part: Seq<char>, at: int) -> bool {
    0 <= at <= s.len() - part.len() && s.subrange(at, at + part.len()) == part
}

/// Does `part` stand anywhere in `s`?
pub open spec fn has(s: Seq<char>, part: Seq<char>) -> bool {
    exists|at: int| #[trigger] stands_at(s, part, at)
}

/// Do the characters from `at` on start with `part`?
pub fn matches_at(s: &[char], part: &[char], at: usize) -> (r: bool)
    requires
        at <= s@.len(),
    ensures
        r == stands_at(s@, part@, at as int),
{
    if part.len() > s.len() - at {
        return false;
    }
    let mut i: usize = 0;
    while i < part.len()
        invariant
            i <= part@.len(),
            at + part@.len() <= s.len(),
            forall|j: int| 0 <= j < i ==> s@[at + j] == #[trigger] part@[j],
        decreases part@.len() - i,
    {
        if s[at + i] != part[i] {
            proof {
                assert(s@.subrange(at as int, at + part@.len())[i as int] != part@[i as int]);
            }
            return false;
        }
        i = i + 1;
    }
    proof {
        assert(s@.subrange(at as int, at + part@.len()) =~= part@);
    }
    true
}

/// The first position at or after `from` where `part` stands in `s`, if any.
pub fn find_from(s: &[char], part: &[char], from: usize) -> (r: Option<usize>)
    requires
        from <= s@.len(),
    ensures
        match r {
            Some(at) => from <= at && stands_at(s@, part@, at as int) && forall|i: int|
                from <= i < at ==> !#[trigger] stands_at(s@, part@, i),
            None => forall|i: int| from <= i ==> !#[trigger] stands_at(s@, part@, i),
        },
{
    let mut at: usize = from;
    while at <= s.len()
        invariant
            from <= at <= s@.len() + 1,
            forall|i: int| from <= i < at ==> !#[trigger] stands_at(s@, part@, i),
        decreases s@.len() + 1 - at,
    {
        if matches_at(s, part, at) {
            return Some(at);
        }
        if at == s.len() {
            return None;
        }
        at = at + 1;
    }
    None
}

/// Does the string hold the given piece of text?
pub fn contains(s: &str, part: &str) -> (r: bool)
    ensures
        r == has(s@, part@),
{
    let s_chars = chars_of(s);
    let part_chars = chars_of(part);
    let found = find_from(&s_chars, &part_chars, 0);
    proof {
        if found is Some {
            assert(stands_at(s@, part@, found->0 as int));
        } else {
            assert forall|at: int| !#[trigger] stands_at(s@, part@, at) by {}
        }
    }
    found.is_some()
}

/// The text in lower case letters, as Unicode maps them. The mapping of a letter
/// can depend on the letters around it, and can be longer than the letter.
pub uninterp spec fn lower_case(s: Seq<char>) -> Seq<char>;

/// `str::to_lowercase` of the standard library. Its result is named and not
/// described: it is the Unicode lower case mapping of the whole text.
#[verifier::external_body]
pub(crate) fn to_lower_case(s: &str) -> (r: String)
    ensures
        r@ == lower_case(s@),
{
    s.to_lowercase()
}

/// Do two strings hold the same text?
pub fn same(a: &str, b: &str) -> (r: bool)
    ensures
        r == (a@ == b@),
{
    let a_chars = chars_of(a);
    let b_chars = chars_of(b);
    let r = a_chars.len() == b_chars.len() && matches_at(&a_chars, &b_chars, 0);
    proof {
        if r {
            assert(a@.subrange(0, b@.len() as int) =~= a@);
        } else if a@ == b@ {
            assert(a@.subrange(0, b@.len() as int) =~= b@);
        }
    }
    r
}

/// A copy of an optional string.
pub fn clone_opt(s: &Option<String>) -> (r: Option<String>)
    ensures
        r == *s,
{
    match s {
        Some(t) => Some(t.clone()),
        None => None,
    }
}

/// Four pieces of text in a row.
pub fn concat4(a: &str, b: &str, c: &str, d: &str) -> (r: String)
    ensures
        r@ == a@ + b@ + c@ + d@,
{
    let mut out = String::new();
    out.append(a);
    out.append(b);
    out.append(c);
    out.append(d);
    proof {
        assert(out@ =~= a@ + b@ + c@ + d@);
    }
    out
}

/// Two pieces of text in a row.
pub fn concat2(a: &str, b: &str) -> (r: String)
    ensures
        r@ == a@ + b@,
{
    let mut out = String::new();
    out.append(a);
    out.append(b);
    proof {
        assert(out@ =~= a@ + b@);
    }
    out
}

/// Three pieces of text in a row.
pub fn concat3(a: &str, b: &str, c: &str) -> (r: String)
    ensures
        r@ == a@ + b@ + c@,
{
    let mut out = String::new();
    out.append(a);
    out.append(b);
    out.append(c);
    proof {
        assert(out@ =~= a@ + b@ + c@);
    }
    out
}

/// Five pieces of text in a row.
pub fn concat5(a: &str, b: &str, c: &str, d: &str, e: &str) -> (r: String)
    ensures
        r@ == a@ + b@ + c@ + d@ + e@,
{
    let mut out = concat4(a, b, c, d);
    out.append(e);
    out
}

/// A piece of a text stands in it, at its own place.
pub proof fn law_pieces_stand_in_the_whole(before: Seq<char>, piece: Seq<char>, after: Seq<char>)
    ensures
        stands_at(before + piece + after, piece, before.len() as int),
        has(before + piece + after, piece),
{
    let s = before + piece + after;
    assert(s.subrange(before.len() as int, (before.len() + piece.len()) as int) =~= piece);
    assert(stands_at(s, piece, before.len() as int));
}

/// Trimming takes the white space off both ends and nothing else: what is left begins and
/// ends with a character that is none.
pub proof fn law_trimming_takes_only_white_space(
    before: Seq<char>,
    middle: Seq<char>,
    after: Seq<char>,
)
    requires
        forall|i: int| 0 <= i < before.len() ==> is_white_space(#[trigger] before[i]),
        forall|i: int| 0 <= i < after.len() ==> is_white_space(#[trigger] after[i]),
        middle.len() > 0 ==> !is_white_space(middle[0]) && !is_white_space(
            middle[middle.len() - 1],
        ),
    ensures
        trimmed(before + middle + after) == middle,
        is_blank(before + middle + after) <==> middle.len() == 0,
{
    let s = before + middle + after;
    let n = before.len() as int;
    if middle.len() > 0 {
        assert forall|i: int| 0 <= i < n implies is_white_space(#[trigger] s[i]) by {
            assert(s[i] == before[i]);
        }
        assert(s[n] == middle[0]);
        lemma_trim_start_skip(s, n);
        let t = s.skip(n);
        assert(t =~= middle + after);
        let m = middle.len() as int;
        assert forall|i: int| m <= i < t.len() implies is_white_space(#[trigger] t[i]) by {
            assert(t[i] == after[i - m]);
        }
        assert(t[m - 1] == middle[m - 1]);
        lemma_trim_end_take(t, m);
        assert(t.take(m) =~= middle);
    } else {
        assert forall|i: int| 0 <= i < s.len() implies is_white_space(#[trigger] s[i]) by {
            if i < n {
                assert(s[i] == before[i]);
            } else {
                assert(s[i] == after[i - n]);
            }
        }
        lemma_trim_start_skip(s, s.len() as int);
        assert(s.skip(s.len() as int) =~= middle);
    }
}

/// The number that digits stand for.
pub open spec fn number(digits: Seq<char>) -> int
    decreases digits.len(),
{
    if digits.len() == 0 {
        0
    } else {
        10 * number(digits.drop_last()) + (digits.last() as int - 48)
    }
}

/// A number in decimal notation is made of digits, has no needless zero in front, and read
/// back it is the same number.
pub proof fn law_decimals_read_back(n: nat)
    ensures
        number(decimal(n)) == n,
        decimal(n).len() > 0,
        forall|i: int| 0 <= i < decimal(n).len() ==> '0' <= #[trigger] decimal(n)[i] <= '9',
        n > 0 ==> decimal(n)[0] != '0',
    decreases n,
{
    let d = decimal(n);
    if n < 10 {
        assert(d.drop_last() =~= Seq::<char>::empty());
        assert(number(d.drop_last()) == 0);
    } else {
        law_decimals_read_back(n / 10);
        assert(d.drop_last() =~= decimal(n / 10));
        assert(d[0] == decimal(n / 10)[0]);
    }
}

/// Every part of a joined list stands in it whole, with what comes before it joined before it
/// and what comes after it joined after it.
pub proof fn law_joined_parts_keep_their_place(parts: Seq<Seq<char>>, sep: Seq<char>, i: int)
    requires
        0 <= i < parts.len(),
    ensures
        join(parts, sep) == (if i > 0 {
            join(parts.take(i), sep) + sep
        } else {
            Seq::<char>::empty()
        }) + parts[i] + (if i + 1 < parts.len() {
            sep + join(parts.skip(i + 1), sep)
        } else {
            Seq::<char>::empty()
        }),
        has(join(parts, sep), parts[i]),
    decreases parts.len(),
{
    let before = if i > 0 {
        join(parts.take(i), sep) + sep
    } else {
        Seq::<char>::empty()
    };
    let after = if i + 1 < parts.len() {
        sep + join(parts.skip(i + 1), sep)
    } else {
        Seq::<char>::empty()
    };
    let head = parts.drop_last();
    if i == parts.len() - 1 {
        assert(parts.take(i) =~= head);
        assert(join(parts, sep) =~= before + parts[i] + after);
    } else {
        law_joined_parts_keep_their_place(head, sep, i);
        assert(head.take(i) =~= parts.take(i));
        let rest = parts.skip(i + 1);
        if i + 1 < head.len() {
            assert(rest.drop_last() =~= head.skip(i + 1));
            assert(rest.last() == parts.last());
            assert(join(parts, sep) =~= before + parts[i] + after);
        } else {
            assert(rest =~= seq![parts.last()]);
            assert(join(rest, sep) == parts.last());
            assert(join(parts, sep) =~= before + parts[i] + after);
        }
    }
    law_pieces_stand_in_the_whole(before, parts[i], after);
}

/// A piece stands at a place only if every character of it does.
pub proof fn law_standing_is_equality(s: Seq<char>, piece: Seq<char>, at: int)
    ensures
        stands_at(s, piece, at) <==> 0 <= at && at + piece.len() <= s.len() && forall|i: int|
            0 <= i < piece.len() ==> s[at + i] == #[trigger] piece[i],
{
    if 0 <= at && at + piece.len() <= s.len() {
        let t = s.subrange(at, at + piece.len());
        if forall|i: int| 0 <= i < piece.len() ==> s[at + i] == #[trigger] piece[i] {
            assert(t =~= piece);
        }
        if stands_at(s, piece, at) {
            assert forall|i: int| 0 <= i < piece.len() implies s[at + i] == #[trigger] piece[i] by {
                assert(t[i] == s[at + i]);
            }
        }
    }
}

} // verus!
