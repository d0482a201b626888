//! Text helpers shared by the message builders: substring containment,
//! decimal rendering, joining, trimming and lossy decoding.

use vstd::prelude::*;
use vstd::utf8::{decode_utf8, valid_utf8};

verus! {

/// `needle` occurs in `hay` starting at position `at`.
pub open spec fn occurs_at(hay: Seq<char>, needle: Seq<char>, at: int) -> bool {
    &&& 0 <= at
    &&& at + needle.len() <= hay.len()
    &&& hay.subrange(at, at + needle.len()) == needle
}

/// `needle` occurs somewhere in `hay` as a contiguous run of characters.
pub open spec fn contains_text(hay: Seq<char>, needle: Seq<char>) -> bool {
    exists|at: int| occurs_at(hay, needle, at)
}

/// A text placed between a prefix and a suffix occurs in the whole.
pub proof fn lemma_contains_middle(before: Seq<char>, needle: Seq<char>, after: Seq<char>)
    ensures
        contains_text(before + needle + after, needle),
{
    let hay = before + needle + after;
    assert(hay.subrange(before.len() as int, (before.len() + needle.len()) as int) =~= needle);
    assert(occurs_at(hay, needle, before.len() as int));
}

/// Whatever occurs in a text still occurs after more text is put around it.
pub proof fn lemma_contains_within(
    before: Seq<char>,
    hay: Seq<char>,
    after: Seq<char>,
    needle: Seq<char>,
)
    requires
        contains_text(hay, needle),
    ensures
        contains_text(before + hay + after, needle),
{
    let at = choose|at: int| occurs_at(hay, needle, at);
    let whole = before + hay + after;
    assert(whole.subrange(before.len() + at, before.len() + at + needle.len()) =~= hay.subrange(
        at,
        at + needle.len(),
    ));
    assert(occurs_at(whole, needle, before.len() + at));
}

/// The character for a single decimal digit.
pub open spec fn digit(d: int) -> char {
    if d == 0 {
        '0'
    } else if d == 1 {
        '1'
    } else if d == 2 {
        '2'
    } else if d == 3 {
        '3'
    } else if d == 4 {
        '4'
    } else if d == 5 {
        '5'
    } else if d == 6 {
        '6'
    } else if d == 7 {
        '7'
    } else if d == 8 {
        '8'
    } else {
        '9'
    }
}

/// Decimal digits of a natural number, most significant first, without
/// leading zeros.
pub open spec fn digits(n: nat) -> Seq<char>
    decreases n,
{
    if n < 10 {
        seq![digit(n as int)]
    } else {
        digits(n / 10).push(digit((n % 10) as int))
    }
}

/// Decimal rendering of an integer, with a leading minus sign when negative.
pub open spec fn decimal(n: int) -> Seq<char> {
    if n < 0 {
        seq!['-'] + digits((-n) as nat)
    } else {
        digits(n as nat)
    }
}

fn digit_text(d: u32) -> (s: &'static str)
    requires
        d < 10,
    ensures
        s@ == seq![digit(d as int)],
{
    proof {
        reveal_strlit("0");
        reveal_strlit("1");
        reveal_strlit("2");
        reveal_strlit("3");
        reveal_strlit("4");
        reveal_strlit("5");
        reveal_strlit("6");
        reveal_strlit("7");
        reveal_strlit("8");
        reveal_strlit("9");
    }
    let s = if d == 0 {
        "0"
    } else if d == 1 {
        "1"
    } else if d == 2 {
        "2"
    } else if d == 3 {
        "3"
    } else if d == 4 {
        "4"
    } else if d == 5 {
        "5"
    } else if d == 6 {
        "6"
    } else if d == 7 {
        "7"
    } else if d == 8 {
        "8"
    } else {
        "9"
    };
    assert(s@ =~= seq![digit(d as int)]);
    s
}

fn append_digits(out: &mut String, n: u32)
    ensures
        final(out)@ == old(out)@ + digits(n as nat),
    decreases n,
{
    if n >= 10 {
        append_digits(out, n / 10);
    }
    out.append(digit_text(n % 10));
    assert(out@ =~= old(out)@ + digits(n as nat));
}

/// Renders an integer in decimal.
pub fn decimal_text(n: i32) -> (s: String)
    ensures
        s@ == decimal(n as int),
{
    let mut s = String::new();
    if n < 0 {
        proof {
            reveal_strlit("-");
        }
        s.append("-");
        let magnitude: u32 = (0 - (n as i64)) as u32;
        append_digits(&mut s, magnitude);
        assert(s@ =~= decimal(n as int));
    } else {
        append_digits(&mut s, n as u32);
        assert(s@ =~= decimal(n as int));
    }
    s
}

/// The items written one after another with `separator` between neighbours.
pub open spec fn joined(items: Seq<Seq<char>>, separator: Seq<char>) -> Seq<char>
    decreases items.len(),
{
    if items.len() == 0 {
        Seq::empty()
    } else if items.len() == 1 {
        items[0]
    } else {
        joined(items.drop_last(), separator) + separator + items.last()
    }
}

/// Every item of a joined text occurs in it.
pub proof fn lemma_joined_contains_each(items: Seq<Seq<char>>, separator: Seq<char>, i: int)
    requires
        0 <= i < items.len(),
    ensures
        contains_text(joined(items, separator), items[i]),
    decreases items.len(),
{
    let empty = Seq::<char>::empty();
    if items.len() == 1 {
        lemma_contains_middle(empty, items[0], empty);
        assert(empty + items[0] + empty =~= items[0]);
    } else {
        let front = items.drop_last();
        let head = joined(front, separator);
        if i == items.len() - 1 {
            lemma_contains_middle(head + separator, items.last(), empty);
            assert((head + separator) + items.last() + empty =~= joined(items, separator));
        } else {
            lemma_joined_contains_each(front, separator, i);
            assert(front[i] == items[i]);
            lemma_contains_within(empty, head, separator + items.last(), items[i]);
            assert(empty + head + (separator + items.last()) =~= joined(items, separator));
        }
    }
}

/// The character sequence held by a string that may be absent.
pub open spec fn optional_text(s: Option<String>) -> Option<Seq<char>> {
    match s {
        Some(t) => Some(t@),
        None => None,
    }
}

/// The character sequences held by a list of strings.
pub open spec fn texts(items: Seq<String>) -> Seq<Seq<char>> {
    Seq::new(items.len(), |i: int| items[i]@)
}

/// Writes the items one after another with `separator` between neighbours.
pub fn join(items: &Vec<String>, separator: &str) -> (s: String)
    ensures
        s@ == joined(texts(items@), separator@),
{
    let mut s = String::new();
    let mut i: usize = 0;
    while i < items.len()
        invariant
            i <= items.len(),
            s@ == joined(texts(items@).take(i as int), separator@),
        decreases items.len() - i,
    {
        let ghost before = texts(items@).take(i as int);
        let ghost after = texts(items@).take(i + 1);
        assert(after.drop_last() =~= before);
        assert(after.last() == items@[i as int]@);
        if i > 0 {
            s.append(separator);
        }
        s.append(items[i].as_str());
        assert(s@ =~= joined(after, separator@)) by {
            if i == 0 {
                assert(before.len() == 0);
            }
        }
        i += 1;
    }
    assert(texts(items@).take(items.len() as int) =~= texts(items@));
    s
}

/// The characters of a string, for access by position.
pub fn characters(s: &str) -> (chars: Vec<char>)
    ensures
        chars@ == s@,
{
    let mut chars: Vec<char> = Vec::new();
    for c in it: s.chars()
        invariant
            chars@ == it.seq().take(it.index() as int),
            it.seq() == s@,
    {
        chars.push(c);
        assert(it.seq().take(it.index() + 1) =~= it.seq().take(it.index() as int).push(c));
    }
    assert(chars@ =~= s@);
    chars
}

/// Whether a character is white space: what `char::is_whitespace` answers for
/// it, which is whether it has the Unicode `White_Space` property.
pub uninterp spec fn white_space(c: char) -> bool;

/// Calls `char::is_whitespace`. Its answer depends on the character alone;
/// [`white_space`] is the name for that answer.
#[verifier::external_body]
fn is_whitespace(c: char) -> (b: bool)
    ensures
        b == white_space(c),
{
    c.is_whitespace()
}

/// How many characters at the start of `s` are white space.
pub open spec fn leading_white_space(s: Seq<char>) -> nat
    decreases s.len(),
{
    if s.len() > 0 && white_space(s.first()) {
        1 + leading_white_space(s.drop_first())
    } else {
        0
    }
}

/// How many characters at the end of `s` are white space.
pub open spec fn trailing_white_space(s: Seq<char>) -> nat
    decreases s.len(),
{
    if s.len() > 0 && white_space(s.last()) {
        1 + trailing_white_space(s.drop_last())
    } else {
        0
    }
}

/// `s` without its leading and trailing white space.
pub open spec fn trimmed(s: Seq<char>) -> Seq<char> {
    let start = leading_white_space(s);
    if start == s.len() {
        Seq::empty()
    } else {
        s.subrange(start as int, s.len() - trailing_white_space(s))
    }
}

/// The leading white space is the longest run of white space at the start.
pub proof fn lemma_leading_white_space(s: Seq<char>)
    ensures
        leading_white_space(s) <= s.len(),
        forall|i: int| 0 <= i < leading_white_space(s) ==> white_space(#[trigger] s[i]),
        leading_white_space(s) < s.len() ==> !white_space(s[leading_white_space(s) as int]),
    decreases s.len(),
{
    if s.len() > 0 && white_space(s.first()) {
        let rest = s.drop_first();
        lemma_leading_white_space(rest);
        assert forall|i: int| 0 <= i < leading_white_space(s) implies white_space(
            #[trigger] s[i],
        ) by {
            if i > 0 {
                assert(s[i] == rest[i - 1]);
            }
        }
        if leading_white_space(s) < s.len() {
            assert(s[leading_white_space(s) as int] == rest[leading_white_space(rest) as int]);
        }
    }
}

/// The trailing white space is the longest run of white space at the end.
pub proof fn lemma_trailing_white_space(s: Seq<char>)
    ensures
        trailing_white_space(s) <= s.len(),
        forall|i: int|
            s.len() - trailing_white_space(s) <= i < s.len() ==> white_space(#[trigger] s[i]),
        trailing_white_space(s) < s.len() ==> !white_space(
            s[s.len() - trailing_white_space(s) - 1],
        ),
    decreases s.len(),
{
    if s.len() > 0 && white_space(s.last()) {
        let rest = s.drop_last();
        lemma_trailing_white_space(rest);
        assert forall|i: int|
            s.len() - trailing_white_space(s) <= i < s.len() implies white_space(
            #[trigger] s[i],
        ) by {
            if i < s.len() - 1 {
                assert(s[i] == rest[i]);
            }
        }
        if trailing_white_space(s) < s.len() {
            assert(s[s.len() - trailing_white_space(s) - 1] == rest[rest.len()
                - trailing_white_space(rest) - 1]);
        }
    }
}

/// A run of white space at the start that stops at a character that is not
/// white space, or at the end, is the leading white space.
pub proof fn lemma_leading_white_space_is(s: Seq<char>, k: int)
    requires
        0 <= k <= s.len(),
        forall|i: int| 0 <= i < k ==> white_space(#[trigger] s[i]),
        k < s.len() ==> !white_space(s[k]),
    ensures
        leading_white_space(s) == k,
    decreases k,
{
    if k > 0 {
        let rest = s.drop_first();
        assert(white_space(s[0]));
        assert forall|i: int| 0 <= i < k - 1 implies white_space(#[trigger] rest[i]) by {
            assert(rest[i] == s[i + 1]);
        }
        if k < s.len() {
            assert(rest[k - 1] == s[k]);
        }
        lemma_leading_white_space_is(rest, k - 1);
    }
}

/// A run of white space at the end that starts after a character that is not
/// white space, or at the start, is the trailing white space.
pub proof fn lemma_trailing_white_space_is(s: Seq<char>, k: int)
    requires
        0 <= k <= s.len(),
        forall|i: int| s.len() - k <= i < s.len() ==> white_space(#[trigger] s[i]),
        k < s.len() ==> !white_space(s[s.len() - k - 1]),
    ensures
        trailing_white_space(s) == k,
    decreases k,
{
    if k > 0 {
        let rest = s.drop_last();
        assert(white_space(s[s.len() - 1]));
        assert forall|i: int| rest.len() - (k - 1) <= i < rest.len() implies white_space(
            #[trigger] rest[i],
        ) by {
            assert(rest[i] == s[i]);
        }
        if k < s.len() {
            assert(rest[rest.len() - (k - 1) - 1] == s[s.len() - k - 1]);
        }
        lemma_trailing_white_space_is(rest, k - 1);
    }
}

/// Trimming keeps a contiguous part of the text, drops only white space, and
/// leaves nothing that starts or ends with white space.
pub proof fn lemma_trimmed_is_tight(s: Seq<char>)
    ensures
        trimmed(s).len() > 0 ==> !white_space(trimmed(s).first()) && !white_space(
            trimmed(s).last(),
        ),
        exists|start: int, end: int|
            {
                &&& 0 <= start <= end <= s.len()
                &&& #[trigger] s.subrange(start, end) == trimmed(s)
                &&& forall|i: int| 0 <= i < start ==> white_space(#[trigger] s[i])
                &&& forall|i: int| end <= i < s.len() ==> white_space(#[trigger] s[i])
            },
{
    lemma_leading_white_space(s);
    lemma_trailing_white_space(s);
    let start = leading_white_space(s) as int;
    if start == s.len() {
        assert(s.subrange(start, start) =~= trimmed(s));
    } else {
        let end = s.len() - trailing_white_space(s);
        if end <= start {
            assert(white_space(s[start]));
        }
        assert(s.subrange(start, end) == trimmed(s));
    }
}

/// White space added at the end of a text does not change what trimming
/// leaves of it.
pub proof fn lemma_trimmed_ignores_trailing_white_space(s: Seq<char>, c: char)
    requires
        white_space(c),
    ensures
        trimmed(s.push(c)) == trimmed(s),
{
    let longer = s.push(c);
    lemma_leading_white_space(s);
    lemma_trailing_white_space(s);
    let start = leading_white_space(s) as int;
    assert(longer.drop_last() =~= s);
    assert(trailing_white_space(longer) == trailing_white_space(s) + 1);
    if start == s.len() {
        assert forall|i: int| 0 <= i < longer.len() implies white_space(#[trigger] longer[i]) by {
            if i < s.len() {
                assert(longer[i] == s[i]);
            }
        }
        lemma_leading_white_space_is(longer, longer.len() as int);
    } else {
        assert forall|i: int| 0 <= i < start implies white_space(#[trigger] longer[i]) by {
            assert(longer[i] == s[i]);
        }
        assert(longer[start] == s[start]);
        lemma_leading_white_space_is(longer, start);
        let end = s.len() - trailing_white_space(s);
        if end <= start {
            assert(white_space(s[start]));
        }
        assert(longer.subrange(start, end) =~= s.subrange(start, end));
    }
}

/// Removes leading and trailing white space.
pub fn trim(s: &str) -> (t: String)
    ensures
        t@ == trimmed(s@),
{
    let chars = characters(s);
    let mut start: usize = 0;
    while start < chars.len() && is_whitespace(chars[start])
        invariant
            start <= chars.len(),
            forall|i: int| 0 <= i < start ==> white_space(#[trigger] chars@[i]),
        decreases chars.len() - start,
    {
        start += 1;
    }
    proof {
        lemma_leading_white_space_is(chars@, start as int);
    }
    if start == chars.len() {
        return String::new();
    }
    let mut end: usize = chars.len();
    while end > start + 1 && is_whitespace(chars[end - 1])
        invariant
            start < end <= chars.len(),
            !white_space(chars@[start as int]),
            forall|i: int| end <= i < chars.len() ==> white_space(#[trigger] chars@[i]),
        decreases end,
    {
        end -= 1;
    }
    proof {
        lemma_trailing_white_space_is(chars@, chars.len() - end);
    }
    s.substring_char(start, end).to_owned()
}

/// What `String::from_utf8_lossy` makes of a byte string.
pub uninterp spec fn lossy_text(bytes: Seq<u8>) -> Seq<char>;

/// Calls `String::from_utf8_lossy`, which decodes bytes as UTF-8 and puts the
/// replacement character in place of each invalid sequence. Its result depends
/// on the bytes alone; [`lossy_text`] is the name for it. Bytes that are valid
/// UTF-8 come out as the text they encode.
#[verifier::external_body]
pub(crate) fn decode_lossy(bytes: &Vec<u8>) -> (s: String)
    ensures
        s@ == lossy_text(bytes@),
        valid_utf8(bytes@) ==> s@ == decode_utf8(bytes@),
{
    String::from_utf8_lossy(bytes.as_slice()).into_owned()
}

} // verus!
