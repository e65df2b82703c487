//! Text primitives shared by the classifier, the subscription setup and the
//! object-store writer: prefix and substring tests, trimming, removal of a
//! character, splitting and joining on a separator, and decimal rendering.
//!
//! Every function is specified over `Seq<char>`, the view of `str` and `String`.

use vstd::prelude::*;
use vstd::string::StrSliceExecFns;
use vstd::string::StringExecFns;

verus! {

/// `pattern` stands at the very start of `text`.
pub open spec fn has_prefix(text: Seq<char>, pattern: Seq<char>) -> bool {
    pattern.len() <= text.len() && text.subrange(0, pattern.len() as int) == pattern
}

/// `pattern` stands in `text` starting at position `at`.
pub open spec fn occurs_at(text: Seq<char>, pattern: Seq<char>, at: int) -> bool {
    0 <= at && at + pattern.len() <= text.len() && text.subrange(at, at + pattern.len())
        == pattern
}

/// `pattern` stands somewhere in `text`.
pub open spec fn has_infix(text: Seq<char>, pattern: Seq<char>) -> bool {
    exists|at: int| occurs_at(text, pattern, at)
}

/// The characters with the Unicode property `White_Space`.
pub open spec fn is_whitespace(c: char) -> bool {
    let n = c as u32;
    (0x09 <= n && n <= 0x0D) || n == 0x20 || n == 0x85 || n == 0xA0 || n == 0x1680 || (0x2000
        <= n && n <= 0x200A) || n == 0x2028 || n == 0x2029 || n == 0x202F || n == 0x205F || n
        == 0x3000
}

/// How many whitespace characters open `text`.
pub open spec fn leading_whitespace(text: Seq<char>) -> nat
    decreases text.len(),
{
    if text.len() > 0 && is_whitespace(text.first()) {
        1 + leading_whitespace(text.drop_first())
    } else {
        0
    }
}

/// How many whitespace characters close `text`.
pub open spec fn trailing_whitespace(text: Seq<char>) -> nat
    decreases text.len(),
{
    if text.len() > 0 && is_whitespace(text.last()) {
        1 + trailing_whitespace(text.drop_last())
    } else {
        0
    }
}

/// `text` without the whitespace that opens and closes it.
pub open spec fn trimmed(text: Seq<char>) -> Seq<char> {
    let rest = text.skip(leading_whitespace(text) as int);
    rest.take(rest.len() - trailing_whitespace(rest))
}

/// `text` with every occurrence of `unwanted` taken out.
pub open spec fn without(text: Seq<char>, unwanted: char) -> Seq<char>
    decreases text.len(),
{
    if text.len() == 0 {
        text
    } else if text.last() == unwanted {
        without(text.drop_last(), unwanted)
    } else {
        without(text.drop_last(), unwanted).push(text.last())
    }
}

/// The pieces of `text` between occurrences of `separator`. Reading from the
/// left, a separator closes the current piece and opens an empty one; any
/// other character extends the current piece. The result is never empty.
pub open spec fn split(text: Seq<char>, separator: char) -> Seq<Seq<char>>
    decreases text.len(),
{
    if text.len() == 0 {
        seq![Seq::<char>::empty()]
    } else {
        let before = split(text.drop_last(), separator);
        if text.last() == separator {
            before.push(Seq::<char>::empty())
        } else {
            before.drop_last().push(before.last().push(text.last()))
        }
    }
}

/// The `parts` written one after another with `separator` between neighbours.
pub open spec fn join(parts: Seq<Seq<char>>, separator: char) -> Seq<char>
    decreases parts.len(),
{
    if parts.len() == 0 {
        Seq::<char>::empty()
    } else if parts.len() == 1 {
        parts.last()
    } else {
        join(parts.drop_last(), separator).push(separator) + parts.last()
    }
}

/// The character that writes the digit `d`.
pub open spec fn digit(d: int) -> char {
    if d == 0 {
        '0'
    } else if d == 1 {
        '1'
    } else if d == 2 {
        '2'
    } else if d == 3 {
        '3'
    } else if d == 4 {
        '4'
    } else if d == 5 {
        '5'
    } else if d == 6 {
        '6'
    } else if d == 7 {
        '7'
    } else if d == 8 {
        '8'
    } else {
        '9'
    }
}

/// The decimal digits of `n`, most significant first, without leading zeros.
pub open spec fn digits(n: nat) -> Seq<char>
    decreases n,
{
    if n < 10 {
        seq![digit(n as int)]
    } else {
        digits(n / 10).push(digit((n % 10) as int))
    }
}

/// The decimal notation of `n`, with a minus sign for a negative number.
pub open spec fn decimal(n: int) -> Seq<char> {
    if n < 0 {
        seq!['-'] + digits((-n) as nat)
    } else {
        digits(n as nat)
    }
}

/// No character of `text` is `c`.
pub open spec fn free_of(text: Seq<char>, c: char) -> bool {
    forall|i: int| 0 <= i < text.len() ==> text[i] != c
}

/// Where the first `count` characters are whitespace and the next one, if
/// any, is not, `count` is the leading whitespace.
pub proof fn lemma_leading_whitespace(text: Seq<char>, count: int)
    requires
        0 <= count <= text.len(),
        forall|i: int| 0 <= i < count ==> is_whitespace(text[i]),
        count < text.len() ==> !is_whitespace(text[count]),
    ensures
        leading_whitespace(text) == count,
    decreases text.len(),
{
    if count > 0 {
        let rest = text.drop_first();
        assert forall|i: int| 0 <= i < count - 1 implies is_whitespace(rest[i]) by {
            assert(rest[i] == text[i + 1]);
        }
        if count - 1 < rest.len() {
            assert(rest[count - 1] == text[count]);
        }
        lemma_leading_whitespace(rest, count - 1);
    }
}

/// Where the last `count` characters are whitespace and the one before them,
/// if any, is not, `count` is the trailing whitespace.
pub proof fn lemma_trailing_whitespace(text: Seq<char>, count: int)
    requires
        0 <= count <= text.len(),
        forall|i: int| text.len() - count <= i < text.len() ==> is_whitespace(text[i]),
        count < text.len() ==> !is_whitespace(text[text.len() - count - 1]),
    ensures
        trailing_whitespace(text) == count,
    decreases text.len(),
{
    if count > 0 {
        let rest = text.drop_last();
        assert forall|i: int| rest.len() - (count - 1) <= i < rest.len() implies is_whitespace(
            rest[i],
        ) by {
            assert(rest[i] == text[i]);
        }
        if count - 1 < rest.len() {
            assert(rest[rest.len() - (count - 1) - 1] == text[text.len() - count - 1]);
        }
        lemma_trailing_whitespace(rest, count - 1);
    }
}

/// A text that holds no separator is a single piece.
pub proof fn lemma_split_single(text: Seq<char>, separator: char)
    requires
        free_of(text, separator),
    ensures
        split(text, separator) == seq![text],
    decreases text.len(),
{
    if text.len() == 0 {
        assert(text == Seq::<char>::empty());
    } else {
        let init = text.drop_last();
        lemma_split_single(init, separator);
        assert(init.push(text.last()) == text);
        assert(seq![init].drop_last().push(text) == seq![text]);
    }
}

/// Appending a piece that holds no separator, after a separator, adds exactly
/// that piece.
pub proof fn lemma_split_append(head: Seq<char>, piece: Seq<char>, separator: char)
    requires
        free_of(piece, separator),
    ensures
        split(head.push(separator) + piece, separator) == split(head, separator).push(piece),
    decreases piece.len(),
{
    let whole = head.push(separator) + piece;
    if piece.len() == 0 {
        assert(whole == head.push(separator));
        assert(whole.drop_last() == head);
        assert(piece == Seq::<char>::empty());
    } else {
        let shorter = piece.drop_last();
        lemma_split_append(head, shorter, separator);
        assert(whole.drop_last() == head.push(separator) + shorter);
        assert(whole.last() == piece.last());
        let before = split(head, separator).push(shorter);
        assert(before.drop_last() == split(head, separator));
        assert(shorter.push(piece.last()) == piece);
    }
}

/// Joining pieces that hold no separator and splitting the result gives the
/// pieces back, in order. An empty list is the one exception: it joins to the
/// empty text, which splits into one empty piece.
pub proof fn lemma_split_join(parts: Seq<Seq<char>>, separator: char)
    requires
        parts.len() > 0,
        forall|i: int| 0 <= i < parts.len() ==> free_of(#[trigger] parts[i], separator),
    ensures
        split(join(parts, separator), separator) == parts,
    decreases parts.len(),
{
    if parts.len() == 1 {
        lemma_split_single(parts.last(), separator);
        assert(seq![parts.last()] == parts);
    } else {
        let init = parts.drop_last();
        assert forall|i: int| 0 <= i < init.len() implies free_of(
            #[trigger] init[i],
            separator,
        ) by {
            assert(init[i] == parts[i]);
        }
        lemma_split_join(init, separator);
        lemma_split_append(join(init, separator), parts.last(), separator);
        assert(init.push(parts.last()) == parts);
    }
}

/// One of the ten digits.
pub open spec fn is_digit(c: char) -> bool {
    exists|d: int| 0 <= d <= 9 && c == #[trigger] digit(d)
}

/// The digits of a number are digits, at least one, and tell the number.
pub proof fn lemma_digits(n: nat)
    ensures
        digits(n).len() >= 1,
        digits(n).len() == 1 <==> n < 10,
        forall|i: int| 0 <= i < digits(n).len() ==> is_digit(#[trigger] digits(n)[i]),
    decreases n,
{
    if n < 10 {
        assert(is_digit(digit(n as int)));
    } else {
        lemma_digits(n / 10);
        assert(is_digit(digit((n % 10) as int)));
    }
}

/// Two numbers with the same digits are the same number.
pub proof fn lemma_digits_tell_the_number(a: nat, b: nat)
    requires
        digits(a) == digits(b),
    ensures
        a == b,
    decreases a,
{
    lemma_digits(a);
    lemma_digits(b);
    if a < 10 {
        assert(digits(a)[0] == digit(a as int));
        assert(digits(b)[0] == digit(b as int));
    } else {
        assert(digits(a).last() == digit((a % 10) as int));
        assert(digits(b).last() == digit((b % 10) as int));
        assert(digits(a).drop_last() == digits(a / 10));
        assert(digits(b).drop_last() == digits(b / 10));
        lemma_digits_tell_the_number(a / 10, b / 10);
    }
}

/// A decimal notation is not empty; past its first character it holds
/// digits only; and it tells the number.
pub proof fn lemma_decimal(n: int)
    ensures
        decimal(n).len() >= 1,
        forall|i: int| 1 <= i < decimal(n).len() ==> is_digit(#[trigger] decimal(n)[i]),
        decimal(n)[0] == '-' <==> n < 0,
{
    if n < 0 {
        lemma_digits((-n) as nat);
        assert forall|i: int| 1 <= i < decimal(n).len() implies is_digit(
            #[trigger] decimal(n)[i],
        ) by {
            assert(decimal(n)[i] == digits((-n) as nat)[i - 1]);
        }
    } else {
        lemma_digits(n as nat);
        assert(is_digit(decimal(n)[0]));
    }
}

/// Two numbers with the same decimal notation are the same number.
pub proof fn lemma_decimal_tells_the_number(a: int, b: int)
    requires
        decimal(a) == decimal(b),
    ensures
        a == b,
{
    lemma_decimal(a);
    lemma_decimal(b);
    if a < 0 {
        assert(digits((-a) as nat) == decimal(a).skip(1));
        assert(digits((-b) as nat) == decimal(b).skip(1));
        lemma_digits_tell_the_number((-a) as nat, (-b) as nat);
    } else {
        lemma_digits_tell_the_number(a as nat, b as nat);
    }
}

/// The characters of `text`, for access by position.
pub fn chars_of(text: &str) -> (chars: Vec<char>)
    ensures
        chars@ == text@,
{
    let mut chars: Vec<char> = Vec::new();
    for c in it: text.chars()
        invariant
            it.seq() == text@,
            chars@ == it.seq().take(it.index()),
    {
        chars.push(c);
    }
    chars
}

fn matches_at(text: &Vec<char>, pattern: &Vec<char>, at: usize) -> (found: bool)
    requires
        at + pattern.len() <= text.len(),
    ensures
        found == occurs_at(text@, pattern@, at as int),
{
    let mut k: usize = 0;
    while k < pattern.len()
        invariant
            k <= pattern.len(),
            at + pattern.len() <= text.len(),
            forall|j: int| 0 <= j < k ==> text@[at + j] == pattern@[j],
        decreases pattern.len() - k,
    {
        if text[at + k] != pattern[k] {
            proof {
                let window = text@.subrange(at as int, at + pattern.len());
                assert(window[k as int] == text@[at + k]);
            }
            return false;
        }
        k += 1;
    }
    assert(text@.subrange(at as int, at + pattern.len()) =~= pattern@);
    true
}

/// Whether `text` begins with `pattern`.
pub fn starts_with(text: &str, pattern: &str) -> (found: bool)
    ensures
        found == has_prefix(text@, pattern@),
{
    let text_chars = chars_of(text);
    let pattern_chars = chars_of(pattern);
    if pattern_chars.len() > text_chars.len() {
        return false;
    }
    matches_at(&text_chars, &pattern_chars, 0)
}

/// Whether `pattern` occurs anywhere in `text`.
pub fn contains(text: &str, pattern: &str) -> (found: bool)
    ensures
        found == has_infix(text@, pattern@),
{
    let text_chars = chars_of(text);
    let pattern_chars = chars_of(pattern);
    if pattern_chars.len() > text_chars.len() {
        return false;
    }
    let last: usize = text_chars.len() - pattern_chars.len();
    let mut at: usize = 0;
    loop
        invariant
            last == text_chars.len() - pattern_chars.len(),
            at <= last,
            text_chars@ == text@,
            pattern_chars@ == pattern@,
            forall|j: int| 0 <= j < at ==> !occurs_at(text@, pattern@, j),
        decreases last - at,
    {
        if matches_at(&text_chars, &pattern_chars, at) {
            return true;
        }
        if at == last {
            return false;
        }
        at += 1;
    }
}

/// Whether `c` is whitespace.
pub fn is_whitespace_char(c: char) -> (r: bool)
    ensures
        r == is_whitespace(c),
{
    let n: u32 = c as u32;
    (0x09 <= n && n <= 0x0D) || n == 0x20 || n == 0x85 || n == 0xA0 || n == 0x1680 || (0x2000
        <= n && n <= 0x200A) || n == 0x2028 || n == 0x2029 || n == 0x202F || n == 0x205F || n
        == 0x3000
}

/// `text` without the whitespace around it.
pub fn trim(text: &str) -> (r: &str)
    ensures
        r@ == trimmed(text@),
{
    let chars = chars_of(text);
    let mut from: usize = 0;
    while from < chars.len() && is_whitespace_char(chars[from])
        invariant
            from <= chars.len(),
            forall|i: int| 0 <= i < from ==> is_whitespace(chars@[i]),
        decreases chars.len() - from,
    {
        from += 1;
    }
    let mut to: usize = chars.len();
    while to > from && is_whitespace_char(chars[to - 1])
        invariant
            from <= to <= chars.len(),
            forall|i: int| to <= i < chars.len() ==> is_whitespace(chars@[i]),
        decreases to,
    {
        to -= 1;
    }
    proof {
        lemma_leading_whitespace(text@, from as int);
        let rest = text@.skip(from as int);
        let count = chars.len() - to;
        assert forall|i: int| rest.len() - count <= i < rest.len() implies is_whitespace(
            rest[i],
        ) by {
            assert(rest[i] == text@[i + from]);
        }
        if count < rest.len() {
            assert(rest[rest.len() - count - 1] == text@[to - 1]);
        }
        lemma_trailing_whitespace(rest, count);
        assert(rest.take(rest.len() - count) == text@.subrange(from as int, to as int));
    }
    text.substring_char(from, to)
}

/// `text` with every occurrence of `unwanted` removed.
pub fn remove_char(text: &str, unwanted: char) -> (r: String)
    ensures
        r@ == without(text@, unwanted),
{
    let chars = chars_of(text);
    let mut out = String::new();
    let mut kept_from: usize = 0;
    let mut i: usize = 0;
    while i < chars.len()
        invariant
            kept_from <= i <= chars.len(),
            chars@ == text@,
            out@ + text@.subrange(kept_from as int, i as int) == without(
                text@.take(i as int),
                unwanted,
            ),
        decreases chars.len() - i,
    {
        proof {
            let next = text@.take(i + 1);
            assert(next.drop_last() == text@.take(i as int));
            assert(next.last() == text@[i as int]);
        }
        if chars[i] == unwanted {
            out.append(text.substring_char(kept_from, i));
            kept_from = i + 1;
            assert(text@.subrange(kept_from as int, kept_from as int) == Seq::<char>::empty());
        } else {
            assert(text@.subrange(kept_from as int, i + 1) == text@.subrange(
                kept_from as int,
                i as int,
            ).push(text@[i as int]));
        }
        i += 1;
    }
    out.append(text.substring_char(kept_from, i));
    assert(text@.take(i as int) == text@);
    out
}

/// The pieces of `text` between occurrences of `separator`, in order.
pub fn split_on(text: &str, separator: char) -> (pieces: Vec<String>)
    ensures
        pieces.deep_view() == split(text@, separator),
{
    let chars = chars_of(text);
    let mut pieces: Vec<String> = Vec::new();
    let mut piece_from: usize = 0;
    let mut i: usize = 0;
    proof {
        assert(pieces.deep_view() =~= Seq::<Seq<char>>::empty());
        assert(text@.subrange(0, 0) =~= Seq::<char>::empty());
        assert(text@.take(0) =~= Seq::<char>::empty());
        assert(Seq::<Seq<char>>::empty().push(Seq::<char>::empty()) =~= seq![
            Seq::<char>::empty(),
        ]);
    }
    while i < chars.len()
        invariant
            piece_from <= i <= chars.len(),
            chars@ == text@,
            pieces.deep_view().push(text@.subrange(piece_from as int, i as int)) == split(
                text@.take(i as int),
                separator,
            ),
        decreases chars.len() - i,
    {
        let ghost done = pieces.deep_view();
        let ghost current = text@.subrange(piece_from as int, i as int);
        proof {
            let next = text@.take(i + 1);
            assert(next.drop_last() == text@.take(i as int));
            assert(next.last() == text@[i as int]);
            assert(done.push(current).drop_last() == done);
        }
        if chars[i] == separator {
            pieces.push(String::from_str(text.substring_char(piece_from, i)));
            piece_from = i + 1;
            assert(pieces.deep_view() == done.push(current));
            assert(text@.subrange(piece_from as int, piece_from as int) == Seq::<char>::empty());
        } else {
            assert(text@.subrange(piece_from as int, i + 1) == current.push(text@[i as int]));
        }
        i += 1;
    }
    let ghost done = pieces.deep_view();
    pieces.push(String::from_str(text.substring_char(piece_from, i)));
    assert(text@.take(i as int) == text@);
    assert(pieces.deep_view() == done.push(text@.subrange(piece_from as int, i as int)));
    pieces
}

/// The `parts` written one after another with `separator` between neighbours.
/// `separator_text` is the separator as a one-character string.
pub(crate) fn join_with(parts: &Vec<String>, separator: char, separator_text: &str) -> (r: String)
    requires
        separator_text@ == seq![separator],
    ensures
        r@ == join(parts.deep_view(), separator),
{
    let mut out = String::new();
    let mut i: usize = 0;
    while i < parts.len()
        invariant
            i <= parts.len(),
            separator_text@ == seq![separator],
            out@ == join(parts.deep_view().take(i as int), separator),
        decreases parts.len() - i,
    {
        proof {
            let next = parts.deep_view().take(i + 1);
            assert(next.drop_last() == parts.deep_view().take(i as int));
            assert(next.last() == parts@[i as int]@);
        }
        if i > 0 {
            out.append(separator_text);
            assert(out@ == join(parts.deep_view().take(i as int), separator).push(separator));
        }
        out.append(parts[i].as_str());
        i += 1;
    }
    assert(parts.deep_view().take(i as int) == parts.deep_view());
    out
}

/// A copy of `texts`.
pub fn copy_texts(texts: &Vec<String>) -> (copy: Vec<String>)
    ensures
        copy.deep_view() == texts.deep_view(),
{
    let mut copy: Vec<String> = Vec::new();
    let mut i: usize = 0;
    assert(copy.deep_view() == texts.deep_view().take(0));
    while i < texts.len()
        invariant
            i <= texts.len(),
            copy.deep_view() == texts.deep_view().take(i as int),
        decreases texts.len() - i,
    {
        let ghost before = copy.deep_view();
        copy.push(texts[i].clone());
        assert(copy.deep_view() == before.push(texts@[i as int]@));
        assert(texts.deep_view().take(i + 1) == texts.deep_view().take(i as int).push(
            texts@[i as int]@,
        ));
        i += 1;
    }
    assert(texts.deep_view().take(i as int) == texts.deep_view());
    copy
}

fn digit_text(d: u64) -> (r: &'static str)
    requires
        d < 10,
    ensures
        r@ == seq![digit(d as int)],
{
    proof {
        reveal_strlit("0");
        reveal_strlit("1");
        reveal_strlit("2");
        reveal_strlit("3");
        reveal_strlit("4");
        reveal_strlit("5");
        reveal_strlit("6");
        reveal_strlit("7");
        reveal_strlit("8");
        reveal_strlit("9");
    }
    let r = if d == 0 {
        "0"
    } else if d == 1 {
        "1"
    } else if d == 2 {
        "2"
    } else if d == 3 {
        "3"
    } else if d == 4 {
        "4"
    } else if d == 5 {
        "5"
    } else if d == 6 {
        "6"
    } else if d == 7 {
        "7"
    } else if d == 8 {
        "8"
    } else {
        "9"
    };
    assert(r@ =~= seq![digit(d as int)]);
    r
}

fn append_digits(out: &mut String, n: u64)
    ensures
        final(out)@ == old(out)@ + digits(n as nat),
    decreases n,
{
    if n >= 10 {
        append_digits(out, n / 10);
    }
    out.append(digit_text(n % 10));
    proof {
        if n >= 10 {
            assert(old(out)@ + digits((n / 10) as nat) + seq![digit((n % 10) as int)] == old(
                out,
            )@ + digits(n as nat));
        }
    }
}

/// The decimal notation of `n`.
pub fn decimal_text(n: i64) -> (r: String)
    ensures
        r@ == decimal(n as int),
{
    let mut out = String::new();
    if n < 0 {
        proof {
            reveal_strlit("-");
        }
        out.append("-");
        assert(out@ =~= seq!['-']);
        let magnitude: u64 = if n == i64::MIN {
            9223372036854775808
        } else {
            (-n) as u64
        };
        append_digits(&mut out, magnitude);
    } else {
        append_digits(&mut out, n as u64);
        assert(out@ =~= digits(n as nat));
    }
    out
}

} // verus!
