//! Text: building strings, decimal numbers, and looking into strings.

use vstd::prelude::*;
use vstd::string::*;
use vstd::utf8::{decode_utf8, valid_utf8};

verus! {

/// `String::push` appends one character.
pub assume_specification[ String::push ](s: &mut String, c: char)
    ensures
        final(s)@ == old(s)@.push(c),
;

/// The decimal digit of a number below ten.
pub open spec fn digit(d: nat) -> char {
    ((48 + d) as u8) as char
}

/// The decimal text of a number, without leading zeros.
pub open spec fn decimal(n: nat) -> Seq<char>
    decreases n,
{
    if n < 10 {
        seq![digit(n)]
    } else {
        decimal(n / 10).push(digit(n % 10))
    }
}

/// The number that decimal digits stand for.
pub open spec fn digits_value(s: Seq<char>) -> nat
    decreases s.len(),
{
    if s.len() == 0 {
        0
    } else {
        digits_value(s.drop_last()) * 10 + (s.last() as u32 - 48) as nat
    }
}

/// The decimal text of a number has only digits, and stands for the number.
pub proof fn decimal_digits(n: nat)
    ensures
        decimal(n).len() > 0,
        forall|i: int| 0 <= i < decimal(n).len() ==> '0' <= #[trigger] decimal(n)[i] <= '9',
        digits_value(decimal(n)) == n,
    decreases n,
{
    if n < 10 {
        let s = decimal(n);
        assert(s.drop_last() =~= Seq::<char>::empty());
        assert(digits_value(s.drop_last()) == 0);
        assert(s.last() as u32 == 48 + n);
    } else {
        decimal_digits(n / 10);
        let s = decimal(n);
        assert(s.drop_last() =~= decimal(n / 10));
        assert(s.last() as u32 == 48 + n % 10);
        assert(n / 10 * 10 + n % 10 == n);
    }
}

/// Different numbers have different decimal texts.
pub proof fn decimal_injective(a: nat, b: nat)
    requires
        decimal(a) == decimal(b),
    ensures
        a == b,
{
    decimal_digits(a);
    decimal_digits(b);
}

/// The decimal text of a number.
pub fn decimal_text(n: u64) -> (r: String)
    ensures
        r@ == decimal(n as nat),
    decreases n,
{
    if n < 10 {
        let mut s = String::new();
        s.push((48u8 + n as u8) as char);
        assert(s@ =~= seq![digit(n as nat)]);
        s
    } else {
        let mut s = decimal_text(n / 10);
        s.push((48u8 + (n % 10) as u8) as char);
        s
    }
}

/// Whether a character is white space, as Unicode defines it.
pub open spec fn white_space(c: char) -> bool {
    let n = c as u32;
    ||| 0x9 <= n <= 0xd
    ||| n == 0x20
    ||| n == 0x85
    ||| n == 0xa0
    ||| n == 0x1680
    ||| 0x2000 <= n <= 0x200a
    ||| n == 0x2028
    ||| n == 0x2029
    ||| n == 0x202f
    ||| n == 0x205f
    ||| n == 0x3000
}

/// Whether a character is white space, as Unicode defines it.
pub fn is_white_space(c: char) -> (r: bool)
    ensures
        r == white_space(c),
{
    let n: u32 = c as u32;
    (0x9 <= n && n <= 0xd) || n == 0x20 || n == 0x85 || n == 0xa0 || n == 0x1680 || (0x2000 <= n && n <= 0x200a)
        || n == 0x2028 || n == 0x2029 || n == 0x202f || n == 0x205f || n == 0x3000
}

/// The words of a text with one space between them, and whether white space follows the last word.
pub open spec fn collapsing(s: Seq<char>) -> (Seq<char>, bool)
    decreases s.len(),
{
    if s.len() == 0 {
        (Seq::empty(), false)
    } else {
        let (out, gap) = collapsing(s.drop_last());
        if white_space(s.last()) {
            (out, out.len() > 0)
        } else if gap {
            (out.push(' ').push(s.last()), false)
        } else {
            (out.push(s.last()), false)
        }
    }
}

/// The words of a text with one space between them.
pub open spec fn collapsed(s: Seq<char>) -> Seq<char> {
    collapsing(s).0
}

/// The words of a text with one space between them.
pub fn collapse(s: &str) -> (r: String)
    ensures
        r@ == collapsed(s@),
{
    let chars = chars_of(s);
    let ghost all = s@;
    let mut out = String::new();
    let mut gap: bool = false;
    let mut some: bool = false;
    let mut i: usize = 0;
    assert(all.subrange(0, 0) =~= Seq::<char>::empty());
    while i < chars.len()
        invariant
            i <= chars@.len(),
            chars@ == all,
            (out@, gap) == collapsing(all.subrange(0, i as int)),
            some == (out@.len() > 0),
        decreases chars@.len() - i,
    {
        proof {
            let upto = all.subrange(0, i + 1);
            assert(upto.drop_last() =~= all.subrange(0, i as int));
            assert(upto.last() == all[i as int]);
        }
        let c: char = chars[i];
        if is_white_space(c) {
            gap = some;
        } else {
            if gap {
                out.push(' ');
            }
            out.push(c);
            gap = false;
            some = true;
        }
        i += 1;
    }
    assert(all.subrange(0, all.len() as int) =~= all);
    out
}

/// In a collapsed text the only white space is single spaces between words.
pub proof fn collapsed_is_one_line(s: Seq<char>)
    ensures
        forall|i: int| 0 <= i < collapsed(s).len() && white_space(#[trigger] collapsed(s)[i]) ==> collapsed(s)[i] == ' ',
        collapsed(s).len() > 0 ==> !white_space(collapsed(s)[0]) && !white_space(collapsed(s).last()),
        forall|i: int|
            0 <= i < collapsed(s).len() - 1 && white_space(#[trigger] collapsed(s)[i]) ==> !white_space(
                collapsed(s)[i + 1],
            ),
        collapsing(s).1 ==> collapsed(s).len() > 0,
    decreases s.len(),
{
    if s.len() > 0 {
        collapsed_is_one_line(s.drop_last());
    }
}

/// A text without the white space at its start and end.
pub open spec fn is_trimmed(s: Seq<char>, t: Seq<char>) -> bool {
    exists|a: int, b: int| #[trigger] trimmed_to(s, a, b) && t == s.subrange(a, b)
}

/// Whether the white space at the start of a text ends at `a` and that at its end starts at `b`.
pub open spec fn trimmed_to(s: Seq<char>, a: int, b: int) -> bool {
    &&& 0 <= a <= b <= s.len()
    &&& forall|i: int| 0 <= i < a ==> white_space(#[trigger] s[i])
    &&& forall|i: int| b <= i < s.len() ==> white_space(#[trigger] s[i])
    &&& a < b ==> !white_space(s[a]) && !white_space(s[b - 1])
}

/// A text without the white space at its start and end.
pub fn trim(s: &str) -> (r: String)
    ensures
        is_trimmed(s@, r@),
{
    let chars = chars_of(s);
    let mut a: usize = 0;
    while a < chars.len() && is_white_space(chars[a])
        invariant
            a <= chars@.len(),
            chars@ == s@,
            forall|i: int| 0 <= i < a ==> white_space(#[trigger] s@[i]),
        decreases chars@.len() - a,
    {
        a += 1;
    }
    let mut b: usize = chars.len();
    while b > a && is_white_space(chars[b - 1])
        invariant
            a <= b <= chars@.len(),
            chars@ == s@,
            forall|i: int| b <= i < s@.len() ==> white_space(#[trigger] s@[i]),
        decreases b,
    {
        b -= 1;
    }
    let r = string_of(vstd::slice::slice_subrange(chars.as_slice(), a, b));
    assert(trimmed_to(s@, a as int, b as int));
    r
}

/// The decimal text of a number that may be negative.
pub open spec fn signed_decimal(n: int) -> Seq<char> {
    if n < 0 {
        "-"@ + decimal((-n) as nat)
    } else {
        decimal(n as nat)
    }
}

/// The decimal text of a number that may be negative.
pub fn signed_decimal_text(n: i64) -> (r: String)
    ensures
        r@ == signed_decimal(n as int),
{
    if n < 0 {
        let size: u64 = if n == i64::MIN {
            9223372036854775808
        } else {
            (-n) as u64
        };
        join2("-", decimal_text(size).as_str())
    } else {
        decimal_text(n as u64)
    }
}

/// The characters of a string.
pub fn chars_of(s: &str) -> (r: Vec<char>)
    ensures
        r@ == s@,
{
    broadcast use group_string_axioms;

    let mut out: Vec<char> = Vec::new();
    for c in it: s.chars()
        invariant
            it.seq() == s@,
            out@ == s@.subrange(0, it.index()),
    {
        out.push(c);
        assert(s@.subrange(0, it.index() + 1) =~= s@.subrange(0, it.index()).push(c));
    }
    assert(s@.subrange(0, s@.len() as int) =~= s@);
    out
}

/// The string made of some characters.
pub fn string_of(chars: &[char]) -> (r: String)
    ensures
        r@ == chars@,
{
    let mut s = String::new();
    let mut i: usize = 0;
    assert(s@ =~= chars@.subrange(0, 0));
    while i < chars.len()
        invariant
            i <= chars@.len(),
            s@ == chars@.subrange(0, i as int),
        decreases chars@.len() - i,
    {
        s.push(chars[i]);
        assert(chars@.subrange(0, i + 1) =~= chars@.subrange(0, i as int).push(chars@[i as int]));
        i += 1;
    }
    assert(chars@.subrange(0, chars@.len() as int) =~= chars@);
    s
}

/// `String::from_utf8`: the text of bytes that are UTF-8, and nothing for other bytes.
#[verifier::external_body]
pub(crate) fn text_of_utf8(bytes: Vec<u8>) -> (r: Option<String>)
    ensures
        r is Some <==> valid_utf8(bytes@),
        r is Some ==> r->0@ == decode_utf8(bytes@),
{
    String::from_utf8(bytes).ok()
}

/// The text of bytes, in which what is not UTF-8 is replaced.
pub uninterp spec fn lossy_text(bytes: Seq<u8>) -> Seq<char>;

/// `String::from_utf8_lossy`: bytes that are UTF-8 keep their text.
#[verifier::external_body]
pub(crate) fn text_of_bytes(bytes: &[u8]) -> (r: String)
    ensures
        r@ == lossy_text(bytes@),
        valid_utf8(bytes@) ==> r@ == decode_utf8(bytes@),
{
    String::from_utf8_lossy(bytes).into_owned()
}

/// Whether two texts are equal.
pub fn same_text(a: &str, b: &str) -> (r: bool)
    ensures
        r == (a@ == b@),
{
    a.to_owned() == b.to_owned()
}

/// Whether a text has a separator at a position.
pub open spec fn occurs_at(s: Seq<char>, sep: Seq<char>, i: int) -> bool {
    0 <= i && i + sep.len() <= s.len() && s.subrange(i, i + sep.len()) == sep
}

/// Whether a position is the first at which a text has a separator.
pub open spec fn first_occurrence(s: Seq<char>, sep: Seq<char>, i: int) -> bool {
    occurs_at(s, sep, i) && forall|j: int| 0 <= j < i ==> !#[trigger] occurs_at(s, sep, j)
}

fn has_at(s: &Vec<char>, sep: &Vec<char>, i: usize) -> (r: bool)
    requires
        i <= s@.len(),
    ensures
        r == occurs_at(s@, sep@, i as int),
{
    if s.len() - i < sep.len() {
        return false;
    }
    let n: usize = s.len();
    let mut k: usize = 0;
    while k < sep.len()
        invariant
            n == s@.len(),
            i + sep@.len() <= s@.len(),
            k <= sep@.len(),
            forall|j: int| 0 <= j < k ==> s@[i + j] == sep@[j],
        decreases sep@.len() - k,
    {
        if s[i + k] != sep[k] {
            assert(s@.subrange(i as int, i + sep@.len())[k as int] != sep@[k as int]);
            return false;
        }
        k += 1;
    }
    assert(s@.subrange(i as int, i + sep@.len()) =~= sep@);
    true
}

/// The parts of a text before and after the first separator, if it has one.
pub fn split_once(text: &str, sep: &str) -> (r: Option<(String, String)>)
    ensures
        match r {
            Some((before, after)) => first_occurrence(text@, sep@, before@.len() as int) && text@ == before@ + sep@
                + after@,
            None => forall|i: int| !#[trigger] occurs_at(text@, sep@, i),
        },
{
    let s = chars_of(text);
    let p = chars_of(sep);
    let mut i: usize = 0;
    while i < s.len()
        invariant
            i <= s@.len(),
            s@ == text@,
            p@ == sep@,
            forall|j: int| 0 <= j < i ==> !#[trigger] occurs_at(text@, sep@, j),
        decreases s@.len() - i,
    {
        if has_at(&s, &p, i) {
            let before = string_of(vstd::slice::slice_subrange(s.as_slice(), 0, i));
            let after = string_of(vstd::slice::slice_subrange(s.as_slice(), i + p.len(), s.len()));
            assert(text@ =~= before@ + sep@ + after@);
            return Some((before, after));
        }
        i += 1;
    }
    if has_at(&s, &p, i) {
        let before = string_of(s.as_slice());
        let after = String::new();
        assert(p@.len() == 0);
        assert(text@ =~= before@ + sep@ + after@);
        return Some((before, after));
    }
    None
}

/// What texts say.
pub open spec fn text_views(s: Seq<String>) -> Seq<Seq<char>> {
    s.map_values(|t: String| t@)
}

/// A copy of some texts.
pub fn copy_texts(a: &Vec<String>) -> (r: Vec<String>)
    ensures
        r@ == a@,
{
    let mut out: Vec<String> = Vec::new();
    let mut i: usize = 0;
    while i < a.len()
        invariant
            i <= a@.len(),
            out@ == a@.subrange(0, i as int),
        decreases a@.len() - i,
    {
        out.push(a[i].clone());
        assert(a@.subrange(0, i + 1) =~= a@.subrange(0, i as int).push(a@[i as int]));
        i += 1;
    }
    assert(a@.subrange(0, a@.len() as int) =~= a@);
    out
}

/// Whether one text starts with another.
pub open spec fn starts_with(t: Seq<char>, prefix: Seq<char>) -> bool {
    t.len() >= prefix.len() && t.subrange(0, prefix.len() as int) == prefix
}

/// What follows a prefix of a text, if the text starts with it.
pub fn strip_prefix(text: &str, prefix: &str) -> (r: Option<String>)
    ensures
        match r {
            Some(rest) => starts_with(text@, prefix@) && rest@ == text@.subrange(
                prefix@.len() as int,
                text@.len() as int,
            ),
            None => !starts_with(text@, prefix@),
        },
{
    let t = chars_of(text);
    let p = chars_of(prefix);
    if !has_at(&t, &p, 0) {
        return None;
    }
    Some(string_of(vstd::slice::slice_subrange(t.as_slice(), p.len(), t.len())))
}

/// Two texts joined.
pub fn join2(a: &str, b: &str) -> (r: String)
    ensures
        r@ == a@ + b@,
{
    let mut s = a.to_owned();
    s.append(b);
    s
}

/// Three texts joined.
pub fn join3(a: &str, b: &str, c: &str) -> (r: String)
    ensures
        r@ == a@ + b@ + c@,
{
    let mut s = a.to_owned();
    s.append(b);
    s.append(c);
    s
}

/// Decimal text is written in tens, most significant digit first, without a zero in front.
pub proof fn decimal_is_in_tens(n: nat, s: Seq<char>, c: char)
    ensures
        decimal(n).len() == 1 <==> n < 10,
        n > 0 ==> decimal(n)[0] != '0',
        n >= 10 ==> decimal(n).drop_last() == decimal(n / 10),
        n < 128 ==> decimal(n).last() as u32 == 48 + n % 10,
        '0' <= c <= '9' ==> digits_value(s.push(c)) == 10 * digits_value(s) + (c as u32 - 48),
        digits_value(Seq::empty()) == 0,
        signed_decimal(-(n as int)) == (if n == 0 {
            decimal(0)
        } else {
            "-"@ + decimal(n)
        }),
        signed_decimal(n as int) == decimal(n),
    decreases n,
{
    assert(s.push(c).drop_last() =~= s);
    decimal_digits(n);
    if n >= 10 {
        decimal_digits(n / 10);
        decimal_is_in_tens(n / 10, s, c);
        assert(decimal(n).drop_last() =~= decimal(n / 10));
    } else {
        assert(n > 0 ==> digit(n) != '0');
    }
}

/// White space is what Unicode has as white space: the tab and the line ends, the space, and the
/// spaces and separators beyond ASCII.
pub proof fn white_space_is_unicode(c: char)
    ensures
        white_space(' ') && white_space('\t') && white_space('\n') && white_space('\r'),
        white_space(c) && (c as u32) < 128 ==> c == ' ' || 9 <= c as u32 <= 13,
        white_space(c) <==> {
            let n = c as u32;
            9 <= n <= 13 || n == 32 || n == 133 || n == 160 || n == 5760 || 8192 <= n <= 8202 || n == 8232 || n == 8233 || n
                == 8239 || n == 8287 || n == 12288
        },
{
}

/// Between words there is one space, whatever white space was there; before the first and after the
/// last word there is none, and the words themselves stay.
pub proof fn collapsed_has_single_spaces(s: Seq<char>, a: char, v: char, w: char, b: char)
    requires
        !white_space(a),
        !white_space(b),
        white_space(v),
        white_space(w),
    ensures
        collapsed(Seq::empty()) == Seq::<char>::empty(),
        collapsed(s.push(w)) == collapsed(s),
        collapsed(s.push(a).push(b)) == collapsed(s.push(a)).push(b),
        collapsed(s.push(a).push(w).push(b)) == collapsed(s.push(a)).push(' ').push(b),
        collapsed(s.push(v).push(w).push(b)) == collapsed(s.push(w).push(b)),
        (forall|i: int| 0 <= i < s.len() ==> white_space(#[trigger] s[i])) ==> collapsed(s.push(b)) == seq![b],
{
    assert(s.push(w).drop_last() =~= s);
    assert(s.push(v).drop_last() =~= s);
    assert(s.push(a).drop_last() =~= s);
    assert(s.push(b).drop_last() =~= s);
    assert(s.push(a).push(b).drop_last() =~= s.push(a));
    assert(s.push(a).push(w).drop_last() =~= s.push(a));
    assert(s.push(a).push(w).push(b).drop_last() =~= s.push(a).push(w));
    assert(s.push(v).push(w).drop_last() =~= s.push(v));
    assert(s.push(v).push(w).push(b).drop_last() =~= s.push(v).push(w));
    assert(s.push(w).push(b).drop_last() =~= s.push(w));
    reveal_with_fuel(collapsing, 4);
    if forall|i: int| 0 <= i < s.len() ==> white_space(#[trigger] s[i]) {
        blank_collapses(s);
        assert(Seq::<char>::empty().push(b) =~= seq![b]);
    }
}

proof fn blank_collapses(s: Seq<char>)
    requires
        forall|i: int| 0 <= i < s.len() ==> white_space(#[trigger] s[i]),
    ensures
        collapsing(s).0.len() == 0,
        !collapsing(s).1,
    decreases s.len(),
{
    if s.len() > 0 {
        let rest = s.drop_last();
        assert forall|i: int| 0 <= i < rest.len() implies white_space(#[trigger] rest[i]) by {
            assert(rest[i] == s[i]);
        }
        blank_collapses(rest);
        assert(white_space(s[s.len() - 1]));
    }
}

/// A trimmed text is the text between white space: around it there is nothing but white space, and it
/// neither starts nor ends with any.
pub proof fn trimmed_is_the_middle(s: Seq<char>, t: Seq<char>)
    requires
        is_trimmed(s, t),
    ensures
        exists|a: int, b: int|
            0 <= a <= b <= s.len() && t == #[trigger] s.subrange(a, b) && (forall|i: int|
                0 <= i < a || b <= i < s.len() ==> white_space(#[trigger] s[i])),
        t.len() > 0 ==> !white_space(t[0]) && !white_space(t.last()),
{
    let (a, b) = choose|a: int, b: int| #[trigger] trimmed_to(s, a, b) && t == s.subrange(a, b);
    assert(t == s.subrange(a, b));
}

/// A text starts with another exactly when it is that text and something behind it; and a text has
/// another at a position exactly when it is there character by character.
pub proof fn prefixes_are_in_front(t: Seq<char>, prefix: Seq<char>, i: int)
    ensures
        starts_with(t, prefix) <==> exists|rest: Seq<char>| t == #[trigger] (prefix + rest),
        occurs_at(t, prefix, i) <==> 0 <= i && i + prefix.len() <= t.len() && forall|k: int|
            0 <= k < prefix.len() ==> #[trigger] prefix[k] == t[i + k],
        first_occurrence(t, prefix, i) <==> occurs_at(t, prefix, i) && !exists|j: int| 0 <= j < i && #[trigger] occurs_at(t, prefix, j),
{
    if starts_with(t, prefix) {
        assert(t =~= prefix + t.subrange(prefix.len() as int, t.len() as int));
    }
    if exists|rest: Seq<char>| t == #[trigger] (prefix + rest) {
        let rest = choose|rest: Seq<char>| t == #[trigger] (prefix + rest);
        assert(t.subrange(0, prefix.len() as int) =~= prefix);
    }
    if 0 <= i && i + prefix.len() <= t.len() {
        let there = t.subrange(i, i + prefix.len());
        if forall|k: int| 0 <= k < prefix.len() ==> #[trigger] prefix[k] == t[i + k] {
            assert(there =~= prefix);
        }
        if there == prefix {
            assert forall|k: int| 0 <= k < prefix.len() implies #[trigger] prefix[k] == t[i + k] by {
                assert(there[k] == t[i + k]);
            }
        }
    }
}

/// What texts say is what each of them says, in order.
pub proof fn texts_say_what_each_says(s: Seq<String>)
    ensures
        text_views(s).len() == s.len(),
        forall|i: int| 0 <= i < s.len() ==> #[trigger] text_views(s)[i] == s[i]@,
{
}

} // verus!
