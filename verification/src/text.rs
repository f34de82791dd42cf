//! Small verified text helpers: decimal rendering and text order.
use vstd::prelude::*;
use vstd::string::StringExecFns;

verus! {

/// `String::push`: the character is put behind what the string holds.
pub assume_specification[ std::string::String::push ](s: &mut String, c: char)
    ensures
        final(s)@ == old(s)@.push(c),
;

/// The decimal digit for a number under ten.
pub open spec fn digit(d: nat) -> char {
    (48 + d) as char
}

/// A number written in decimal, without leading zeros.
pub open spec fn dec(n: nat) -> Seq<char>
    decreases n,
{
    if n < 10 {
        seq![digit(n)]
    } else {
        dec(n / 10).push(digit(n % 10))
    }
}

pub fn digit_char(d: u8) -> (c: char)
    requires
        d < 10,
    ensures
        c == digit(d as nat),
{
    (48u8 + d) as char
}

/// Renders a number in decimal.
pub fn decimal(n: u128) -> (text: String)
    ensures
        text@ == dec(n as nat),
    decreases n,
{
    if n < 10 {
        let mut text = String::new();
        text.push(digit_char(n as u8));
        proof {
            assert(text@ == seq![digit(n as nat)]);
        }
        text
    } else {
        let mut text = decimal(n / 10);
        text.push(digit_char((n % 10) as u8));
        text
    }
}

proof fn lemma_dec_nonempty(n: nat)
    ensures
        dec(n).len() >= 1,
        n >= 10 ==> dec(n).len() >= 2,
    decreases n,
{
    if n >= 10 {
        lemma_dec_nonempty(n / 10);
    }
}

/// A number that is written begins with a digit.
pub proof fn lemma_dec_starts_with_a_digit(n: nat)
    ensures
        dec(n).len() > 0,
        '0' <= dec(n)[0] <= '9',
    decreases n,
{
    if n >= 10 {
        lemma_dec_starts_with_a_digit(n / 10);
    }
}

/// Two numbers that are written alike are the same.
pub proof fn lemma_dec_is_faithful(a: nat, b: nat)
    requires
        dec(a) == dec(b),
    ensures
        a == b,
    decreases a,
{
    lemma_dec_nonempty(a);
    lemma_dec_nonempty(b);
    assert(dec(a).last() == digit(a % 10));
    assert(dec(b).last() == digit(b % 10));
    if a >= 10 && b >= 10 {
        assert(dec(a).drop_last() == dec(a / 10));
        assert(dec(b).drop_last() == dec(b / 10));
        lemma_dec_is_faithful(a / 10, b / 10);
    }
}

/// The characters of a text as a vector.
pub fn chars_of(text: &str) -> (chars: Vec<char>)
    ensures
        chars@ == text@,
{
    let mut chars: Vec<char> = Vec::new();
    for c in it: text.chars()
        invariant
            it.seq() == text@,
            chars@ == text@.take(it.index() as int),
    {
        chars.push(c);
        proof {
            assert(text@.take(it.index() as int + 1) == text@.take(it.index() as int).push(c));
        }
    }
    proof {
        assert(text@.take(text@.len() as int) == text@);
    }
    chars
}

/// A string holding the given characters.
pub fn string_of(chars: &Vec<char>) -> (text: String)
    ensures
        text@ == chars@,
{
    let mut text = String::new();
    let mut i: usize = 0;
    while i < chars.len()
        invariant
            i <= chars@.len(),
            text@ == chars@.take(i as int),
        decreases chars@.len() - i,
    {
        text.push(chars[i]);
        i += 1;
        proof {
            assert(chars@.take(i as int) == chars@.take(i - 1).push(chars@[i - 1]));
        }
    }
    proof {
        assert(chars@.take(chars@.len() as int) == chars@);
    }
    text
}

/// What an optional text says.
pub open spec fn text_view(text: Option<String>) -> Option<Seq<char>> {
    match text {
        Some(t) => Some(t@),
        None => None,
    }
}

/// What an optional borrowed text says.
pub open spec fn name_view(name: Option<&str>) -> Option<Seq<char>> {
    match name {
        Some(n) => Some(n@),
        None => None,
    }
}

pub fn owned_name(name: Option<&str>) -> (copy: Option<String>)
    ensures
        text_view(copy) == name_view(name),
{
    match name {
        Some(n) => Some(n.to_owned()),
        None => None,
    }
}

pub fn borrowed(text: &Option<String>) -> (name: Option<&str>)
    ensures
        name_view(name) == text_view(*text),
{
    match text {
        Some(t) => Some(t.as_str()),
        None => None,
    }
}

/// Whether two optional texts are the same.
pub fn same_name(a: &Option<String>, b: &Option<String>) -> (same: bool)
    ensures
        same == (text_view(*a) == text_view(*b)),
{
    match (a, b) {
        (Some(x), Some(y)) => same_text(x, y),
        (None, None) => true,
        _ => false,
    }
}

pub fn clone_text(text: &Option<String>) -> (copy: Option<String>)
    ensures
        copy == *text,
{
    match text {
        Some(t) => Some(t.clone()),
        None => None,
    }
}

/// Whether two texts are the same.
pub fn same_text(a: &str, b: &str) -> (same: bool)
    ensures
        same == (a@ == b@),
{
    a.to_owned() == b.to_owned()
}

/// Code-point lexicographic order, strictly less.
pub open spec fn text_before(a: Seq<char>, b: Seq<char>) -> bool
    decreases a.len(),
{
    if b.len() == 0 {
        false
    } else if a.len() == 0 {
        true
    } else if a[0] != b[0] {
        (a[0] as int) < (b[0] as int)
    } else {
        text_before(a.drop_first(), b.drop_first())
    }
}

pub proof fn lemma_text_before_irreflexive(a: Seq<char>)
    ensures
        !text_before(a, a),
    decreases a.len(),
{
    if a.len() > 0 {
        lemma_text_before_irreflexive(a.drop_first());
    }
}

pub proof fn lemma_text_before_transitive(a: Seq<char>, b: Seq<char>, c: Seq<char>)
    requires
        text_before(a, b),
        text_before(b, c),
    ensures
        text_before(a, c),
    decreases a.len(),
{
    if a.len() > 0 && b.len() > 0 && c.len() > 0 && a[0] == b[0] && b[0] == c[0] {
        lemma_text_before_transitive(a.drop_first(), b.drop_first(), c.drop_first());
    }
}

pub proof fn lemma_text_before_total(a: Seq<char>, b: Seq<char>)
    ensures
        text_before(a, b) || text_before(b, a) || a == b,
    decreases a.len(),
{
    if a.len() > 0 && b.len() > 0 {
        if a[0] == b[0] {
            lemma_text_before_total(a.drop_first(), b.drop_first());
            if a.drop_first() == b.drop_first() {
                assert(a == seq![a[0]] + a.drop_first());
                assert(b == seq![b[0]] + b.drop_first());
            }
        }
    } else if a.len() == 0 && b.len() == 0 {
        assert(a == b);
    }
}

/// Whether `a` sorts strictly before `b`.
pub fn sorts_before(a: &str, b: &str) -> (less: bool)
    ensures
        less == text_before(a@, b@),
{
    let left = chars_of(a);
    let right = chars_of(b);
    let mut i: usize = 0;
    proof {
        assert(left@.skip(0) == left@);
        assert(right@.skip(0) == right@);
    }
    while i < left.len() && i < right.len()
        invariant
            left@ == a@,
            right@ == b@,
            i <= left@.len(),
            i <= right@.len(),
            text_before(a@, b@) == text_before(left@.skip(i as int), right@.skip(i as int)),
        decreases left@.len() - i,
    {
        proof {
            assert(left@.skip(i as int).drop_first() == left@.skip(i as int + 1));
            assert(right@.skip(i as int).drop_first() == right@.skip(i as int + 1));
        }
        let l: char = left[i];
        let r: char = right[i];
        if l != r {
            return l < r;
        }
        i += 1;
    }
    i < right.len()
}

/// What is written for a text between quotation marks.
pub uninterp spec fn quoted(text: Seq<char>) -> Seq<char>;

/// The `Debug` form of a text: a function of the text.
#[verifier::external_body]
pub(crate) fn quote(text: &str) -> (shown: String)
    ensures
        shown@ == quoted(text@),
{
    format!("{text:?}")
}

/// A text that holds a character.
pub fn contains_char(text: &str, wanted: char) -> (found: bool)
    ensures
        found == text@.contains(wanted),
{
    let chars = chars_of(text);
    let mut i: usize = 0;
    while i < chars.len()
        invariant
            chars@ == text@,
            i <= chars@.len(),
            forall|k: int| 0 <= k < i ==> chars@[k] != wanted,
        decreases chars@.len() - i,
    {
        if chars[i] == wanted {
            return true;
        }
        i += 1;
    }
    false
}

/// Whether a text begins with another.
pub open spec fn begins_with(text: Seq<char>, start: Seq<char>) -> bool {
    text.len() >= start.len() && text.take(start.len() as int) == start
}

/// Whether a text ends with another.
pub open spec fn ends_with(text: Seq<char>, end: Seq<char>) -> bool {
    text.len() >= end.len() && text.skip(text.len() - end.len()) == end
}

/// Whether characters hold others at a place.
fn holds_at(chars: &Vec<char>, part: &Vec<char>, at: usize) -> (same: bool)
    requires
        at + part@.len() <= chars@.len(),
    ensures
        same == (chars@.subrange(at as int, at + part@.len()) == part@),
{
    let total: usize = chars.len();
    let mut i: usize = 0;
    while i < part.len()
        invariant
            total == chars@.len(),
            at + part@.len() <= total,
            i <= part@.len(),
            forall|k: int| 0 <= k < i ==> chars@[at + k] == #[trigger] part@[k],
        decreases part@.len() - i,
    {
        let have: char = chars[at + i];
        let want: char = part[i];
        if have != want {
            proof {
                assert(chars@.subrange(at as int, at + part@.len())[i as int] == have);
            }
            return false;
        }
        i += 1;
    }
    proof {
        assert(chars@.subrange(at as int, at + part@.len()) =~= part@);
    }
    true
}

pub fn has_start(text: &str, start: &str) -> (yes: bool)
    ensures
        yes == begins_with(text@, start@),
{
    let chars = chars_of(text);
    let part = chars_of(start);
    let have: usize = chars.len();
    let want: usize = part.len();
    proof {
        if want <= have {
            assert(chars@.subrange(0, want as int) == chars@.take(want as int));
        }
    }
    want <= have && holds_at(&chars, &part, 0)
}

pub fn has_end(text: &str, end: &str) -> (yes: bool)
    ensures
        yes == ends_with(text@, end@),
{
    let chars = chars_of(text);
    let part = chars_of(end);
    let have: usize = chars.len();
    let want: usize = part.len();
    proof {
        if want <= have {
            assert(chars@.subrange(have - want, have as int) == chars@.skip(have - want));
        }
    }
    want <= have && holds_at(&chars, &part, have - want)
}

/// Texts with a separator between any two.
pub open spec fn joined_texts(texts: Seq<String>, separator: Seq<char>) -> Seq<char>
    decreases texts.len(),
{
    if texts.len() == 0 {
        Seq::empty()
    } else if texts.len() == 1 {
        texts[0]@
    } else {
        joined_texts(texts.drop_last(), separator) + separator + texts.last()@
    }
}

pub fn join_texts(texts: &Vec<String>, separator: &str) -> (text: String)
    ensures
        text@ == joined_texts(texts@, separator@),
{
    let mut text = String::new();
    let mut i: usize = 0;
    while i < texts.len()
        invariant
            i <= texts@.len(),
            text@ == joined_texts(texts@.take(i as int), separator@),
        decreases texts@.len() - i,
    {
        proof {
            assert(texts@.take(i + 1).drop_last() == texts@.take(i as int));
            assert(texts@.take(i + 1).last() == texts@[i as int]);
        }
        if i == 0 {
            text = texts[i].clone();
        } else {
            text = text.concat(separator).concat(&texts[i]);
        }
        i += 1;
    }
    proof {
        assert(texts@.take(texts@.len() as int) == texts@);
    }
    text
}

/// Clones a list of texts.
pub fn clone_texts(texts: &Vec<String>) -> (copy: Vec<String>)
    ensures
        copy@ == texts@,
{
    let mut copy: Vec<String> = Vec::new();
    let mut i: usize = 0;
    while i < texts.len()
        invariant
            i <= texts@.len(),
            copy@ == texts@.take(i as int),
        decreases texts@.len() - i,
    {
        copy.push(texts[i].clone());
        i += 1;
        proof {
            assert(texts@.take(i as int) == texts@.take(i - 1).push(texts@[i - 1]));
        }
    }
    proof {
        assert(texts@.take(texts@.len() as int) == texts@);
    }
    copy
}

} // verus!
