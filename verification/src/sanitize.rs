//! Keeping secrets out of what is written down.
use crate::endpoint::{Url, anonymous, parse_url, parsed_url};
use crate::text::{chars_of, string_of};
use vstd::prelude::*;

verus! {

/// Whether Unicode counts a character as a letter or a number.
pub uninterp spec fn alphanumeric(c: char) -> bool;

/// `char::is_alphanumeric`: a function of the character. Of the ASCII characters, the letters and
/// the digits are alphanumeric.
#[verifier::external_body]
fn is_alphanumeric(c: char) -> (yes: bool)
    ensures
        yes == alphanumeric(c),
        c <= '\u{7f}' ==> yes == (('0' <= c && c <= '9') || ('A' <= c && c <= 'Z') || ('a' <= c && c
            <= 'z')),
{
    c.is_alphanumeric()
}

/// A character that Unicode counts as white space.
pub open spec fn whitespace(c: char) -> bool {
    let code = c as u32;
    ||| 9 <= code <= 13
    ||| code == 32
    ||| code == 0x85
    ||| code == 0xa0
    ||| code == 0x1680
    ||| 0x2000 <= code <= 0x200a
    ||| code == 0x2028
    ||| code == 0x2029
    ||| code == 0x202f
    ||| code == 0x205f
    ||| code == 0x3000
}

/// Whether a character is white space.
pub fn is_whitespace(c: char) -> (yes: bool)
    ensures
        yes == whitespace(c),
{
    let code: u32 = c as u32;
    (9 <= code && code <= 13) || code == 32 || code == 0x85 || code == 0xa0 || code == 0x1680 || (
    0x2000 <= code && code <= 0x200a) || code == 0x2028 || code == 0x2029 || code == 0x202f || code
        == 0x205f || code == 0x3000
}

/// A character that a secret does not go beyond.
pub open spec fn delimiter(c: char) -> bool {
    whitespace(c) || c == '&' || c == ',' || c == ';' || c == '"' || c == '\''
}

/// The lower-case form of an ASCII letter.
pub open spec fn lower(c: char) -> char {
    if 'A' <= c && c <= 'Z' {
        ((c as u32) + 32) as char
    } else {
        c
    }
}

pub fn to_lower(c: char) -> (l: char)
    ensures
        l == lower(c),
{
    if 'A' <= c && c <= 'Z' {
        ((c as u8) + 32) as char
    } else {
        c
    }
}

/// The text begins with the key, whatever the case of its letters.
pub open spec fn begins_with(text: Seq<char>, key: Seq<char>) -> bool {
    key.len() <= text.len() && forall|i: int|
        0 <= i < key.len() ==> lower(#[trigger] text[i]) == key[i]
}

/// How many characters there are before the first delimiter.
pub open spec fn secret_len(text: Seq<char>) -> nat
    decreases text.len(),
{
    if text.len() == 0 || delimiter(text[0]) {
        0
    } else {
        1 + secret_len(text.drop_first())
    }
}

/// What is written for a secret.
pub open spec fn mask() -> Seq<char> {
    "[redacted]"@
}

/// What has been read, followed by the rest with every value behind the key masked. A key that
/// ends another word is none.
pub open spec fn masked_from(done: Seq<char>, rest: Seq<char>, key: Seq<char>) -> Seq<char>
    decreases rest.len(),
{
    if rest.len() == 0 || key.len() == 0 {
        done + rest
    } else if begins_with(rest, key) {
        let kept = done + rest.take(key.len() as int);
        let after = rest.skip(key.len() as int);
        if done.len() > 0 && alphanumeric(done.last()) {
            masked_from(kept, after, key)
        } else {
            proof {
                lemma_secret_len(after);
            }
            masked_from(kept + mask(), after.skip(secret_len(after) as int), key)
        }
    } else {
        masked_from(done.push(rest[0]), rest.drop_first(), key)
    }
}

/// A text with every value behind the key masked.
pub open spec fn masked(text: Seq<char>, key: Seq<char>) -> Seq<char> {
    masked_from(Seq::empty(), text, key)
}

/// A text with the values behind all keys masked, one key after the other.
pub open spec fn sanitized(text: Seq<char>) -> Seq<char> {
    masked(
        masked(
            masked(masked(masked(text, "access_token="@), "api_key="@), "authorization="@),
            "token="@,
        ),
        "key="@,
    )
}

pub proof fn lemma_secret_len(text: Seq<char>)
    ensures
        secret_len(text) <= text.len(),
    decreases text.len(),
{
    if text.len() > 0 && !delimiter(text[0]) {
        lemma_secret_len(text.drop_first());
    }
}

fn starts_key(chars: &Vec<char>, from: usize, key: &Vec<char>) -> (starts: bool)
    requires
        from <= chars@.len(),
    ensures
        starts == begins_with(chars@.skip(from as int), key@),
{
    if key.len() > chars.len() - from {
        return false;
    }
    let mut i: usize = 0;
    while i < key.len()
        invariant
            from <= chars.len(),
            key@.len() <= chars@.len() - from,
            i <= key@.len(),
            forall|k: int| 0 <= k < i ==> lower(#[trigger] chars@.skip(from as int)[k]) == key@[k],
        decreases key@.len() - i,
    {
        let at: usize = from + i;
        proof {
            assert(chars@.skip(from as int)[i as int] == chars@[at as int]);
        }
        if to_lower(chars[at]) != key[i] {
            return false;
        }
        i += 1;
    }
    true
}

fn is_delimiter(c: char) -> (yes: bool)
    ensures
        yes == delimiter(c),
{
    is_whitespace(c) || c == '&' || c == ',' || c == ';' || c == '"' || c == '\''
}

/// Where the secret that begins at an index ends.
fn secret_end(chars: &Vec<char>, from: usize) -> (end: usize)
    requires
        from <= chars@.len(),
    ensures
        end == from + secret_len(chars@.skip(from as int)),
        from <= end <= chars@.len(),
{
    let mut end: usize = from;
    while end < chars.len() && !is_delimiter(chars[end])
        invariant
            from <= end <= chars@.len(),
            secret_len(chars@.skip(from as int)) == (end - from) + secret_len(
                chars@.skip(end as int),
            ),
        decreases chars@.len() - end,
    {
        proof {
            assert(chars@.skip(end as int)[0] == chars@[end as int]);
            assert(chars@.skip(end as int).drop_first() == chars@.skip(end + 1));
        }
        end += 1;
    }
    proof {
        if end < chars@.len() {
            assert(chars@.skip(end as int)[0] == chars@[end as int]);
        }
    }
    end
}

/// Masks every value behind a key.
fn mask_values(chars: Vec<char>, key: &str) -> (text: Vec<char>)
    requires
        key@.len() > 0,
    ensures
        text@ == masked(chars@, key@),
{
    let key = chars_of(key);
    let hidden = chars_of("[redacted]");
    let mut done: Vec<char> = Vec::new();
    let mut at: usize = 0;
    proof {
        assert(chars@.skip(0) == chars@);
        assert(done@ == Seq::<char>::empty());
    }
    while at < chars.len()
        invariant
            at <= chars@.len(),
            key@.len() > 0,
            hidden@ == mask(),
            masked(chars@, key@) == masked_from(done@, chars@.skip(at as int), key@),
        decreases chars@.len() - at,
    {
        let ghost rest = chars@.skip(at as int);
        if starts_key(&chars, at, &key) {
            let word: bool = done.len() > 0 && is_alphanumeric(done[done.len() - 1]);
            let value: usize = at + key.len();
            let ghost before = done@;
            let mut i: usize = at;
            while i < value
                invariant
                    at <= i <= value <= chars@.len(),
                    done@ == before + chars@.subrange(at as int, i as int),
                decreases value - i,
            {
                done.push(chars[i]);
                i += 1;
                proof {
                    assert(chars@.subrange(at as int, i as int) == chars@.subrange(
                        at as int,
                        i - 1,
                    ).push(chars@[i - 1]));
                }
            }
            proof {
                assert(chars@.subrange(at as int, value as int) == rest.take(key@.len() as int));
                assert(rest.skip(key@.len() as int) == chars@.skip(value as int));
            }
            if word {
                at = value;
            } else {
                let end: usize = secret_end(&chars, value);
                let ghost kept = done@;
                let mut k: usize = 0;
                while k < hidden.len()
                    invariant
                        k <= hidden@.len(),
                        done@ == kept + hidden@.take(k as int),
                    decreases hidden@.len() - k,
                {
                    done.push(hidden[k]);
                    k += 1;
                    proof {
                        assert(hidden@.take(k as int) == hidden@.take(k - 1).push(hidden@[k - 1]));
                    }
                }
                proof {
                    assert(hidden@.take(hidden@.len() as int) == hidden@);
                    let after = chars@.skip(value as int);
                    assert(after.skip(secret_len(after) as int) == chars@.skip(end as int));
                }
                at = end;
            }
        } else {
            proof {
                assert(rest[0] == chars@[at as int]);
                assert(rest.drop_first() == chars@.skip(at + 1));
            }
            done.push(chars[at]);
            at += 1;
        }
    }
    proof {
        assert(done@ + chars@.skip(at as int) =~= done@);
    }
    done
}

/// Masks what a message may hold of tokens and keys.
pub fn sanitize_message(value: &str) -> (text: String)
    ensures
        text@ == sanitized(value@),
{
    proof {
        reveal_strlit("access_token=");
        reveal_strlit("api_key=");
        reveal_strlit("authorization=");
        reveal_strlit("token=");
        reveal_strlit("key=");
    }
    let chars = mask_values(chars_of(value), "access_token=");
    let chars = mask_values(chars, "api_key=");
    let chars = mask_values(chars, "authorization=");
    let chars = mask_values(chars, "token=");
    let chars = mask_values(chars, "key=");
    string_of(&chars)
}

/// What is written down of an endpoint: a URL without credentials and fragment and with its query
/// masked, and of anything else what may be written of a message.
pub open spec fn sanitized_endpoint(
    value: Seq<char>,
    parsed: Option<crate::endpoint::UrlView>,
) -> Seq<char> {
    match parsed {
        Some(url) => anonymous(url),
        None => sanitized(value),
    }
}

/// What is written down of an endpoint, given what URL it is.
pub fn sanitize_parsed(value: &str, parsed: &Option<Url>) -> (text: String)
    ensures
        text@ == sanitized_endpoint(value@, crate::endpoint::url_view(*parsed)),
{
    match parsed {
        Some(url) => url.anonymize(),
        None => sanitize_message(value),
    }
}

/// What is written down of an endpoint.
pub fn sanitize_endpoint(value: &str) -> (text: String)
    ensures
        text@ == sanitized_endpoint(value@, parsed_url(value@)),
{
    sanitize_parsed(value, &parse_url(value))
}

/// The key stands at an index of the text.
pub open spec fn key_at(text: Seq<char>, at: int, key: Seq<char>) -> bool {
    0 <= at <= text.len() && begins_with(text.skip(at), key)
}

/// The key stands at an index of the text and is no part of another word.
pub open spec fn names_secret(text: Seq<char>, at: int, key: Seq<char>) -> bool {
    key_at(text, at, key) && (at == 0 || !alphanumeric(text[at - 1]))
}

/// A secret's place holds the mask and nothing else.
pub open spec fn shielded(text: Seq<char>, at: int) -> bool {
    let end = at + mask().len();
    &&& 0 <= at && end <= text.len()
    &&& text.subrange(at, end) == mask()
    &&& end == text.len() || delimiter(text[end])
}

/// Behind every key there is a mask in place of the secret.
pub open spec fn hides(text: Seq<char>, key: Seq<char>) -> bool {
    forall|at: int| #[trigger] names_secret(text, at, key) ==> shielded(text, at + key.len())
}

/// A key ends with an equals sign, holds no other, and holds none of the mask's brackets.
spec fn plain_key(key: Seq<char>) -> bool {
    &&& key.len() > 0
    &&& key.last() == '='
    &&& forall|j: int| 0 <= j < key.len() - 1 ==> #[trigger] key[j] != '='
    &&& forall|j: int| 0 <= j < key.len() ==> #[trigger] key[j] != '[' && key[j] != ']'
    &&& forall|c: char| #[trigger] delimiter(c) ==> lower(c) != key[0]
}

proof fn lemma_mask()
    ensures
        mask().len() == 10,
        mask()[0] == '[',
        mask()[9] == ']',
        forall|j: int| 0 <= j < 10 ==> #[trigger] mask()[j] != '=' && !delimiter(mask()[j]),
        lower('[') == '[',
        lower(']') == ']',
        lower('=') == '=',
{
    reveal_strlit("[redacted]");
}

proof fn lemma_key_char(text: Seq<char>, at: int, key: Seq<char>, j: int)
    requires
        key_at(text, at, key),
        0 <= j < key.len(),
    ensures
        at + key.len() <= text.len(),
        lower(text[at + j]) == key[j],
{
    assert(text.skip(at)[j] == text[at + j]);
}

proof fn lemma_same_key(a: Seq<char>, i: int, b: Seq<char>, k: int, key: Seq<char>)
    requires
        key_at(a, i, key),
        0 <= k,
        k + key.len() <= b.len(),
        forall|j: int| 0 <= j < key.len() ==> a[i + j] == #[trigger] b[k + j],
    ensures
        key_at(b, k, key),
{
    assert forall|j: int| 0 <= j < key.len() implies lower(#[trigger] b.skip(k)[j]) == key[j] by {
        lemma_key_char(a, i, key, j);
        assert(b.skip(k)[j] == b[k + j]);
        assert(a[i + j] == b[k + j]);
    }
}

/// No key overlaps another place of the same key.
proof fn lemma_no_overlap(text: Seq<char>, a: int, b: int, key: Seq<char>)
    requires
        plain_key(key),
        key_at(text, a, key),
        key_at(text, b, key),
        a < b,
    ensures
        b >= a + key.len(),
{
    if b < a + key.len() {
        let last = key.len() - 1;
        lemma_key_char(text, a, key, last);
        lemma_key_char(text, b, key, a + last - b);
        lemma_mask();
        assert(key[a + last - b] != '=');
    }
}

/// No key reaches into a mask.
proof fn lemma_clear_of_mask(text: Seq<char>, at: int, from: int, key: Seq<char>)
    requires
        plain_key(key),
        key_at(text, at, key),
        0 <= from,
        from + mask().len() <= text.len(),
        text.subrange(from, from + mask().len()) == mask(),
    ensures
        at + key.len() <= from || at >= from + mask().len(),
{
    lemma_mask();
    let m = text.subrange(from, from + mask().len());
    if at + key.len() > from && at < from + 10 {
        if at < from {
            lemma_key_char(text, at, key, from - at);
            assert(m[0] == text[from]);
        } else if at + key.len() > from + 9 {
            lemma_key_char(text, at, key, from + 9 - at);
            assert(m[9] == text[from + 9]);
        } else {
            let last = key.len() - 1;
            lemma_key_char(text, at, key, last);
            assert(m[at + last - from] == text[at + last]);
            let c = mask()[at + last - from];
            assert(c != '=');
            assert(lower(c) != '=');
        }
    }
}

/// Masking one secret uncovers none that is masked.
proof fn lemma_masking_uncovers_nothing(
    before: Seq<char>,
    secret: Seq<char>,
    after: Seq<char>,
    key: Seq<char>,
)
    requires
        plain_key(key),
        before.len() > 0,
        lower(before.last()) == '=',
        hides(before + secret + after, key),
        forall|j: int| 0 <= j < secret.len() ==> !delimiter(#[trigger] secret[j]),
        after.len() == 0 || delimiter(after[0]),
    ensures
        hides(before + mask() + after, key),
{
    lemma_mask();
    let old_text = before + secret + after;
    let new_text = before + mask() + after;
    let cut = before.len() as int;
    assert(new_text.subrange(cut, cut + 10) =~= mask());
    assert forall|at: int| #[trigger] names_secret(new_text, at, key) implies shielded(
        new_text,
        at + key.len(),
    ) by {
        let end = at + key.len();
        lemma_key_char(new_text, at, key, 0);
        lemma_clear_of_mask(new_text, at, cut, key);
        if end <= cut {
            assert forall|j: int| 0 <= j < key.len() implies new_text[at + j]
                == #[trigger] old_text[at + j] by {}
            lemma_same_key(new_text, at, old_text, at, key);
            assert(names_secret(old_text, at, key));
            assert(shielded(old_text, end));
            let m = old_text.subrange(end, end + 10);
            if end == cut {
                assert forall|j: int| 0 <= j < 10 implies old_text[cut + j] == mask()[j] by {
                    assert(m[j] == old_text[cut + j]);
                }
                if secret.len() < 10 {
                    assert(!delimiter(mask()[secret.len() as int]));
                    assert(old_text[cut + secret.len()] == after[0]);
                }
                if secret.len() > 10 {
                    assert(old_text[cut + 10] == secret[10]);
                }
                assert(secret =~= mask());
            } else {
                if cut - 1 < end + 10 {
                    let c = m[cut - 1 - end];
                    assert(c == before.last());
                    assert(c == mask()[cut - 1 - end]);
                    assert(c != '=');
                    assert(lower(c) != '=');
                }
                assert(new_text.subrange(end, end + 10) =~= m);
            }
        } else {
            let place = at - cut - 10;
            assert(new_text[at] == after[place]);
            if place == 0 {
                assert(delimiter(after[0]));
            }
            let then = cut + secret.len() + place;
            assert forall|j: int| 0 <= j < key.len() implies new_text[at + j]
                == #[trigger] old_text[then + j] by {
                assert(new_text[at + j] == after[place + j]);
                assert(old_text[then + j] == after[place + j]);
            }
            lemma_same_key(new_text, at, old_text, then, key);
            assert(new_text[at - 1] == after[place - 1]);
            assert(old_text[then - 1] == after[place - 1]);
            assert(names_secret(old_text, then, key));
            assert(shielded(old_text, then + key.len()));
            let shift = secret.len() - 10;
            assert(new_text.subrange(end, end + 10) =~= old_text.subrange(
                end + shift,
                end + shift + 10,
            ));
        }
    }
}

proof fn lemma_secret_has_no_delimiter(text: Seq<char>)
    ensures
        forall|j: int| 0 <= j < secret_len(text) ==> !delimiter(#[trigger] text[j]),
        secret_len(text) < text.len() ==> delimiter(text[secret_len(text) as int]),
        secret_len(text) <= text.len(),
    decreases text.len(),
{
    if text.len() > 0 && !delimiter(text[0]) {
        let rest = text.drop_first();
        lemma_secret_has_no_delimiter(rest);
        assert forall|j: int| 0 <= j < secret_len(text) implies !delimiter(#[trigger] text[j]) by {
            if j > 0 {
                assert(rest[j - 1] == text[j]);
            }
        }
        if secret_len(text) < text.len() {
            assert(rest[secret_len(rest) as int] == text[secret_len(text) as int]);
        }
    }
}

/// Masking the values behind one key uncovers nothing that is masked behind another.
proof fn lemma_pass_uncovers_nothing(
    done: Seq<char>,
    rest: Seq<char>,
    key: Seq<char>,
    other: Seq<char>,
)
    requires
        plain_key(key),
        plain_key(other),
        hides(done + rest, other),
    ensures
        hides(masked_from(done, rest, key), other),
    decreases rest.len(),
{
    lemma_mask();
    if rest.len() > 0 {
        if begins_with(rest, key) {
            let kept = done + rest.take(key.len() as int);
            let after = rest.skip(key.len() as int);
            assert(kept + after =~= done + rest);
            if done.len() > 0 && alphanumeric(done.last()) {
                lemma_pass_uncovers_nothing(kept, after, key, other);
            } else {
                lemma_secret_has_no_delimiter(after);
                let length = secret_len(after) as int;
                let secret = after.take(length);
                let tail = after.skip(length);
                assert(kept + secret + tail =~= done + rest);
                assert(kept.last() == rest[key.len() - 1]);
                assert(lower(rest[key.len() - 1]) == key[key.len() - 1]);
                lemma_masking_uncovers_nothing(kept, secret, tail, other);
                lemma_pass_uncovers_nothing(kept + mask(), tail, key, other);
            }
        } else {
            assert(done.push(rest[0]) + rest.drop_first() =~= done + rest);
            lemma_pass_uncovers_nothing(done.push(rest[0]), rest.drop_first(), key, other);
        }
    } else {
        assert(done + rest =~= done);
    }
}

/// Behind every key in what has been read there is a mask, and no key reaches from there into
/// what has not been read.
spec fn settled(done: Seq<char>, rest: Seq<char>, key: Seq<char>) -> bool {
    forall|at: int|
        0 <= at < done.len() && #[trigger] names_secret(done + rest, at, key) ==> {
            &&& at + key.len() <= done.len()
            &&& shielded(done + rest, at + key.len())
            &&& at + key.len() + mask().len() <= done.len()
        }
}

/// No key that begins in what has been read ends in what has not.
spec fn none_straddles(done: Seq<char>, rest: Seq<char>, key: Seq<char>) -> bool {
    forall|at: int|
        0 <= at < done.len() && #[trigger] key_at(done + rest, at, key) ==> at + key.len()
            <= done.len()
}

/// Masking the values behind a key masks all of them.
proof fn lemma_pass_hides(done: Seq<char>, rest: Seq<char>, key: Seq<char>)
    requires
        plain_key(key),
        settled(done, rest, key),
        none_straddles(done, rest, key),
    ensures
        hides(masked_from(done, rest, key), key),
    decreases rest.len(),
{
    lemma_mask();
    let text = done + rest;
    if rest.len() == 0 {
        assert(text =~= done);
        assert forall|at: int| #[trigger] names_secret(done, at, key) implies shielded(
            done,
            at + key.len(),
        ) by {
            lemma_key_char(done, at, key, 0);
            assert(names_secret(text, at, key));
        }
    } else if begins_with(rest, key) {
        let start = done.len() as int;
        let kept = done + rest.take(key.len() as int);
        let after = rest.skip(key.len() as int);
        assert(kept + after =~= text);
        assert(text.skip(start) =~= rest);
        assert(key_at(text, start, key));
        if done.len() > 0 && alphanumeric(done.last()) {
            assert(text[start - 1] == done.last());
            assert forall|at: int| 0 <= at < kept.len() && #[trigger] names_secret(
                kept + after,
                at,
                key,
            ) implies {
                &&& at + key.len() <= kept.len()
                &&& shielded(kept + after, at + key.len())
                &&& at + key.len() + mask().len() <= kept.len()
            } by {
                if at > start {
                    lemma_no_overlap(text, start, at, key);
                }
            }
            assert forall|at: int| 0 <= at < kept.len() && #[trigger] key_at(
                kept + after,
                at,
                key,
            ) implies at + key.len() <= kept.len() by {
                if at > start {
                    lemma_no_overlap(text, start, at, key);
                }
            }
            lemma_pass_hides(kept, after, key);
        } else {
            lemma_secret_has_no_delimiter(after);
            let length = secret_len(after) as int;
            let tail = after.skip(length);
            let hidden = kept + mask();
            let new_text = hidden + tail;
            let cut = kept.len() as int;
            assert(new_text.subrange(cut, cut + 10) =~= mask());
            if tail.len() > 0 {
                assert(tail[0] == after[length]);
                assert(new_text[cut + 10] == tail[0]);
            }
            assert forall|at: int| 0 <= at < hidden.len() && #[trigger] names_secret(
                new_text,
                at,
                key,
            ) implies {
                &&& at + key.len() <= hidden.len()
                &&& shielded(new_text, at + key.len())
                &&& at + key.len() + mask().len() <= hidden.len()
            } by {
                lemma_key_char(new_text, at, key, 0);
                lemma_clear_of_mask(new_text, at, cut, key);
                assert forall|j: int| 0 <= j < key.len() implies new_text[at + j]
                    == #[trigger] text[at + j] by {
                    assert(new_text[at + j] == kept[at + j]);
                    assert((kept + after)[at + j] == kept[at + j]);
                }
                lemma_same_key(new_text, at, text, at, key);
                if at > start {
                    lemma_no_overlap(text, start, at, key);
                } else if at < start {
                    assert(text[at] == new_text[at]);
                    assert(at > 0 ==> text[at - 1] == new_text[at - 1]);
                    assert(names_secret(text, at, key));
                    let end = at + key.len();
                    assert(text.subrange(end, end + 10) == mask());
                    assert(end + 10 <= done.len());
                    assert(new_text.subrange(end, end + 10) =~= text.subrange(end, end + 10));
                    assert(text[end + 10] == new_text[end + 10]) by {
                        assert((kept + after)[end + 10] == kept[end + 10]);
                    }
                }
            }
            assert forall|at: int| 0 <= at < hidden.len() && #[trigger] key_at(
                new_text,
                at,
                key,
            ) implies at + key.len() <= hidden.len() by {
                lemma_key_char(new_text, at, key, 0);
                lemma_clear_of_mask(new_text, at, cut, key);
            }
            lemma_pass_hides(hidden, tail, key);
        }
    } else {
        let next = done.push(rest[0]);
        let tail = rest.drop_first();
        assert(next + tail =~= text);
        assert(text.skip(done.len() as int) =~= rest);
        assert forall|at: int| 0 <= at < next.len() && #[trigger] names_secret(
            next + tail,
            at,
            key,
        ) implies {
            &&& at + key.len() <= next.len()
            &&& shielded(next + tail, at + key.len())
            &&& at + key.len() + mask().len() <= next.len()
        } by {
            assert(at != done.len());
            assert(names_secret(text, at, key));
        }
        assert forall|at: int| 0 <= at < next.len() && #[trigger] key_at(
            next + tail,
            at,
            key,
        ) implies at + key.len() <= next.len() by {
            assert(at != done.len());
            assert(key_at(text, at, key));
        }
        lemma_pass_hides(next, tail, key);
    }
}

proof fn lemma_masked_hides(text: Seq<char>, key: Seq<char>)
    requires
        plain_key(key),
    ensures
        hides(masked(text, key), key),
{
    lemma_pass_hides(Seq::empty(), text, key);
}

proof fn lemma_masked_uncovers_nothing(text: Seq<char>, key: Seq<char>, other: Seq<char>)
    requires
        plain_key(key),
        plain_key(other),
        hides(text, other),
    ensures
        hides(masked(text, key), other),
{
    assert(Seq::<char>::empty() + text =~= text);
    lemma_pass_uncovers_nothing(Seq::empty(), text, key, other);
}

/// Whatever a message says, nothing is left of a secret behind any of the keys: in its place
/// there is the mask, up to where the secret ended.
pub proof fn law_no_secret_is_left(text: Seq<char>)
    ensures
        hides(sanitized(text), "access_token="@),
        hides(sanitized(text), "api_key="@),
        hides(sanitized(text), "authorization="@),
        hides(sanitized(text), "token="@),
        hides(sanitized(text), "key="@),
{
    let a = "access_token="@;
    let b = "api_key="@;
    let c = "authorization="@;
    let d = "token="@;
    let e = "key="@;
    reveal_strlit("access_token=");
    reveal_strlit("api_key=");
    reveal_strlit("authorization=");
    reveal_strlit("token=");
    reveal_strlit("key=");
    let first = masked(text, a);
    let second = masked(first, b);
    let third = masked(second, c);
    let fourth = masked(third, d);
    lemma_masked_hides(text, a);
    lemma_masked_hides(first, b);
    lemma_masked_hides(second, c);
    lemma_masked_hides(third, d);
    lemma_masked_hides(fourth, e);
    lemma_masked_uncovers_nothing(first, b, a);
    lemma_masked_uncovers_nothing(second, c, a);
    lemma_masked_uncovers_nothing(second, c, b);
    lemma_masked_uncovers_nothing(third, d, a);
    lemma_masked_uncovers_nothing(third, d, b);
    lemma_masked_uncovers_nothing(third, d, c);
    lemma_masked_uncovers_nothing(fourth, e, a);
    lemma_masked_uncovers_nothing(fourth, e, b);
    lemma_masked_uncovers_nothing(fourth, e, c);
    lemma_masked_uncovers_nothing(fourth, e, d);
}

proof fn lemma_shielded_secret(text: Seq<char>)
    requires
        shielded(text, 0),
    ensures
        secret_len(text) == mask().len(),
{
    lemma_mask();
    lemma_secret_has_no_delimiter(text);
    let length = secret_len(text) as int;
    let m = text.subrange(0, 10);
    if length < 10 {
        assert(m[length] == text[length]);
    }
}

/// Where the secrets are masked already, masking them again changes nothing.
proof fn lemma_pass_keeps(done: Seq<char>, rest: Seq<char>, key: Seq<char>)
    requires
        hides(done + rest, key),
    ensures
        masked_from(done, rest, key) == done + rest,
    decreases rest.len(),
{
    let text = done + rest;
    if rest.len() > 0 && key.len() > 0 {
        if begins_with(rest, key) {
            let kept = done + rest.take(key.len() as int);
            let after = rest.skip(key.len() as int);
            assert(kept + after =~= text);
            if done.len() > 0 && alphanumeric(done.last()) {
                lemma_pass_keeps(kept, after, key);
            } else {
                lemma_mask();
                let start = done.len() as int;
                assert(text.skip(start) =~= rest);
                assert(start > 0 ==> text[start - 1] == done.last());
                assert(names_secret(text, start, key));
                let value = start + key.len();
                assert(shielded(text, value));
                assert(text.skip(value) =~= after);
                assert(after.subrange(0, 10) =~= text.subrange(value, value + 10));
                assert(after.len() > 10 ==> after[10] == text[value + 10]);
                assert(shielded(after, 0));
                lemma_shielded_secret(after);
                assert(after.take(10) =~= after.subrange(0, 10));
                assert(kept + mask() + after.skip(10) =~= text) by {
                    assert(after =~= after.take(10) + after.skip(10));
                }
                lemma_pass_keeps(kept + mask(), after.skip(10), key);
            }
        } else {
            assert(done.push(rest[0]) + rest.drop_first() =~= text);
            lemma_pass_keeps(done.push(rest[0]), rest.drop_first(), key);
        }
    }
}

proof fn lemma_masked_keeps(text: Seq<char>, key: Seq<char>)
    requires
        hides(text, key),
    ensures
        masked(text, key) == text,
{
    assert(Seq::<char>::empty() + text =~= text);
    lemma_pass_keeps(Seq::empty(), text, key);
}

/// Masking what is masked already changes nothing.
pub proof fn law_sanitizing_twice_is_sanitizing(text: Seq<char>)
    ensures
        sanitized(sanitized(text)) == sanitized(text),
{
    law_no_secret_is_left(text);
    let clean = sanitized(text);
    lemma_masked_keeps(clean, "access_token="@);
    lemma_masked_keeps(clean, "api_key="@);
    lemma_masked_keeps(clean, "authorization="@);
    lemma_masked_keeps(clean, "token="@);
    lemma_masked_keeps(clean, "key="@);
}

/// A key stands somewhere in a text, whatever the case of its letters.
pub open spec fn mentions(text: Seq<char>, key: Seq<char>) -> bool {
    exists|at: int| #[trigger] key_at(text, at, key)
}

proof fn lemma_longer_key(text: Seq<char>, at: int, key: Seq<char>, from: int, end: Seq<char>)
    requires
        key_at(text, at, key),
        0 <= from <= key.len(),
        key.skip(from) == end,
    ensures
        key_at(text, at + from, end),
{
    assert forall|j: int| 0 <= j < end.len() implies lower(#[trigger] text.skip(at + from)[j])
        == end[j] by {
        lemma_key_char(text, at, key, from + j);
        assert(key.skip(from)[j] == key[from + j]);
        assert(text.skip(at + from)[j] == text[at + from + j]);
    }
}

/// A message without any of the keys stays as it is.
pub proof fn law_message_without_a_key_stays(text: Seq<char>)
    requires
        !mentions(text, "token="@),
        !mentions(text, "key="@),
        !mentions(text, "authorization="@),
    ensures
        sanitized(text) == text,
{
    reveal_strlit("access_token=");
    reveal_strlit("api_key=");
    reveal_strlit("token=");
    reveal_strlit("key=");
    assert("access_token="@.skip(7) =~= "token="@);
    assert("api_key="@.skip(4) =~= "key="@);
    assert(hides(text, "access_token="@)) by {
        assert forall|at: int| #[trigger]
            names_secret(text, at, "access_token="@) implies shielded(
            text,
            at + "access_token="@.len(),
        ) by {
            lemma_longer_key(text, at, "access_token="@, 7, "token="@);
        }
    }
    assert(hides(text, "api_key="@)) by {
        assert forall|at: int| #[trigger] names_secret(text, at, "api_key="@) implies shielded(
            text,
            at + "api_key="@.len(),
        ) by {
            lemma_longer_key(text, at, "api_key="@, 4, "key="@);
        }
    }
    lemma_masked_keeps(text, "access_token="@);
    lemma_masked_keeps(text, "api_key="@);
    lemma_masked_keeps(text, "authorization="@);
    lemma_masked_keeps(text, "token="@);
    lemma_masked_keeps(text, "key="@);
}

/// What masking the values behind a key writes for a text that stands behind a character.
spec fn scan(prev: Option<char>, rest: Seq<char>, key: Seq<char>) -> Seq<char>
    decreases rest.len(),
{
    if rest.len() == 0 || key.len() == 0 {
        rest
    } else if begins_with(rest, key) {
        let head = rest.take(key.len() as int);
        let after = rest.skip(key.len() as int);
        if prev is Some && alphanumeric(prev->0) {
            head + scan(Some(head.last()), after, key)
        } else {
            proof {
                lemma_secret_len(after);
            }
            head + mask() + scan(Some(mask().last()), after.skip(secret_len(after) as int), key)
        }
    } else {
        seq![rest[0]] + scan(Some(rest[0]), rest.drop_first(), key)
    }
}

spec fn last_of(text: Seq<char>) -> Option<char> {
    if text.len() == 0 {
        None
    } else {
        Some(text.last())
    }
}

proof fn lemma_scan(done: Seq<char>, rest: Seq<char>, key: Seq<char>)
    ensures
        masked_from(done, rest, key) == done + scan(last_of(done), rest, key),
    decreases rest.len(),
{
    if rest.len() > 0 && key.len() > 0 {
        if begins_with(rest, key) {
            let head = rest.take(key.len() as int);
            let kept = done + head;
            let after = rest.skip(key.len() as int);
            assert(kept.last() == head.last());
            if done.len() > 0 && alphanumeric(done.last()) {
                lemma_scan(kept, after, key);
                assert(kept + scan(Some(head.last()), after, key) =~= done + (head + scan(
                    Some(head.last()),
                    after,
                    key,
                )));
            } else {
                lemma_mask();
                lemma_secret_len(after);
                let tail = after.skip(secret_len(after) as int);
                lemma_scan(kept + mask(), tail, key);
                assert((kept + mask()).last() == mask().last());
                let rest_of = scan(Some(mask().last()), tail, key);
                assert(kept + mask() + rest_of =~= done + (head + mask() + rest_of));
            }
        } else {
            let rest_of = scan(Some(rest[0]), rest.drop_first(), key);
            lemma_scan(done.push(rest[0]), rest.drop_first(), key);
            assert(done.push(rest[0]) + rest_of =~= done + (seq![rest[0]] + rest_of));
        }
    }
}

/// A key that holds no delimiter.
spec fn clear_key(key: Seq<char>) -> bool {
    &&& plain_key(key)
    &&& forall|c: char, j: int|
        0 <= j < key.len() && #[trigger] delimiter(c) ==> lower(c) != #[trigger] key[j]
}

spec fn unbroken(text: Seq<char>) -> bool {
    forall|j: int| 0 <= j < text.len() ==> !delimiter(#[trigger] text[j])
}

/// A text before which a secret ends.
spec fn ends_secret(text: Seq<char>) -> bool {
    text.len() == 0 || delimiter(text[0])
}

proof fn lemma_secret_up_to(secret: Seq<char>, rest: Seq<char>)
    requires
        unbroken(secret),
        ends_secret(rest),
    ensures
        secret_len(secret + rest) == secret.len(),
{
    let text = secret + rest;
    lemma_secret_has_no_delimiter(text);
    let length = secret_len(text) as int;
    if length < secret.len() {
        assert(text[length] == secret[length]);
    } else if length > secret.len() {
        assert(text[secret.len() as int] == rest[0]);
    }
}

/// What stands behind a secret is scanned as if nothing stood before it.
proof fn lemma_scan_secret(prev: Option<char>, secret: Seq<char>, rest: Seq<char>, key: Seq<char>)
    requires
        clear_key(key),
        unbroken(secret),
        ends_secret(rest),
    ensures
        scan(prev, secret + rest, key) == scan(prev, secret, key) + scan(None, rest, key),
        unbroken(scan(prev, secret, key)),
        ends_secret(scan(None, rest, key)),
    decreases secret.len(),
{
    lemma_mask();
    let text = secret + rest;
    assert(ends_secret(scan(None, rest, key)) && forall|other: Option<char>| #[trigger]
        scan(other, rest, key) == scan(None, rest, key)) by {
        if rest.len() > 0 {
            assert(lower(rest[0]) != key[0]);
            assert(!begins_with(rest, key));
        }
    }
    if secret.len() == 0 {
        assert(text =~= rest);
        assert(scan(prev, secret, key) =~= Seq::empty());
        assert(scan(prev, rest, key) == scan(None, rest, key));
        assert(Seq::<char>::empty() + scan(None, rest, key) =~= scan(None, rest, key));
    } else {
        assert(begins_with(text, key) == begins_with(secret, key)) by {
            if begins_with(text, key) {
                if key.len() > secret.len() {
                    let at = secret.len() as int;
                    assert(text[at] == rest[0]);
                    assert(lower(text[at]) == key[at]);
                    assert(delimiter(rest[0]));
                }
                assert forall|i: int| 0 <= i < key.len() implies lower(#[trigger] secret[i])
                    == key[i] by {
                    assert(text[i] == secret[i]);
                }
            }
            if begins_with(secret, key) {
                assert forall|i: int| 0 <= i < key.len() implies lower(#[trigger] text[i])
                    == key[i] by {
                    assert(text[i] == secret[i]);
                }
            }
        }
        if begins_with(secret, key) {
            let n = key.len() as int;
            let head = secret.take(n);
            let after = secret.skip(n);
            assert(text.take(n) =~= head);
            assert(text.skip(n) =~= after + rest);
            assert(unbroken(after)) by {
                assert forall|j: int| 0 <= j < after.len() implies !delimiter(
                    #[trigger] after[j],
                ) by {
                    assert(after[j] == secret[n + j]);
                }
            }
            assert(unbroken(head)) by {
                assert forall|j: int| 0 <= j < head.len() implies !delimiter(
                    #[trigger] head[j],
                ) by {
                    assert(head[j] == secret[j]);
                }
            }
            if prev is Some && alphanumeric(prev->0) {
                lemma_scan_secret(Some(head.last()), after, rest, key);
                let inner = scan(Some(head.last()), after, key);
                assert(head + (inner + scan(None, rest, key)) =~= head + inner + scan(
                    None,
                    rest,
                    key,
                ));
            } else {
                lemma_secret_up_to(after, rest);
                lemma_secret_up_to(after, Seq::empty());
                assert(after + Seq::empty() =~= after);
                assert((after + rest).skip(after.len() as int) =~= rest);
                assert(after.skip(after.len() as int) =~= Seq::empty());
                assert(scan(Some(mask().last()), Seq::empty(), key) =~= Seq::empty());
                assert(scan(prev, secret, key) =~= head + mask());
                assert(scan(Some(mask().last()), rest, key) == scan(None, rest, key));
                assert(scan(prev, text, key) == head + mask() + scan(
                    Some(mask().last()),
                    rest,
                    key,
                ));
            }
        } else {
            let rest_of = secret.drop_first();
            assert(text[0] == secret[0]);
            assert(text.drop_first() =~= rest_of + rest);
            assert(unbroken(rest_of)) by {
                assert forall|j: int| 0 <= j < rest_of.len() implies !delimiter(
                    #[trigger] rest_of[j],
                ) by {
                    assert(rest_of[j] == secret[j + 1]);
                }
            }
            lemma_scan_secret(Some(secret[0]), rest_of, rest, key);
            let inner = scan(Some(secret[0]), rest_of, key);
            assert(seq![secret[0]] + (inner + scan(None, rest, key)) =~= seq![secret[0]] + inner
                + scan(None, rest, key));
        }
    }
}

/// A text that ends with its only equals sign and holds no delimiter: a key, or the end of one.
spec fn key_end(text: Seq<char>) -> bool {
    &&& unbroken(text)
    &&& text.len() > 0 ==> text.last() == '='
    &&& forall|j: int| 0 <= j < text.len() - 1 ==> #[trigger] text[j] != '='
}

/// Where a key stands that begins before or in the end of another, it ends with it.
proof fn lemma_keys_end_together(before: Seq<char>, end: Seq<char>, rest: Seq<char>, key: Seq<char>)
    requires
        clear_key(key),
        key_end(end),
        end.len() > 0,
        begins_with(before + end + rest, key),
        key.len() > before.len(),
    ensures
        key.len() == before.len() + end.len(),
{
    lemma_mask();
    let text = before + end + rest;
    let stop = before.len() + end.len() - 1;
    assert(text[stop as int] == end.last());
    let last = key.len() - 1;
    assert(lower(text[last]) == key[last]);
    assert(text[last] == '=');
    if last < stop {
        assert(text[last] == end[last - before.len()]);
    } else if last > stop {
        assert(lower(text[stop as int]) == key[stop as int]);
    }
}

/// Two texts that differ in the secret behind the end of a key alone.
spec fn same_but(
    left: Seq<char>,
    right: Seq<char>,
    before: Seq<char>,
    end: Seq<char>,
    first: Seq<char>,
    second: Seq<char>,
    rest: Seq<char>,
) -> bool {
    &&& left == before + end + first + rest
    &&& right == before + end + second + rest
    &&& unbroken(first)
    &&& unbroken(second)
    &&& ends_secret(rest)
}

spec fn apart(prev: Option<char>) -> bool {
    prev is None || !alphanumeric(prev->0)
}

#[verifier::spinoff_prover]
#[verifier::rlimit(60)]
proof fn lemma_scan_key_end(
    prev: Option<char>,
    end: Seq<char>,
    first: Seq<char>,
    second: Seq<char>,
    rest: Seq<char>,
    key: Seq<char>,
)
    requires
        clear_key(key),
        key_end(end),
        unbroken(first),
        unbroken(second),
        ends_secret(rest),
    ensures
        ({
            let left = scan(prev, end + first + rest, key);
            let right = scan(prev, end + second + rest, key);
            ||| left == right
            ||| exists|f: Seq<char>, s: Seq<char>, r: Seq<char>|
                #[trigger] same_but(left, right, Seq::empty(), end, f, s, r)
        }),
        apart(prev) && begins_with(end, key) && end.len() > 0 ==> scan(
            prev,
            end + first + rest,
            key,
        ) == scan(prev, end + second + rest, key),
    decreases end.len(),
{
    lemma_mask();
    let one = end + first + rest;
    let two = end + second + rest;
    let left = scan(prev, one, key);
    let right = scan(prev, two, key);
    if end.len() == 0 {
        assert(one =~= first + rest);
        assert(two =~= second + rest);
        lemma_scan_secret(prev, first, rest, key);
        lemma_scan_secret(prev, second, rest, key);
        let f = scan(prev, first, key);
        let s = scan(prev, second, key);
        let r = scan(None, rest, key);
        assert(left =~= Seq::empty() + end + f + r);
        assert(right =~= Seq::empty() + end + s + r);
        assert(same_but(left, right, Seq::empty(), end, f, s, r));
    } else {
        assert(one =~= Seq::empty() + end + (first + rest));
        assert(two =~= Seq::empty() + end + (second + rest));
        if begins_with(one, key) {
            lemma_keys_end_together(Seq::empty(), end, first + rest, key);
        }
        if begins_with(two, key) {
            lemma_keys_end_together(Seq::empty(), end, second + rest, key);
        }
        let n = end.len() as int;
        assert(forall|i: int| 0 <= i < n ==> one[i] == #[trigger] end[i]);
        assert(forall|i: int| 0 <= i < n ==> two[i] == #[trigger] end[i]);
        let stands = key.len() == n && begins_with(end, key);
        assert(begins_with(one, key) == stands) by {
            if begins_with(one, key) {
                assert forall|i: int| 0 <= i < key.len() implies lower(#[trigger] end[i])
                    == key[i] by {
                    assert(lower(one[i]) == key[i]);
                }
            }
        }
        assert(begins_with(two, key) == stands) by {
            if begins_with(two, key) {
                assert forall|i: int| 0 <= i < key.len() implies lower(#[trigger] end[i])
                    == key[i] by {
                    assert(lower(two[i]) == key[i]);
                }
            }
        }
        assert(begins_with(end, key) ==> key.len() == n) by {
            if begins_with(end, key) {
                assert(end =~= Seq::empty() + end + Seq::<char>::empty());
                lemma_keys_end_together(Seq::empty(), end, Seq::empty(), key);
            }
        }
        if stands {
            assert(one.take(n) =~= end);
            assert(two.take(n) =~= end);
            assert(one.skip(n) =~= first + rest);
            assert(two.skip(n) =~= second + rest);
            if apart(prev) {
                lemma_secret_up_to(first, rest);
                lemma_secret_up_to(second, rest);
                assert((first + rest).skip(first.len() as int) =~= rest);
                assert((second + rest).skip(second.len() as int) =~= rest);
            } else {
                let next = Some(end.last());
                lemma_scan_secret(next, first, rest, key);
                lemma_scan_secret(next, second, rest, key);
                let f = scan(next, first, key);
                let s = scan(next, second, key);
                let r = scan(None, rest, key);
                assert(left =~= Seq::empty() + end + f + r);
                assert(right =~= Seq::empty() + end + s + r);
                assert(same_but(left, right, Seq::empty(), end, f, s, r));
            }
        } else {
            let next = Some(end[0]);
            let tail = end.drop_first();
            assert(key_end(tail)) by {
                assert forall|j: int| 0 <= j < tail.len() implies !delimiter(
                    #[trigger] tail[j],
                ) by {
                    assert(tail[j] == end[j + 1]);
                }
                assert forall|j: int| 0 <= j < tail.len() - 1 implies #[trigger] tail[j]
                    != '=' by {
                    assert(tail[j] == end[j + 1]);
                }
            }
            assert(one[0] == end[0] && two[0] == end[0]);
            assert(one.drop_first() =~= tail + first + rest);
            assert(two.drop_first() =~= tail + second + rest);
            lemma_scan_key_end(next, tail, first, second, rest, key);
            let inner_left = scan(next, tail + first + rest, key);
            let inner_right = scan(next, tail + second + rest, key);
            if inner_left != inner_right {
                let (f, s, r) = choose|f: Seq<char>, s: Seq<char>, r: Seq<char>|
                    #[trigger] same_but(inner_left, inner_right, Seq::empty(), tail, f, s, r);
                assert(left =~= Seq::empty() + end + f + r);
                assert(right =~= Seq::empty() + end + s + r);
                assert(same_but(left, right, Seq::empty(), end, f, s, r));
            }
        }
    }
}

/// What is written first for a text with the end of a key in it, and where it goes on: before that
/// end, in the secret behind it, or behind the secret.
enum Next {
    Before(int),
    Secret,
    Rest,
}

spec fn step(prev: Option<char>, before: Seq<char>, end: Seq<char>, key: Seq<char>) -> (
    Seq<char>,
    Next,
) {
    let same = before + end;
    let k = key.len() as int;
    let word = prev is Some && alphanumeric(prev->0);
    let tail = before.skip(k);
    if !begins_with(same, key) {
        (seq![before[0]], Next::Before(1))
    } else if k > before.len() {
        if word {
            (same, Next::Secret)
        } else {
            (same + mask(), Next::Rest)
        }
    } else if word {
        (before.take(k), Next::Before(k))
    } else if secret_len(tail) < tail.len() {
        (before.take(k) + mask(), Next::Before(k + secret_len(tail)))
    } else {
        (before.take(k) + mask(), Next::Rest)
    }
}

spec fn stepped(
    prev: Option<char>,
    before: Seq<char>,
    end: Seq<char>,
    secret: Seq<char>,
    rest: Seq<char>,
    key: Seq<char>,
) -> Seq<char> {
    let (out, next) = step(prev, before, end, key);
    let last = Some(out.last());
    out + match next {
        Next::Before(from) => scan(last, before.skip(from) + end + secret + rest, key),
        Next::Secret => scan(last, secret + rest, key),
        Next::Rest => scan(last, rest, key),
    }
}

proof fn lemma_step(
    prev: Option<char>,
    before: Seq<char>,
    end: Seq<char>,
    secret: Seq<char>,
    rest: Seq<char>,
    key: Seq<char>,
)
    requires
        clear_key(key),
        key_end(end),
        end.len() > 0,
        unbroken(secret),
        ends_secret(rest),
        before.len() > 0,
    ensures
        scan(prev, before + end + secret + rest, key) == stepped(
            prev,
            before,
            end,
            secret,
            rest,
            key,
        ),
{
    lemma_mask();
    let text = before + end + secret + rest;
    let same = before + end;
    let k = key.len() as int;
    let word = prev is Some && alphanumeric(prev->0);
    assert(text =~= same + (secret + rest));
    assert(forall|i: int| 0 <= i < same.len() ==> text[i] == #[trigger] same[i]);
    assert(begins_with(text, key) == begins_with(same, key)) by {
        if begins_with(text, key) {
            if k > before.len() {
                lemma_keys_end_together(before, end, secret + rest, key);
            }
            assert forall|i: int| 0 <= i < k implies lower(#[trigger] same[i]) == key[i] by {
                assert(lower(text[i]) == key[i]);
            }
        }
        if begins_with(same, key) {
            assert forall|i: int| 0 <= i < k implies lower(#[trigger] text[i]) == key[i] by {
                assert(text[i] == same[i]);
            }
        }
    }
    if !begins_with(same, key) {
        assert(text[0] == before[0]);
        assert(text.drop_first() =~= before.skip(1) + end + secret + rest);
    } else if k > before.len() {
        lemma_keys_end_together(before, end, secret + rest, key);
        assert(text.take(k) =~= same);
        assert(text.skip(k) =~= secret + rest);
        if !word {
            lemma_secret_up_to(secret, rest);
            assert((secret + rest).skip(secret.len() as int) =~= rest);
            assert((same + mask()).last() == mask().last());
        }
    } else {
        let tail = before.skip(k);
        let head = before.take(k);
        assert(text.take(k) =~= head);
        assert(text.skip(k) =~= tail + end + secret + rest);
        if !word {
            lemma_secret_has_no_delimiter(tail);
            let length = secret_len(tail) as int;
            assert((head + mask()).last() == mask().last());
            if length < tail.len() {
                let hidden = tail.take(length);
                let later = tail.skip(length) + end + secret + rest;
                assert(later[0] == tail[length]);
                assert(forall|j: int| 0 <= j < hidden.len() ==> #[trigger] hidden[j] == tail[j]);
                assert(text.skip(k) =~= hidden + later);
                lemma_secret_up_to(hidden, later);
                assert((hidden + later).skip(length) =~= later);
                assert(tail.skip(length) =~= before.skip(k + length));
            } else {
                let hidden = tail + end + secret;
                assert(unbroken(hidden)) by {
                    assert forall|j: int| 0 <= j < hidden.len() implies !delimiter(
                        #[trigger] hidden[j],
                    ) by {
                        if j < tail.len() {
                            assert(hidden[j] == tail[j]);
                        } else if j < tail.len() + end.len() {
                            assert(hidden[j] == end[j - tail.len()]);
                        } else {
                            assert(hidden[j] == secret[j - tail.len() - end.len()]);
                        }
                    }
                }
                assert(text.skip(k) =~= hidden + rest);
                lemma_secret_up_to(hidden, rest);
                assert((hidden + rest).skip(hidden.len() as int) =~= rest);
            }
        }
    }
}

/// The texts are the same, or differ in the secret behind the end of a key alone, before which the
/// given character stands.
spec fn related(left: Seq<char>, right: Seq<char>, end: Seq<char>, last: Option<char>) -> bool {
    ||| left == right
    ||| exists|b: Seq<char>, f: Seq<char>, s: Seq<char>, r: Seq<char>|
        #[trigger] same_but(left, right, b, end, f, s, r) && last_of(b) == last
}

proof fn lemma_related_behind(
    out: Seq<char>,
    left: Seq<char>,
    right: Seq<char>,
    end: Seq<char>,
    last: Option<char>,
)
    requires
        related(left, right, end, last),
    ensures
        related(
            out + left,
            out + right,
            end,
            if last is Some {
                last
            } else {
                last_of(out)
            },
        ),
{
    if left != right {
        let (b, f, s, r) = choose|b: Seq<char>, f: Seq<char>, s: Seq<char>, r: Seq<char>|
            #[trigger] same_but(left, right, b, end, f, s, r) && last_of(b) == last;
        assert(out + left =~= (out + b) + end + f + r);
        assert(out + right =~= (out + b) + end + s + r);
        assert(same_but(out + left, out + right, out + b, end, f, s, r));
    }
}

proof fn lemma_scan_apart(
    prev: Option<char>,
    before: Seq<char>,
    end: Seq<char>,
    first: Seq<char>,
    second: Seq<char>,
    rest: Seq<char>,
    key: Seq<char>,
)
    requires
        clear_key(key),
        key_end(end),
        end.len() > 0,
        unbroken(first),
        unbroken(second),
        ends_secret(rest),
        apart(if before.len() > 0 {
            Some(before.last())
        } else {
            prev
        }),
    ensures
        related(
            scan(prev, before + end + first + rest, key),
            scan(prev, before + end + second + rest, key),
            end,
            last_of(before),
        ),
        begins_with(end, key) && key.len() == end.len() ==> scan(
            prev,
            before + end + first + rest,
            key,
        ) == scan(prev, before + end + second + rest, key),
    decreases before.len(),
{
    let left = scan(prev, before + end + first + rest, key);
    let right = scan(prev, before + end + second + rest, key);
    if before.len() == 0 {
        assert(before + end + first + rest =~= end + first + rest);
        assert(before + end + second + rest =~= end + second + rest);
        lemma_scan_key_end(prev, end, first, second, rest, key);
        if left != right {
            let (f, s, r) = choose|f: Seq<char>, s: Seq<char>, r: Seq<char>|
                #[trigger] same_but(left, right, Seq::empty(), end, f, s, r);
            assert(last_of(Seq::<char>::empty()) == last_of(before));
            assert(same_but(left, right, Seq::empty(), end, f, s, r));
        }
    } else {
        lemma_step(prev, before, end, first, rest, key);
        lemma_step(prev, before, end, second, rest, key);
        lemma_mask();
        let (out, next) = step(prev, before, end, key);
        let last = Some(out.last());
        match next {
            Next::Before(from) => {
                lemma_secret_len(before.skip(key.len() as int));
                let tail = before.skip(from);
                assert(tail.len() > 0 ==> tail.last() == before.last());
                assert(tail.len() == 0 ==> out.last() == before.last());
                lemma_scan_apart(last, tail, end, first, second, rest, key);
                lemma_related_behind(
                    out,
                    scan(last, tail + end + first + rest, key),
                    scan(last, tail + end + second + rest, key),
                    end,
                    last_of(tail),
                );
            },
            Next::Secret => {
                lemma_scan_secret(last, first, rest, key);
                lemma_scan_secret(last, second, rest, key);
                let f = scan(last, first, key);
                let s = scan(last, second, key);
                let r = scan(None, rest, key);
                assert(left =~= before + end + f + r);
                assert(right =~= before + end + s + r);
                assert(same_but(left, right, before, end, f, s, r));
            },
            Next::Rest => {},
        }
    }
}

/// The texts are the same, or differ in the secret behind a key alone.
spec fn alike(left: Seq<char>, right: Seq<char>, end: Seq<char>) -> bool {
    ||| left == right
    ||| exists|b: Seq<char>, f: Seq<char>, s: Seq<char>, r: Seq<char>|
        #[trigger] same_but(left, right, b, end, f, s, r) && apart(last_of(b))
}

proof fn lemma_masked_alike(left: Seq<char>, right: Seq<char>, end: Seq<char>, key: Seq<char>)
    requires
        clear_key(key),
        key_end(end),
        end.len() > 0,
        alike(left, right, end),
    ensures
        alike(masked(left, key), masked(right, key), end),
        begins_with(end, key) && key.len() == end.len() ==> masked(left, key) == masked(
            right,
            key,
        ),
        left == right ==> masked(left, key) == masked(right, key),
{
    if left != right {
        let (b, f, s, r) = choose|b: Seq<char>, f: Seq<char>, s: Seq<char>, r: Seq<char>|
            #[trigger] same_but(left, right, b, end, f, s, r) && apart(last_of(b));
        lemma_scan(Seq::empty(), left, key);
        lemma_scan(Seq::empty(), right, key);
        lemma_scan_apart(None, b, end, f, s, r, key);
        assert(left == b + end + f + r && right == b + end + s + r);
        assert(Seq::<char>::empty() + scan(None, left, key) =~= scan(None, left, key));
        assert(Seq::<char>::empty() + scan(None, right, key) =~= scan(None, right, key));
    }
}

proof fn lemma_keys_are_clear()
    ensures
        clear_key("access_token="@),
        clear_key("api_key="@),
        clear_key("authorization="@),
        clear_key("token="@),
        clear_key("key="@),
{
    reveal_strlit("access_token=");
    reveal_strlit("api_key=");
    reveal_strlit("authorization=");
    reveal_strlit("token=");
    reveal_strlit("key=");
}

/// One of the keys behind which secrets are masked.
pub open spec fn is_key(key: Seq<char>) -> bool {
    ||| key == "access_token="@
    ||| key == "api_key="@
    ||| key == "authorization="@
    ||| key == "token="@
    ||| key == "key="@
}

/// What is written of a message says nothing of a secret behind a key, not even its length: with
/// any other secret in its place the same is written.
pub proof fn law_sanitized_message_is_the_same_for_every_secret(
    before: Seq<char>,
    written: Seq<char>,
    key: Seq<char>,
    first: Seq<char>,
    second: Seq<char>,
    rest: Seq<char>,
)
    requires
        is_key(key),
        written.len() == key.len(),
        begins_with(written, key),
        before.len() == 0 || !alphanumeric(before.last()),
        forall|j: int| 0 <= j < first.len() ==> !delimiter(#[trigger] first[j]),
        forall|j: int| 0 <= j < second.len() ==> !delimiter(#[trigger] second[j]),
        rest.len() == 0 || delimiter(rest[0]),
    ensures
        sanitized(before + written + first + rest) == sanitized(before + written + second + rest),
{
    lemma_keys_are_clear();
    lemma_mask();
    assert(clear_key(key));
    assert(key_end(written)) by {
        assert forall|j: int| 0 <= j < written.len() implies !delimiter(#[trigger] written[j]) by {
            assert(lower(written[j]) == key[j]);
        }
        let last = key.len() - 1;
        assert(lower(written[last]) == key[last]);
        assert forall|j: int| 0 <= j < written.len() - 1 implies #[trigger] written[j] != '=' by {
            assert(lower(written[j]) == key[j]);
        }
    }
    let left = before + written + first + rest;
    let right = before + written + second + rest;
    assert(same_but(left, right, before, written, first, second, rest));
    assert(alike(left, right, written));
    let a = "access_token="@;
    let b = "api_key="@;
    let c = "authorization="@;
    let d = "token="@;
    let e = "key="@;
    lemma_masked_alike(left, right, written, a);
    let (left_a, right_a) = (masked(left, a), masked(right, a));
    lemma_masked_alike(left_a, right_a, written, b);
    let (left_b, right_b) = (masked(left_a, b), masked(right_a, b));
    lemma_masked_alike(left_b, right_b, written, c);
    let (left_c, right_c) = (masked(left_b, c), masked(right_b, c));
    lemma_masked_alike(left_c, right_c, written, d);
    let (left_d, right_d) = (masked(left_c, d), masked(right_c, d));
    lemma_masked_alike(left_d, right_d, written, e);
}

} // verus!
