//! The identifier transformer: camel-case identifiers to hyphenated
//! lowercase CSS tokens, with vendor-prefix special-casing.
//!
//! `FooBar` becomes `foo-bar`; a leading segment that lowercases to `moz` or
//! `webkit` contributes a leading `-` instead of a joiner, so `MozThing`
//! becomes `-moz-thing`. Trailing underscores are stripped first: they exist
//! only to avoid collision with reserved words.

use vstd::prelude::*;
use vstd::string::StrSliceExecFns;
use vstd::string::StringExecFns;

verus! {

/// Whether a character has the Unicode `Uppercase` property.
pub uninterp spec fn is_uppercase_char(c: char) -> bool;

/// Relies on char::is_uppercase: whether the character has the Unicode
/// `Uppercase` property, a fact of the character alone.
#[verifier::external_body]
fn char_is_uppercase(c: char) -> (r: bool)
    ensures
        r == is_uppercase_char(c),
{
    c.is_uppercase()
}

/// The Unicode lowercase mapping of a character sequence.
pub uninterp spec fn lowercased(s: Seq<char>) -> Seq<char>;

/// Relies on str::to_lowercase: the Unicode lowercase mapping of the
/// string, a function of its characters alone.
#[verifier::external_body]
fn to_lowercase_str(s: &str) -> (r: String)
    ensures
        r@ == lowercased(s@),
{
    s.to_lowercase()
}

/// The length of the leading camel segment: the first character together
/// with every following character up to, and not including, the next
/// uppercase one.
pub open spec fn seg_len(s: Seq<char>) -> nat
    decreases s.len(),
{
    if s.len() <= 1 {
        s.len()
    } else if is_uppercase_char(s[1]) {
        1
    } else {
        (1 + seg_len(s.drop_first())) as nat
    }
}

proof fn lemma_seg_len_bounds(s: Seq<char>)
    requires
        s.len() > 0,
    ensures
        1 <= seg_len(s) <= s.len(),
    decreases s.len(),
{
    if s.len() > 1 && !is_uppercase_char(s[1]) {
        lemma_seg_len_bounds(s.drop_first());
    }
}

/// A scan that finds no uppercase character before `i` and one at `i` (or
/// runs off the end) has found exactly the leading segment.
proof fn lemma_seg_len_scan(s: Seq<char>, i: int)
    requires
        1 <= i <= s.len(),
        forall|j: int| 1 <= j < i ==> !is_uppercase_char(s[j]),
        i < s.len() ==> is_uppercase_char(s[i]),
    ensures
        seg_len(s) == i,
    decreases i,
{
    if i > 1 {
        let t = s.drop_first();
        assert forall|j: int| 1 <= j < i - 1 implies !is_uppercase_char(t[j]) by {
            assert(t[j] == s[j + 1]);
        }
        lemma_seg_len_scan(t, i - 1);
    }
}

/// The input with every trailing underscore removed.
pub open spec fn strip_trailing_underscores(s: Seq<char>) -> Seq<char>
    decreases s.len(),
{
    if s.len() > 0 && s[s.len() - 1] == '_' {
        strip_trailing_underscores(s.drop_last())
    } else {
        s
    }
}

/// The non-leading part of the transformed identifier: every remaining
/// segment lowercased and prefixed with `-`.
pub open spec fn css_tail(s: Seq<char>) -> Seq<char>
    decreases s.len(),
    via css_tail_decreases
{
    if s.len() == 0 {
        Seq::empty()
    } else {
        seq!['-'] + lowercased(s.take(seg_len(s) as int)) + css_tail(s.skip(seg_len(s) as int))
    }
}

#[via_fn]
proof fn css_tail_decreases(s: Seq<char>) {
    if s.len() > 0 {
        lemma_seg_len_bounds(s);
    }
}

/// The transform of an identifier that has already had its trailing
/// underscores stripped: the leading segment lowercased, then the tail; a
/// leading segment that lowercases to `moz` or `webkit` gains a leading `-`.
pub open spec fn css_words(s: Seq<char>) -> Seq<char> {
    if s.len() == 0 {
        Seq::empty()
    } else {
        let head = lowercased(s.take(seg_len(s) as int));
        let tail = css_tail(s.skip(seg_len(s) as int));
        if head == "moz"@ || head == "webkit"@ {
            seq!['-'] + head + tail
        } else {
            head + tail
        }
    }
}

/// What `to_css_identifier` returns.
pub open spec fn css_identifier_of(s: Seq<char>) -> Seq<char> {
    css_words(strip_trailing_underscores(s))
}

/// The index of the first uppercase character at or after position 1, or
/// the length if there is none.
fn first_uppercase_index(s: &str, n: usize) -> (i: usize)
    requires
        n == s@.len(),
        n >= 1,
    ensures
        1 <= i <= n,
        forall|j: int| 1 <= j < i ==> !is_uppercase_char(s@[j]),
        i < n ==> is_uppercase_char(s@[i as int]),
{
    let mut i: usize = 1;
    while i < n
        invariant
            1 <= i <= n,
            n == s@.len(),
            forall|j: int| 1 <= j < i ==> !is_uppercase_char(s@[j]),
        decreases n - i,
    {
        if char_is_uppercase(s.get_char(i)) {
            return i;
        }
        i += 1;
    }
    i
}

/// Splits off the leading camel segment: given `FooBar`, returns `Foo` and
/// leaves `Bar` behind; returns `None` on an empty input.
pub fn split_camel_segment<'input>(camel_case: &mut &'input str) -> (r: Option<&'input str>)
    ensures
        match r {
            None => old(camel_case)@.len() == 0 && final(camel_case)@ == old(camel_case)@,
            Some(seg) => ({
                let k = seg_len(old(camel_case)@) as int;
                &&& old(camel_case)@.len() > 0
                &&& seg@ == old(camel_case)@.take(k)
                &&& final(camel_case)@ == old(camel_case)@.skip(k)
            }),
        },
{
    let s: &'input str = *camel_case;
    let n = s.unicode_len();
    if n == 0 {
        return None;
    }
    let i = first_uppercase_index(s, n);
    proof {
        lemma_seg_len_scan(s@, i as int);
    }
    let seg = s.substring_char(0, i);
    *camel_case = s.substring_char(i, n);
    Some(seg)
}

/// Transforms `FooBar` to `foo-bar`.
///
/// If the first camel segment lowercases to `moz` or `webkit`, the result
/// is prepended with `-`.
pub fn to_css_identifier(camel_case: &str) -> (r: String)
    ensures
        r@ == css_identifier_of(camel_case@),
{
    let n = camel_case.unicode_len();
    let mut end: usize = n;
    proof {
        assert(camel_case@.take(n as int) =~= camel_case@);
    }
    while end > 0 && camel_case.get_char(end - 1) == '_'
        invariant
            end <= n,
            n == camel_case@.len(),
            strip_trailing_underscores(camel_case@) == strip_trailing_underscores(
                camel_case@.take(end as int),
            ),
        decreases end,
    {
        proof {
            assert(camel_case@.take(end as int).drop_last() =~= camel_case@.take(end - 1));
        }
        end -= 1;
    }
    let stripped: &str = camel_case.substring_char(0, end);
    proof {
        if end > 0 {
            assert(strip_trailing_underscores(camel_case@.take(end as int)) == camel_case@.take(
                end as int,
            ));
        }
        assert(stripped@ == strip_trailing_underscores(camel_case@));
    }
    let ghost sv = stripped@;
    let mut rem: &str = stripped;
    let mut result = String::new();
    let mut first: bool = true;
    let lit_moz = String::from_str("moz");
    let lit_webkit = String::from_str("webkit");
    while rem.unicode_len() > 0
        invariant
            first ==> result@ == Seq::<char>::empty(),
            first ==> rem@ == sv,
            !first ==> css_words(sv) == result@ + css_tail(rem@),
            lit_moz@ == "moz"@,
            lit_webkit@ == "webkit"@,
        decreases rem@.len(),
    {
        let ghost rem0 = rem@;
        proof {
            lemma_seg_len_bounds(rem0);
            reveal_strlit("-");
        }
        match split_camel_segment(&mut rem) {
            None => {
                // unreachable: the loop condition rules out an empty remainder
                proof {
                    assert(false);
                }
            },
            Some(seg) => {
                let low = to_lowercase_str(seg);
                let was_first = first;
                if first && (low == lit_moz || low == lit_webkit) {
                    first = false;
                }
                if !first {
                    result.append("-");
                }
                first = false;
                let ghost mid = result@;
                result.append(low.as_str());
                proof {
                    let k = seg_len(rem0) as int;
                    assert(low@ == lowercased(rem0.take(k)));
                    if was_first {
                        assert(rem0 == sv);
                        if low@ == "moz"@ || low@ == "webkit"@ {
                            assert(mid =~= seq!['-']);
                            assert(css_words(sv) =~= result@ + css_tail(rem@));
                        } else {
                            assert(mid =~= Seq::<char>::empty());
                            assert(css_words(sv) =~= result@ + css_tail(rem@));
                        }
                    } else {
                        assert(css_tail(rem0) == seq!['-'] + lowercased(rem0.take(k)) + css_tail(
                            rem0.skip(k),
                        ));
                        assert(css_words(sv) =~= result@ + css_tail(rem@));
                    }
                }
            },
        }
    }
    proof {
        assert(css_tail(rem@) =~= Seq::<char>::empty());
        if first {
            assert(sv.len() == 0);
            assert(result@ =~= css_words(sv));
        } else {
            assert(result@ =~= css_words(sv));
        }
    }
    result
}

} // verus!
