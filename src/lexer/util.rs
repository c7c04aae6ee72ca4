use crate::lexer::token::{KeywordType, TokenType};
use vstd::prelude::*;
use vstd::std_specs::iter::IteratorSpec;

verus! {

pub open spec fn spec_is_digit(ch: char) -> bool {
    '0' <= ch <= '9'
}

pub open spec fn spec_is_letter(ch: char) -> bool {
    ('a' <= ch <= 'z') || ('A' <= ch <= 'Z')
}

/// The characters with Unicode's White_Space property.
pub open spec fn spec_is_whitespace(ch: char) -> bool {
    ('\t' <= ch <= '\r') || ch == ' ' || ch == '\u{85}' || ch == '\u{a0}' || ch == '\u{1680}'
        || ('\u{2000}' <= ch <= '\u{200a}') || ch == '\u{2028}' || ch == '\u{2029}'
        || ch == '\u{202f}' || ch == '\u{205f}' || ch == '\u{3000}'
}

/// The kind of a word: a keyword, a boolean literal, or an identifier.
pub open spec fn word_kind(s: Seq<char>) -> TokenType {
    if s == seq!['e', 'l', 's', 'e'] {
        TokenType::Keyword(KeywordType::ELSE)
    } else if s == seq!['i', 'f'] {
        TokenType::Keyword(KeywordType::IF)
    } else if s == seq!['i', 'n', 't'] {
        TokenType::Keyword(KeywordType::INT)
    } else if s == seq!['r', 'e', 't', 'u', 'r', 'n'] {
        TokenType::Keyword(KeywordType::RETURN)
    } else if s == seq!['v', 'o', 'i', 'd'] {
        TokenType::Keyword(KeywordType::VOID)
    } else if s == seq!['w', 'h', 'i', 'l', 'e'] {
        TokenType::Keyword(KeywordType::WHILE)
    } else if s == seq!['b', 'o', 'o', 'l'] {
        TokenType::Keyword(KeywordType::BOOL)
    } else if s == seq!['t', 'r', 'u', 'e'] || s == seq!['f', 'a', 'l', 's', 'e'] {
        TokenType::BooleanLiteral
    } else {
        TokenType::Id
    }
}

/// A decimal digit.
pub fn is_digit(ch: char) -> (r: bool)
    ensures
        r == spec_is_digit(ch),
{
    '0' <= ch && ch <= '9'
}

/// An ASCII letter.
pub fn is_letter(ch: char) -> (r: bool)
    ensures
        r == spec_is_letter(ch),
{
    ('a' <= ch && ch <= 'z') || ('A' <= ch && ch <= 'Z')
}

/// Relies on `char::is_whitespace`: true exactly for the White_Space characters.
#[verifier::external_body]
pub(crate) fn is_whitespace(ch: char) -> (r: bool)
    ensures
        r == spec_is_whitespace(ch),
{
    ch.is_whitespace()
}

/// Whether `s` spells `word`.
pub(crate) fn same_text(s: &String, word: &str) -> (r: bool)
    ensures
        r == (s@ == word@),
{
    *s == word.to_owned()
}

/// The value of a run of decimal digits.
pub open spec fn digits_value(s: Seq<char>) -> int
    decreases s.len(),
{
    if s.len() == 0 {
        0
    } else {
        digits_value(s.drop_last()) * 10 + (s.last() as int - '0' as int)
    }
}

/// Reads a non-negative decimal integer: `None` unless `s` is one or more
/// digits whose value fits in an `i32`.
pub fn decimal_value(s: &Vec<char>) -> (r: Option<i32>)
    ensures
        r == (if s@.len() > 0 && (forall|i: int| 0 <= i < s@.len() ==> spec_is_digit(#[trigger] s@[i]))
            && digits_value(s@) <= i32::MAX {
            Some(digits_value(s@) as i32)
        } else {
            None::<i32>
        }),
{
    if s.len() == 0 {
        return None;
    }
    let mut v: i32 = 0;
    let mut i: usize = 0;
    while i < s.len()
        invariant
            i <= s@.len(),
            forall|j: int| 0 <= j < i ==> spec_is_digit(#[trigger] s@[j]),
            v as int == digits_value(s@.subrange(0, i as int)),
        decreases s@.len() - i,
    {
        let c = s[i];
        assert(s@.subrange(0, i + 1).drop_last() =~= s@.subrange(0, i as int));
        if !is_digit(c) {
            return None;
        }
        let d = (c as u32 - '0' as u32) as i32;
        match v.checked_mul(10) {
            Some(t) => match t.checked_add(d) {
                Some(n) => {
                    v = n;
                },
                None => {
                    proof {
                        if forall|j: int| 0 <= j < s@.len() ==> spec_is_digit(#[trigger] s@[j]) {
                            lemma_digits_value_grows(s@, i as int + 1);
                        }
                    }
                    return None;
                },
            },
            None => {
                proof {
                    lemma_digits_value_nonneg(s@.subrange(0, i as int));
                    assert(s@.subrange(0, i + 1).last() == c);
                    assert(digits_value(s@.subrange(0, i + 1)) == v * 10 + d);
                    if forall|j: int| 0 <= j < s@.len() ==> spec_is_digit(#[trigger] s@[j]) {
                        lemma_digits_value_grows(s@, i as int + 1);
                    }
                }
                return None;
            },
        }
        i = i + 1;
    }
    assert(s@.subrange(0, s@.len() as int) =~= s@);
    Some(v)
}

proof fn lemma_digits_value_grows(s: Seq<char>, k: int)
    requires
        0 < k <= s.len(),
        forall|i: int| 0 <= i < s.len() ==> spec_is_digit(#[trigger] s[i]),
    ensures
        digits_value(s) >= digits_value(s.subrange(0, k)),
    decreases s.len() - k,
{
    if k < s.len() {
        assert(s.subrange(0, k + 1).drop_last() =~= s.subrange(0, k));
        assert(digits_value(s.subrange(0, k)) >= 0) by {
            lemma_digits_value_nonneg(s.subrange(0, k));
        }
        assert(s.subrange(0, k + 1).last() == s[k]);
        lemma_digits_value_grows(s, k + 1);
    } else {
        assert(s.subrange(0, k) =~= s);
    }
}

proof fn lemma_digits_value_nonneg(s: Seq<char>)
    requires
        forall|i: int| 0 <= i < s.len() ==> spec_is_digit(#[trigger] s[i]),
    ensures
        digits_value(s) >= 0,
    decreases s.len(),
{
    if s.len() > 0 {
        lemma_digits_value_nonneg(s.drop_last());
    }
}

/// The characters of `s`, in order.
pub fn chars_of(s: &str) -> (r: Vec<char>)
    ensures
        r@ == s@,
{
    broadcast use vstd::string::axiom_spec_iter, vstd::string::next_postcondition;

    let mut it = s.chars();
    let mut r: Vec<char> = Vec::new();
    loop
        invariant
            it.obeys_prophetic_iter_laws(),
            r@ + it.remaining() == s@,
        ensures
            r@ == s@,
        decreases s@.len() - r@.len(),
    {
        match it.next() {
            Some(c) => {
                assert(r@.push(c) + it.remaining() =~= s@);
                r.push(c);
            },
            None => {
                assert(r@ =~= s@);
                break;
            },
        }
    }
    r
}

/// Classifies a word read by the scanner.
pub fn keyword_or_id(s: &str) -> (r: TokenType)
    ensures
        r == word_kind(s@),
{
    proof {
        reveal_strlit("else");
        reveal_strlit("if");
        reveal_strlit("int");
        reveal_strlit("return");
        reveal_strlit("void");
        reveal_strlit("while");
        reveal_strlit("bool");
        reveal_strlit("true");
        reveal_strlit("false");
        assert("else"@ =~= seq!['e', 'l', 's', 'e']);
        assert("if"@ =~= seq!['i', 'f']);
        assert("int"@ =~= seq!['i', 'n', 't']);
        assert("return"@ =~= seq!['r', 'e', 't', 'u', 'r', 'n']);
        assert("void"@ =~= seq!['v', 'o', 'i', 'd']);
        assert("while"@ =~= seq!['w', 'h', 'i', 'l', 'e']);
        assert("bool"@ =~= seq!['b', 'o', 'o', 'l']);
        assert("true"@ =~= seq!['t', 'r', 'u', 'e']);
        assert("false"@ =~= seq!['f', 'a', 'l', 's', 'e']);
    }
    let w = s.to_owned();
    if same_text(&w, "else") {
        TokenType::Keyword(KeywordType::ELSE)
    } else if same_text(&w, "if") {
        TokenType::Keyword(KeywordType::IF)
    } else if same_text(&w, "int") {
        TokenType::Keyword(KeywordType::INT)
    } else if same_text(&w, "return") {
        TokenType::Keyword(KeywordType::RETURN)
    } else if same_text(&w, "void") {
        TokenType::Keyword(KeywordType::VOID)
    } else if same_text(&w, "while") {
        TokenType::Keyword(KeywordType::WHILE)
    } else if same_text(&w, "bool") {
        TokenType::Keyword(KeywordType::BOOL)
    } else if same_text(&w, "true") || same_text(&w, "false") {
        TokenType::BooleanLiteral
    } else {
        TokenType::Id
    }
}

} // verus!
