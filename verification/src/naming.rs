//! Names of the items that a service's trait gives rise to.

use vstd::prelude::*;

use crate::text::push_all;

verus! {

/// What `char::to_uppercase` yields for a character outside ASCII.
pub uninterp spec fn unicode_uppercase(c: char) -> Seq<char>;

/// What `char::to_lowercase` yields for a character outside ASCII.
pub uninterp spec fn unicode_lowercase(c: char) -> Seq<char>;

/// Whether a character belongs to ASCII.
pub open spec fn is_ascii_char(c: char) -> bool {
    c as u32 <= 127
}

/// The ASCII upper-case form of a character: `a` to `z` become `A` to `Z`, every
/// other character stays.
pub open spec fn ascii_upper(c: char) -> char {
    if 'a' <= c <= 'z' {
        (c as u32 - 32) as char
    } else {
        c
    }
}

/// The ASCII lower-case form of a character: `A` to `Z` become `a` to `z`, every
/// other character stays.
pub open spec fn ascii_lower(c: char) -> char {
    if 'A' <= c <= 'Z' {
        (c as u32 + 32) as char
    } else {
        c
    }
}

/// The upper-case form of a character.
pub open spec fn uppercase(c: char) -> Seq<char> {
    if is_ascii_char(c) {
        seq![ascii_upper(c)]
    } else {
        unicode_uppercase(c)
    }
}

/// The lower-case form of a character.
pub open spec fn lowercase(c: char) -> Seq<char> {
    if is_ascii_char(c) {
        seq![ascii_lower(c)]
    } else {
        unicode_lowercase(c)
    }
}

/// Calls `char::to_uppercase` and collects what it yields. An ASCII character
/// yields its ASCII upper-case form alone. What a character outside ASCII yields
/// depends on the character alone, and is left to the Unicode tables.
#[verifier::external_body]
fn to_uppercase(c: char) -> (r: Vec<char>)
    ensures
        is_ascii_char(c) ==> r@ == seq![ascii_upper(c)],
        !is_ascii_char(c) ==> r@ == unicode_uppercase(c),
{
    c.to_uppercase().collect()
}

/// Calls `char::to_lowercase` and collects what it yields. An ASCII character
/// yields its ASCII lower-case form alone. What a character outside ASCII yields
/// depends on the character alone, and is left to the Unicode tables.
#[verifier::external_body]
fn to_lowercase(c: char) -> (r: Vec<char>)
    ensures
        is_ascii_char(c) ==> r@ == seq![ascii_lower(c)],
        !is_ascii_char(c) ==> r@ == unicode_lowercase(c),
{
    c.to_lowercase().collect()
}

/// What the character at position `i` of a snake-case name contributes to the
/// Pascal-case name: an underscore nothing, the first character of a word its
/// upper-case form, any other character its lower-case form.
pub open spec fn pascal_piece(s: Seq<char>, i: int) -> Seq<char> {
    if s[i] == '_' {
        seq![]
    } else if i == 0 || s[i - 1] == '_' {
        uppercase(s[i])
    } else {
        lowercase(s[i])
    }
}

/// The contributions of the first `n` characters, in order.
pub open spec fn pascal_prefix(s: Seq<char>, n: int) -> Seq<char>
    decreases n,
{
    if n <= 0 {
        seq![]
    } else {
        pascal_prefix(s, n - 1) + pascal_piece(s, n - 1)
    }
}

/// The Pascal-case form of a snake-case name.
pub open spec fn pascal_case(s: Seq<char>) -> Seq<char> {
    pascal_prefix(s, s.len() as int)
}

/// Turns a snake-case name (`foo_bar`) into a Pascal-case name (`FooBar`).
pub fn snake_to_pascal_case(s: &str) -> (result: String)
    ensures
        result@ == pascal_case(s@),
{
    let mut result = String::new();
    let mut capitalize_next = true;

    for c in it: s.chars()
        invariant
            it.seq() == s@,
            capitalize_next == (it.index() == 0 || s@[it.index() - 1] == '_'),
            result@ == pascal_prefix(s@, it.index() as int),
    {
        if c == '_' {
            capitalize_next = true;
        } else if capitalize_next {
            let upper = to_uppercase(c);
            push_all(&mut result, &upper);
            capitalize_next = false;
        } else {
            let lower = to_lowercase(c);
            push_all(&mut result, &lower);
        }
    }
    result
}

/// The prefix of a concatenation that ends inside its first part is a prefix of
/// that part.
proof fn lemma_prefix_of_left(a: Seq<char>, b: Seq<char>, n: int)
    requires
        n <= a.len(),
    ensures
        pascal_prefix(a + b, n) == pascal_prefix(a, n),
    decreases n,
{
    if n > 0 {
        lemma_prefix_of_left(a, b, n - 1);
        assert(pascal_piece(a + b, n - 1) == pascal_piece(a, n - 1));
    }
}

/// Past an underscore, a name goes on as a name of its own.
proof fn lemma_prefix_past_underscore(a: Seq<char>, b: Seq<char>, n: int)
    requires
        0 <= n <= b.len(),
    ensures
        pascal_prefix(a + seq!['_'] + b, a.len() + 1 + n) == pascal_case(a) + pascal_prefix(b, n),
    decreases n,
{
    let joined = a + seq!['_'] + b;
    if n == 0 {
        assert(joined == a + (seq!['_'] + b));
        lemma_prefix_of_left(a, seq!['_'] + b, a.len() as int);
        assert(joined[a.len() as int] == '_');
        assert(pascal_piece(joined, a.len() as int) == Seq::<char>::empty());
        assert(pascal_prefix(joined, a.len() as int + 1) == pascal_prefix(joined, a.len() as int)
            + pascal_piece(joined, a.len() as int));
    } else {
        lemma_prefix_past_underscore(a, b, n - 1);
        assert(joined[a.len() + n] == b[n - 1]);
        assert(pascal_piece(joined, a.len() + n) == pascal_piece(b, n - 1)) by {
            if n > 1 {
                assert(joined[a.len() + n - 1] == b[n - 2]);
            } else {
                assert(joined[a.len() + n - 1] == '_');
            }
        }
    }
}

/// The Pascal-case form of two names joined by an underscore is the Pascal-case
/// form of the one followed by that of the other.
pub proof fn pascal_case_of_joined_words(a: Seq<char>, b: Seq<char>)
    ensures
        pascal_case(a + seq!['_'] + b) == pascal_case(a) + pascal_case(b),
{
    lemma_prefix_past_underscore(a, b, b.len() as int);
}

proof fn lemma_prefix_ascii(s: Seq<char>, n: int)
    requires
        n <= s.len(),
        forall|i: int| 0 <= i < s.len() ==> is_ascii_char(#[trigger] s[i]),
    ensures
        forall|i: int|
            0 <= i < pascal_prefix(s, n).len() ==> #[trigger] pascal_prefix(s, n)[i] != '_'
                && is_ascii_char(pascal_prefix(s, n)[i]),
    decreases n,
{
    if n > 0 {
        lemma_prefix_ascii(s, n - 1);
        let head = pascal_prefix(s, n - 1);
        let piece = pascal_piece(s, n - 1);
        assert(is_ascii_char(s[n - 1]));
        assert forall|i: int| 0 <= i < (head + piece).len() implies #[trigger] (head + piece)[i]
            != '_' && is_ascii_char((head + piece)[i]) by {
            if i < head.len() {
                assert((head + piece)[i] == head[i]);
            } else {
                assert((head + piece)[i] == piece[i - head.len()]);
            }
        }
    }
}

/// The Pascal-case form of an ASCII name is ASCII and holds no underscore.
pub proof fn pascal_case_has_no_underscore(s: Seq<char>)
    requires
        forall|i: int| 0 <= i < s.len() ==> is_ascii_char(#[trigger] s[i]),
    ensures
        forall|i: int|
            0 <= i < pascal_case(s).len() ==> #[trigger] pascal_case(s)[i] != '_'
                && is_ascii_char(pascal_case(s)[i]),
{
    lemma_prefix_ascii(s, s.len() as int);
}

/// A character alone becomes its upper-case form, and a character behind another that is no
/// underscore becomes its lower-case form, with everything before it as it was. An underscore
/// adds nothing.
pub proof fn only_the_start_of_a_word_is_upper_case(s: Seq<char>, c: char)
    requires
        s.len() > 0,
        s.last() != '_',
        c != '_',
    ensures
        pascal_case(seq![c]) == if c as u32 <= 127 {
            seq![ascii_upper(c)]
        } else {
            unicode_uppercase(c)
        },
        pascal_case(s.push(c)) == pascal_case(s) + if c as u32 <= 127 {
            seq![ascii_lower(c)]
        } else {
            unicode_lowercase(c)
        },
        pascal_case(s.push('_')) == pascal_case(s),
        pascal_case(seq!['_']).len() == 0,
        pascal_case(seq![]).len() == 0,
{
    reveal_with_fuel(pascal_prefix, 2);
    let n = s.len() as int;
    assert(pascal_case(seq![c]) =~= pascal_piece(seq![c], 0));
    assert(s.push(c) =~= s + seq![c]);
    lemma_prefix_of_left(s, seq![c], n);
    assert(pascal_piece(s.push(c), n) == lowercase(c));
    assert(s.push('_') =~= s + seq!['_']);
    lemma_prefix_of_left(s, seq!['_'], n);
    assert(pascal_piece(s.push('_'), n) == Seq::<char>::empty());
    assert(pascal_case(s.push('_')) =~= pascal_case(s));
    assert(pascal_case(seq!['_']) =~= seq![]);
}

proof fn lemma_prefix_of_word(word: Seq<char>, n: int)
    requires
        0 <= n <= word.len(),
        forall|i: int|
            0 <= i < word.len() ==> is_ascii_char(#[trigger] word[i]) && word[i] != '_',
    ensures
        pascal_prefix(word, n).len() == n,
        forall|i: int|
            0 <= i < n ==> #[trigger] pascal_prefix(word, n)[i] == if i == 0 {
                ascii_upper(word[i])
            } else {
                ascii_lower(word[i])
            },
    decreases n,
{
    if n > 0 {
        lemma_prefix_of_word(word, n - 1);
        let head = pascal_prefix(word, n - 1);
        assert(is_ascii_char(word[n - 1]));
        assert forall|i: int| 0 <= i < n implies #[trigger] pascal_prefix(word, n)[i] == if i == 0 {
            ascii_upper(word[i])
        } else {
            ascii_lower(word[i])
        } by {
            if i < n - 1 {
                assert(pascal_prefix(word, n)[i] == head[i]);
            }
        }
    }
}

/// A word of ASCII letters and digits keeps its characters: the first is in upper case and
/// the others are in lower case.
pub proof fn a_word_keeps_its_letters(word: Seq<char>)
    requires
        forall|i: int|
            0 <= i < word.len() ==> is_ascii_char(#[trigger] word[i]) && word[i] != '_',
    ensures
        pascal_case(word).len() == word.len(),
        forall|i: int|
            0 <= i < word.len() ==> {
                let letter = #[trigger] pascal_case(word)[i];
                &&& i == 0 && 'a' <= word[i] <= 'z' ==> letter as u32 + 32 == word[i] as u32
                &&& i > 0 && 'A' <= word[i] <= 'Z' ==> letter as u32 == word[i] as u32 + 32
                &&& i == 0 && !('a' <= word[i] <= 'z') ==> letter == word[i]
                &&& i > 0 && !('A' <= word[i] <= 'Z') ==> letter == word[i]
            },
{
    lemma_prefix_of_word(word, word.len() as int);
    let pascal = pascal_case(word);
    assert forall|i: int| 0 <= i < word.len() implies #[trigger] pascal[i] == if i == 0 {
        ascii_upper(word[i])
    } else {
        ascii_lower(word[i])
    } by {
        assert(pascal[i] == pascal_prefix(word, word.len() as int)[i]);
    }
}

}
