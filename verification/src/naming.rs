//! The spelling of definition names.
use vstd::prelude::*;
use crate::text;
use crate::text::{chars_of, contains_text};

verus! {

/// The characters of a lower snake_case name.
pub open spec fn snake_char(c: char) -> bool {
    'a' <= c <= 'z' || '0' <= c <= '9' || c == '_'
}

/// Whether a name is made of lower-case letters, digits and single underscores
/// between them.
pub open spec fn lower_snake_case(name: Seq<char>) -> bool {
    &&& name.len() > 0
    &&& name[0] != '_'
    &&& name.last() != '_'
    &&& !text::has_infix(name, "__"@)
    &&& forall|i: int| 0 <= i < name.len() ==> snake_char(#[trigger] name[i])
}

/// Whether a name is made of lower-case letters, digits and single underscores
/// between them.
pub fn is_lower_snake_case(value: &str) -> (snake: bool)
    ensures
        snake == lower_snake_case(value@),
{
    let chars = chars_of(value);
    if chars.len() == 0 {
        return false;
    }
    if chars[0] == '_' || chars[chars.len() - 1] == '_' || contains_text(value, "__") {
        return false;
    }
    let mut i: usize = 0;
    while i < chars.len()
        invariant
            i <= chars@.len(),
            chars@ == value@,
            forall|j: int| 0 <= j < i ==> snake_char(#[trigger] value@[j]),
        decreases chars@.len() - i,
    {
        let c = chars[i];
        if !(('a' <= c && c <= 'z') || ('0' <= c && c <= '9') || c == '_') {
            assert(!snake_char(value@[i as int]));
            return false;
        }
        i = i + 1;
    }
    true
}

/// The upper-case form of an ASCII letter; any other character itself.
pub open spec fn ascii_upper(c: char) -> char {
    if 'a' <= c <= 'z' {
        (c as int - 32) as char
    } else {
        c
    }
}

/// The characters of a name without its underscores, each one that starts a
/// segment in upper case. `fresh` says whether a segment starts here.
pub open spec fn pascal_from(name: Seq<char>, fresh: bool) -> Seq<char>
    decreases name.len(),
{
    if name.len() == 0 {
        Seq::empty()
    } else if name[0] == '_' {
        pascal_from(name.drop_first(), true)
    } else {
        seq![
            if fresh {
                ascii_upper(name[0])
            } else {
                name[0]
            },
        ] + pascal_from(name.drop_first(), false)
    }
}

fn upper(c: char) -> (up: char)
    ensures
        up == ascii_upper(c),
{
    if 'a' <= c && c <= 'z' {
        let code: u32 = c as u32;
        ((code - 32) as u8) as char
    } else {
        c
    }
}

/// The PascalCase form of a snake_case name.
pub fn pascal_case(value: &str) -> (name: String)
    ensures
        name@ == pascal_from(value@, true),
{
    let chars = chars_of(value);
    let mut name = String::new();
    let mut fresh = true;
    let mut i: usize = 0;
    assert(value@.skip(0) =~= value@);
    while i < chars.len()
        invariant
            i <= chars@.len(),
            chars@ == value@,
            name@ + pascal_from(value@.skip(i as int), fresh) == pascal_from(value@, true),
        decreases chars@.len() - i,
    {
        let ghost rest = value@.skip(i as int);
        assert(rest.drop_first() =~= value@.skip(i as int + 1));
        let ghost before = name@;
        let c = chars[i];
        if c == '_' {
            fresh = true;
        } else if fresh {
            name.push(upper(c));
            fresh = false;
        } else {
            name.push(c);
        }
        i = i + 1;
        assert(name@ + pascal_from(value@.skip(i as int), fresh) =~= pascal_from(value@, true));
    }
    assert(value@.skip(i as int) =~= Seq::<char>::empty());
    assert(name@ + pascal_from(value@.skip(i as int), fresh) =~= name@);
    name
}

/// Only the letters a to z change in upper case, each to its own capital.
pub proof fn law_upper_case_changes_letters_only(c: char)
    ensures
        'a' <= c <= 'z' ==> 'A' <= ascii_upper(c) <= 'Z' && ascii_upper(c) as int - 'A' as int
            == c as int - 'a' as int,
        !('a' <= c <= 'z') ==> ascii_upper(c) == c,
{
}

/// The name of a type is made of the words of a name, one behind the other: each word with
/// its first character in upper case and the others as they are.
pub proof fn law_words_are_joined(word: Seq<char>, rest: Seq<char>)
    requires
        word.len() > 0,
        forall|i: int| 0 <= i < word.len() ==> #[trigger] word[i] != '_',
    ensures
        pascal_from(word, true) == seq![ascii_upper(word[0])] + word.drop_first(),
        pascal_from(word + seq!['_'] + rest, true) == pascal_from(word, true) + pascal_from(
            rest,
            true,
        ),
{
    let joined = word + seq!['_'] + rest;
    lemma_word(word.drop_first(), Seq::empty());
    assert(word.drop_first() + Seq::<char>::empty() =~= word.drop_first());
    assert(joined.drop_first() =~= word.drop_first() + (seq!['_'] + rest));
    lemma_word(word.drop_first(), seq!['_'] + rest);
    assert((seq!['_'] + rest).drop_first() =~= rest);
    assert(pascal_from(joined, true) =~= pascal_from(word, true) + pascal_from(rest, true));
}

proof fn lemma_word(word: Seq<char>, rest: Seq<char>)
    requires
        forall|i: int| 0 <= i < word.len() ==> #[trigger] word[i] != '_',
    ensures
        pascal_from(word + rest, false) == word + pascal_from(rest, false),
    decreases word.len(),
{
    if word.len() == 0 {
        assert(word + rest =~= rest);
        assert(word + pascal_from(rest, false) =~= pascal_from(rest, false));
    } else {
        assert((word + rest).drop_first() =~= word.drop_first() + rest);
        lemma_word(word.drop_first(), rest);
        assert(pascal_from(word + rest, false) =~= word + pascal_from(rest, false));
    }
}

/// A name in lower snake case is made of lower-case letters, digits and underscores, and
/// its underscores stand alone between other characters.
pub proof fn law_snake_case_names(name: Seq<char>, i: int)
    requires
        lower_snake_case(name),
        0 <= i < name.len(),
    ensures
        'a' <= name[i] <= 'z' || '0' <= name[i] <= '9' || name[i] == '_',
        name[i] == '_' ==> 0 < i < name.len() - 1 && name[i - 1] != '_' && name[i + 1] != '_',
{
    assert(snake_char(name[i]));
    reveal_strlit("__");
    if name[i] == '_' {
        if i > 0 && name[i - 1] == '_' {
            assert(name.subrange(i - 1, i - 1 + "__"@.len()) =~= "__"@);
            assert(text::has_infix(name, "__"@));
        }
        if i + 1 < name.len() && name[i + 1] == '_' {
            assert(name.subrange(i, i + "__"@.len()) =~= "__"@);
            assert(text::has_infix(name, "__"@));
        }
    }
}

} // verus!
