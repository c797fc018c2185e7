//! Name conversions: header names from field names, method names from type
//! names, and the names of builder and client types.

use crate::text::{
    append_chars, append_str, char_is_uppercase, char_lowercase, char_uppercase, chars_of,
    find_char, index_of, is_uppercase, lemma_index_of, lowercase_of, lowercase_str, same_chars,
    slice_chars, str_lowercase, string_of, uppercase_of,
};
use vstd::prelude::*;

verus! {

/// One word in title case: the uppercase mapping of its first character, then
/// the lowercase equivalent of the rest. The empty word stays empty.
pub open spec fn title_word(w: Seq<char>) -> Seq<char> {
    if w.len() == 0 {
        Seq::empty()
    } else {
        char_uppercase(w[0]) + str_lowercase(w.skip(1))
    }
}

/// Words separated by `_` become title-case words separated by `-`.
///
/// Every underscore separates: `n` underscores give `n + 1` words, some of
/// which may be empty.
pub open spec fn title_case(s: Seq<char>) -> Seq<char>
    decreases s.len(),
{
    let n = index_of(s, '_');
    if n < 0 || n >= s.len() {
        title_word(s)
    } else {
        title_word(s.take(n)) + seq!['-'] + title_case(s.skip(n + 1))
    }
}

/// A name in lower case with `_` before each uppercase character but the
/// first character of the result.
///
/// An uppercase character is replaced by the first character of its lowercase
/// mapping; every other character is kept.
pub open spec fn snake_case(s: Seq<char>) -> Seq<char>
    decreases s.len(),
{
    if s.len() == 0 {
        Seq::empty()
    } else {
        let before = snake_case(s.drop_last());
        let ch = s.last();
        if char_is_uppercase(ch) {
            let separated = if before.len() > 0 {
                before.push('_')
            } else {
                before
            };
            separated.push(char_lowercase(ch)[0])
        } else {
            before.push(ch)
        }
    }
}

/// The suffix that marks a configuration type: `Config`.
pub open spec fn config_suffix() -> Seq<char> {
    seq!['C', 'o', 'n', 'f', 'i', 'g']
}

/// What is appended to a request type's name to name its builder: `Builder`.
pub open spec fn builder_suffix() -> Seq<char> {
    seq!['B', 'u', 'i', 'l', 'd', 'e', 'r']
}

/// What names a blocking client: `Client`.
pub open spec fn client_suffix() -> Seq<char> {
    seq!['C', 'l', 'i', 'e', 'n', 't']
}

/// What names an asynchronous client: `AsyncClient`.
pub open spec fn async_client_suffix() -> Seq<char> {
    seq!['A', 's', 'y', 'n', 'c', 'C', 'l', 'i', 'e', 'n', 't']
}

/// Whether `s` ends with `suffix`.
pub open spec fn ends_with(s: Seq<char>, suffix: Seq<char>) -> bool {
    s.len() >= suffix.len() && s.skip(s.len() - suffix.len()) == suffix
}

/// `s` without a trailing `suffix`; `s` itself where it does not end so.
pub open spec fn without_suffix(s: Seq<char>, suffix: Seq<char>) -> Seq<char> {
    if ends_with(s, suffix) {
        s.take(s.len() - suffix.len())
    } else {
        s
    }
}

/// The name of the builder of the request type `name`.
pub open spec fn builder_name_of(name: Seq<char>) -> Seq<char> {
    name + builder_suffix()
}

/// The name of the blocking client of the configuration type `name`.
pub open spec fn client_name_of(name: Seq<char>) -> Seq<char> {
    without_suffix(name, config_suffix()) + client_suffix()
}

/// The name of the asynchronous client of the configuration type `name`.
pub open spec fn async_client_name_of(name: Seq<char>) -> Seq<char> {
    without_suffix(name, config_suffix()) + async_client_suffix()
}

fn push_title_word(out: &mut Vec<char>, word: &Vec<char>)
    ensures
        final(out)@ == old(out)@ + title_word(word@),
{
    if word.len() == 0 {
        assert(out@ == old(out)@ + title_word(word@));
        return ;
    }
    let upper = uppercase_of(word[0]);
    append_chars(out, &upper);
    let rest = slice_chars(word, 1, word.len());
    let rest_text = string_of(&rest);
    let lower = lowercase_str(rest_text.as_str());
    append_str(out, lower.as_str());
    proof {
        assert(word@.skip(1) == word@.subrange(1, word@.len() as int));
        assert(out@ == old(out)@ + (char_uppercase(word@[0]) + str_lowercase(word@.skip(1))));
    }
}

/// Converts a field name such as `x_api_key` to a header name such as
/// `X-Api-Key`.
pub fn snake_to_title_case(s: &str) -> (r: String)
    ensures
        r@ == title_case(s@),
{
    let chars = chars_of(s);
    let mut out: Vec<char> = Vec::new();
    let mut start: usize = 0;
    let mut done = false;
    proof {
        assert(chars@.skip(0) == chars@);
        assert(Seq::<char>::empty() + title_case(chars@) == title_case(chars@));
    }
    while !done
        invariant
            start <= chars.len(),
            !done ==> title_case(chars@) == out@ + title_case(chars@.skip(start as int)),
            done ==> out@ == title_case(chars@),
        decreases
                (if done {
                    0
                } else {
                    chars.len() - start + 1
                }),
    {
        let ghost rest = chars@.skip(start as int);
        let ghost before = out@;
        let end = find_char(&chars, start, '_');
        let word = slice_chars(&chars, start, end);
        push_title_word(&mut out, &word);
        proof {
            lemma_index_of(rest, '_');
            assert(word@ == rest.take(end - start));
        }
        if end >= chars.len() {
            proof {
                assert(rest.take(end - start) == rest);
                assert(out@ == before + title_case(rest));
            }
            done = true;
        } else {
            out.push('-');
            proof {
                assert(rest.skip(end - start + 1) == chars@.skip(end + 1));
                assert(out@ == before + (title_word(rest.take(end - start)) + seq!['-']));
                assert(before + title_case(rest) == out@ + title_case(chars@.skip(end + 1)));
            }
            start = end + 1;
        }
    }
    string_of(&out)
}

/// Converts a type name such as `CreateUserRequest` to a method name such as
/// `create_user_request`.
pub fn pascal_to_snake_case(s: &str) -> (r: String)
    ensures
        r@ == snake_case(s@),
{
    let chars = chars_of(s);
    let mut out: Vec<char> = Vec::new();
    let mut i: usize = 0;
    while i < chars.len()
        invariant
            i <= chars.len(),
            out@ == snake_case(chars@.take(i as int)),
        decreases chars.len() - i,
    {
        let ch = chars[i];
        proof {
            let next = chars@.take(i + 1);
            assert(next.drop_last() == chars@.take(i as int));
            assert(next.last() == ch);
        }
        if is_uppercase(ch) {
            if out.len() > 0 {
                out.push('_');
            }
            let lower = lowercase_of(ch);
            out.push(lower[0]);
        } else {
            out.push(ch);
        }
        i += 1;
    }
    assert(chars@.take(chars.len() as int) == chars@);
    string_of(&out)
}

/// The method under which a client offers the request type `struct_name`,
/// where no custom name is given.
pub fn struct_name_to_method_name(struct_name: &str) -> (r: String)
    ensures
        r@ == snake_case(struct_name@),
{
    pascal_to_snake_case(struct_name)
}

fn config_suffix_chars() -> (r: Vec<char>)
    ensures
        r@ == config_suffix(),
{
    let mut r: Vec<char> = Vec::new();
    r.push('C');
    r.push('o');
    r.push('n');
    r.push('f');
    r.push('i');
    r.push('g');
    assert(r@ == config_suffix());
    r
}

/// Removes a trailing `suffix` from `s`, if there is one.
pub fn strip_suffix(s: &Vec<char>, suffix: &Vec<char>) -> (r: Vec<char>)
    ensures
        r@ == without_suffix(s@, suffix@),
{
    if s.len() < suffix.len() {
        return slice_chars(s, 0, s.len());
    }
    let cut: usize = s.len() - suffix.len();
    let tail = slice_chars(s, cut, s.len());
    assert(s@.skip(cut as int) == s@.subrange(cut as int, s@.len() as int));
    if same_chars(&tail, suffix) {
        let r = slice_chars(s, 0, cut);
        assert(s@.take(cut as int) == s@.subrange(0, cut as int));
        r
    } else {
        slice_chars(s, 0, s.len())
    }
}

/// The name of the builder type of the request type `struct_name`.
pub fn builder_name(struct_name: &str) -> (r: String)
    ensures
        r@ == builder_name_of(struct_name@),
{
    let mut out = chars_of(struct_name);
    out.push('B');
    out.push('u');
    out.push('i');
    out.push('l');
    out.push('d');
    out.push('e');
    out.push('r');
    assert(out@ == struct_name@ + builder_suffix());
    string_of(&out)
}

/// The name of the blocking client type: the configuration type's name
/// without a trailing `Config`, then `Client`.
pub fn generate_client_name(struct_name: &str) -> (r: String)
    ensures
        r@ == client_name_of(struct_name@),
{
    let name = chars_of(struct_name);
    let suffix = config_suffix_chars();
    let mut out = strip_suffix(&name, &suffix);
    let ghost base = out@;
    out.push('C');
    out.push('l');
    out.push('i');
    out.push('e');
    out.push('n');
    out.push('t');
    assert(out@ == base + client_suffix());
    string_of(&out)
}

/// The name of the asynchronous client type: the configuration type's name
/// without a trailing `Config`, then `AsyncClient`.
pub fn generate_async_client_name(struct_name: &str) -> (r: String)
    ensures
        r@ == async_client_name_of(struct_name@),
{
    let name = chars_of(struct_name);
    let suffix = config_suffix_chars();
    let mut out = strip_suffix(&name, &suffix);
    let ghost base = out@;
    out.push('A');
    out.push('s');
    out.push('y');
    out.push('n');
    out.push('c');
    out.push('C');
    out.push('l');
    out.push('i');
    out.push('e');
    out.push('n');
    out.push('t');
    assert(out@ == base + async_client_suffix());
    string_of(&out)
}

} // verus!
