//! URL path templates: `{name}` placeholders and their substitution.

use crate::text::{
    append_chars, chars_of, find_char, index_of, lemma_index_of, lemma_texts_push, slice_chars,
    string_of, texts,
};
use vstd::prelude::*;

verus! {

/// The names between braces in a template, in order of appearance.
///
/// A name starts after `{` and runs to the next `}`, or to the end of the
/// template where no `}` follows. An empty name is left out. Reading resumes
/// after the closing brace, so a `{` inside a name belongs to that name.
pub open spec fn path_params(s: Seq<char>) -> Seq<Seq<char>>
    decreases s.len(),
{
    if s.len() == 0 {
        Seq::empty()
    } else if s[0] != '{' {
        path_params(s.skip(1))
    } else {
        let rest = s.skip(1);
        let n = index_of(rest, '}');
        if n < 0 || n >= rest.len() {
            if rest.len() > 0 {
                seq![rest]
            } else {
                Seq::empty()
            }
        } else {
            let tail = path_params(rest.skip(n + 1));
            if n > 0 {
                seq![rest.take(n)] + tail
            } else {
                tail
            }
        }
    }
}

/// The placeholder that stands for `name` in a template: `{name}`.
pub open spec fn placeholder(name: Seq<char>) -> Seq<char> {
    seq!['{'] + name + seq!['}']
}

/// Whether `s` begins with `p`.
pub open spec fn starts_with(s: Seq<char>, p: Seq<char>) -> bool {
    s.len() >= p.len() && s.take(p.len() as int) == p
}

/// `s` with every occurrence of `pat` replaced by `to`, reading from the left
/// and resuming after each occurrence. An empty pattern replaces nothing.
pub open spec fn replace_all(s: Seq<char>, pat: Seq<char>, to: Seq<char>) -> Seq<char>
    decreases s.len(),
{
    if pat.len() == 0 || s.len() == 0 {
        s
    } else if starts_with(s, pat) {
        to + replace_all(s.skip(pat.len() as int), pat, to)
    } else {
        seq![s[0]] + replace_all(s.skip(1), pat, to)
    }
}

/// Extracts the placeholder names from a path template.
///
/// `/api/users/{id}/posts/{post_id}` gives `id` and `post_id`.
pub fn extract_path_params(path: &str) -> (params: Vec<String>)
    ensures
        texts(params@) == path_params(path@),
{
    let chars = chars_of(path);
    let mut params: Vec<String> = Vec::new();
    let mut i: usize = 0;
    proof {
        assert(chars@.skip(0) == chars@);
        assert(texts(params@) =~= Seq::<Seq<char>>::empty());
        assert(Seq::<Seq<char>>::empty() + path_params(chars@) == path_params(chars@));
    }
    while i < chars.len()
        invariant
            i <= chars.len(),
            path_params(chars@) == texts(params@) + path_params(chars@.skip(i as int)),
        decreases chars.len() - i,
    {
        let ghost here = chars@.skip(i as int);
        let ghost found = texts(params@);
        if chars[i] != '{' {
            proof {
                assert(here.skip(1) == chars@.skip(i + 1));
            }
            i += 1;
        } else {
            let ghost rest = here.skip(1);
            proof {
                assert(rest == chars@.skip(i + 1));
                lemma_index_of(rest, '}');
            }
            let end = find_char(&chars, i + 1, '}');
            let ghost n = end - (i + 1);
            if end > i + 1 {
                let name = slice_chars(&chars, i + 1, end);
                let text = string_of(&name);
                proof {
                    lemma_texts_push(params@, text);
                    assert(name@ == rest.take(n));
                }
                params.push(text);
            }
            if end < chars.len() {
                proof {
                    assert(rest.skip(n + 1) == chars@.skip(end + 1));
                    if n > 0 {
                        assert(found + (seq![rest.take(n)] + path_params(rest.skip(n + 1)))
                            == found.push(rest.take(n)) + path_params(rest.skip(n + 1)));
                    }
                }
                i = end + 1;
            } else {
                proof {
                    assert(chars@.skip(chars.len() as int) == Seq::<char>::empty());
                    assert(path_params(Seq::<char>::empty()) == Seq::<Seq<char>>::empty());
                    assert(rest.take(n) == rest);
                    if n > 0 {
                        assert(found + seq![rest] == found.push(rest) + Seq::<Seq<char>>::empty());
                    }
                }
                i = chars.len();
            }
        }
    }
    proof {
        assert(chars@.skip(chars.len() as int) == Seq::<char>::empty());
        assert(texts(params@) + Seq::<Seq<char>>::empty() == texts(params@));
    }
    params
}

/// Whether `pat` stands in `s` at position `at`.
pub fn matches_at(s: &Vec<char>, at: usize, pat: &Vec<char>) -> (r: bool)
    requires
        at <= s.len(),
    ensures
        r == starts_with(s@.skip(at as int), pat@),
{
    if s.len() - at < pat.len() {
        return false;
    }
    let ghost rest = s@.skip(at as int);
    let mut k: usize = 0;
    while k < pat.len()
        invariant
            k <= pat.len(),
            at + pat.len() <= s.len(),
            rest == s@.skip(at as int),
            rest.take(k as int) == pat@.take(k as int),
        decreases pat.len() - k,
    {
        if s[at + k] != pat[k] {
            proof {
                assert(rest[k as int] == s@[at + k]);
                assert(rest.take(pat.len() as int)[k as int] != pat@[k as int]);
            }
            return false;
        }
        k += 1;
        proof {
            assert(rest[k - 1] == s@[at + k - 1]);
            assert(rest.take(k as int) == rest.take(k - 1).push(rest[k - 1]));
            assert(pat@.take(k as int) == pat@.take(k - 1).push(pat@[k - 1]));
        }
    }
    assert(pat@.take(pat.len() as int) == pat@);
    true
}

/// Replaces every occurrence of `pat` in `s` by `to`.
pub fn replace_chars(s: &Vec<char>, pat: &Vec<char>, to: &Vec<char>) -> (r: Vec<char>)
    ensures
        r@ == replace_all(s@, pat@, to@),
{
    if pat.len() == 0 {
        let r = slice_chars(s, 0, s.len());
        assert(s@.subrange(0, s@.len() as int) == s@);
        return r;
    }
    let mut out: Vec<char> = Vec::new();
    let mut i: usize = 0;
    proof {
        assert(s@.skip(0) == s@);
        assert(Seq::<char>::empty() + replace_all(s@, pat@, to@) == replace_all(s@, pat@, to@));
    }
    while i < s.len()
        invariant
            i <= s.len(),
            pat.len() > 0,
            replace_all(s@, pat@, to@) == out@ + replace_all(s@.skip(i as int), pat@, to@),
        decreases s.len() - i,
    {
        let ghost here = s@.skip(i as int);
        let ghost before = out@;
        if matches_at(s, i, pat) {
            append_chars(&mut out, to);
            proof {
                assert(here.skip(pat.len() as int) == s@.skip(i + pat.len()));
                assert(before + (to@ + replace_all(here.skip(pat.len() as int), pat@, to@))
                    == out@ + replace_all(s@.skip(i + pat.len()), pat@, to@));
            }
            i += pat.len();
        } else {
            out.push(s[i]);
            proof {
                assert(here.skip(1) == s@.skip(i + 1));
                assert(before + (seq![here[0]] + replace_all(here.skip(1), pat@, to@)) == out@
                    + replace_all(s@.skip(i + 1), pat@, to@));
            }
            i += 1;
        }
    }
    proof {
        assert(s@.skip(s.len() as int) == Seq::<char>::empty());
        assert(out@ + Seq::<char>::empty() == out@);
    }
    out
}

/// The placeholder of `name`, as characters.
pub fn placeholder_chars(name: &str) -> (r: Vec<char>)
    ensures
        r@ == placeholder(name@),
{
    let mut r: Vec<char> = Vec::new();
    r.push('{');
    let chars = chars_of(name);
    append_chars(&mut r, &chars);
    r.push('}');
    assert(r@ == seq!['{'] + name@ + seq!['}']);
    r
}

/// Replaces every `{name}` in `path` by `value`.
pub fn substitute(path: &str, name: &str, value: &str) -> (r: String)
    ensures
        r@ == replace_all(path@, placeholder(name@), value@),
{
    let s = chars_of(path);
    let pat = placeholder_chars(name);
    let to = chars_of(value);
    let out = replace_chars(&s, &pat, &to);
    string_of(&out)
}

} // verus!
