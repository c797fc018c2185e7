//! The grammar of annotation arguments: from the tokens between the
//! parentheses of an attribute to its entries.
//!
//! Entries are separated by commas. An entry is a key alone, or a key, `=`
//! and a value. A value runs to the next comma that stands outside all
//! brackets, so `response = Map<String, u32>` is one entry.

use crate::error::{GenerateError, GenerateErrorModel};
use crate::meta::{
    copy_text, lemma_views_push, views, Attribute, AttributeModel, MetaItem, MetaItemModel,
    MetaValue, MetaValueModel,
};
use crate::text::{append_str, string_of};
use vstd::prelude::*;

verus! {

/// One token of an annotation's arguments. Brackets of every kind are
/// punctuation here, so a bracketed group is its opening bracket, its tokens
/// and its closing bracket, in a row.
#[derive(Debug, PartialEq, Eq)]
pub enum Token {
    /// An identifier or keyword.
    Ident(String),
    /// A string literal; holds its value.
    Str(String),
    /// One character of punctuation. `joint` says that the next token follows
    /// without space, as the first colon of `::` is followed by the second.
    Punct { ch: char, joint: bool },
    /// Any other literal, as it is written.
    Literal(String),
}

/// The model of a `Token`.
pub enum TokenModel {
    Ident(Seq<char>),
    Str(Seq<char>),
    Punct { ch: char, joint: bool },
    Literal(Seq<char>),
}

impl View for Token {
    type V = TokenModel;

    open spec fn view(&self) -> TokenModel {
        match self {
            Token::Ident(s) => TokenModel::Ident(s@),
            Token::Str(s) => TokenModel::Str(s@),
            Token::Punct { ch, joint } => TokenModel::Punct { ch: *ch, joint: *joint },
            Token::Literal(s) => TokenModel::Literal(s@),
        }
    }
}

/// A token as it is written. A string literal is written between double
/// quotes, with its value as it is.
pub open spec fn written(t: TokenModel) -> Seq<char> {
    match t {
        TokenModel::Ident(s) => s,
        TokenModel::Str(s) => seq!['"'] + s + seq!['"'],
        TokenModel::Punct { ch, joint } => seq![ch],
        TokenModel::Literal(s) => s,
    }
}

/// What stands between a token and the next one: nothing after joint
/// punctuation, a space otherwise.
pub open spec fn gap_after(t: TokenModel) -> Seq<char> {
    match t {
        TokenModel::Punct { ch, joint } => if joint {
            Seq::empty()
        } else {
            seq![' ']
        },
        _ => seq![' '],
    }
}

/// Tokens as they are written, one after the other.
pub open spec fn written_all(tokens: Seq<TokenModel>) -> Seq<char>
    decreases tokens.len(),
{
    if tokens.len() == 0 {
        Seq::empty()
    } else if tokens.len() == 1 {
        written(tokens[0])
    } else {
        written_all(tokens.drop_last()) + gap_after(tokens[tokens.len() - 2]) + written(
            tokens.last(),
        )
    }
}

/// Whether a token opens a bracket: `(`, `[`, `{` or `<`.
pub open spec fn opens(t: TokenModel) -> bool {
    t matches TokenModel::Punct { ch, joint } && (ch == '(' || ch == '[' || ch == '{' || ch == '<')
}

/// Whether a token closes a bracket: `)`, `]`, `}` or `>`.
pub open spec fn closes(t: TokenModel) -> bool {
    t matches TokenModel::Punct { ch, joint } && (ch == ')' || ch == ']' || ch == '}' || ch == '>')
}

/// Whether a token is the punctuation `c`.
pub open spec fn is_punct(t: TokenModel, c: char) -> bool {
    t matches TokenModel::Punct { ch, joint } && ch == c
}

/// The bracket depth after a token, given the depth before it. A closing
/// bracket at depth zero leaves the depth at zero.
pub open spec fn depth_after(depth: nat, t: TokenModel) -> nat {
    if opens(t) {
        depth + 1
    } else if closes(t) && depth > 0 {
        (depth - 1) as nat
    } else {
        depth
    }
}

/// How many leading tokens belong to a value that starts at bracket depth
/// `depth`: all tokens before the first comma at depth zero, or all tokens
/// where there is no such comma.
pub open spec fn value_length(tokens: Seq<TokenModel>, depth: nat) -> int
    decreases tokens.len(),
{
    if tokens.len() == 0 {
        0
    } else if depth == 0 && is_punct(tokens[0], ',') {
        0
    } else {
        1 + value_length(tokens.skip(1), depth_after(depth, tokens[0]))
    }
}

/// The value that tokens stand for: a single string literal gives its value;
/// anything else gives the tokens as they are written.
pub open spec fn value_of(tokens: Seq<TokenModel>) -> MetaValueModel {
    if tokens.len() == 1 && tokens[0] is Str {
        MetaValueModel::Literal(tokens[0]->Str_0)
    } else {
        MetaValueModel::Tokens(written_all(tokens))
    }
}

/// `item` before the entries of `rest`, where there are such.
pub open spec fn entry_then(
    item: MetaItemModel,
    rest: Result<Seq<MetaItemModel>, GenerateErrorModel>,
) -> Result<Seq<MetaItemModel>, GenerateErrorModel> {
    match rest {
        Ok(items) => Ok(seq![item] + items),
        Err(e) => Err(e),
    }
}

/// The entries that tokens stand for.
///
/// An entry starts with an identifier, its key; a token of another kind there
/// is malformed and reported as it is written. The key stands alone where a
/// comma or the end follows. After `=` comes the value, up to the next comma
/// outside all brackets; an empty value is malformed and reported under the
/// key, and so is any other token after the key. A comma after the last entry
/// is allowed.
pub open spec fn entries_of(tokens: Seq<TokenModel>) -> Result<
    Seq<MetaItemModel>,
    GenerateErrorModel,
>
    decreases tokens.len(),
{
    if tokens.len() == 0 {
        Ok(Seq::empty())
    } else {
        match tokens[0] {
            TokenModel::Ident(key) => {
                let rest = tokens.skip(1);
                let alone = MetaItemModel { key, value: MetaValueModel::Absent };
                if rest.len() == 0 {
                    Ok(seq![alone])
                } else if is_punct(rest[0], ',') {
                    entry_then(alone, entries_of(rest.skip(1)))
                } else if is_punct(rest[0], '=') {
                    let body = rest.skip(1);
                    let n = value_length(body, 0);
                    if n <= 0 || n > body.len() {
                        Err(GenerateErrorModel::MalformedAttribute { key })
                    } else {
                        let item = MetaItemModel { key, value: value_of(body.take(n)) };
                        if n == body.len() {
                            Ok(seq![item])
                        } else {
                            entry_then(item, entries_of(body.skip(n + 1)))
                        }
                    }
                } else {
                    Err(GenerateErrorModel::MalformedAttribute { key })
                }
            },
            other => Err(GenerateErrorModel::MalformedAttribute { key: written(other) }),
        }
    }
}

/// The length of a value lies within the tokens.
pub proof fn lemma_value_length(tokens: Seq<TokenModel>, depth: nat)
    ensures
        0 <= value_length(tokens, depth) <= tokens.len(),
    decreases tokens.len(),
{
    if tokens.len() > 0 && !(depth == 0 && is_punct(tokens[0], ',')) {
        lemma_value_length(tokens.skip(1), depth_after(depth, tokens[0]));
    }
}

impl Token {
    /// An identifier.
    pub fn ident(name: &str) -> (r: Token)
        ensures
            r@ == TokenModel::Ident(name@),
    {
        Token::Ident(copy_text(name))
    }

    /// A string literal with the given value.
    pub fn string(value: &str) -> (r: Token)
        ensures
            r@ == TokenModel::Str(value@),
    {
        Token::Str(copy_text(value))
    }

    /// Punctuation that is followed by space or by nothing.
    pub fn punct(ch: char) -> (r: Token)
        ensures
            r@ == (TokenModel::Punct { ch, joint: false }),
    {
        Token::Punct { ch, joint: false }
    }

    /// Punctuation that the next token follows without space.
    pub fn joint(ch: char) -> (r: Token)
        ensures
            r@ == (TokenModel::Punct { ch, joint: true }),
    {
        Token::Punct { ch, joint: true }
    }

    /// A literal that is no string, as it is written.
    pub fn literal(text: &str) -> (r: Token)
        ensures
            r@ == TokenModel::Literal(text@),
    {
        Token::Literal(copy_text(text))
    }

    /// Whether this token is the punctuation `c`.
    pub fn is_char(&self, c: char) -> (r: bool)
        ensures
            r == is_punct(self@, c),
    {
        match self {
            Token::Punct { ch, joint } => *ch == c,
            _ => false,
        }
    }

    /// Appends this token, as it is written, to `out`.
    pub fn push_written(&self, out: &mut Vec<char>)
        ensures
            final(out)@ == old(out)@ + written(self@),
    {
        match self {
            Token::Ident(s) => append_str(out, s.as_str()),
            Token::Str(s) => {
                out.push('"');
                append_str(out, s.as_str());
                out.push('"');
                assert(out@ == old(out)@ + (seq!['"'] + s@ + seq!['"']));
            },
            Token::Punct { ch, joint } => {
                out.push(*ch);
            },
            Token::Literal(s) => append_str(out, s.as_str()),
        }
    }

    /// Whether this token closes a bracket.
    pub fn closes_bracket(&self) -> (r: bool)
        ensures
            r == closes(self@),
    {
        self.is_char(')') || self.is_char(']') || self.is_char('}') || self.is_char('>')
    }

    /// This token as it is written.
    pub fn to_text(&self) -> (r: String)
        ensures
            r@ == written(self@),
    {
        let mut text: Vec<char> = Vec::new();
        self.push_written(&mut text);
        assert(text@ == written(self@));
        string_of(&text)
    }

    /// The bracket depth after this token, given the depth before it.
    pub fn next_depth(&self, depth: usize) -> (r: usize)
        requires
            depth < usize::MAX,
        ensures
            r == depth_after(depth as nat, self@),
    {
        match self {
            Token::Punct { ch, joint } => {
                let c = *ch;
                if c == '(' || c == '[' || c == '{' || c == '<' {
                    depth + 1
                } else if (c == ')' || c == ']' || c == '}' || c == '>') && depth > 0 {
                    depth - 1
                } else {
                    depth
                }
            },
            _ => depth,
        }
    }
}

/// The tokens from `from` up to, not including, `to`, as they are written.
pub fn write_tokens(tokens: &Vec<Token>, from: usize, to: usize) -> (r: String)
    requires
        from <= to <= tokens.len(),
    ensures
        r@ == written_all(views(tokens@).subrange(from as int, to as int)),
{
    let mut out: Vec<char> = Vec::new();
    let mut i: usize = from;
    let ghost all = views(tokens@);
    proof {
        assert(all.subrange(from as int, from as int) =~= Seq::<TokenModel>::empty());
    }
    while i < to
        invariant
            from <= i <= to,
            to <= tokens.len(),
            all == views(tokens@),
            out@ == written_all(all.subrange(from as int, i as int)),
        decreases to - i,
    {
        let ghost before = all.subrange(from as int, i as int);
        let ghost next = all.subrange(from as int, i + 1);
        proof {
            assert(next.drop_last() == before);
            assert(next.last() == tokens@[i as int]@);
            if i > from {
                assert(next[next.len() - 2] == tokens@[i - 1]@);
            } else {
                assert(next[0] == tokens@[i as int]@);
                assert(Seq::<char>::empty() + written(next[0]) == written(next[0]));
            }
        }
        if i > from {
            match &tokens[i - 1] {
                Token::Punct { ch, joint } => {
                    if !*joint {
                        out.push(' ');
                    }
                },
                _ => {
                    out.push(' ');
                },
            }
            assert(out@ == written_all(before) + gap_after(tokens@[i - 1]@));
        }
        tokens[i].push_written(&mut out);
        i += 1;
    }
    string_of(&out)
}

/// The end of the value that starts at `start`: the position of the next
/// comma outside all brackets, or the number of tokens where there is none.
pub fn find_value_end(tokens: &Vec<Token>, start: usize) -> (end: usize)
    requires
        start <= tokens.len(),
    ensures
        start <= end <= tokens.len(),
        end - start == value_length(views(tokens@).skip(start as int), 0),
{
    let ghost all = views(tokens@);
    let mut depth: usize = 0;
    let mut j: usize = start;
    while j < tokens.len() && !(depth == 0 && tokens[j].is_char(','))
        invariant
            start <= j <= tokens.len(),
            depth <= j - start,
            all == views(tokens@),
            value_length(all.skip(start as int), 0) == (j - start) + value_length(
                all.skip(j as int),
                depth as nat,
            ),
        decreases tokens.len() - j,
    {
        proof {
            assert(all.skip(j as int)[0] == tokens@[j as int]@);
            assert(all.skip(j as int).skip(1) == all.skip(j + 1));
        }
        depth = tokens[j].next_depth(depth);
        j += 1;
    }
    proof {
        if j < tokens.len() {
            assert(all.skip(j as int)[0] == tokens@[j as int]@);
        }
    }
    j
}

fn value_from(tokens: &Vec<Token>, from: usize, to: usize) -> (r: MetaValue)
    requires
        from < to <= tokens.len(),
    ensures
        r@ == value_of(views(tokens@).subrange(from as int, to as int)),
{
    let ghost part = views(tokens@).subrange(from as int, to as int);
    proof {
        assert(part[0] == tokens@[from as int]@);
    }
    if to - from == 1 {
        match &tokens[from] {
            Token::Str(s) => {
                return MetaValue::Literal(copy_text(s.as_str()));
            },
            _ => {},
        }
    }
    MetaValue::Tokens(write_tokens(tokens, from, to))
}

/// The view of the result of reading entries.
pub open spec fn entries_result(r: Result<Vec<MetaItem>, GenerateError>) -> Result<
    Seq<MetaItemModel>,
    GenerateErrorModel,
> {
    match r {
        Ok(items) => Ok(views(items@)),
        Err(e) => Err(e@),
    }
}

/// `items` before the entries of `rest`, where there are such.
pub open spec fn entries_then(
    items: Seq<MetaItemModel>,
    rest: Result<Seq<MetaItemModel>, GenerateErrorModel>,
) -> Result<Seq<MetaItemModel>, GenerateErrorModel> {
    match rest {
        Ok(more) => Ok(items + more),
        Err(e) => Err(e),
    }
}

/// Reads the entries of an annotation from its tokens.
pub fn parse_entries(tokens: &Vec<Token>) -> (r: Result<Vec<MetaItem>, GenerateError>)
    ensures
        entries_result(r) == entries_of(views(tokens@)),
{
    let ghost all = views(tokens@);
    let mut items: Vec<MetaItem> = Vec::new();
    let mut i: usize = 0;
    proof {
        assert(all.skip(0) == all);
        assert(views(items@) =~= Seq::<MetaItemModel>::empty());
        assert(entries_then(Seq::<MetaItemModel>::empty(), entries_of(all)) == entries_of(all)) by {
            match entries_of(all) {
                Ok(more) => {
                    assert(Seq::<MetaItemModel>::empty() + more == more);
                },
                Err(e) => {},
            }
        }
    }
    while i < tokens.len()
        invariant
            i <= tokens.len(),
            all == views(tokens@),
            entries_of(all) == entries_then(views(items@), entries_of(all.skip(i as int))),
        decreases tokens.len() - i,
    {
        let ghost here = all.skip(i as int);
        let ghost found = views(items@);
        proof {
            assert(here[0] == tokens@[i as int]@);
        }
        let key = match &tokens[i] {
            Token::Ident(key) => key,
            other => {
                return Err(GenerateError::MalformedAttribute { key: other.to_text() });
            },
        };
        let ghost rest = here.skip(1);
        proof {
            assert(rest == all.skip(i + 1));
            if i + 1 < tokens.len() {
                assert(rest[0] == tokens@[i + 1]@);
            }
        }
        if i + 1 == tokens.len() || tokens[i + 1].is_char(',') {
            let item = MetaItem { key: copy_text(key.as_str()), value: MetaValue::Absent };
            proof {
                lemma_views_push(items@, item);
                lemma_entries_then_push(found, item@, entries_of(rest.skip(1)));
                if i + 1 < tokens.len() {
                    assert(rest.skip(1) == all.skip(i + 2));
                } else {
                    assert(all.skip(tokens.len() as int) =~= Seq::<TokenModel>::empty());
                    assert(found + seq![item@] == found.push(item@) + Seq::<MetaItemModel>::empty());
                }
            }
            items.push(item);
            i = if i + 1 == tokens.len() {
                i + 1
            } else {
                i + 2
            };
        } else if tokens[i + 1].is_char('=') {
            let ghost body = rest.skip(1);
            proof {
                assert(body == all.skip(i + 2));
                lemma_value_length(body, 0);
            }
            let end = find_value_end(tokens, i + 2);
            if end == i + 2 {
                return Err(GenerateError::MalformedAttribute { key: copy_text(key.as_str()) });
            }
            let ghost n = end - (i + 2);
            let item = MetaItem {
                key: copy_text(key.as_str()),
                value: value_from(tokens, i + 2, end),
            };
            proof {
                assert(body.take(n) == all.subrange(i + 2, end as int));
                lemma_views_push(items@, item);
                lemma_entries_then_push(found, item@, entries_of(body.skip(n + 1)));
                if end < tokens.len() {
                    assert(body.skip(n + 1) == all.skip(end + 1));
                } else {
                    assert(all.skip(tokens.len() as int) =~= Seq::<TokenModel>::empty());
                    assert(found + seq![item@] == found.push(item@) + Seq::<MetaItemModel>::empty());
                }
            }
            items.push(item);
            i = if end == tokens.len() {
                end
            } else {
                end + 1
            };
        } else {
            return Err(GenerateError::MalformedAttribute { key: copy_text(key.as_str()) });
        }
    }
    proof {
        assert(all.skip(tokens.len() as int) =~= Seq::<TokenModel>::empty());
        assert(views(items@) + Seq::<MetaItemModel>::empty() == views(items@));
    }
    Ok(items)
}

/// Entries before an entry before more entries are the entries with that
/// entry at their end before the rest.
pub proof fn lemma_entries_then_push(
    items: Seq<MetaItemModel>,
    item: MetaItemModel,
    rest: Result<Seq<MetaItemModel>, GenerateErrorModel>,
)
    ensures
        entries_then(items, entry_then(item, rest)) == entries_then(items.push(item), rest),
{
    match rest {
        Ok(more) => {
            assert(items + (seq![item] + more) == items.push(item) + more);
        },
        Err(e) => {},
    }
}

/// The view of the result of reading an attribute.
pub open spec fn attribute_result(r: Result<Attribute, GenerateError>) -> Result<
    AttributeModel,
    GenerateErrorModel,
> {
    match r {
        Ok(a) => Ok(a@),
        Err(e) => Err(e@),
    }
}

/// The attribute called `path` whose arguments are `tokens`.
pub open spec fn attribute_of(path: Seq<char>, tokens: Seq<TokenModel>) -> Result<
    AttributeModel,
    GenerateErrorModel,
> {
    match entries_of(tokens) {
        Ok(items) => Ok(AttributeModel { path, items }),
        Err(e) => Err(e),
    }
}

/// Reads an attribute from its name and the tokens of its arguments.
pub fn parse_attribute(path: &str, tokens: &Vec<Token>) -> (r: Result<Attribute, GenerateError>)
    ensures
        attribute_result(r) == attribute_of(path@, views(tokens@)),
{
    match parse_entries(tokens) {
        Ok(items) => Ok(Attribute { path: copy_text(path), items }),
        Err(e) => Err(e),
    }
}

} // verus!
