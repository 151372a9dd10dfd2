//! Content codings, and the list of them that a `Content-Encoding` value
//! declares.

use vstd::prelude::*;

verus! {

/// One content coding of a `Content-Encoding` header.
#[derive(Debug, Clone, PartialEq, Eq)]
pub enum EncodingToken {
    Gzip,
    Deflate,
    Chunked,
    Identity,
    /// Any other coding, with its name as the header gives it.
    Unsupported(String),
}

/// An `EncodingToken` with the name of an unsupported coding as a sequence of
/// characters.
pub enum TokenView {
    Gzip,
    Deflate,
    Chunked,
    Identity,
    Unsupported(Seq<char>),
}

impl View for EncodingToken {
    type V = TokenView;

    open spec fn view(&self) -> TokenView {
        match self {
            EncodingToken::Gzip => TokenView::Gzip,
            EncodingToken::Deflate => TokenView::Deflate,
            EncodingToken::Chunked => TokenView::Chunked,
            EncodingToken::Identity => TokenView::Identity,
            EncodingToken::Unsupported(name) => TokenView::Unsupported(name@),
        }
    }
}

/// The views of `tokens`, in the same order.
pub open spec fn token_views(tokens: Seq<EncodingToken>) -> Seq<TokenView> {
    tokens.map_values(|token: EncodingToken| token@)
}

/// The coding that `name` stands for. Names are matched as they are written:
/// `gzip` is a coding of its own, `GZIP` is not.
pub open spec fn token_named(name: Seq<char>) -> TokenView {
    if name == "gzip"@ {
        TokenView::Gzip
    } else if name == "deflate"@ {
        TokenView::Deflate
    } else if name == "chunked"@ {
        TokenView::Chunked
    } else if name == "identity"@ {
        TokenView::Identity
    } else {
        TokenView::Unsupported(name)
    }
}

/// Whether `text` and `name` hold the same characters.
fn same_text(text: &String, name: &str) -> (same: bool)
    ensures
        same == (text@ == name@),
{
    *text == String::from_str(name)
}

impl EncodingToken {
    /// The coding that `name` stands for.
    pub fn from_name(name: &str) -> (token: EncodingToken)
        ensures
            token@ == token_named(name@),
    {
        let owned = String::from_str(name);
        if same_text(&owned, "gzip") {
            EncodingToken::Gzip
        } else if same_text(&owned, "deflate") {
            EncodingToken::Deflate
        } else if same_text(&owned, "chunked") {
            EncodingToken::Chunked
        } else if same_text(&owned, "identity") {
            EncodingToken::Identity
        } else {
            EncodingToken::Unsupported(owned)
        }
    }
}

/// The characters of `value`, one by one.
fn chars_of(value: &str) -> (chars: Vec<char>)
    ensures
        chars@ == value@,
{
    let mut chars: Vec<char> = Vec::new();
    for c in it: value.chars()
        invariant
            it.seq() == value@,
            chars@ == it.seq().take(it.index()),
    {
        chars.push(c);
    }
    chars
}

/// Whether `c` is a blank that may surround an item of a header list.
pub open spec fn is_blank(c: char) -> bool {
    c == ' ' || c == '\t'
}

/// `text` without the blanks at its start and at its end.
pub open spec fn trimmed(text: Seq<char>) -> Seq<char>
    decreases text.len(),
{
    if text.len() > 0 && is_blank(text.first()) {
        trimmed(text.drop_first())
    } else if text.len() > 0 && is_blank(text.last()) {
        trimmed(text.drop_last())
    } else {
        text
    }
}

/// The pieces into which the commas of `value` cut it, in order. A value
/// with n commas has n + 1 pieces, some of them possibly empty.
pub open spec fn comma_items(value: Seq<char>) -> Seq<Seq<char>>
    decreases value.len(),
{
    if value.len() == 0 {
        seq![Seq::<char>::empty()]
    } else {
        let before = comma_items(value.drop_last());
        if value.last() == ',' {
            before.push(Seq::<char>::empty())
        } else {
            before.drop_last().push(before.last().push(value.last()))
        }
    }
}

/// The codings that `items` name, in order: each item is trimmed, and an
/// item that is empty after trimming names nothing.
pub open spec fn named_tokens(items: Seq<Seq<char>>) -> Seq<TokenView>
    decreases items.len(),
{
    if items.len() == 0 {
        Seq::<TokenView>::empty()
    } else {
        let before = named_tokens(items.drop_last());
        let name = trimmed(items.last());
        if name.len() == 0 {
            before
        } else {
            before.push(token_named(name))
        }
    }
}

/// The codings that one `Content-Encoding` value declares, in the order in
/// which it lists them.
pub open spec fn declared_tokens(value: Seq<char>) -> Seq<TokenView> {
    named_tokens(comma_items(value))
}

/// `items` written as one value, with a comma between neighbours.
pub open spec fn comma_joined(items: Seq<Seq<char>>) -> Seq<char>
    decreases items.len(),
{
    if items.len() == 0 {
        Seq::<char>::empty()
    } else if items.len() == 1 {
        items[0]
    } else {
        comma_joined(items.drop_last()) + seq![','] + items.last()
    }
}

/// The pieces of a value hold no comma, and joined by commas they give the
/// value back.
pub proof fn lemma_comma_items_split(value: Seq<char>)
    ensures
        comma_items(value).len() >= 1,
        comma_joined(comma_items(value)) == value,
        forall|i: int, j: int|
            0 <= i < comma_items(value).len() && 0 <= j < comma_items(value)[i].len()
                ==> comma_items(value)[i][j] != ',',
    decreases value.len(),
{
    let items = comma_items(value);
    if value.len() == 0 {
        assert(comma_joined(items) =~= value);
    } else {
        let before = comma_items(value.drop_last());
        lemma_comma_items_split(value.drop_last());
        if value.last() == ',' {
            assert(items.drop_last() =~= before);
            assert(comma_joined(items) =~= value);
        } else {
            let grown = before.last().push(value.last());
            if before.len() == 1 {
                assert(comma_joined(items) =~= value);
            } else {
                assert(items.drop_last() =~= before.drop_last());
                assert(comma_joined(items) =~= comma_joined(before).push(value.last()));
                assert(comma_joined(items) =~= value);
            }
            assert forall|i: int, j: int|
                0 <= i < items.len() && 0 <= j < items[i].len() implies items[i][j] != ',' by {
                if i < items.len() - 1 {
                    assert(items[i] == before[i]);
                } else if j < grown.len() - 1 {
                    assert(items[i][j] == before.last()[j]);
                }
            }
        }
    }
}

/// Trimming takes the middle of a text: what it leaves out at either end is
/// blank, and what it keeps neither starts nor ends with a blank. The result
/// holds the bounds of that middle.
pub proof fn lemma_trimmed_is_the_middle(text: Seq<char>) -> (bounds: (int, int))
    ensures
        0 <= bounds.0 <= bounds.1 <= text.len(),
        trimmed(text) == text.subrange(bounds.0, bounds.1),
        forall|k: int| 0 <= k < bounds.0 || bounds.1 <= k < text.len() ==> is_blank(text[k]),
        bounds.0 < bounds.1 ==> !is_blank(text[bounds.0]) && !is_blank(text[bounds.1 - 1]),
    decreases text.len(),
{
    if text.len() > 0 && is_blank(text.first()) {
        let inner = lemma_trimmed_is_the_middle(text.drop_first());
        assert(text.drop_first().subrange(inner.0, inner.1) =~= text.subrange(
            inner.0 + 1,
            inner.1 + 1,
        ));
        assert forall|k: int|
            0 <= k < inner.0 + 1 || inner.1 + 1 <= k < text.len() implies is_blank(text[k]) by {
            if k > 0 {
                assert(text[k] == text.drop_first()[k - 1]);
            }
        }
        (inner.0 + 1, inner.1 + 1)
    } else if text.len() > 0 && is_blank(text.last()) {
        let inner = lemma_trimmed_is_the_middle(text.drop_last());
        assert(text.drop_last().subrange(inner.0, inner.1) =~= text.subrange(inner.0, inner.1));
        assert forall|k: int|
            0 <= k < inner.0 || inner.1 <= k < text.len() implies is_blank(text[k]) by {
            if k < text.len() - 1 {
                assert(text[k] == text.drop_last()[k]);
            }
        }
        inner
    } else {
        assert(text.subrange(0, text.len() as int) =~= text);
        (0, text.len() as int)
    }
}

/// The pieces of two values written as one, with a comma between them, are
/// the pieces of the first followed by those of the second.
pub proof fn lemma_comma_items_of_joined(first: Seq<char>, second: Seq<char>)
    ensures
        comma_items(first + seq![','] + second) == comma_items(first) + comma_items(second),
    decreases second.len(),
{
    let joined = first + seq![','] + second;
    lemma_comma_items_split(second);
    if second.len() == 0 {
        assert(joined.drop_last() =~= first);
        assert(comma_items(joined) =~= comma_items(first) + comma_items(second));
    } else {
        lemma_comma_items_of_joined(first, second.drop_last());
        lemma_comma_items_split(second.drop_last());
        assert(joined.drop_last() =~= first + seq![','] + second.drop_last());
        assert(joined.last() == second.last());
        assert(comma_items(joined) =~= comma_items(first) + comma_items(second));
    }
}

/// The codings that a list of items names are those of its front part
/// followed by those of its back part.
pub proof fn lemma_named_tokens_of_concat(front: Seq<Seq<char>>, back: Seq<Seq<char>>)
    ensures
        named_tokens(front + back) == named_tokens(front) + named_tokens(back),
    decreases back.len(),
{
    if back.len() == 0 {
        assert(front + back =~= front);
        assert(named_tokens(front) + named_tokens(back) =~= named_tokens(front));
    } else {
        lemma_named_tokens_of_concat(front, back.drop_last());
        assert((front + back).drop_last() =~= front + back.drop_last());
        assert((front + back).last() == back.last());
        assert(named_tokens(front + back) =~= named_tokens(front) + named_tokens(back));
    }
}

/// Whether `c` is a blank that may surround an item of a header list.
fn blank(c: char) -> (b: bool)
    ensures
        b == is_blank(c),
{
    c == ' ' || c == '\t'
}

/// Appends to `tokens` the coding that the item `value[start..end]` names,
/// if it names one.
fn push_item(
    tokens: &mut Vec<EncodingToken>,
    value: &str,
    chars: &Vec<char>,
    start: usize,
    end: usize,
)
    requires
        chars@ == value@,
        start <= end <= chars@.len(),
    ensures
        token_views(final(tokens)@) == ({
            let name = trimmed(value@.subrange(start as int, end as int));
            if name.len() == 0 {
                token_views(old(tokens)@)
            } else {
                token_views(old(tokens)@).push(token_named(name))
            }
        }),
{
    let ghost item = value@.subrange(start as int, end as int);
    let mut from: usize = start;
    let mut to: usize = end;
    while from < to && blank(chars[from])
        invariant
            chars@ == value@,
            start <= from <= to <= end <= chars@.len(),
            trimmed(value@.subrange(from as int, to as int)) == trimmed(item),
        decreases to - from,
    {
        proof {
            let rest = value@.subrange(from as int, to as int);
            assert(rest.drop_first() =~= value@.subrange(from + 1, to as int));
        }
        from = from + 1;
    }
    while from < to && blank(chars[to - 1])
        invariant
            chars@ == value@,
            start <= from <= to <= end <= chars@.len(),
            from < to ==> !is_blank(value@[from as int]),
            trimmed(value@.subrange(from as int, to as int)) == trimmed(item),
        decreases to - from,
    {
        proof {
            let rest = value@.subrange(from as int, to as int);
            assert(rest.drop_last() =~= value@.subrange(from as int, to - 1));
        }
        to = to - 1;
    }
    if from < to {
        let name = value.substring_char(from, to);
        let token = EncodingToken::from_name(name);
        proof {
            assert(token_views(tokens@.push(token)) =~= token_views(tokens@).push(token@));
        }
        tokens.push(token);
    }
}

/// The codings that one `Content-Encoding` value declares, in the order in
/// which it lists them.
pub fn parse_content_encoding(value: &str) -> (tokens: Vec<EncodingToken>)
    ensures
        token_views(tokens@) == declared_tokens(value@),
{
    let mut tokens: Vec<EncodingToken> = Vec::new();
    append_declared(&mut tokens, value);
    tokens
}

/// Appends to `tokens` the codings that `value` declares.
pub(crate) fn append_declared(tokens: &mut Vec<EncodingToken>, value: &str)
    ensures
        token_views(final(tokens)@) == token_views(old(tokens)@) + declared_tokens(value@),
{
    let chars = chars_of(value);
    let n: usize = chars.len();
    let ghost done: Seq<Seq<char>> = Seq::empty();
    let mut start: usize = 0;
    let mut i: usize = 0;
    assert(value@.take(0) =~= Seq::<char>::empty());
    assert(value@.subrange(0, 0) =~= Seq::<char>::empty());
    assert(comma_items(value@.take(0)) =~= done.push(value@.subrange(0, 0)));
    assert(token_views(tokens@) + named_tokens(done) =~= token_views(tokens@));
    while i < n
        invariant
            chars@ == value@,
            n == chars@.len(),
            start <= i <= n,
            comma_items(value@.take(i as int)) == done.push(value@.subrange(start as int, i as int)),
            token_views(tokens@) == token_views(old(tokens)@) + named_tokens(done),
        decreases n - i,
    {
        let ghost prefix = value@.take(i + 1);
        let ghost item = value@.subrange(start as int, i as int);
        proof {
            assert(prefix.drop_last() =~= value@.take(i as int));
            assert(prefix.last() == value@[i as int]);
        }
        if chars[i] == ',' {
            push_item(tokens, value, &chars, start, i);
            proof {
                assert(done.push(item).drop_last() =~= done);
                assert(value@.subrange(i + 1, i + 1) =~= Seq::<char>::empty());
                done = done.push(item);
            }
            start = i + 1;
        } else {
            proof {
                assert(done.push(item).drop_last() =~= done);
                assert(item.push(value@[i as int]) =~= value@.subrange(start as int, i + 1));
            }
        }
        i = i + 1;
    }
    proof {
        assert(value@.take(n as int) =~= value@);
        assert(done.push(value@.subrange(start as int, n as int)).drop_last() =~= done);
    }
    push_item(tokens, value, &chars, start, n);
}

} // verus!
