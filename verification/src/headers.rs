//! The two response headers that the pipeline reads.

use crate::token::{
    append_declared, comma_items, declared_tokens, lemma_comma_items_of_joined,
    lemma_named_tokens_of_concat, token_views, EncodingToken, TokenView,
};
use vstd::prelude::*;

verus! {

/// A `Content-Type` header: the media type and, where the header carries
/// one, the value of its `charset` parameter.
#[derive(Debug, Clone, PartialEq, Eq)]
pub struct ContentType {
    pub media_type: String,
    pub charset: Option<String>,
}

/// A `ContentType` with its texts as sequences of characters.
pub struct ContentTypeView {
    pub media_type: Seq<char>,
    pub charset: Option<Seq<char>>,
}

impl View for ContentType {
    type V = ContentTypeView;

    open spec fn view(&self) -> ContentTypeView {
        ContentTypeView {
            media_type: self.media_type@,
            charset: match self.charset {
                Some(label) => Some(label@),
                None => None,
            },
        }
    }
}

/// What the pipeline reads of a response's headers.
#[derive(Debug, Clone, PartialEq, Eq)]
pub struct ResponseHeaders {
    /// The values of the `Content-Encoding` header lines, in the order in
    /// which the response carries them; empty where it carries none. A value
    /// may list several codings, separated by commas.
    pub content_encoding: Vec<String>,
    /// The `Content-Type` header, where the response carries one.
    pub content_type: Option<ContentType>,
}

/// `ResponseHeaders` with their texts as sequences of characters.
pub struct HeadersView {
    pub content_encoding: Seq<Seq<char>>,
    pub content_type: Option<ContentTypeView>,
}

impl View for ResponseHeaders {
    type V = HeadersView;

    open spec fn view(&self) -> HeadersView {
        HeadersView {
            content_encoding: self.content_encoding@.map_values(|value: String| value@),
            content_type: match self.content_type {
                Some(content_type) => Some(content_type@),
                None => None,
            },
        }
    }
}

/// The codings that the header lines `values` declare together: those of the
/// first line, followed by those of the second, and so on.
pub open spec fn header_tokens(values: Seq<Seq<char>>) -> Seq<TokenView>
    decreases values.len(),
{
    if values.len() == 0 {
        Seq::<TokenView>::empty()
    } else {
        header_tokens(values.drop_last()) + declared_tokens(values.last())
    }
}

/// A header sent as two lines declares what the one line declares that holds
/// both values with a comma between them.
pub proof fn lemma_two_lines_are_one_list(first: Seq<char>, second: Seq<char>)
    ensures
        header_tokens(seq![first, second]) == declared_tokens(first + seq![','] + second),
{
    let lines = seq![first, second];
    assert(lines.drop_last() =~= seq![first]);
    assert(seq![first].drop_last() =~= Seq::<Seq<char>>::empty());
    assert(header_tokens(seq![first]) =~= declared_tokens(first)) by {
        reveal_with_fuel(header_tokens, 2);
    }
    lemma_comma_items_of_joined(first, second);
    lemma_named_tokens_of_concat(comma_items(first), comma_items(second));
}

impl HeadersView {
    /// The codings that the `Content-Encoding` header declares, in order.
    pub open spec fn encoding_tokens(self) -> Seq<TokenView> {
        header_tokens(self.content_encoding)
    }

    /// The charset label that the `Content-Type` header declares, if any.
    pub open spec fn charset(self) -> Option<Seq<char>> {
        match self.content_type {
            Some(content_type) => content_type.charset,
            None => None,
        }
    }
}

impl ResponseHeaders {
    /// The headers of a response that carries neither of the two.
    pub fn new() -> (headers: ResponseHeaders)
        ensures
            headers@.content_encoding.len() == 0,
            headers@.content_type is None,
    {
        ResponseHeaders { content_encoding: Vec::new(), content_type: None }
    }

    /// These headers with one more `Content-Encoding` line, of value `value`,
    /// after those that are there.
    pub fn with_content_encoding(self, value: &str) -> (headers: ResponseHeaders)
        ensures
            headers@.content_encoding == self@.content_encoding.push(value@),
            headers@.content_type == self@.content_type,
    {
        let mut values = self.content_encoding;
        let ghost before = values@;
        values.push(String::from_str(value));
        proof {
            assert(values@.map_values(|value: String| value@) =~= before.map_values(
                |value: String| value@,
            ).push(value@));
        }
        ResponseHeaders { content_encoding: values, content_type: self.content_type }
    }

    /// These headers with the `Content-Type` header replaced by one of media
    /// type `media_type` and, where `charset` holds one, that charset label.
    pub fn with_content_type(self, media_type: &str, charset: Option<&str>) -> (headers:
        ResponseHeaders)
        ensures
            headers@.content_encoding == self@.content_encoding,
            headers@.content_type == Some(
                ContentTypeView {
                    media_type: media_type@,
                    charset: match charset {
                        Some(label) => Some(label@),
                        None => None,
                    },
                },
            ),
    {
        let label = match charset {
            Some(label) => Some(String::from_str(label)),
            None => None,
        };
        ResponseHeaders {
            content_encoding: self.content_encoding,
            content_type: Some(
                ContentType { media_type: String::from_str(media_type), charset: label },
            ),
        }
    }

    /// The codings that the `Content-Encoding` header declares, in order.
    pub fn encoding_tokens(&self) -> (tokens: Vec<EncodingToken>)
        ensures
            token_views(tokens@) == self@.encoding_tokens(),
    {
        let mut tokens: Vec<EncodingToken> = Vec::new();
        let mut i: usize = 0;
        assert(self@.content_encoding.take(0) =~= Seq::<Seq<char>>::empty());
        while i < self.content_encoding.len()
            invariant
                i <= self.content_encoding@.len(),
                token_views(tokens@) == header_tokens(self@.content_encoding.take(i as int)),
            decreases self.content_encoding@.len() - i,
        {
            proof {
                let seen = self@.content_encoding.take(i + 1);
                assert(seen.drop_last() =~= self@.content_encoding.take(i as int));
                assert(seen.last() == self.content_encoding@[i as int]@);
            }
            append_declared(&mut tokens, self.content_encoding[i].as_str());
            i = i + 1;
        }
        assert(self@.content_encoding.take(i as int) =~= self@.content_encoding);
        tokens
    }

    /// The charset label that the `Content-Type` header declares, if any.
    pub fn charset(&self) -> (label: Option<&str>)
        ensures
            match label {
                Some(text) => self@.charset() == Some(text@),
                None => self@.charset() is None,
            },
    {
        match &self.content_type {
            Some(content_type) => match &content_type.charset {
                Some(label) => Some(label.as_str()),
                None => None,
            },
            None => None,
        }
    }
}

} // verus!
