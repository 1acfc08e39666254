//! The low-level token stream the decoder consumes: start, end and
//! self-closing tags, text runs, and end-of-input, each with the byte offset
//! just past the lexeme that produced it.
//!
//! The decoder depends only on this minimal shape, not on any particular
//! tokenizer implementation.

use vstd::prelude::*;

verus! {

/// One attribute of a tag, with its raw (still escaped) value bytes.
#[derive(Debug, PartialEq, Eq)]
pub struct Attr {
    pub key: Vec<u8>,
    pub value: Vec<u8>,
}

/// Ghost mirror of `Attr`.
pub struct GAttr {
    pub key: Seq<u8>,
    pub value: Seq<u8>,
}

/// What the tokenizer saw of a tag's attribute list. Only the first
/// attribute is ever examined by the grammar, together with whether more
/// follow and whether the list was readable at all.
#[derive(Debug, PartialEq, Eq)]
pub enum AttrInfo {
    /// No attributes at all.
    Absent,
    /// Exactly one attribute, well formed.
    Single(Attr),
    /// A well-formed first attribute with at least one more item after it.
    Several(Attr),
    /// The attribute list could not be read.
    Malformed,
}

/// Ghost mirror of `AttrInfo`.
pub enum GAttrInfo {
    Absent,
    Single(GAttr),
    Several(GAttr),
    Malformed,
}

/// One lexical token. `pos` is the byte offset just past the token, exactly
/// as a fault at this token would report it.
#[derive(Debug, PartialEq, Eq)]
pub enum Token {
    /// `<name ...>`
    Open { name: Vec<u8>, attr: AttrInfo, pos: usize },
    /// `<name ... />`
    Empty { name: Vec<u8>, attr: AttrInfo, pos: usize },
    /// `</name>`
    Close { name: Vec<u8>, pos: usize },
    /// A run of character data, still in escaped form.
    Text { raw: Vec<u8>, pos: usize },
    /// End of input.
    Eof { pos: usize },
    /// Any other lexical construct (declaration, comment, CDATA, processing
    /// instruction); the grammar rejects it wherever it appears.
    Other { pos: usize },
}

/// Ghost mirror of `Token`.
pub enum GToken {
    Open { name: Seq<u8>, attr: GAttrInfo, pos: usize },
    Empty { name: Seq<u8>, attr: GAttrInfo, pos: usize },
    Close { name: Seq<u8>, pos: usize },
    Text { raw: Seq<u8>, pos: usize },
    Eof { pos: usize },
    Other { pos: usize },
}

impl View for Attr {
    type V = GAttr;

    open spec fn view(&self) -> GAttr {
        GAttr { key: self.key@, value: self.value@ }
    }
}

impl View for AttrInfo {
    type V = GAttrInfo;

    open spec fn view(&self) -> GAttrInfo {
        match self {
            AttrInfo::Absent => GAttrInfo::Absent,
            AttrInfo::Single(a) => GAttrInfo::Single(a@),
            AttrInfo::Several(a) => GAttrInfo::Several(a@),
            AttrInfo::Malformed => GAttrInfo::Malformed,
        }
    }
}

impl View for Token {
    type V = GToken;

    open spec fn view(&self) -> GToken {
        match self {
            Token::Open { name, attr, pos } => GToken::Open {
                name: name@,
                attr: attr@,
                pos: *pos,
            },
            Token::Empty { name, attr, pos } => GToken::Empty {
                name: name@,
                attr: attr@,
                pos: *pos,
            },
            Token::Close { name, pos } => GToken::Close { name: name@, pos: *pos },
            Token::Text { raw, pos } => GToken::Text { raw: raw@, pos: *pos },
            Token::Eof { pos } => GToken::Eof { pos: *pos },
            Token::Other { pos } => GToken::Other { pos: *pos },
        }
    }
}

impl GToken {
    /// The byte offset just past this token.
    pub open spec fn pos(self) -> usize {
        match self {
            GToken::Open { pos, .. } => pos,
            GToken::Empty { pos, .. } => pos,
            GToken::Close { pos, .. } => pos,
            GToken::Text { pos, .. } => pos,
            GToken::Eof { pos } => pos,
            GToken::Other { pos } => pos,
        }
    }
}

/// A fully lexed input: every token the tokenizer produced, and, when lexing
/// stopped on a malformed construct, the byte position of that failure. The
/// decoder reads tokens in order and surfaces the failure only if it
/// actually reaches it.
pub struct TokenStream {
    pub tokens: Vec<Token>,
    pub fail: Option<usize>,
}

/// Ghost mirror of `TokenStream`.
pub struct GLex {
    pub toks: Seq<GToken>,
    pub fail: Option<usize>,
}

impl View for TokenStream {
    type V = GLex;

    open spec fn view(&self) -> GLex {
        GLex { toks: self.tokens@.map_values(|t: Token| t@), fail: self.fail }
    }
}

impl GLex {
    /// The position a read at index `i` reports when it cannot deliver a
    /// token: the lexing failure's position, or the end of the last token.
    pub open spec fn end_pos(self) -> usize {
        match self.fail {
            Some(p) => p,
            None => if self.toks.len() > 0 {
                self.toks.last().pos()
            } else {
                0
            },
        }
    }

    /// Position reported for the read of the token at index `i`.
    pub open spec fn pos_at(self, i: int) -> usize {
        if 0 <= i < self.toks.len() {
            self.toks[i].pos()
        } else {
            self.end_pos()
        }
    }

    /// Whether index `i` holds a real token.
    pub open spec fn has(self, i: int) -> bool {
        0 <= i < self.toks.len()
    }
}

} // verus!
