use vstd::prelude::*;

verus! {

/// One classified lexical unit of a source file, as the extractor sees it.
///
/// The lexical analyzer itself is an external collaborator: whoever tokenizes
/// a source unit hands the extractor a sequence of these values. Only the
/// distinctions the extractor acts on are kept as variants; every other token
/// is carried as `Other` together with its textual form.
#[derive(Debug, Clone, PartialEq, Eq)]
pub enum Tok {
    /// The keyword that introduces a function declaration.
    KwFn,
    /// The keyword that introduces a struct declaration.
    KwStruct,
    /// The keyword that introduces a trait declaration.
    KwTrait,
    /// The keyword that introduces a module declaration.
    KwMod,
    /// The keyword that introduces an extension (`impl`) block.
    KwImpl,
    /// The visibility marker on fields and parameters.
    KwPub,
    /// An opening brace.
    LBrace,
    /// A closing brace.
    RBrace,
    /// A semicolon.
    Semi,
    /// A comma.
    Comma,
    /// An identifier, carrying its name.
    Ident(String),
    /// A single-line doc comment attached to the declaration that follows it.
    DocLine(String),
    /// A block doc comment attached to the declaration that follows it.
    DocBlock(String),
    /// An outer comment, documenting the enclosing unit rather than the
    /// item that follows.
    DocOuter(String),
    /// Any other token, carrying its textual form.
    Other(String),
}

/// The textual form of a token, as used when signature text is rebuilt.
/// For doc-comment tokens this is the comment text itself.
pub open spec fn tok_text(t: Tok) -> Seq<char> {
    match t {
        Tok::KwFn => "fn"@,
        Tok::KwStruct => "struct"@,
        Tok::KwTrait => "trait"@,
        Tok::KwMod => "mod"@,
        Tok::KwImpl => "impl"@,
        Tok::KwPub => "pub"@,
        Tok::LBrace => "{"@,
        Tok::RBrace => "}"@,
        Tok::Semi => ";"@,
        Tok::Comma => ","@,
        Tok::Ident(s) => s@,
        Tok::DocLine(s) => s@,
        Tok::DocBlock(s) => s@,
        Tok::DocOuter(s) => s@,
        Tok::Other(s) => s@,
    }
}

/// True of the keywords that bound the backward search for a declaration's
/// doc comments: reaching one of these stops the search.
pub open spec fn is_decl_boundary(t: Tok) -> bool {
    t is KwFn || t is KwMod || t is KwStruct || t is KwTrait || t is KwImpl
}

/// True of an ordinary doc comment, the style attached to the next declaration.
pub open spec fn is_ordinary_doc(t: Tok) -> bool {
    t is DocLine || t is DocBlock
}

/// The text carried by an ordinary doc comment; empty for other tokens.
pub open spec fn ordinary_doc_text(t: Tok) -> Seq<char> {
    match t {
        Tok::DocLine(s) => s@,
        Tok::DocBlock(s) => s@,
        _ => Seq::empty(),
    }
}

/// The text carried by an outer comment; empty for other tokens.
pub open spec fn outer_doc_text(t: Tok) -> Seq<char> {
    match t {
        Tok::DocOuter(s) => s@,
        _ => Seq::empty(),
    }
}

/// A copy of a token, equal to the one given.
pub fn clone_tok(t: &Tok) -> (r: Tok)
    ensures
        r == *t,
{
    match t {
        Tok::KwFn => Tok::KwFn,
        Tok::KwStruct => Tok::KwStruct,
        Tok::KwTrait => Tok::KwTrait,
        Tok::KwMod => Tok::KwMod,
        Tok::KwImpl => Tok::KwImpl,
        Tok::KwPub => Tok::KwPub,
        Tok::LBrace => Tok::LBrace,
        Tok::RBrace => Tok::RBrace,
        Tok::Semi => Tok::Semi,
        Tok::Comma => Tok::Comma,
        Tok::Ident(s) => Tok::Ident(s.clone()),
        Tok::DocLine(s) => Tok::DocLine(s.clone()),
        Tok::DocBlock(s) => Tok::DocBlock(s.clone()),
        Tok::DocOuter(s) => Tok::DocOuter(s.clone()),
        Tok::Other(s) => Tok::Other(s.clone()),
    }
}

/// The textual form of a token, for rebuilding signature text.
pub fn tok_text_str(t: &Tok) -> (r: &str)
    ensures
        r@ == tok_text(*t),
{
    match t {
        Tok::KwFn => "fn",
        Tok::KwStruct => "struct",
        Tok::KwTrait => "trait",
        Tok::KwMod => "mod",
        Tok::KwImpl => "impl",
        Tok::KwPub => "pub",
        Tok::LBrace => "{",
        Tok::RBrace => "}",
        Tok::Semi => ";",
        Tok::Comma => ",",
        Tok::Ident(s) => s.as_str(),
        Tok::DocLine(s) => s.as_str(),
        Tok::DocBlock(s) => s.as_str(),
        Tok::DocOuter(s) => s.as_str(),
        Tok::Other(s) => s.as_str(),
    }
}

} // verus!
