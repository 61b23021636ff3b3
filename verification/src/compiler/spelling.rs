use vstd::prelude::*;
use crate::compiler::lexer::{TokenV, operator_token, word_token};
use crate::compiler::ast::Type;
use crate::compiler::parser::type_named;

verus! {

/// How a keyword or punctuation token is written in source text.
pub open spec fn token_text(t: TokenV) -> Option<Seq<char>> {
    match t {
        TokenV::Let => Some(seq!['l', 'e', 't']),
        TokenV::Fn => Some(seq!['f', 'n']),
        TokenV::If => Some(seq!['i', 'f']),
        TokenV::Else => Some(seq!['e', 'l', 's', 'e']),
        TokenV::While => Some(seq!['w', 'h', 'i', 'l', 'e']),
        TokenV::Return => Some(seq!['r', 'e', 't', 'u', 'r', 'n']),
        TokenV::Equal => Some(seq!['=']),
        TokenV::EqualEqual => Some(seq!['=', '=']),
        TokenV::Plus => Some(seq!['+']),
        TokenV::Minus => Some(seq!['-']),
        TokenV::Star => Some(seq!['*']),
        TokenV::Slash => Some(seq!['/']),
        TokenV::Percent => Some(seq!['%']),
        TokenV::Lt => Some(seq!['<']),
        TokenV::Gt => Some(seq!['>']),
        TokenV::Le => Some(seq!['<', '=']),
        TokenV::Ge => Some(seq!['>', '=']),
        TokenV::NotEqual => Some(seq!['!', '=']),
        TokenV::AndAnd => Some(seq!['&', '&']),
        TokenV::OrOr => Some(seq!['|', '|']),
        TokenV::Arrow => Some(seq!['-', '>']),
        TokenV::PlusEqual => Some(seq!['+', '=']),
        TokenV::MinusEqual => Some(seq!['-', '=']),
        TokenV::LParen => Some(seq!['(']),
        TokenV::RParen => Some(seq![')']),
        TokenV::LBrace => Some(seq!['{']),
        TokenV::RBrace => Some(seq!['}']),
        TokenV::LBracket => Some(seq!['[']),
        TokenV::RBracket => Some(seq![']']),
        TokenV::Comma => Some(seq![',']),
        TokenV::Colon => Some(seq![':']),
        TokenV::Semicolon => Some(seq![';']),
        TokenV::Dot => Some(seq!['.']),
        TokenV::Bang => Some(seq!['!']),
        _ => None,
    }
}

/// An operator or punctuation token is what the source writes: the
/// characters it takes are exactly its spelling, and a two-character
/// spelling is taken whole wherever it is written (`<=` is never `<` then
/// `=`).
pub proof fn lemma_operator_spelling(s: Seq<char>, i: int)
    requires
        0 <= i < s.len(),
    ensures
        operator_token(s, i) matches Some((t, n)) ==> i + n <= s.len() && token_text(t) == Some(
            s.subrange(i, i + n),
        ),
        (forall|t: TokenV|
            #![trigger token_text(t)]
            token_text(t) matches Some(w) && w.len() == 2 && i + 2 <= s.len() && s.subrange(i, i + 2) == w
                && (t is Le || t is Ge || t is EqualEqual || t is NotEqual || t is AndAnd || t is OrOr
                || t is PlusEqual || t is MinusEqual || t is Arrow) ==> operator_token(s, i) == Some((t, 2int))),
{
    if let Some((t, n)) = operator_token(s, i) {
        assert(s.subrange(i, i + n) =~= token_text(t)->Some_0);
    }
    assert forall|t: TokenV|
        #![trigger token_text(t)]
        token_text(t) matches Some(w) && w.len() == 2 && i + 2 <= s.len() && s.subrange(i, i + 2) == w
            && (t is Le || t is Ge || t is EqualEqual || t is NotEqual || t is AndAnd || t is OrOr
            || t is PlusEqual || t is MinusEqual || t is Arrow) implies operator_token(s, i) == Some((t, 2int)) by {
        let w = token_text(t)->Some_0;
        assert(s[i] == s.subrange(i, i + 2)[0]);
        assert(s[i + 1] == s.subrange(i, i + 2)[1]);
        assert(s[i] == w[0] && s[i + 1] == w[1]);
    }
}

/// A keyword is what the source writes: a word that the lexer reads as a
/// keyword is spelled as that keyword, and every other word is an
/// identifier of that name.
pub proof fn lemma_keyword_spelling(w: Seq<char>)
    ensures
        match word_token(w) {
            TokenV::Identifier(name) => name == w && (forall|t: TokenV|
                #![trigger token_text(t)]
                (t is Let || t is Fn || t is If || t is Else || t is While || t is Return) ==> token_text(t)
                    != Some(w)),
            t => token_text(t) == Some(w),
        },
{
    reveal_strlit("let");
    reveal_strlit("fn");
    reveal_strlit("if");
    reveal_strlit("else");
    reveal_strlit("while");
    reveal_strlit("return");
    assert("let"@ =~= seq!['l', 'e', 't']);
    assert("fn"@ =~= seq!['f', 'n']);
    assert("if"@ =~= seq!['i', 'f']);
    assert("else"@ =~= seq!['e', 'l', 's', 'e']);
    assert("while"@ =~= seq!['w', 'h', 'i', 'l', 'e']);
    assert("return"@ =~= seq!['r', 'e', 't', 'u', 'r', 'n']);
}


/// How a type is written in a declaration; `Void` is never written.
pub open spec fn type_spelling(t: Type) -> Option<Seq<char>> {
    match t {
        Type::Int => Some(seq!['I', 'n', 't']),
        Type::Float => Some(seq!['F', 'l', 'o', 'a', 't']),
        Type::String => Some(seq!['S', 't', 'r', 'i', 'n', 'g']),
        Type::Tensor => Some(seq!['T', 'e', 'n', 's', 'o', 'r']),
        Type::DynamicArray => Some(seq!['D', 'y', 'n', 'a', 'm', 'i', 'c', 'A', 'r', 'r', 'a', 'y']),
        Type::Void => None,
    }
}

/// A type name denotes the type spelled that way, and every type that can
/// be written is named by its spelling.
pub proof fn lemma_type_names(name: Seq<char>, t: Type)
    ensures
        type_named(name) matches Some(u) ==> type_spelling(u) == Some(name),
        type_spelling(t) matches Some(w) ==> type_named(w) == Some(t),
{
    reveal_strlit("Int");
    reveal_strlit("Float");
    reveal_strlit("String");
    reveal_strlit("Tensor");
    reveal_strlit("DynamicArray");
    assert("Int"@ =~= seq!['I', 'n', 't']);
    assert("Float"@ =~= seq!['F', 'l', 'o', 'a', 't']);
    assert("String"@ =~= seq!['S', 't', 'r', 'i', 'n', 'g']);
    assert("Tensor"@ =~= seq!['T', 'e', 'n', 's', 'o', 'r']);
    assert("DynamicArray"@ =~= seq!['D', 'y', 'n', 'a', 'm', 'i', 'c', 'A', 'r', 'r', 'a', 'y']);
}

} // verus!
