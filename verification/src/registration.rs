use vstd::prelude::*;
use vstd::string::*;

verus! {

/// A token of a function's source as far as finding its name needs it:
/// an identifier or keyword with its text, or anything else.
#[derive(Clone, Debug)]
pub enum Token {
    Ident(String),
    Other,
}

/// The token is the keyword that introduces a function.
pub open spec fn is_fn_keyword(token: Token) -> bool {
    match token {
        Token::Ident(text) => text@ == "fn"@,
        Token::Other => false,
    }
}

/// Position of the first `fn` keyword from `from` on.
pub open spec fn first_fn(tokens: Seq<Token>, from: int) -> Option<int>
    decreases tokens.len() - from,
{
    if from < 0 || from >= tokens.len() {
        None
    } else if is_fn_keyword(tokens[from]) {
        Some(from)
    } else {
        first_fn(tokens, from + 1)
    }
}

/// Position of the function's name: the identifier right behind the
/// first `fn` keyword. There is none where no `fn` occurs or where
/// something else follows it.
pub open spec fn find_name_spec(tokens: Seq<Token>) -> Option<int> {
    match first_fn(tokens, 0) {
        Some(at) => if at + 1 < tokens.len() && tokens[at + 1] is Ident {
            Some(at + 1)
        } else {
            None
        },
        None => None,
    }
}

/// Finds the position of the name of the function that the tokens declare.
pub fn find_name(tokens: &Vec<Token>) -> (position: Option<usize>)
    ensures
        match find_name_spec(tokens@) {
            Some(at) => position == Some(at as usize) && 0 < at < tokens@.len() && tokens@[at] is Ident
                && is_fn_keyword(tokens@[at - 1]),
            None => position is None,
        },
{
    let keyword = String::from_str("fn");
    let mut i: usize = 0;
    while i < tokens.len()
        invariant
            0 <= i <= tokens@.len(),
            keyword@ == "fn"@,
            first_fn(tokens@, 0) == first_fn(tokens@, i as int),
        decreases tokens@.len() - i,
    {
        let found = match &tokens[i] {
            Token::Ident(text) => *text == keyword,
            Token::Other => false,
        };
        if found {
            if i + 1 < tokens.len() {
                return match &tokens[i + 1] {
                    Token::Ident(_) => Some(i + 1),
                    Token::Other => None,
                };
            }
            return None;
        }
        i += 1;
    }
    None
}

/// The name of the function that wraps the benchmark `name`.
pub fn wrapper_name(name: &str) -> (wrapper: String)
    ensures
        wrapper@ == "wrap_"@ + name@,
{
    String::from_str("wrap_").concat(name)
}

/// The name of the constant that registers the benchmark `name`.
pub fn const_name(name: &str) -> (constant: String)
    ensures
        constant@ == "IAI_FUNC_"@ + name@,
{
    String::from_str("IAI_FUNC_").concat(name)
}

} // verus!
