use iai::registration::const_name;
use iai::registration::find_name;
use iai::registration::wrapper_name;
use iai::registration::Token;

fn tokens(source: &[&str]) -> Vec<Token> {
    source
        .iter()
        .map(|t| {
            if t.chars().all(|c| c.is_alphanumeric() || c == '_') {
                Token::Ident(t.to_string())
            } else {
                Token::Other
            }
        })
        .collect()
}

#[test]
fn the_name_follows_the_keyword() {
    assert_eq!(find_name(&tokens(&["fn", "fib", "()", "{}"])), Some(1));
    assert_eq!(find_name(&tokens(&["#", "[inline]", "pub", "fn", "fib", "()", "{}"])), Some(4));
    assert_eq!(find_name(&tokens(&["fn", "fn", "x"])), Some(1));
    assert_eq!(find_name(&tokens(&["fnx", "a", "fn", "b", "fn", "c"])), Some(3));
}

#[test]
fn no_name_without_keyword_or_identifier() {
    assert_eq!(find_name(&tokens(&[])), None);
    assert_eq!(find_name(&tokens(&["pub", "struct", "S"])), None);
    assert_eq!(find_name(&tokens(&["fn"])), None);
    assert_eq!(find_name(&tokens(&["fn", "()", "name"])), None);
    assert_eq!(find_name(&tokens(&["fn", "()", "fn", "name"])), None);
}

#[test]
fn generated_names_carry_the_function_name() {
    assert_eq!(wrapper_name("fib"), "wrap_fib");
    assert_eq!(const_name("fib"), "IAI_FUNC_fib");
    assert_eq!(wrapper_name(""), "wrap_");
    assert_eq!(const_name(""), "IAI_FUNC_");
}
