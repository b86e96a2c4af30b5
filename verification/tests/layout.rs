use ferrite::layout::{module_names, parse, Token};

#[test]
fn parses_placeholders_and_separators() {
    let toks = parse("{lang} | {cpu} {mem}");
    assert!(matches!(&toks[0], Token::Module(n) if n == "lang"));
    assert!(matches!(&toks[1], Token::Sep(s) if s == " | "));
    assert!(matches!(&toks[2], Token::Module(n) if n == "cpu"));
    assert!(matches!(&toks[3], Token::Sep(s) if s == " "));
    assert!(matches!(&toks[4], Token::Module(n) if n == "mem"));
}

#[test]
fn empty_braces_dropped() {
    let toks = parse("a{}b");
    assert_eq!(toks.len(), 1);
    assert!(matches!(&toks[0], Token::Sep(s) if s == "ab"));
}

#[test]
fn unterminated_brace_is_literal() {
    let toks = parse("{lang} {oops");
    assert_eq!(toks.len(), 2);
    assert!(matches!(&toks[0], Token::Module(n) if n == "lang"));
    assert!(matches!(&toks[1], Token::Sep(s) if s == " {oops"));
}

#[test]
fn module_names_dedupe_in_order() {
    let toks = parse("{a} {b} {a} {c}");
    assert_eq!(
        module_names(&toks),
        vec!["a".to_owned(), "b".into(), "c".into()]
    );
}

#[test]
fn unicode_separator_preserved() {
    let toks = parse("{cpu} · {mem}");
    assert!(matches!(&toks[1], Token::Sep(s) if s == " · "));
}

#[test]
fn plain_text_is_one_separator() {
    let toks = parse("no placeholders here");
    assert_eq!(toks.len(), 1);
    assert!(matches!(&toks[0], Token::Sep(s) if s == "no placeholders here"));
}

#[test]
fn placeholder_names_are_trimmed_and_blank_ones_vanish() {
    let toks = parse("{ cpu }{  }{mem}");
    assert_eq!(toks.len(), 2);
    assert!(matches!(&toks[0], Token::Module(n) if n == "cpu"));
    assert!(matches!(&toks[1], Token::Module(n) if n == "mem"));
}

#[test]
fn adjacent_placeholders_have_no_separator() {
    let toks = parse("{a}{b}");
    assert_eq!(toks.len(), 2);
    assert_eq!(module_names(&toks), vec!["a".to_owned(), "b".to_owned()]);
}

#[test]
fn empty_template_has_no_tokens() {
    assert!(parse("").is_empty());
}

#[test]
fn rendered_tokens_parse_back() {
    let template = "[{lang}] | {cpu} · {mem}!";
    let toks = parse(template);
    let rendered: String = toks
        .iter()
        .map(|t| match t {
            Token::Sep(s) => s.clone(),
            Token::Module(n) => format!("{{{n}}}"),
        })
        .collect();
    assert_eq!(rendered, template);
    let again = parse(&rendered);
    assert_eq!(again.len(), toks.len());
    assert_eq!(module_names(&again), vec!["lang".to_owned(), "cpu".to_owned(), "mem".to_owned()]);
}
