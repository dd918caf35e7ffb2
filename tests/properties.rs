use parser_combinators::chars::{Digit, Equals};
use parser_combinators::{
    alphanumeric, char1, digit, integer, letter, lower, many, many1, newline, or, replicate,
    satisfy, sep_by, sequence2, string, upper, whitespace, Parser, ParserError,
};

#[test]
fn satisfy_takes_one_codepoint_of_any_width() {
    let any = |_c: char| true;
    assert_eq!(satisfy(any).parse("ab"), Ok(("a".to_string(), "b")));
    assert_eq!(satisfy(any).parse("éx"), Ok(("é".to_string(), "x")));
    assert_eq!(satisfy(any).parse("€x"), Ok(("€".to_string(), "x")));
    assert_eq!(satisfy(any).parse("😀x"), Ok(("😀".to_string(), "x")));
    assert_eq!(satisfy(any).parse("😀"), Ok(("😀".to_string(), "")));
}

#[test]
fn satisfy_fails_on_empty_and_on_rejection() {
    let vowel = |c: char| "aeiou".contains(c);
    assert_eq!(satisfy(vowel).parse(""), Err(ParserError::ParsePositionError));
    assert_eq!(satisfy(vowel).parse("xa"), Err(ParserError::NotSatisfy));
    assert_eq!(satisfy(vowel).parse("ax"), Ok(("a".to_string(), "x")));
    assert_eq!(satisfy(Digit).parse("7"), Ok(("7".to_string(), "")));
    assert_eq!(satisfy(Equals('é')).parse("éé"), Ok(("é".to_string(), "é")));
}

#[test]
fn many_never_fails() {
    assert_eq!(many(digit()).parse(""), Ok((String::new(), "")));
    assert_eq!(many(digit()).parse("abc"), Ok((String::new(), "abc")));
    assert_eq!(many(letter()).parse("ab1"), Ok(("ab".to_string(), "1")));
}

#[test]
fn many_stops_when_nothing_is_consumed() {
    assert_eq!(many(many(digit())).parse("12a"), Ok(("12".to_string(), "a")));
    assert_eq!(many(many(digit())).parse("abc"), Ok((String::new(), "abc")));
}

#[test]
fn many1_needs_one() {
    assert_eq!(many1(digit()).parse("12a"), Ok(("12".to_string(), "a")));
    assert_eq!(many1(digit()).parse("a"), Err(ParserError::NotSatisfy));
    assert_eq!(many1(digit()).parse(""), Err(ParserError::ParsePositionError));
}

#[test]
fn or_retries_from_the_same_input() {
    let p = or(sequence2(char1('a'), char1('b')), sequence2(char1('a'), char1('c')));
    assert_eq!(p.parse("acd"), Ok(("ac".to_string(), "d")));
    assert_eq!(or(string("abx"), string("ab")).parse("abc"), Ok(("ab".to_string(), "c")));
}

#[test]
fn or_returns_the_second_error() {
    assert_eq!(or(digit(), string("xyz")).parse("xy"), Err(ParserError::ParsePositionError));
    assert_eq!(or(string("xyz"), digit()).parse("xy"), Err(ParserError::NotSatisfy));
}

#[test]
fn or_is_left_biased() {
    let p = or(string("ab"), sequence2(char1('a'), char1('b')).map(|s: String| s + "!"));
    assert_eq!(p.parse("abc"), Ok(("ab".to_string(), "c")));
    let q = or(sequence2(char1('a'), char1('b')).map(|s: String| s + "!"), string("ab"));
    assert_eq!(q.parse("abc"), Ok(("ab!".to_string(), "c")));
}

#[test]
fn string_round_trip() {
    assert_eq!(string("let").parse("let x"), Ok(("let".to_string(), " x")));
    assert_eq!(string("héllo").parse("héllo wörld"), Ok(("héllo".to_string(), " wörld")));
    assert_eq!(string("").parse("abc"), Ok((String::new(), "abc")));
    assert_eq!(string("abc").parse("abc"), Ok(("abc".to_string(), "")));
}

#[test]
fn string_errors() {
    assert_eq!(string("abc").parse("ab"), Err(ParserError::ParsePositionError));
    assert_eq!(string("abc").parse("abd"), Err(ParserError::NotSatisfy));
    assert_eq!(string("abc").parse(""), Err(ParserError::ParsePositionError));
}

#[test]
fn scenario_digit() {
    assert_eq!(digit().parse("123"), Ok(("1".to_string(), "23")));
}

#[test]
fn scenario_many_digit() {
    assert_eq!(many(digit()).parse("123"), Ok(("123".to_string(), "")));
}

#[test]
fn scenario_or_rejects() {
    assert_eq!(or(letter(), digit()).parse("!"), Err(ParserError::NotSatisfy));
}

#[test]
fn scenario_replicate() {
    assert_eq!(replicate(2, digit()).parse("23x"), Ok(("23".to_string(), "x")));
    assert_eq!(replicate(2, digit()).parse("2x"), Err(ParserError::NotSatisfy));
}

#[test]
fn replicate_edges() {
    assert_eq!(replicate(0, digit()).parse("abc"), Ok((String::new(), "abc")));
    assert_eq!(replicate(3, digit()).parse("12"), Err(ParserError::ParsePositionError));
}

#[test]
fn scenario_sep_by_words() {
    assert_eq!(
        sep_by(whitespace(), many1(letter())).parse("Pick up that word!"),
        Ok((
            vec!["Pick".to_string(), "up".to_string(), "that".to_string(), "word".to_string()],
            "!"
        ))
    );
}

#[test]
fn sep_by_edges() {
    let p = sep_by(char1(','), many1(digit()));
    assert_eq!(p.parse(""), Ok((vec![], "")));
    assert_eq!(p.parse("1,22,333"), Ok((vec!["1".to_string(), "22".to_string(), "333".to_string()], "")));
    assert_eq!(p.parse("1,22,"), Ok((vec!["1".to_string(), "22".to_string()], "")));
    assert_eq!(p.parse("1;2"), Ok((vec!["1".to_string()], ";2")));
}

#[test]
fn sep_by_stops_when_nothing_is_consumed() {
    let p = sep_by(many(whitespace()), many(digit()));
    assert_eq!(p.parse("ab"), Ok((vec![String::new()], "ab")));
}

#[test]
fn scenario_integer() {
    assert_eq!(integer().parse("123abc"), Ok((123, "abc")));
    assert_eq!(integer().parse("abc"), Err(ParserError::NotSatisfy));
}

#[test]
fn integer_edges() {
    assert_eq!(integer().parse(""), Err(ParserError::ParsePositionError));
    assert_eq!(integer().parse("007"), Ok((7, "")));
    assert_eq!(integer().parse("9223372036854775807"), Ok((i64::MAX, "")));
    assert_eq!(integer().parse("9223372036854775808"), Ok((i64::MIN, "")));
}

#[test]
fn character_classes() {
    assert_eq!(upper().parse("Ab"), Ok(("A".to_string(), "b")));
    assert_eq!(upper().parse("ab"), Err(ParserError::NotSatisfy));
    assert_eq!(lower().parse("ab"), Ok(("a".to_string(), "b")));
    assert_eq!(lower().parse("Ab"), Err(ParserError::NotSatisfy));
    assert_eq!(letter().parse("éa"), Ok(("é".to_string(), "a")));
    assert_eq!(letter().parse("1a"), Err(ParserError::NotSatisfy));
    assert_eq!(alphanumeric().parse("9a"), Ok(("9".to_string(), "a")));
    assert_eq!(alphanumeric().parse("-a"), Err(ParserError::NotSatisfy));
    assert_eq!(newline().parse("\nx"), Ok(("\n".to_string(), "x")));
    assert_eq!(newline().parse(" x"), Err(ParserError::NotSatisfy));
    assert_eq!(whitespace().parse(" x"), Ok((" ".to_string(), "x")));
    assert_eq!(whitespace().parse("\tx"), Err(ParserError::NotSatisfy));
    assert_eq!(char1('q').parse("qx"), Ok(("q".to_string(), "x")));
    assert_eq!(char1('q').parse(""), Err(ParserError::ParsePositionError));
}

#[test]
fn map_transforms_only_success() {
    let p = many1(digit()).map(|s: String| s.len());
    assert_eq!(p.parse("123x"), Ok((3, "x")));
    assert_eq!(p.parse("x"), Err(ParserError::NotSatisfy));
}

#[test]
fn tuple_fails_with_first_error() {
    assert_eq!((digit(), letter()).parse("1"), Err(ParserError::ParsePositionError));
    assert_eq!((digit(), letter(), digit()).parse("1a!"), Err(ParserError::NotSatisfy));
    assert_eq!((digit(), letter(), digit()).parse("1a2b"), Ok((("1".to_string(), "a".to_string(), "2".to_string()), "b")));
}
