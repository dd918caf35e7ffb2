use parser_combinators::{
    alphanumeric, digit, integer, letter, many, or, replicate, sep_by, sequence2, char1, many1,
    string, whitespace, Parser, ParserError,
};

#[test]
fn parser_test() {
    assert_eq!(digit().parse("123").unwrap(), ("1".to_string(), "23"));
    assert_eq!(many(digit()).parse("123").unwrap(), ("123".to_owned(), ""));
}

#[test]
fn test_digit_many() {
    assert_eq!(many(digit()).parse("123").unwrap(), ("123".to_owned(), ""));
}

#[test]
fn test_or_many() {
    assert_eq!(
        many(or(letter(), digit())).parse("abc123").unwrap(),
        ("abc123".to_string(), "")
    );
}

#[test]
fn test_digit() {
    assert_eq!(digit().parse("123").unwrap(), ("1".to_string(), "23"));
}

#[test]
fn test_integer() {
    assert_eq!(integer().parse("123"), Ok((123, "")));
    assert_eq!(integer().parse("abc"), Err(ParserError::NotSatisfy));
    assert_eq!(
        (integer(), alphanumeric()).parse("123a"),
        Ok(((123, "a".to_owned()), ""))
    );
}

#[test]
fn test_or() {
    assert_eq!(
        or(letter(), digit()).parse("a").unwrap(),
        ("a".to_string(), "")
    );
    assert_eq!(
        or(letter(), digit()).parse("1").unwrap(),
        ("1".to_string(), "")
    );
    assert_eq!(
        or(letter(), digit()).parse("!"),
        Err(ParserError::NotSatisfy)
    );
    assert_eq!(
        or(
            sequence2(char1('a'), char1('b')),
            sequence2(char1('c'), char1('b'))
        )
        .parse("ab")
        .unwrap(),
        ("ab".to_owned(), "")
    );
    assert_eq!(
        or(
            sequence2(char1('a'), char1('b')),
            sequence2(char1('c'), char1('b'))
        )
        .parse("cb")
        .unwrap(),
        ("cb".to_owned(), "")
    );
    assert_eq!(
        or(
            sequence2(char1('a'), char1('b')),
            sequence2(char1('c'), char1('b'))
        )
        .parse("acb")
        .unwrap_err(),
        ParserError::NotSatisfy,
    );
}

#[test]
fn test_tuple2() {
    let (res, _rest) = (integer(), string("abc")).parse("123abc").unwrap();
    assert_eq!(res.0, 123);
    assert_eq!(res.1, "abc".to_owned());

    let (res, _rest) = (integer(), string("abc"))
        .map(|res: (i64, String)| res.0)
        .parse("123abc")
        .unwrap();
    assert_eq!(res, 123);
}

#[test]
fn test_tuple3() {
    let (res, _rest) = (integer(), string("abc"), integer())
        .parse("123abc111")
        .unwrap();
    assert_eq!(res.0, 123);
    assert_eq!(res.1, "abc".to_owned());
    assert_eq!(res.2, 111);
}

#[test]
fn test_replicate() {
    assert_eq!(
        sequence2(letter(), replicate(2, digit()))
            .parse("a23")
            .unwrap(),
        ("a23".to_string(), "")
    );
    assert_eq!(
        sequence2(letter(), replicate(2, digit()))
            .parse("abc")
            .unwrap_err(),
        ParserError::NotSatisfy,
    );
}

#[test]
fn test_sep_by() {
    let word = many1(letter());
    let parser = sep_by(whitespace(), word);
    let result = parser.parse("Pick up that word!");
    assert_eq!(
        result,
        Ok((
            vec![
                "Pick".to_owned(),
                "up".to_owned(),
                "that".to_owned(),
                "word".to_owned()
            ],
            "!"
        ))
    );
}

#[test]
fn test_sep_by_with_map() {
    let word = many1(letter());
    let parser = sep_by(whitespace(), word).map(|mut words: Vec<String>| words.pop());
    let result = parser.parse("Pick up that word!");
    assert_eq!(result, Ok((Some("word".to_string()), "!")));
}

#[test]
fn test_sep_by_with_space() {
    let word = many1(letter());
    let parser = sep_by(whitespace(), word);
    let result = parser.parse(" Pick up that word!");
    assert_eq!(result, Ok((vec![], " Pick up that word!")));
}

#[test]
fn test_sequence2() {
    assert_eq!(
        sequence2(letter(), digit()).parse("a1").unwrap(),
        ("a1".to_string(), "")
    );
    assert_eq!(
        sequence2(letter(), digit()).parse("aa").unwrap_err(),
        ParserError::NotSatisfy
    );
}

#[test]
fn test_letter() {
    assert_eq!(letter().parse("abc").unwrap(), ("a".to_string(), "bc"));
}

#[test]
fn test_string() {
    assert_eq!(
        or(string("ab"), string("ac")).parse("ab"),
        Ok(("ab".to_string(), ""))
    );
    assert_eq!(
        or(string("ab"), string("ac")).parse("ac"),
        Ok(("ac".to_string(), ""))
    );
}
