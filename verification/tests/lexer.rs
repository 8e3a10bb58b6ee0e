use kumir_lang::lexer::{
    same_text, tokenize, Condition, Delimiter, Function, FunctionParamType, Keyword, LexError, Lexer,
    Loop, Number, Operator, Range, Token, TypeDefinition, IO,
};

fn all_tokens(source: &str) -> Vec<Token> {
    tokenize(source).expect("the text is a token sequence")
}

#[test]
fn declaration_and_assignment_are_lexed() {
    assert_eq!(
        all_tokens("цел a\na := 2+3*4"),
        vec![
            Token::Keyword(Keyword::TypeDef(TypeDefinition::Int)),
            Token::Identifier("a".to_string()),
            Token::Identifier("a".to_string()),
            Token::Operator(Operator::Assignment),
            Token::Int(2),
            Token::Operator(Operator::Plus),
            Token::Int(3),
            Token::Operator(Operator::Multiply),
            Token::Int(4),
        ]
    );
}

#[test]
fn every_keyword_is_recognised() {
    let table = [
        ("алг", Keyword::Function(Function::Alg)),
        ("нач", Keyword::Function(Function::Start)),
        ("кон", Keyword::Function(Function::Stop)),
        ("использовать", Keyword::Function(Function::ImportNamespace)),
        ("арг", Keyword::Function(Function::FunctionParamType(FunctionParamType::ArgumentParam))),
        ("рез", Keyword::Function(Function::FunctionParamType(FunctionParamType::ResultParam))),
        (
            "аргрез",
            Keyword::Function(Function::FunctionParamType(FunctionParamType::ArgumentResultParam)),
        ),
        ("цел", Keyword::TypeDef(TypeDefinition::Int)),
        ("вещ", Keyword::TypeDef(TypeDefinition::Float)),
        ("лог", Keyword::TypeDef(TypeDefinition::Bool)),
        ("сим", Keyword::TypeDef(TypeDefinition::Char)),
        ("лит", Keyword::TypeDef(TypeDefinition::String)),
        ("если", Keyword::Condition(Condition::If)),
        ("все", Keyword::Condition(Condition::EndCondition)),
        ("то", Keyword::Condition(Condition::Then)),
        ("иначе", Keyword::Condition(Condition::Else)),
        ("нц", Keyword::Loop(Loop::Start)),
        ("кц_при", Keyword::Loop(Loop::EndIf)),
        ("кц", Keyword::Loop(Loop::End)),
        ("пока", Keyword::Loop(Loop::While)),
        ("выход", Keyword::Loop(Loop::Break)),
        ("раз", Keyword::Loop(Loop::Times)),
        ("для", Keyword::Range(Range::For)),
        ("от", Keyword::Range(Range::From)),
        ("до", Keyword::Range(Range::To)),
        ("ввод", Keyword::IO(IO::Input)),
        ("нс", Keyword::IO(IO::ChangeLine)),
        ("вывод", Keyword::IO(IO::Output)),
    ];
    for (word, keyword) in table {
        assert_eq!(Keyword::from_word(word), Some(keyword), "{}", word);
        assert_eq!(all_tokens(word), vec![Token::Keyword(keyword)], "{}", word);
    }
    assert_eq!(Keyword::from_word("алгоритм"), None);
    assert_eq!(Keyword::from_word(""), None);
}

#[test]
fn boolean_words_are_literals() {
    assert_eq!(all_tokens("да нет"), vec![Token::Bool(true), Token::Bool(false)]);
    assert_eq!(all_tokens("данет"), vec![Token::Identifier("данет".to_string())]);
}

#[test]
fn words_may_hold_digits_and_underscores() {
    assert_eq!(
        all_tokens("_x1 y_2 кц_при1"),
        vec![
            Token::Identifier("_x1".to_string()),
            Token::Identifier("y_2".to_string()),
            Token::Identifier("кц_при1".to_string()),
        ]
    );
}

#[test]
fn compound_operators_take_two_characters() {
    assert_eq!(
        all_tokens(":= <> >= <= == = : > < + - * /"),
        vec![
            Token::Operator(Operator::Assignment),
            Token::Operator(Operator::NotEqual),
            Token::Operator(Operator::GreaterOrEqual),
            Token::Operator(Operator::LessOrEqual),
            Token::Operator(Operator::EqualBool),
            Token::Operator(Operator::Equal),
            Token::Operator(Operator::Colon),
            Token::Operator(Operator::Greater),
            Token::Operator(Operator::Less),
            Token::Operator(Operator::Plus),
            Token::Operator(Operator::Minus),
            Token::Operator(Operator::Multiply),
            Token::Operator(Operator::Divide),
        ]
    );
    assert_eq!(
        all_tokens("a<=b"),
        vec![
            Token::Identifier("a".to_string()),
            Token::Operator(Operator::LessOrEqual),
            Token::Identifier("b".to_string()),
        ]
    );
    assert_eq!(
        all_tokens("==="),
        vec![Token::Operator(Operator::EqualBool), Token::Operator(Operator::Equal)]
    );
}

#[test]
fn delimiters_are_single_characters() {
    assert_eq!(
        all_tokens(".,;()"),
        vec![
            Token::Delimiter(Delimiter::Period),
            Token::Delimiter(Delimiter::Comma),
            Token::Delimiter(Delimiter::Semicolon),
            Token::Delimiter(Delimiter::ParenthesisOpen),
            Token::Delimiter(Delimiter::ParenthesisClose),
        ]
    );
}

#[test]
fn numbers_are_integers_or_reals() {
    assert_eq!(all_tokens("0 42 007"), vec![Token::Int(0), Token::Int(42), Token::Int(7)]);
    assert_eq!(
        all_tokens("3.14 1. 1.2.3"),
        vec![
            Token::Float("3.14".to_string()),
            Token::Float("1.".to_string()),
            Token::Float("1.2.3".to_string()),
        ]
    );
    assert_eq!(all_tokens("2147483647"), vec![Token::Int(2147483647)]);
}

#[test]
fn an_integer_too_large_reads_as_zero() {
    assert_eq!(all_tokens("2147483648"), vec![Token::Int(0)]);
    assert_eq!(all_tokens("99999999999999999999999999"), vec![Token::Int(0)]);
}

#[test]
fn strings_and_characters_are_literals() {
    assert_eq!(
        all_tokens("\"привет, мир\" 'я' \"\""),
        vec![
            Token::String("привет, мир".to_string()),
            Token::Char('я'),
            Token::String(String::new()),
        ]
    );
    assert_eq!(all_tokens("'''"), vec![Token::Char('\'')]);
}

#[test]
fn comments_and_whitespace_are_passed_over() {
    assert_eq!(
        all_tokens("  | первая строка\n\t цел | вторая\n| третья"),
        vec![Token::Keyword(Keyword::TypeDef(TypeDefinition::Int))]
    );
    assert_eq!(all_tokens(""), Vec::<Token>::new());
    assert_eq!(all_tokens(" \n\t "), Vec::<Token>::new());
    assert_eq!(all_tokens("| только комментарий"), Vec::<Token>::new());
}

#[test]
fn an_unknown_character_is_an_error() {
    assert_eq!(tokenize("цел a # b"), Err(LexError::UnknownCharacter('#')));
    let mut lexer = Lexer::new("@");
    assert_eq!(lexer.next_token(), Err(LexError::UnknownCharacter('@')));
    assert_eq!(lexer.next_token(), Err(LexError::UnknownCharacter('@')));
}

#[test]
fn an_unterminated_string_is_an_error() {
    assert_eq!(tokenize("\"без конца"), Err(LexError::UnterminatedLiteral));
    assert_eq!(tokenize("a := \""), Err(LexError::UnterminatedLiteral));
}

#[test]
fn a_character_literal_holds_one_character() {
    assert_eq!(tokenize("'ab'"), Err(LexError::InvalidCharLiteral));
    assert_eq!(tokenize("'a"), Err(LexError::UnterminatedLiteral));
    assert_eq!(tokenize("'"), Err(LexError::UnterminatedLiteral));
}

#[test]
fn next_token_ends_with_eof_and_stays_there() {
    let mut lexer = Lexer::new("a");
    assert_eq!(lexer.next_token(), Ok(Token::Identifier("a".to_string())));
    assert_eq!(lexer.next_token(), Ok(Token::Eof));
    assert_eq!(lexer.next_token(), Ok(Token::Eof));
}

#[test]
fn the_cursor_moves_one_character_at_a_time() {
    let mut lexer = Lexer::new("ab");
    assert_eq!(lexer.current_char(), Some('a'));
    lexer.advance();
    assert_eq!(lexer.current_char(), Some('b'));
    lexer.advance();
    assert_eq!(lexer.current_char(), None);
    lexer.advance();
    assert_eq!(lexer.current_char(), None);
}

#[test]
fn skip_whitespace_stops_at_the_first_other_character() {
    let mut lexer = Lexer::new(" \t\n x ");
    lexer.skip_whitespace();
    assert_eq!(lexer.current_char(), Some('x'));
    lexer.skip_whitespace();
    assert_eq!(lexer.current_char(), Some('x'));
}

#[test]
fn skip_string_passes_over_the_line() {
    let mut lexer = Lexer::new("abc\ndef");
    lexer.skip_string();
    assert_eq!(lexer.current_char(), Some('d'));
    lexer.skip_string();
    assert_eq!(lexer.current_char(), None);
}

#[test]
fn skip_blanks_passes_over_comments() {
    let mut lexer = Lexer::new("  | a\n | b\n  c");
    lexer.skip_blanks();
    assert_eq!(lexer.current_char(), Some('c'));
}

#[test]
fn collect_word_reads_a_run_of_word_characters() {
    let mut lexer = Lexer::new("имя_1+2");
    assert_eq!(lexer.collect_word(), "имя_1");
    assert_eq!(lexer.current_char(), Some('+'));
    assert_eq!(lexer.collect_word(), "");
}

#[test]
fn collect_string_reads_up_to_the_quote() {
    let mut lexer = Lexer::new("текст\" дальше");
    assert_eq!(lexer.collect_string(), Some("текст".to_string()));
    assert_eq!(lexer.current_char(), Some(' '));
    let mut open = Lexer::new("нет конца");
    assert_eq!(open.collect_string(), None);
    assert_eq!(open.current_char(), None);
}

#[test]
fn collect_number_reads_digits_and_dots() {
    let mut lexer = Lexer::new("12.5x");
    assert_eq!(lexer.collect_number(), Number::Float("12.5".to_string()));
    assert_eq!(lexer.current_char(), Some('x'));
    let mut whole = Lexer::new("125 ");
    assert_eq!(whole.collect_number(), Number::Int(125));
    let mut none = Lexer::new("x");
    assert_eq!(none.collect_number(), Number::Int(0));
}

#[test]
fn collect_char_reads_one_character_and_its_quote() {
    let mut lexer = Lexer::new("я' ");
    assert_eq!(lexer.collect_char(), Ok(Token::Char('я')));
    assert_eq!(lexer.current_char(), Some('\''));
    let mut long = Lexer::new("яя'");
    assert_eq!(long.collect_char(), Err(LexError::InvalidCharLiteral));
    let mut short = Lexer::new("я");
    assert_eq!(short.collect_char(), Err(LexError::UnterminatedLiteral));
}

#[test]
fn collect_operator_looks_one_character_ahead() {
    let mut lexer = Lexer::new(":=1");
    assert_eq!(lexer.collect_operator(&':'), Ok(Token::Operator(Operator::Assignment)));
    assert_eq!(lexer.current_char(), Some('='));
    let mut single = Lexer::new(":1");
    assert_eq!(single.collect_operator(&':'), Ok(Token::Operator(Operator::Colon)));
    assert_eq!(single.current_char(), Some(':'));
    let mut other = Lexer::new("?");
    assert_eq!(other.collect_operator(&'?'), Err(LexError::UnknownCharacter('?')));
}

#[test]
fn precedence_orders_the_operators() {
    assert_eq!(Operator::Multiply.precedence(), 3);
    assert_eq!(Operator::Divide.precedence(), 3);
    assert_eq!(Operator::Plus.precedence(), 2);
    assert_eq!(Operator::Minus.precedence(), 2);
    assert_eq!(Operator::Greater.precedence(), 1);
    assert_eq!(Operator::Less.precedence(), 1);
    assert_eq!(Operator::GreaterOrEqual.precedence(), 1);
    assert_eq!(Operator::LessOrEqual.precedence(), 1);
    assert_eq!(Operator::EqualBool.precedence(), 0);
    assert_eq!(Operator::NotEqual.precedence(), 0);
    assert_eq!(Operator::Equal.precedence(), -1);
    assert_eq!(Operator::Colon.precedence(), -1);
    assert_eq!(Operator::Assignment.precedence(), -1);
}

#[test]
fn token_kinds_are_told_apart() {
    let plus = Token::Operator(Operator::Plus);
    assert_eq!(plus.as_operator(), Some(Operator::Plus));
    assert!(plus.is_operator(Operator::Plus));
    assert!(!plus.is_operator(Operator::Minus));
    assert!(!plus.is_delimiter(Delimiter::Comma));
    assert_eq!(Token::Int(1).as_operator(), None);
    assert!(Token::Delimiter(Delimiter::Comma).is_delimiter(Delimiter::Comma));
    assert!(Token::Keyword(Keyword::Loop(Loop::End)).is_keyword(Keyword::Loop(Loop::End)));
    assert!(!Token::Keyword(Keyword::Loop(Loop::End)).is_keyword(Keyword::Loop(Loop::EndIf)));
    assert!(Token::Eof.is_eof());
    assert!(!Token::Int(0).is_eof());
    assert_eq!(Token::Identifier("x".to_string()).identifier(), Some("x".to_string()));
    assert_eq!(Token::String("x".to_string()).identifier(), None);
    assert_eq!(Token::Float("1.5".to_string()).clone(), Token::Float("1.5".to_string()));
}

#[test]
fn same_text_compares_character_by_character() {
    assert!(same_text("кц", "кц"));
    assert!(!same_text("кц", "кц_при"));
    assert!(!same_text("кц", "нц"));
    assert!(same_text("", ""));
}
