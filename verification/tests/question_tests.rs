use ipak::question::{
    camel_case, email_address, kebab_case, match_verdict, pascal_case, regex_string, screaming_snake_case, snake_case,
    yesno, yesno_verdict,
};

#[test]
fn question_test() {}

#[test]
fn yesno_answers() {
    assert_eq!(yesno(" Yes \n"), Ok(true));
    assert_eq!(yesno("y"), Ok(true));
    assert_eq!(yesno("NO"), Ok(false));
    assert_eq!(yesno("n"), Ok(false));
    assert_eq!(yesno("maybe"), Err("無効な回答: maybe".to_string()));
    assert_eq!(yesno_verdict("yes"), Ok(true));
    assert_eq!(yesno_verdict("Yes"), Err("無効な回答: Yes".to_string()));
}

#[test]
fn pattern_answers() {
    assert_eq!(camel_case(" myName "), Ok("myName".to_string()));
    assert_eq!(camel_case("MyName"), Err("無効な入力: MyName".to_string()));
    assert_eq!(pascal_case("MyName"), Ok("MyName".to_string()));
    assert!(pascal_case("myName").is_err());
    assert_eq!(snake_case("my_name_2"), Ok("my_name_2".to_string()));
    assert!(snake_case("my__name").is_err());
    assert_eq!(kebab_case("my-name"), Ok("my-name".to_string()));
    assert!(kebab_case("-name").is_err());
    assert_eq!(screaming_snake_case("MY_NAME"), Ok("MY_NAME".to_string()));
    assert!(screaming_snake_case("My_NAME").is_err());
    assert_eq!(email_address("a.b@example.com"), Ok("a.b@example.com".to_string()));
    assert!(email_address("a.b@example").is_err());
}

#[test]
fn regex_string_invalid_pattern() {
    assert_eq!(regex_string("x", "("), Err("Invalid pattern: (".to_string()));
    assert_eq!(regex_string(" ab ", "^a"), Ok("ab".to_string()));
    assert_eq!(match_verdict("t", "p", Some(false)), Err("無効な入力: t".to_string()));
    assert_eq!(match_verdict("t", "p", Some(true)), Ok("t".to_string()));
}
