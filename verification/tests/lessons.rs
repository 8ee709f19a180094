use todo_cli::lessons::error_handling::last_char_of_first_line;
use todo_cli::lessons::error_handling::parse_positive_number;
use todo_cli::lessons::error_handling::ParseError;
use todo_cli::lessons::functions::add;
use todo_cli::lessons::ownership::calculate_length;
use todo_cli::lessons::ownership::change;
use todo_cli::lessons::ownership::first_word;
use todo_cli::lessons::ownership::gives_ownership;
use todo_cli::lessons::ownership::takes_and_gives_back;
use todo_cli::lessons::structs::build_user;
use todo_cli::lessons::structs::Rectangle;

#[test]
fn add_sums_two_numbers() {
    assert_eq!(add(10, 20), 30);
    assert_eq!(add(-7, 7), 0);
    assert_eq!(add(i32::MAX, 0), i32::MAX);
    assert_eq!(add(i32::MIN, i32::MAX), -1);
}

#[test]
fn gives_ownership_makes_the_same_text_each_time() {
    assert_eq!(gives_ownership(), "함수가 생성한 문자열");
    assert_eq!(gives_ownership(), gives_ownership());
}

#[test]
fn takes_and_gives_back_returns_its_argument() {
    assert_eq!(takes_and_gives_back(String::from("안녕")), "안녕");
    assert_eq!(takes_and_gives_back(String::new()), "");
}

#[test]
fn calculate_length_counts_bytes() {
    assert_eq!(calculate_length(&String::from("Hello")), 5);
    assert_eq!(calculate_length(&String::from("참조 예제")), 13);
    assert_eq!(calculate_length(&String::new()), 0);
}

#[test]
fn change_appends_the_suffix() {
    let mut s = String::from("Hello");
    change(&mut s);
    assert_eq!(s, "Hello, Rust!");
    change(&mut s);
    assert_eq!(s, "Hello, Rust!, Rust!");
    let mut empty = String::new();
    change(&mut empty);
    assert_eq!(empty, ", Rust!");
}

#[test]
fn first_word_stops_at_the_first_space() {
    assert_eq!(first_word("hello world"), "hello");
    assert_eq!(first_word("hello"), "hello");
    assert_eq!(first_word(""), "");
    assert_eq!(first_word(" leading"), "");
    assert_eq!(first_word("a b c"), "a");
    assert_eq!(first_word("trailing "), "trailing");
    assert_eq!(first_word("tab\tis no space"), "tab\tis");
}

#[test]
fn first_word_counts_characters_not_bytes() {
    assert_eq!(first_word("참조 예제"), "참조");
    assert_eq!(first_word("🦀🦀 crab"), "🦀🦀");
    assert_eq!(first_word("한글"), "한글");
}

#[test]
fn build_user_fills_in_the_defaults() {
    let user = build_user(String::from("short@example.com"), String::from("shorthand"));
    assert!(user.active);
    assert_eq!(user.username, "shorthand");
    assert_eq!(user.email, "short@example.com");
    assert_eq!(user.sign_in_count, 1);
}

#[test]
fn rectangle_area_and_perimeter() {
    let rect = Rectangle { width: 30, height: 50 };
    assert_eq!(rect.area(), 1500);
    assert_eq!(rect.perimeter(), 160);
    let flat = Rectangle { width: 0, height: 9 };
    assert_eq!(flat.area(), 0);
    assert_eq!(flat.perimeter(), 18);
    let wide = Rectangle { width: 65_535, height: 65_537 };
    assert_eq!(wide.area(), 4_294_967_295);
}

#[test]
fn rectangle_double_size_doubles_both_sides() {
    let mut rect = Rectangle { width: 10, height: 20 };
    rect.double_size();
    assert_eq!(rect.width, 20);
    assert_eq!(rect.height, 40);
}

#[test]
fn rectangle_can_hold_needs_both_sides_larger() {
    let rect1 = Rectangle { width: 30, height: 50 };
    let rect2 = Rectangle { width: 10, height: 40 };
    let rect3 = Rectangle { width: 60, height: 45 };
    assert!(rect1.can_hold(&rect2));
    assert!(!rect1.can_hold(&rect3));
    assert!(!rect1.can_hold(&Rectangle { width: 30, height: 10 }));
    assert!(!rect1.can_hold(&Rectangle { width: 10, height: 50 }));
    assert!(!rect1.can_hold(&rect1));
}

#[test]
fn rectangle_square_has_equal_sides() {
    let square = Rectangle::square(20);
    assert_eq!(square.width, 20);
    assert_eq!(square.height, 20);
}

#[test]
fn last_char_of_first_line_reads_the_first_line_only() {
    assert_eq!(last_char_of_first_line("Hello\nWorld"), Some('o'));
    assert_eq!(last_char_of_first_line("Hello"), Some('o'));
    assert_eq!(last_char_of_first_line(""), None);
    assert_eq!(last_char_of_first_line("\nWorld"), None);
    assert_eq!(last_char_of_first_line("x"), Some('x'));
    assert_eq!(last_char_of_first_line("한글\n"), Some('글'));
}

#[test]
fn last_char_of_first_line_takes_a_carriage_return_with_the_line_feed() {
    assert_eq!(last_char_of_first_line("Hello\r\nWorld"), Some('o'));
    assert_eq!(last_char_of_first_line("\r\nWorld"), None);
    assert_eq!(last_char_of_first_line("a\r\r\nb"), Some('\r'));
    assert_eq!(last_char_of_first_line("Hello\r"), Some('\r'));
    assert_eq!(last_char_of_first_line("\r"), Some('\r'));
    assert_eq!(last_char_of_first_line("a\rb\nc"), Some('b'));
    assert_eq!(last_char_of_first_line("\r\r\n"), Some('\r'));
}

#[test]
fn last_char_of_first_line_agrees_with_the_standard_line_splitter() {
    let pieces = ["", "a", "b", "\n", "\r", "\r\n", "é", " "];
    for first in pieces {
        for second in pieces {
            for third in pieces {
                for fourth in pieces {
                    let text = format!("{}{}{}{}", first, second, third, fourth);
                    let expected = match text.lines().next() {
                        Some(line) => line.chars().last(),
                        None => None,
                    };
                    assert_eq!(last_char_of_first_line(&text), expected);
                }
            }
        }
    }
}

#[test]
fn parse_positive_number_accepts_zero_to_one_hundred() {
    assert_eq!(parse_positive_number("42"), Ok(42));
    assert_eq!(parse_positive_number("50"), Ok(50));
    assert_eq!(parse_positive_number("0"), Ok(0));
    assert_eq!(parse_positive_number("100"), Ok(100));
    assert_eq!(parse_positive_number("+7"), Ok(7));
    assert_eq!(parse_positive_number("-0"), Ok(0));
    assert_eq!(parse_positive_number("007"), Ok(7));
    assert_eq!(parse_positive_number("00000000000000000000100"), Ok(100));
}

#[test]
fn parse_positive_number_refuses_negative_numbers() {
    assert_eq!(parse_positive_number("-5"), Err(ParseError::NegativeNumber));
    assert_eq!(parse_positive_number("-1"), Err(ParseError::NegativeNumber));
    assert_eq!(parse_positive_number("-2147483648"), Err(ParseError::NegativeNumber));
}

#[test]
fn parse_positive_number_refuses_large_numbers() {
    assert_eq!(parse_positive_number("200"), Err(ParseError::TooLarge));
    assert_eq!(parse_positive_number("101"), Err(ParseError::TooLarge));
    assert_eq!(parse_positive_number("2147483647"), Err(ParseError::TooLarge));
}

#[test]
fn parse_positive_number_refuses_what_is_no_number() {
    let refused = [
        "abc", "", "+", "-", " 5", "5 ", "1_0", "1.0", "--5", "+-5", "5a", "٣", "2147483648",
        "-2147483649", "99999999999999999999", "0x10", "１２",
    ];
    for text in refused {
        assert_eq!(parse_positive_number(text), Err(ParseError::InvalidInput));
    }
}

#[test]
fn parse_errors_speak() {
    assert_eq!(ParseError::InvalidInput.message(), "입력이 유효하지 않습니다");
    assert_eq!(ParseError::TooLarge.message(), "숫자가 너무 큽니다");
    assert_eq!(ParseError::NegativeNumber.message(), "음수는 허용되지 않습니다");
}
