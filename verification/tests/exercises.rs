use herron_island::addressing::{value_in_cents, Coin, UsState};
use herron_island::ch10::{largest, longest, ImportantExcerpt, NewsArticle, Summary, Tweet};
use herron_island::ch12::{contains_str, search, search_case_insensitive, Config};
use herron_island::eatery;
use herron_island::guessing_game::Guess;
use herron_island::ownit::{change_string, dangle_ptr, first_word, takes_and_gives_back};
use herron_island::rectangles::{area, area1, Rectangle};
use herron_island::repetition::{fib_iter, plus_one};

#[test]
fn it_works() {
    assert_eq!(2 + 2, 4);
}

#[test]
fn lib_it_works() {
    assert_eq!(2 + 2, 4);
}

#[test]
fn werk() {
    let v = vec![1, 2, 3, 4, 5];

    let first = &v[0];

    println!("The first element is: {}", first);
    assert_eq!(v.len(), 5);
}

#[test]
fn config_err() {
    let v = vec![String::from("ohai")];
    let c = Config::new(&v);
    assert!(c.is_err());
}

#[test]
fn config_new() {
    let v = vec![
        String::from("ohai"),
        String::from("cli"),
        String::from("file"),
    ];
    let c = Config::new(&v);
    assert!(c.is_ok());
}

#[test]
fn config_messages() {
    let none: Vec<String> = vec![];
    assert_eq!(Config::new(&none).unwrap_err(), "no query string parameter");
    let two = vec![String::from("bin"), String::from("query")];
    assert_eq!(Config::new(&two).unwrap_err(), "no file name parameter");
    let three = vec![
        String::from("bin"),
        String::from("needle"),
        String::from("hay.txt"),
    ];
    let c = Config::new(&three).unwrap();
    assert_eq!(c.query, "needle");
    assert_eq!(c.filename, "hay.txt");
    assert!(c.case_sensitive);
}

#[test]
fn case_sensitve() {
    let query = "duct";
    let contents = "\
Rust:
safe, fast, productive,
Pick three.
Duct tape.";
    // Only the lowercase "productive," line contains "duct"; the
    // capitalized "Duct tape." does not match case-sensitively.
    assert_eq! {
        vec!["safe, fast, productive,"],
        search(query, contents),
    }
}

#[test]
fn one_result() {
    let query = "duct";
    let contents = "\
Rust:
safe, fast, productive.
Pick three.";

    assert_eq!(vec!["safe, fast, productive."], search(query, contents));
}

#[test]
fn search_finds_matching_lines() {
    let query = "duct";
    let contents = "\
Rust:
safe, fast, productive.
Pick three.
Duct tape.";
    assert_eq!(vec!["safe, fast, productive."], search(query, contents));
}

#[test]
fn search_is_case_sensitive() {
    let query = "Duct";
    let contents = "Rust:\nsafe, fast, productive.\nDuct tape.";
    assert_eq!(vec!["Duct tape."], search(query, contents));
}

#[test]
fn search_ci_folds_case() {
    let query = "rUsT";
    let contents = "Rust:\nsafe, fast, productive.\nTrust me.";
    assert_eq!(
        vec!["Rust:", "Trust me."],
        search_case_insensitive(query, contents)
    );
}

#[test]
fn contains_str_works() {
    assert!(contains_str("hello world", "lo wo"));
    assert!(contains_str("hello", ""));
    assert!(!contains_str("hello", "world"));
    assert!(!contains_str("hi", "hello"));
}

#[test]
fn longest_picks_more_bytes() {
    assert_eq!(longest("long string is long", "xyz"), "long string is long");
    assert_eq!(longest("ab", "xyz"), "xyz");
    assert_eq!(longest("ab", "xy"), "xy");
}

#[test]
fn largest_finds_maximum() {
    assert_eq!(largest(&vec![34, 50, 24, 100, 65]), 100);
    assert_eq!(largest(&vec![-5, -2, -9]), -2);
}

#[test]
fn summaries() {
    let tweet = Tweet {
        username: String::from("horse_ebooks"),
        content: String::from("of course, as you probably already know, people"),
        reply: false,
        retweet: false,
    };
    assert_eq!(tweet.summarize_author(), "@horse_ebooks");
    assert_eq!(
        tweet.summarize(),
        "horse_ebooks: of course, as you probably already know, people"
    );
    let article = NewsArticle {
        headline: String::from("Penguins win"),
        location: String::from("Pittsburgh"),
        author: String::from("Iceburgh"),
        content: String::from("..."),
    };
    assert_eq!(article.summarize_author(), "author: Iceburgh");
    assert_eq!(article.summarize(), "Penguins win, by Iceburgh (Pittsburgh)");
}

#[test]
fn excerpt_returns_part() {
    let novel = String::from("Call me Ishmael. Some years ago...");
    let first_sentence = novel.split('.').next().unwrap();
    let i = ImportantExcerpt {
        part: first_sentence,
    };
    assert_eq!(i.announce_and_return_part("listen"), "Call me Ishmael");
}

#[test]
fn guess_round_trip() {
    let g = Guess::new(42);
    assert_eq!(g.value(), 42);
    assert_eq!(Guess::new(1).value(), 1);
    assert_eq!(Guess::new(100).value(), 100);
}

#[test]
fn coins_have_values() {
    assert_eq!(value_in_cents(&Coin::Penny), 1);
    assert_eq!(value_in_cents(&Coin::Nickel), 5);
    assert_eq!(value_in_cents(&Coin::Dime), 10);
    assert_eq!(value_in_cents(&Coin::Quarter(UsState::Alaska)), 25);
}

#[test]
fn rectangles_work() {
    let r = Rectangle {
        width: 40,
        height: 50,
    };
    assert_eq!(r.area(), 2000);
    assert_eq!(area(&r), 2000);
    assert_eq!(area1((30, 50)), 1500);
    let sq = Rectangle::square(30);
    assert_eq!(sq.width, 30);
    assert_eq!(sq.height, 30);
    let small = Rectangle {
        width: 10,
        height: 10,
    };
    assert!(r.can_hold(&small));
    assert!(!small.can_hold(&r));
}

#[test]
fn ownership_helpers() {
    assert_eq!(first_word("hello world"), "hello");
    assert_eq!(first_word("single"), "single");
    assert_eq!(dangle_ptr(), "hellow dangle data");
    let mut s = String::from("hellow");
    change_string(&mut s);
    assert_eq!(s, "hellow world!");
    change_string(&mut s);
    assert_eq!(s, "hellow world! world!");
    assert_eq!(takes_and_gives_back(String::from("mine")), "mine");
}

#[test]
fn fib_iter_matches_sequence() {
    assert_eq!(fib_iter(0), 1);
    assert_eq!(fib_iter(1), 2);
    assert_eq!(fib_iter(2), 3);
    assert_eq!(fib_iter(3), 5);
    assert_eq!(fib_iter(8), 55);
    assert_eq!(fib_iter(-3), 1);
    // The 102nd Fibonacci number.
    assert_eq!(fib_iter(100), 927372692193078999176u128);
    // The largest count the u128 arithmetic supports.
    assert_eq!(fib_iter(184), 332825110087067562321196029789634457848u128);
    assert_eq!(plus_one(4), 5);
}

#[test]
fn breakfast_summer() {
    let meal = eatery::Breakfast::summer("rye");
    assert_eq!(meal.toast, "rye");
    eatery::eat_at_restaurant();
    eatery::fix_incorrect_order();
    eatery::add_to_waitlist();
    eatery::serve_order();
    eatery::seat_at_table();
    eatery::take_order();
    eatery::take_payment();
    eatery::cook_order();
}
