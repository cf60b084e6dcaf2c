use rust_learn::rust03_functions::{absolute, apply, const_square, divmod, square, sum_until_negative};
use rust_learn::rust04_control_flow::{grade, max_of, sum_with_loop, sum_with_while};
use rust_learn::rust05_ownership::{first_word, give_back, total_len};
use rust_learn::rust06_structs_enums::{describe_half, first_even, halve, TrafficLight};
use rust_learn::rust08_errors::{divide, double, find_user, parse_port, read_field, ConfigError};
use rust_learn::rust09_generics_traits::{
    describe_pair, largest, make_article, notify, notify_all, NewsArticle, Point, Summary, Tweet,
};
use rust_learn::rust10_lifetimes::{longest, Excerpt, Tokenizer};
use rust_learn::rust11_closures_iterators::{apply_twice, consume_once, group_by_len, Fibonacci};
use rust_learn::rust12_smart_pointers::{List, Wrapper};
use rust_learn::rust16_async::Countdown;
use rust_learn::rust20_serde::{apply_env, default_port, Config};
use rust_learn::rust21_cli::{build_cli, count, render, Counts};

#[test]
fn functions_compute_exact_values() {
    assert_eq!(square(-7), 49);
    assert_eq!(const_square(12), 144);
    assert_eq!(absolute(-5), 5);
    assert_eq!(divmod(-7, 2), (-3, -1));
    assert_eq!(divmod(7, -2), (-3, 1));
    assert_eq!(apply(|a, b| a * b, 6, 7), 42);
    assert_eq!(sum_until_negative(&[1, 2, -1, 100]), 3);
    assert_eq!(sum_until_negative(&[]), 0);
    assert_eq!(sum_until_negative(&[i32::MAX, -1, i32::MAX]), i32::MAX);
}

#[test]
fn control_flow_sums_agree() {
    assert_eq!(sum_with_loop(100), 5050);
    assert_eq!(sum_with_while(100), 5050);
    assert_eq!(sum_with_loop(0), sum_with_while(0));
    assert_eq!(grade(95), "优秀");
    assert_eq!(grade(75), "良好");
    assert_eq!(grade(60), "及格");
    assert_eq!(grade(59), "不及格");
    assert_eq!(max_of(-3, 2), 2);
}

#[test]
fn ownership_helpers() {
    assert_eq!(first_word("hello world"), "hello");
    assert_eq!(give_back(String::from("x")), "x");
    assert_eq!(total_len(&[String::from("ab"), String::from("中")]), 5);
}

#[test]
fn enums_and_options() {
    assert_eq!(first_even(&[1, 3, 4, 6]), Some(4));
    assert_eq!(first_even(&[1, 3]), None);
    assert_eq!(halve(-8), Some(-4));
    assert_eq!(halve(7), None);
    assert_eq!(describe_half(10), "10 的一半是 5");
    assert_eq!(describe_half(-3), "-3 不是偶数，算不了一半");
    let light = TrafficLight::Red;
    assert_eq!(light.next().next().next(), light);
    assert_eq!(light.action(), "停");
}

#[test]
fn errors_are_values() {
    assert_eq!(read_field("name = demo\nport = 8080\n", "port").unwrap(), "8080");
    assert!(matches!(read_field("a = 1", "port"), Err(ConfigError::MissingKey(k)) if k == "port"));
    assert_eq!(parse_port("port = 8080").unwrap(), 8080);
    assert!(matches!(parse_port("port = 80x"), Err(ConfigError::NotANumber { .. })));
    assert!(matches!(parse_port("port = 70000"), Err(ConfigError::NotANumber { .. })));
    assert_eq!(divide(7, 2), Ok(3));
    assert_eq!(divide(1, 0), Err(String::from("除数不能为 0")));
    assert_eq!(double(" 21 ").unwrap(), 42);
    assert!(double("x").is_err());
    assert_eq!(find_user(&["ann", "bob", "bob"], "bob"), Some(1));
    assert_eq!(find_user(&["ann"], "bob"), None);
}

#[test]
fn generics_and_traits() {
    assert_eq!(largest(&[3, 9, 2, 9]), 9);
    assert_eq!(largest(&['x', 'b', 'z']), 'z');
    let p = Point { x: 1, y: 2 } + Point { x: 10, y: 20 };
    assert_eq!(p, Point { x: 11, y: 22 });
    assert_eq!(Point { x: 1, y: -2 }.show(), "(1, -2)");
    let article = NewsArticle {
        title: String::from("标题"),
        author: String::from("作者"),
    };
    assert_eq!(article.preview(), "[摘要] 《标题》，作者 作者");
    let tweet = Tweet {
        user: String::from("rustlang"),
        content: String::from("Rust 2024 edition is out now!"),
    };
    assert_eq!(tweet.summarize(), "@rustlang: Rust 2024 edition is out now!");
    assert_eq!(tweet.preview(), "[推文] Rust 2024 ed...");
    assert_eq!(notify(&tweet), "通知：[推文] Rust 2024 ed...");
    assert_eq!(notify_all(&[tweet]).len(), 1);
    assert_eq!(describe_pair(&article, &42), "[摘要] 《标题》，作者 作者 / 42");
    assert_eq!(make_article().summarize(), "《Rust 所有权》，作者 Ada");
}

#[test]
fn lifetimes() {
    assert_eq!(longest("abc", "de"), "abc");
    let text = String::from("Call me Ishmael. Some years ago...");
    let excerpt = Excerpt { part: &text[..16] };
    assert_eq!(excerpt.part(), "Call me Ishmael.");
    let mut tokens = Tokenizer::new("  let x =  1 ");
    assert_eq!(tokens.next_token(), Some("let"));
    assert_eq!(tokens.next_token(), Some("x"));
    assert_eq!(tokens.next_token(), Some("="));
    assert_eq!(tokens.next_token(), Some("1"));
    assert_eq!(tokens.next_token(), None);
}

#[test]
fn closures_and_iterators() {
    assert_eq!(apply_twice(|n| n + 3, 1), 7);
    assert_eq!(consume_once(|| String::from("once")), "once");
    let mut fib = Fibonacci::new();
    let mut seen = Vec::new();
    for _ in 0..6 {
        seen.push(fib.next().unwrap());
    }
    assert_eq!(seen, vec![1, 1, 2, 3, 5, 8]);
    let groups = group_by_len(&["a", "bb", "cc", "d"]);
    assert_eq!(groups[&1], vec![String::from("a"), String::from("d")]);
    assert_eq!(groups[&2], vec![String::from("bb"), String::from("cc")]);
}

#[test]
fn box_list_and_deref() {
    let list = List::new().push(3).push(2).push(1);
    assert_eq!(list.sum(), 6);
    assert_eq!(list.to_vec(), vec![1, 2, 3]);
    let w = Wrapper { value: String::from("inner") };
    assert_eq!(w.len(), 5);
}

#[test]
fn countdown_is_pending_until_zero() {
    let mut c = Countdown::new(2);
    assert_eq!(c.step(), None);
    assert_eq!(c.step(), None);
    assert_eq!(c.step(), Some(0));
    assert_eq!(c.step(), Some(0));
}

#[test]
fn configuration_override_from_the_environment() {
    assert_eq!(default_port(), 8080);
    let config = Config {
        app_name: String::from("demo"),
        port: default_port(),
        debug: false,
        log_path: None,
    };
    let same = apply_env(config.clone(), None).unwrap();
    assert_eq!(same, config);
    assert_eq!(apply_env(config.clone(), Some(String::from(" 9000 "))).unwrap().port, 9000);
    let error = apply_env(config, Some(String::from("abc"))).unwrap_err();
    assert_eq!(error, "PORT 不是合法端口：invalid digit found in string");
}

#[test]
fn word_count_tool() {
    let counts = count("rust is fast\nsafe and productive\n");
    assert_eq!(counts, Counts { lines: 2, words: 6, chars: 33 });
    assert_eq!(render(&counts, "plain"), "2 行，6 个词，33 个字符");
    assert_eq!(render(&counts, "json"), "{\"lines\":2,\"words\":6,\"chars\":33}");
}

#[test]
fn wc_command_line_declares_its_arguments() {
    let command = build_cli().into_command();
    assert_eq!(command.get_version(), Some("1.0.0"));
    let matches = command
        .try_get_matches_from(["wc-lite", "-l", "--format", "json", "notes.txt"])
        .unwrap();
    assert!(matches.get_flag("lines"));
    assert!(!matches.get_flag("verbose"));
    assert_eq!(matches.get_one::<String>("format").map(String::as_str), Some("json"));
    assert_eq!(matches.get_one::<String>("file").map(String::as_str), Some("notes.txt"));
    let defaults = build_cli()
        .into_command()
        .try_get_matches_from(["wc-lite", "info"])
        .unwrap();
    assert_eq!(defaults.get_one::<String>("format").map(String::as_str), Some("plain"));
    assert_eq!(defaults.subcommand_name(), Some("info"));
    assert!(build_cli()
        .into_command()
        .try_get_matches_from(["wc-lite", "--format", "xml"])
        .is_err());
}
