use workshop::text::{chars_of, jsonp_argument, swap_quotes, trim};

#[test]
fn trim_strips_both_ends() {
    assert_eq!(trim("  a b \n"), "a b");
    assert_eq!(trim("\t\u{a0}x\u{2003}"), "x");
    assert_eq!(trim("   "), "");
    assert_eq!(trim(""), "");
    assert_eq!(trim("inner  space"), "inner  space");
}

#[test]
fn trim_twice_is_trim_once() {
    for s in ["  a  ", "\n\nb", "c", "   ", " d e "] {
        assert_eq!(trim(&trim(s)), trim(s));
    }
}

#[test]
fn swap_quotes_makes_single_quotes_double() {
    assert_eq!(swap_quotes("{'a': 'b'}"), "{\"a\": \"b\"}");
    assert_eq!(swap_quotes("no quotes"), "no quotes");
    assert_eq!(swap_quotes("\"kept\""), "\"kept\"");
}

#[test]
fn swap_quotes_twice_is_swap_once() {
    let once = swap_quotes("it's 'quoted'");
    assert_eq!(swap_quotes(&once), once);
    assert!(!once.contains('\''));
    assert_eq!(once.chars().count(), "it's 'quoted'".chars().count());
}

#[test]
fn chars_of_keeps_every_char() {
    assert_eq!(chars_of("añb"), vec!['a', 'ñ', 'b']);
}

#[test]
fn jsonp_argument_of_a_call() {
    assert_eq!(jsonp_argument("callback({\"a\":1});"), Some("{\"a\":1}".to_string()));
    assert_eq!(jsonp_argument("callback({\"a\":1})"), Some("{\"a\":1}".to_string()));
    assert_eq!(jsonp_argument("  $cb.x_ (1) ;"), Some("1".to_string()));
    assert_eq!(jsonp_argument("cb(f(1))"), Some("f(1)".to_string()));
    assert_eq!(jsonp_argument("cb(1) + (2)"), Some("1) + (2".to_string()));
    assert_eq!(jsonp_argument("café(1)"), Some("1".to_string()));
    assert_eq!(jsonp_argument("cb(\n1\n)\n"), Some("\n1\n".to_string()));
}

#[test]
fn jsonp_argument_of_no_call() {
    assert_eq!(jsonp_argument("no call here"), None);
    assert_eq!(jsonp_argument("cb()"), None);
    assert_eq!(jsonp_argument("cb(1); x"), None);
    assert_eq!(jsonp_argument("cb(1);;"), None);
    assert_eq!(jsonp_argument("(1)"), None);
    assert_eq!(jsonp_argument("c-b(1)"), None);
    assert_eq!(jsonp_argument(""), None);
}

#[test]
fn jsonp_unwraps_what_was_wrapped() {
    for (name, argument) in [("cb", "1"), ("jQuery_1.x$", "{'a': [1, 2]}"), ("f", ")(")] {
        let call = format!("{}({})", name, argument);
        assert_eq!(jsonp_argument(&call), Some(argument.to_string()));
        let call = format!("{}({});", name, argument);
        assert_eq!(jsonp_argument(&call), Some(argument.to_string()));
    }
}
