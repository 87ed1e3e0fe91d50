use psy::crypto::{hash_text, rsa_decrypt, rsa_encrypt};
use psy::integers::{checked_lcm, gcd_of, is_prime_of, lcm_of};
use psy::json_text::{split_depth_fits_check, parse_string, escape_string, find_colon, is_json, split_json, split_json_array};
use psy::native::{get_module, module_names, Arity};
use psy::task::{AsyncRegistry, TaskState, TaskStatus};
use psy::url::{url_decode, url_encode};

#[test]
fn arity_descriptions() {
    assert_eq!(Arity::Exact(1).describe(), "1 arg");
    assert_eq!(Arity::Exact(0).describe(), "0 args");
    assert_eq!(Arity::Exact(2).describe(), "2 args");
    assert_eq!(Arity::AtLeast(1).describe(), "1+ args");
    assert_eq!(Arity::AtLeast(3).describe(), "3+ args");
}

#[test]
fn module_registry_lookup() {
    assert_eq!(module_names(), vec!["_MATH", "_FS", "_TIME", "_CRYPTO", "_NETWORK", "_JSON", "_ASYNC"]);
    assert!(get_module("_NOPE").is_none());
    let math = get_module("_MATH").unwrap();
    assert_eq!(math.name, "_MATH");
    assert!(math.has_function("SIN"));
    assert!(!math.has_function("PI"));
    assert!(math.has_constant("PI"));
    assert!(math.has_constant("E"));
    assert!(matches!(math.get_function_info("POW").unwrap().arity, Arity::Exact(2)));
    assert_eq!(math.get_function_info("POW").unwrap().parameters, vec![("base", "Number"), ("exponent", "Number")]);
    assert!(math.get_function_info("NOPE").is_none());
    assert_eq!(math.get_constant_info("PI").unwrap().constant_type, "Number");
    assert_eq!(math.functions.len(), 35);
    let prime = math.get_function_info("IS_PRIME").unwrap();
    assert_eq!(prime.description, "Tests if a number is prime");
    assert_eq!(prime.return_type, "Boolean");
    assert_eq!(math.get_constant_info("E").unwrap().description, "The mathematical constant e (Euler's number)");
    let json = get_module("_JSON").unwrap();
    assert_eq!(json.get_function_info("JSON_SET").unwrap().parameters.len(), 3);
}

#[test]
fn module_description_is_sorted() {
    let time = get_module("_TIME").unwrap();
    assert_eq!(
        time.describe(),
        vec!["FORMATTIME(1 arg)", "NOW(0 args)", "NOWMS(0 args)", "SLEEP(1 arg)", "SLEEPMS(1 arg)"]
    );
    let math = get_module("_MATH").unwrap();
    let d = math.describe();
    assert_eq!(d.len(), 37);
    assert!(d.contains(&"E".to_string()));
    assert!(d.contains(&"MEAN(1+ args)".to_string()));
    let mut sorted = d.clone();
    sorted.sort();
    assert_eq!(d, sorted);
}

#[test]
fn json_splitting() {
    assert_eq!(split_json("1, [2, 3], {\"a\": 4}"), vec!["1", " [2, 3]", " {\"a\": 4}"]);
    assert_eq!(split_json_array("1, [2, 3], {\"a\": 4}"), vec!["1", "[2, 3]", "{\"a\": 4}"]);
    assert_eq!(split_json("\"a,b\", c"), vec!["\"a,b\"", " c"]);
    assert_eq!(split_json("a,  "), vec!["a"]);
    assert_eq!(split_json(""), Vec::<String>::new());
}

#[test]
fn json_colon_and_escapes() {
    assert_eq!(find_colon("\"a\": 1"), Some(3));
    assert_eq!(find_colon("{\"x\": 1}: 2"), Some(8));
    assert_eq!(find_colon("\"é\": 1"), Some(4));
    assert_eq!(find_colon("[1, 2]"), None);
    assert_eq!(escape_string("a\"b\\c\nd\te\r"), "a\\\"b\\\\c\\nd\\te\\r");
    assert!(is_json("  {\"a\": 1}"));
    assert!(is_json("[1]"));
    assert!(is_json(" null "));
    assert!(is_json("true"));
    assert!(!is_json("hello"));
    assert!(!is_json("nullx"));
}

#[test]
fn url_encoding() {
    assert_eq!(url_encode("a b&c"), "a+b%26c");
    assert_eq!(url_encode("A-z_0.9~"), "A-z_0.9~");
    assert_eq!(url_encode("+"), "%2B");
    assert_eq!(url_decode("a+b%26c"), "a b&c");
    assert_eq!(url_decode("%zz%41"), "A");
    assert_eq!(url_decode("%4"), "");
    assert_eq!(url_decode("x%41y"), "xAy");
    let text = "100% sure & ready?";
    assert_eq!(url_decode(&url_encode(text)), text);
}

#[test]
fn integer_math() {
    assert_eq!(gcd_of(12, 18), 6);
    assert_eq!(gcd_of(0, 5), 5);
    assert_eq!(gcd_of(0, 0), 0);
    assert_eq!(lcm_of(4, 6), 12);
    assert_eq!(lcm_of(0, 6), 0);
    assert_eq!(checked_lcm(i64::MAX, i64::MAX - 1), None);
    assert_eq!(checked_lcm(21, 6), Some(42));
    assert!(is_prime_of(2));
    assert!(is_prime_of(97));
    assert!(!is_prime_of(1));
    assert!(!is_prime_of(-7));
    assert!(!is_prime_of(91));
    assert!(!is_prime_of(100));
}

#[test]
fn hashing_and_demo_cipher() {
    assert_eq!(hash_text("abc"), "ba7816bf8f01cfea414140de5dae2223b00361a396177a9cb410ff61f20015ad");
    assert_eq!(rsa_encrypt("", "k"), "");
    let secret = rsa_encrypt("hello, world", "public");
    assert_ne!(secret, "hello, world");
    assert_eq!(rsa_decrypt(&secret, "private"), Ok("hello, world".to_string()));
    let bad = rsa_decrypt("!!!", "private");
    assert!(bad.unwrap_err().starts_with("Invalid base64 input: "));
}

#[test]
fn task_status_and_registry() {
    assert_eq!(TaskStatus::Pending.to_text(), "pending");
    assert_eq!(TaskStatus::Cancelled.to_text(), "cancelled");
    assert_eq!(TaskStatus::after_result(true), TaskStatus::Completed);
    assert_eq!(TaskStatus::after_result(false), TaskStatus::Failed);
    let mut registry: AsyncRegistry<u32> = AsyncRegistry::new();
    let first = registry.next_id();
    let second = registry.next_id();
    assert_eq!(first, "task_1");
    assert_eq!(second, "task_2");
    registry.register(second.clone(), 7);
    assert_eq!(registry.get("task_2"), Some(&7));
    assert_eq!(registry.get("task_1"), None);
}

#[test]
fn json_string_literals() {
    assert_eq!(parse_string("\"a\\nb\""), Ok("a\nb".to_string()));
    assert_eq!(parse_string("\"q\\\"x\\\\y\\/z\\t\""), Ok("q\"x\\y/z\t".to_string()));
    assert_eq!(parse_string("\"\\u00e9!\""), Ok("?!".to_string()));
    assert_eq!(parse_string("\"\\u00\""), Ok("?".to_string()));
    assert_eq!(parse_string("\"end\\\""), Ok("end".to_string()));
    assert_eq!(parse_string("\"\\q\""), Ok("q".to_string()));
    assert_eq!(parse_string("\"\""), Ok(String::new()));
    assert_eq!(parse_string("abc"), Err("Invalid string format".to_string()));
    assert_eq!(parse_string("\"abc"), Err("Invalid string format".to_string()));
    assert_eq!(parse_string(""), Err("Invalid string format".to_string()));
    let text = "tab\there \"quoted\" back\\slash\r\n";
    let literal = format!("\"{}\"", escape_string(text));
    assert_eq!(parse_string(&literal), Ok(text.to_string()));
}

#[test]
fn task_state_transitions() {
    let mut t: TaskState<u32> = TaskState::new();
    assert_eq!(t.status, TaskStatus::Pending);
    assert_eq!(t.outcome(), None);
    t.set_status(TaskStatus::Running);
    assert_eq!(t.status, TaskStatus::Running);
    t.set_result(Ok(5));
    assert_eq!(t.status, TaskStatus::Completed);
    assert_eq!(t.outcome(), Some(&Ok(5)));
    let mut f: TaskState<u32> = TaskState::new();
    f.set_result(Err("boom".to_string()));
    assert_eq!(f.status, TaskStatus::Failed);
    let mut c: TaskState<u32> = TaskState::new();
    c.set_status(TaskStatus::Running);
    c.cancel();
    assert_eq!(c.status, TaskStatus::Cancelled);
    assert_eq!(c.outcome(), Some(&Err("Cancelled".to_string())));
}

#[test]
fn nesting_depth_check() {
    assert!(split_depth_fits_check("[[1, {\"a\": [2]}], 3]"));
    assert!(split_depth_fits_check("]]]]"));
    assert!(split_depth_fits_check(""));
    let pieces = split_json("1,[2,3],\"a,b\"");
    assert_eq!(pieces, vec!["1", "[2,3]", "\"a,b\""]);
    assert_eq!(pieces.join(","), "1,[2,3],\"a,b\"");
}
