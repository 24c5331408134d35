use axum_openapi::method::HttpMethod;
use axum_openapi::text::{
    clone_strings, comes_before, decimal_string, has_prefix, same_text, split_segments,
};

#[test]
fn a_path_is_split_at_each_slash() {
    assert_eq!(split_segments("/pets/:id"), vec!["", "pets", ":id"]);
    assert_eq!(split_segments(""), vec![""]);
    assert_eq!(split_segments("/"), vec!["", ""]);
    assert_eq!(split_segments("a//b/"), vec!["a", "", "b", ""]);
    assert_eq!(split_segments("\u{e4}/\u{1F600}x"), vec!["\u{e4}", "\u{1F600}x"]);
}

#[test]
fn numbers_are_written_in_decimal() {
    assert_eq!(decimal_string(0), "0");
    assert_eq!(decimal_string(7), "7");
    assert_eq!(decimal_string(10), "10");
    assert_eq!(decimal_string(1234567890), "1234567890");
    assert_eq!(decimal_string(usize::MAX), usize::MAX.to_string());
}

#[test]
fn strings_are_ordered_as_the_standard_library_orders_them() {
    let samples = ["", "/", "/path", "/path2", "/pat", "/q", "a", "\u{e4}", "\u{1F600}", "z{"];
    for a in samples {
        for b in samples {
            assert_eq!(comes_before(a, b), a < b, "{:?} {:?}", a, b);
            assert_eq!(same_text(a, b), a == b);
            assert_eq!(has_prefix(a, b), a.starts_with(b));
        }
    }
}

#[test]
fn a_list_of_strings_is_copied() {
    let list = vec!["a".to_string(), "".to_string(), "b".to_string()];
    assert_eq!(clone_strings(&list), list);
}

#[test]
fn a_method_is_written_in_lower_case() {
    let names = ["get", "put", "post", "delete", "options", "head", "patch", "trace"];
    for (method, name) in HttpMethod::all().iter().zip(names) {
        assert_eq!(method.name(), name);
        assert_eq!(HttpMethod::from_name(name), Some(*method));
        assert!(method.eq_name(name));
        assert!(!method.eq_name(&name.to_uppercase()));
    }
    assert_eq!(HttpMethod::from_name("GET"), None);
    assert_eq!(HttpMethod::from_name("connect"), None);
    assert_eq!(HttpMethod::from_name(""), None);
    assert!(!HttpMethod::Get.eq_name("post"));
}

#[test]
fn every_number_up_to_a_thousand_is_written_as_the_standard_library_writes_it() {
    for n in 0..=1000usize {
        assert_eq!(decimal_string(n), n.to_string());
    }
    for n in [9999usize, 10000, 65535, 65536, 4294967295, usize::MAX - 1] {
        assert_eq!(decimal_string(n), n.to_string());
    }
}
