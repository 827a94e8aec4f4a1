use ajaya::method_filter::{Method, MethodFilter};

#[test]
fn test_method_filter_contains() {
    let filter = MethodFilter::GET() | MethodFilter::POST();
    assert!(filter.contains(MethodFilter::GET()));
    assert!(filter.contains(MethodFilter::POST()));
    assert!(!filter.contains(MethodFilter::DELETE()));
}

#[test]
fn test_method_filter_matches() {
    assert!(MethodFilter::GET().matches(&Method::Get));
    assert!(!MethodFilter::GET().matches(&Method::Post));
    assert!(MethodFilter::ANY().matches(&Method::Delete));
}

#[test]
fn test_method_filter_from_method() {
    assert_eq!(MethodFilter::from_method(&Method::Get), MethodFilter::GET());
    assert_eq!(MethodFilter::from_method(&Method::Post), MethodFilter::POST());
}

#[test]
fn union_contains_both_filters() {
    let a = MethodFilter::PUT();
    let b = MethodFilter::PATCH();
    let u = a.union(b);
    assert!(u.contains(a));
    assert!(u.contains(b));
    assert!(!u.contains(MethodFilter::GET()));
    assert_eq!(u.0, 4 | 16);
}

#[test]
fn any_matches_every_named_method_and_none_matches_nothing() {
    for m in [
        Method::Get,
        Method::Post,
        Method::Put,
        Method::Delete,
        Method::Patch,
        Method::Head,
        Method::Options,
        Method::Trace,
    ] {
        assert!(MethodFilter::ANY().matches(&m));
        assert!(!MethodFilter::NONE().matches(&m));
    }
}

#[test]
fn extension_methods_have_no_filter_bit() {
    let purge = Method::Extension("PURGE".to_string());
    assert_eq!(MethodFilter::from_method(&purge), MethodFilter::NONE());
    // unknown methods match nothing, not even ANY
    assert!(!MethodFilter::ANY().matches(&purge));
    assert!(!MethodFilter::GET().matches(&Method::Connect));
    assert!(!MethodFilter::NONE().matches(&Method::Connect));
    assert!(!MethodFilter::from_method(&Method::Connect).matches(&Method::Get));
}

#[test]
fn method_names_round_trip() {
    assert_eq!(Method::Get.as_str(), "GET");
    assert_eq!(Method::Options.as_str(), "OPTIONS");
    assert_eq!(Method::from_name("DELETE"), Method::Delete);
    assert_eq!(Method::from_name("CONNECT"), Method::Connect);
    let m = Method::from_name("PURGE");
    assert_eq!(m, Method::Extension("PURGE".to_string()));
    assert_eq!(m.as_str(), "PURGE");
    // names are case-sensitive
    assert_eq!(Method::from_name("get"), Method::Extension("get".to_string()));
}

#[test]
fn filter_from_method_conversion() {
    let f: MethodFilter = Method::Patch.into();
    assert_eq!(f, MethodFilter::PATCH());
    let f: MethodFilter = MethodFilter::from(Method::Trace);
    assert_eq!(f, MethodFilter::TRACE());
}
