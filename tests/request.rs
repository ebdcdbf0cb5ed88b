use crd::condition::Condition;
use crd::req::{default_results_num, CrdSearchRequest, LibGroup, ReqType};

fn empty_condition() -> Condition {
    Condition {
        query: None,
        crt_date_from: None,
        crt_date_to: None,
        reg_date_from: None,
        reg_date_to: None,
        lst_date_from: None,
        lst_date_to: None,
    }
}

fn request(condition: Condition) -> CrdSearchRequest {
    CrdSearchRequest {
        ty: ReqType::Reference,
        condition,
        lib_id: None,
        lib_group: None,
        results_get_position: None,
        results_num: 100,
    }
}

fn pairs(r: &CrdSearchRequest) -> Vec<(String, String)> {
    r.query_pairs()
}

fn p(name: &str, value: &str) -> (String, String) {
    (name.to_string(), value.to_string())
}

fn condition_names() -> Vec<&'static str> {
    vec![
        "query",
        "crt-date_from",
        "crt-date_to",
        "reg-date_from",
        "reg-date_to",
        "lst-date_from",
        "lst-date_to",
    ]
}

fn condition_with_field(index: usize, value: &str) -> Condition {
    let mut c = empty_condition();
    let v = Some(value.to_string());
    match index {
        0 => c.query = v,
        1 => c.crt_date_from = v,
        2 => c.crt_date_to = v,
        3 => c.reg_date_from = v,
        4 => c.reg_date_to = v,
        5 => c.lst_date_from = v,
        _ => c.lst_date_to = v,
    }
    c
}

#[test]
fn default_count_is_one_hundred() {
    assert_eq!(default_results_num(), 100);
}

#[test]
fn type_and_group_names() {
    assert_eq!(ReqType::Reference.as_str(), "reference");
    assert_eq!(ReqType::Manual.as_str(), "manual");
    assert_eq!(ReqType::Collection.as_str(), "collection");
    assert_eq!(ReqType::Profile.as_str(), "profile");
    assert_eq!(ReqType::All.as_str(), "all");
    assert_eq!(LibGroup::All.as_str(), "all");
    assert_eq!(LibGroup::Ndl.as_str(), "ndl");
    assert_eq!(LibGroup::Public.as_str(), "public");
    assert_eq!(LibGroup::Academic.as_str(), "academic");
    assert_eq!(LibGroup::Special.as_str(), "special");
    assert_eq!(LibGroup::School.as_str(), "school");
    assert_eq!(LibGroup::Archives.as_str(), "archives");
}

#[test]
fn query_only_request_encodes_fixed_parameters_first() {
    let mut c = empty_condition();
    c.query = Some("question any 北海道".to_string());
    let r = request(c);
    assert_eq!(
        pairs(&r),
        vec![
            p("type", "reference"),
            p("results_num", "100"),
            p("query", "question any 北海道"),
        ]
    );
}

#[test]
fn full_request_keeps_the_fixed_order() {
    let c = Condition {
        query: Some("q".to_string()),
        crt_date_from: Some("20200101".to_string()),
        crt_date_to: Some("20201231".to_string()),
        reg_date_from: Some("20210101".to_string()),
        reg_date_to: Some("20211231".to_string()),
        lst_date_from: Some("20220101".to_string()),
        lst_date_to: Some("20221231".to_string()),
    };
    let r = CrdSearchRequest {
        ty: ReqType::Profile,
        condition: c,
        lib_id: Some("1110001".to_string()),
        lib_group: Some(LibGroup::Public),
        results_get_position: Some(7),
        results_num: 5,
    };
    assert_eq!(
        pairs(&r),
        vec![
            p("type", "profile"),
            p("results_num", "5"),
            p("query", "q"),
            p("crt-date_from", "20200101"),
            p("crt-date_to", "20201231"),
            p("reg-date_from", "20210101"),
            p("reg-date_to", "20211231"),
            p("lst-date_from", "20220101"),
            p("lst-date_to", "20221231"),
            p("lib_id", "1110001"),
            p("lib_group", "public"),
            p("results_get_position", "7"),
        ]
    );
}

#[test]
fn last_update_upper_bound_sends_its_own_value() {
    let mut c = empty_condition();
    c.lst_date_from = Some("20200101".to_string());
    c.lst_date_to = Some("20231231".to_string());
    let got = pairs(&request(c));
    assert!(got.contains(&p("lst-date_to", "20231231")));
    assert!(got.contains(&p("lst-date_from", "20200101")));
}

#[test]
fn last_update_upper_bound_alone_is_sent() {
    let mut c = empty_condition();
    c.lst_date_to = Some("20231231".to_string());
    let got = pairs(&request(c));
    assert!(got.contains(&p("lst-date_to", "20231231")));
    assert!(!got.iter().any(|(n, _)| n == "lst-date_from"));
}

#[test]
fn single_condition_field_appears_exactly_once() {
    let names = condition_names();
    for (index, name) in names.iter().enumerate() {
        let got = pairs(&request(condition_with_field(index, "x")));
        for other in names.iter() {
            let count = got.iter().filter(|(n, _)| n == other).count();
            if other == name {
                assert_eq!(count, 1, "{}", name);
            } else {
                assert_eq!(count, 0, "{} with {}", other, name);
            }
        }
    }
}

#[test]
fn condition_with_no_field_is_refused() {
    let r = Condition::try_new(None, None, None, None, None, None, None);
    let e = r.unwrap_err();
    assert_eq!(
        e.message(),
        "query, crt_date_from, crt_date_to, reg_date_from, reg_date_to, lst_date_from, lst_date_to のうち少なくとも1つは指定してください"
    );
    assert!(empty_condition().validate().is_err());
}

#[test]
fn condition_with_any_single_field_is_accepted() {
    for index in 0..7 {
        let c = condition_with_field(index, "20240101");
        assert!(c.validate().is_ok());
        let built = Condition::try_new(
            c.query.clone(),
            c.crt_date_from.clone(),
            c.crt_date_to.clone(),
            c.reg_date_from.clone(),
            c.reg_date_to.clone(),
            c.lst_date_from.clone(),
            c.lst_date_to.clone(),
        )
        .unwrap();
        assert_eq!(built.query, c.query);
        assert_eq!(built.lst_date_to, c.lst_date_to);
    }
}

#[test]
fn result_count_must_lie_between_zero_and_one_hundred() {
    let mut c = empty_condition();
    c.query = Some("q".to_string());
    let mut r = request(c);
    for n in [0i8, 1, 50, 100] {
        r.results_num = n;
        assert!(r.validate().is_ok());
    }
    for n in [-1i8, 101, 127, -128] {
        r.results_num = n;
        assert!(r.validate().is_err());
    }
}

#[test]
fn cursor_and_limit_are_encoded_and_stable() {
    let mut c = empty_condition();
    c.query = Some("q".to_string());
    let mut r = request(c);
    r.results_get_position = Some(20);
    r.results_num = 50;
    let first = pairs(&r);
    let second = pairs(&r);
    assert!(first.contains(&p("results_get_position", "20")));
    assert!(first.contains(&p("results_num", "50")));
    assert_eq!(first, second);
    assert_eq!(first[1], p("results_num", "50"));
    assert_eq!(first.last().unwrap(), &p("results_get_position", "20"));
}

#[test]
fn cursor_edge_values_are_written_in_decimal() {
    let mut c = empty_condition();
    c.query = Some("q".to_string());
    let mut r = request(c);
    r.results_num = 0;
    for (cursor, text) in [(0, "0"), (9, "9"), (10, "10"), (2147483647, "2147483647"), (-5, "-5")] {
        r.results_get_position = Some(cursor);
        let got = pairs(&r);
        assert_eq!(got[1], p("results_num", "0"));
        assert_eq!(got.last().unwrap(), &p("results_get_position", text));
    }
}
