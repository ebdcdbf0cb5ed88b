use crd::crd::{CrdResult, CrdResultSet, ResultEntry};
use crd::res::{classify, CrdSearchResult, SearchError};

fn system_block() -> String {
    "<system><reg-date>20200101000000</reg-date><lst-date>20200202000000</lst-date>\
     <sys-id>1000001</sys-id><lib-id>1110001</lib-id><lib-name>Sample Library</lib-name>\
     <file-num>2</file-num></system>"
        .to_string()
}

fn reference(inner: &str) -> String {
    format!(
        "<result><reference><url>https://example.org/r</url><question>Q</question>\
         <reg-id>R-1</reg-id><answer>A</answer>{}{}</reference></result>",
        inner,
        system_block()
    )
}

fn manual(inner: &str) -> String {
    format!(
        "<result><manual><url>https://example.org/m</url><theme>T</theme><reg-id>M-1</reg-id>\
         <guide>G</guide><crt-date>20190101</crt-date>{}{}</manual></result>",
        inner,
        system_block()
    )
}

fn collection(inner: &str) -> String {
    format!(
        "<result><collection><url>https://example.org/c</url><col-name>N</col-name>\
         <pro_key>エヌ</pro_key><reg-id>C-1</reg-id><outline>O</outline>{}{}</collection></result>",
        inner,
        system_block()
    )
}

fn profile() -> String {
    "<result><profile><url>https://example.org/p</url><lib-type>21</lib-type>\
     <lib-name>Prefectural Library</lib-name><abbr>PL</abbr><pro-key>ケンリツ</pro-key>\
     <zip-code>380-0000</zip-code><add-pref>Nagano</add-pref><add-city>Nagano-shi</add-city>\
     <add-street>1-1</add-street><tel1>026-000-0000</tel1><lib-url>https://lib.example.org</lib-url>\
     <system><reg-date>20100101</reg-date><lst-date>20200101</lst-date><lib-id>2010001</lib-id>\
     <lib-name>Prefectural Library</lib-name></system></profile></result>"
        .to_string()
}

fn success(hits: i32, entries: &str) -> String {
    format!(
        "<?xml version=\"1.0\" encoding=\"UTF-8\"?>\n<result_set>\n  <hit_num>{}</hit_num>\n  \
         <results_get_position>1</results_get_position>\n  <results_num>10</results_num>\n  \
         <results_cd>0</results_cd>\n  {}\n</result_set>",
        hits, entries
    )
}

fn failure(errors: &str) -> String {
    format!(
        "<result_set><results_get_position>1</results_get_position><results_num>10</results_num>\
         <results_cd>1</results_cd>{}</result_set>",
        errors
    )
}

fn error_item(code: &str, fld: &str, msg: &str) -> String {
    format!(
        "<err_item><err_code>{}</err_code><err_fld>{}</err_fld><err_msg>{}</err_msg></err_item>",
        code, fld, msg
    )
}

fn decode(xml: &str) -> CrdResultSet {
    CrdResultSet::from_xml(xml).unwrap()
}

fn only_result(xml: &str) -> CrdSearchResult {
    let response = classify(decode(xml)).unwrap();
    assert_eq!(response.results.len(), 1);
    response.results.into_iter().next().unwrap()
}

#[test]
fn success_document_with_three_entries() {
    let entries = format!("{}{}{}", reference(""), manual(""), reference(""));
    let set = decode(&success(3, &entries));
    assert_eq!(set.results_cd, 0);
    assert_eq!(set.hit_num, Some(3));
    let response = classify(set).unwrap();
    assert_eq!(response.results.len(), 3);
    assert_eq!(response.hit_count, 3);
    assert_eq!(response.cursor_position, 1);
    assert_eq!(response.results_returned, 10);
    assert!(matches!(response.results[0], CrdSearchResult::Reference { .. }));
    assert!(matches!(response.results[1], CrdSearchResult::Manual { .. }));
    assert!(matches!(response.results[2], CrdSearchResult::Reference { .. }));
}

#[test]
fn every_kind_of_entry_is_read_by_its_tag() {
    let entries = format!("{}{}{}{}", reference(""), manual(""), collection(""), profile());
    let response = classify(decode(&success(4, &entries))).unwrap();
    assert!(matches!(response.results[0], CrdSearchResult::Reference { .. }));
    assert!(matches!(response.results[1], CrdSearchResult::Manual { .. }));
    assert!(matches!(response.results[2], CrdSearchResult::Collection { .. }));
    assert!(matches!(response.results[3], CrdSearchResult::Profile { .. }));
}

#[test]
fn entries_in_one_container_are_all_read() {
    let xml = success(
        2,
        "<result><reference><url>u1</url><question>q</question><reg-id>1</reg-id><answer>a</answer>\
         <system><reg-date>d</reg-date><lst-date>d</lst-date><sys-id>s</sys-id><lib-id>l</lib-id>\
         <lib-name>n</lib-name></system></reference><reference><url>u2</url><question>q</question>\
         <reg-id>2</reg-id><answer>a</answer><system><reg-date>d</reg-date><lst-date>d</lst-date>\
         <sys-id>s</sys-id><lib-id>l</lib-id><lib-name>n</lib-name></system></reference></result>",
    );
    let set = decode(&xml);
    let entries = set.result.unwrap();
    assert_eq!(entries.len(), 2);
    match &entries[1].item {
        CrdResult::Reference(r) => assert_eq!(r.url, "u2"),
        _ => panic!("expected a reference"),
    }
}

#[test]
fn solution_code_sets_the_flag_only_when_zero() {
    for (inner, expected) in [
        ("", false),
        ("<solution>1</solution>", false),
        ("<solution>0</solution>", true),
    ] {
        match only_result(&success(1, &reference(inner))) {
            CrdSearchResult::Reference { is_solution, .. } => assert_eq!(is_solution, expected),
            _ => panic!("expected a reference"),
        }
    }
}

#[test]
fn completion_code_sets_the_flag_only_when_zero() {
    for (inner, expected) in [
        ("", false),
        ("<completion>1</completion>", false),
        ("<completion>0</completion>", true),
    ] {
        match only_result(&success(1, &manual(inner))) {
            CrdSearchResult::Manual { is_completed, .. } => assert_eq!(is_completed, expected),
            _ => panic!("expected a guide"),
        }
    }
}

#[test]
fn continuation_flag_is_set_only_by_the_text_zero() {
    for (inner, expected) in [
        ("", false),
        ("<continue>1</continue>", false),
        ("<continue>0</continue>", true),
        ("<continue>00</continue>", false),
    ] {
        match only_result(&success(1, &collection(inner))) {
            CrdSearchResult::Collection { is_continued, name, name_kana, content, .. } => {
                assert_eq!(is_continued, expected);
                assert_eq!(name, "N");
                assert_eq!(name_kana, "エヌ");
                assert_eq!(content, "O");
            },
            _ => panic!("expected a collection"),
        }
    }
}

#[test]
fn missing_creation_date_reads_as_empty() {
    match only_result(&success(1, &reference(""))) {
        CrdSearchResult::Reference { created_at, .. } => assert_eq!(created_at, ""),
        _ => panic!("expected a reference"),
    }
    match only_result(&success(1, &reference("<crt-date>20240102</crt-date>"))) {
        CrdSearchResult::Reference { created_at, .. } => assert_eq!(created_at, "20240102"),
        _ => panic!("expected a reference"),
    }
}

#[test]
fn guide_without_creation_date_is_refused() {
    let xml = success(
        1,
        "<result><manual><url>u</url><theme>t</theme><reg-id>r</reg-id><guide>g</guide>\
         <system><reg-date>d</reg-date><lst-date>d</lst-date><sys-id>s</sys-id><lib-id>l</lib-id>\
         <lib-name>n</lib-name></system></manual></result>",
    );
    assert!(CrdResultSet::from_xml(&xml).is_err());
}

#[test]
fn reference_fields_are_renamed() {
    let inner = "<crt-date>20240102</crt-date><keyword>k1</keyword><keyword>k2</keyword>\
                 <classes type=\"NDC\" code=\"9\">913</classes><res-type>事実調査</res-type>\
                 <con-type>郷土</con-type><bibl><bibl-desc>Book</bibl-desc><bibl-isbn>978</bibl-isbn></bibl>\
                 <ans-proc>looked</ans-proc><referral>elsewhere</referral><pre-res>none</pre-res>\
                 <note>n</note><ptn-type>student</ptn-type><contri>someone</contri>";
    match only_result(&success(1, &reference(inner))) {
        CrdSearchResult::Reference {
            url,
            question,
            registration_id,
            answer,
            keywords,
            classes,
            survey_type,
            content_type,
            bibls,
            answer_process,
            referrals,
            pre_survey,
            note,
            questioner_type,
            contributors,
            system,
            ..
        } => {
            assert_eq!(url, "https://example.org/r");
            assert_eq!(question, "Q");
            assert_eq!(registration_id, "R-1");
            assert_eq!(answer, "A");
            assert_eq!(keywords, Some(vec!["k1".to_string(), "k2".to_string()]));
            let classes = classes.unwrap();
            assert_eq!(classes.len(), 1);
            assert_eq!(classes[0].ty, "NDC");
            assert_eq!(classes[0].version, Some("9".to_string()));
            assert_eq!(classes[0].value, Some("913".to_string()));
            assert_eq!(survey_type, Some("事実調査".to_string()));
            assert_eq!(content_type, Some("郷土".to_string()));
            let bibls = bibls.unwrap();
            assert_eq!(bibls[0].desc, Some("Book".to_string()));
            assert_eq!(bibls[0].isbn, Some("978".to_string()));
            assert_eq!(bibls[0].note, None);
            assert_eq!(answer_process, Some("looked".to_string()));
            assert_eq!(referrals, Some(vec!["elsewhere".to_string()]));
            assert_eq!(pre_survey, Some("none".to_string()));
            assert_eq!(note, Some("n".to_string()));
            assert_eq!(questioner_type, Some("student".to_string()));
            assert_eq!(contributors, Some(vec!["someone".to_string()]));
            assert_eq!(system.sys_id, "1000001");
            assert_eq!(system.lib_name, "Sample Library");
            assert_eq!(system.file_num, 2);
        },
        _ => panic!("expected a reference"),
    }
}

#[test]
fn absent_lists_stay_absent() {
    match only_result(&success(1, &reference(""))) {
        CrdSearchResult::Reference { keywords, classes, bibls, referrals, contributors, note, .. } => {
            assert_eq!(keywords, None);
            assert!(classes.is_none());
            assert!(bibls.is_none());
            assert_eq!(referrals, None);
            assert_eq!(contributors, None);
            assert_eq!(note, None);
        },
        _ => panic!("expected a reference"),
    }
}

#[test]
fn profile_fields_are_renamed() {
    match only_result(&success(1, &profile())) {
        CrdSearchResult::Profile {
            library_type,
            library_name,
            library_name_kana,
            library_name_abbr,
            address_prefecture,
            address_city,
            address_street,
            homepage,
            tel2,
            system,
            ..
        } => {
            assert_eq!(library_type, "21");
            assert_eq!(library_name, "Prefectural Library");
            assert_eq!(library_name_kana, "ケンリツ");
            assert_eq!(library_name_abbr, "PL");
            assert_eq!(address_prefecture, "Nagano");
            assert_eq!(address_city, "Nagano-shi");
            assert_eq!(address_street, "1-1");
            assert_eq!(homepage, Some("https://lib.example.org".to_string()));
            assert_eq!(tel2, None);
            assert_eq!(system.lib_id, "2010001");
            assert_eq!(system.file_num, 0);
        },
        _ => panic!("expected a profile"),
    }
}

#[test]
fn escaped_text_is_unescaped() {
    let xml = success(
        1,
        "<result><reference><url>u</url><question>a &amp; b &lt;c&gt;</question><reg-id>r</reg-id>\
         <answer><![CDATA[x < y]]></answer><system><reg-date>d</reg-date><lst-date>d</lst-date>\
         <sys-id>s</sys-id><lib-id>l</lib-id><lib-name>n</lib-name></system></reference></result>",
    );
    match only_result(&xml) {
        CrdSearchResult::Reference { question, answer, .. } => {
            assert_eq!(question, "a & b <c>");
            assert_eq!(answer, "x < y");
        },
        _ => panic!("expected a reference"),
    }
}

#[test]
fn empty_success_has_no_results() {
    let set = decode(&success(0, "<result></result>"));
    let response = classify(set).unwrap();
    assert_eq!(response.hit_count, 0);
    assert!(response.results.is_empty());
}

#[test]
fn first_upstream_error_is_reported() {
    let errors = format!(
        "<err_list>{}{}</err_list>",
        error_item("E001", "query", "first message"),
        error_item("E002", "type", "second message")
    );
    let set = decode(&failure(&errors));
    assert_eq!(set.hit_num, None);
    assert_eq!(set.err_list.as_ref().unwrap().len(), 2);
    match classify(set) {
        Err(SearchError::Upstream(e)) => {
            assert_eq!(e.err_code, "E001");
            assert_eq!(e.err_fld, "query");
            assert_eq!(e.err_msg, "first message");
        },
        other => panic!("unexpected outcome {:?}", other),
    }
}

#[test]
fn error_message_is_the_upstream_message() {
    let errors = format!("<err_list>{}</err_list>", error_item("E1", "query", "bad query"));
    let e = classify(decode(&failure(&errors))).unwrap_err();
    assert_eq!(e.message(), "bad query");
}

#[test]
fn failure_with_empty_error_list_is_unknown() {
    let e = classify(decode(&failure("<err_list></err_list>"))).unwrap_err();
    assert!(matches!(e, SearchError::Unknown));
    assert_eq!(e.message(), "Unknown error");
    let e = classify(decode(&failure("<err_list/>"))).unwrap_err();
    assert!(matches!(e, SearchError::Unknown));
}

#[test]
fn failure_without_error_list_is_unknown() {
    let set = decode(&failure(""));
    assert!(set.err_list.is_none());
    assert!(matches!(classify(set), Err(SearchError::Unknown)));
}

#[test]
fn success_without_hit_count_is_unknown() {
    let xml = "<result_set><results_get_position>1</results_get_position>\
               <results_num>10</results_num><results_cd>0</results_cd><result></result></result_set>";
    assert!(matches!(classify(decode(xml)), Err(SearchError::Unknown)));
}

#[test]
fn success_without_result_list_is_unknown() {
    let set = CrdResultSet {
        hit_num: Some(1),
        results_get_position: 0,
        results_num: 1,
        results_cd: 0,
        err_list: None,
        result: None,
    };
    assert!(matches!(classify(set), Err(SearchError::Unknown)));
}

#[test]
fn classify_keeps_entries_in_order() {
    let set = decode(&success(2, &format!("{}{}", collection(""), profile())));
    let entries: Vec<ResultEntry> = set.result.clone().unwrap();
    assert_eq!(entries.len(), 2);
    let response = classify(set).unwrap();
    assert!(matches!(response.results[0], CrdSearchResult::Collection { .. }));
    assert!(matches!(response.results[1], CrdSearchResult::Profile { .. }));
}

#[test]
fn malformed_documents_are_refused() {
    assert!(CrdResultSet::from_xml("").is_err());
    assert!(CrdResultSet::from_xml("not xml at all").is_err());
    assert!(CrdResultSet::from_xml("<result_set><results_cd>0</results_cd>").is_err());
    assert!(CrdResultSet::from_xml("<result_set></wrong>").is_err());
    assert!(CrdResultSet::from_xml("<a>&unknown;</a>").is_err());
}

#[test]
fn missing_status_is_refused() {
    let xml = "<result_set><hit_num>1</hit_num><results_get_position>1</results_get_position>\
               <results_num>10</results_num></result_set>";
    assert!(CrdResultSet::from_xml(xml).is_err());
}

#[test]
fn non_numeric_status_is_refused() {
    let xml = "<result_set><results_get_position>1</results_get_position>\
               <results_num>10</results_num><results_cd>x</results_cd></result_set>";
    assert!(CrdResultSet::from_xml(xml).is_err());
    let xml = "<result_set><results_get_position>1</results_get_position>\
               <results_num>10</results_num><results_cd>99999999999</results_cd></result_set>";
    assert!(CrdResultSet::from_xml(xml).is_err());
}

#[test]
fn negative_status_is_a_failure() {
    let xml = "<result_set><results_get_position>1</results_get_position>\
               <results_num>10</results_num><results_cd>-1</results_cd></result_set>";
    let set = decode(xml);
    assert_eq!(set.results_cd, -1);
    assert!(matches!(classify(set), Err(SearchError::Unknown)));
}

#[test]
fn out_of_range_solution_is_refused() {
    let xml = success(1, &reference("<solution>300</solution>"));
    assert!(CrdResultSet::from_xml(&xml).is_err());
}

#[test]
fn unknown_entry_tag_is_refused() {
    let xml = success(1, "<result><article><url>u</url></article></result>");
    assert!(CrdResultSet::from_xml(&xml).is_err());
}

#[test]
fn truncated_document_is_refused() {
    let entries = format!("{}{}{}", reference(""), manual(""), reference(""));
    let full = success(3, &entries);
    assert!(CrdResultSet::from_xml(&full).is_ok());
    let cut = full.find("</result>").unwrap() + "</result>".len();
    assert!(CrdResultSet::from_xml(&full[..cut]).is_err());
}

#[test]
fn unclosed_root_is_refused() {
    let xml = "<result_set><hit_num>0</hit_num><results_get_position>1</results_get_position>\
               <results_num>10</results_num><results_cd>0</results_cd><result></result>";
    assert!(CrdResultSet::from_xml(xml).is_err());
}

#[test]
fn signed_codes_are_read() {
    match only_result(&success(1, &reference("<solution>+0</solution>"))) {
        CrdSearchResult::Reference { is_solution, .. } => assert!(is_solution),
        _ => panic!("expected a reference"),
    }
    match only_result(&success(1, &reference("<solution>-1</solution>"))) {
        CrdSearchResult::Reference { is_solution, .. } => assert!(!is_solution),
        _ => panic!("expected a reference"),
    }
    assert!(CrdResultSet::from_xml(&success(1, &reference("<solution>+</solution>"))).is_err());
}

#[test]
fn empty_element_tags_are_read() {
    let xml = success(1, &reference("<note/><classes type=\"NDC\"/>"));
    match only_result(&xml) {
        CrdSearchResult::Reference { note, classes, .. } => {
            assert_eq!(note, Some(String::new()));
            let classes = classes.unwrap();
            assert_eq!(classes[0].ty, "NDC");
            assert_eq!(classes[0].value, None);
        },
        _ => panic!("expected a reference"),
    }
}

#[test]
fn escaped_attribute_values_are_unescaped() {
    let xml = success(1, &reference("<classes type=\"A&amp;B\" code=\"&lt;9\">913</classes>"));
    match only_result(&xml) {
        CrdSearchResult::Reference { classes, .. } => {
            let classes = classes.unwrap();
            assert_eq!(classes[0].ty, "A&B");
            assert_eq!(classes[0].version, Some("<9".to_string()));
        },
        _ => panic!("expected a reference"),
    }
}
