use vstd::prelude::*;

use crate::crd::{
    Bibl, CrdCollectionResult, CrdError, CrdManualResult, CrdProfileResult, CrdReferenceResult,
    CrdResult, CrdResultSet, CrdSystem, CrdSystemWithoutSysId, NdcClass, ResultEntry,
};
use crate::xml::same_text;

verus! {

/// A successful search as the caller sees it.
#[derive(Debug, Clone)]
pub struct CrdSearchResponse {
    pub hit_count: i32,
    pub cursor_position: i32,
    pub results_returned: i32,
    pub results: Vec<CrdSearchResult>,
}

/// One hit, with the service's field names replaced by descriptive ones and
/// its status codes turned into flags.
#[derive(Debug, Clone)]
pub enum CrdSearchResult {
    Reference {
        url: String,
        question: String,
        registration_id: String,
        answer: String,
        created_at: String,
        is_solution: bool,
        keywords: Option<Vec<String>>,
        classes: Option<Vec<NdcClass>>,
        survey_type: Option<String>,
        content_type: Option<String>,
        bibls: Option<Vec<Bibl>>,
        answer_process: Option<String>,
        referrals: Option<Vec<String>>,
        pre_survey: Option<String>,
        note: Option<String>,
        questioner_type: Option<String>,
        contributors: Option<Vec<String>>,
        system: CrdSystem,
    },
    Manual {
        url: String,
        theme: String,
        registration_id: String,
        guide: String,
        created_at: String,
        is_completed: bool,
        keywords: Option<Vec<String>>,
        classes: Option<Vec<NdcClass>>,
        bibls: Option<Vec<Bibl>>,
        note: Option<String>,
        system: CrdSystem,
    },
    Collection {
        url: String,
        name: String,
        name_kana: String,
        registration_id: String,
        content: String,
        origin: Option<String>,
        restriction: Option<String>,
        catalog: Option<String>,
        literature: Option<String>,
        number: Option<String>,
        is_continued: bool,
        keywords: Option<Vec<String>>,
        classes: Option<Vec<NdcClass>>,
        note: Option<String>,
        system: CrdSystem,
    },
    Profile {
        url: String,
        library_type: String,
        library_name: String,
        library_name_kana: String,
        library_name_abbr: String,
        zip_code: String,
        address_prefecture: String,
        address_city: String,
        address_street: String,
        tel1: String,
        tel1_note: Option<String>,
        tel2: Option<String>,
        tel2_note: Option<String>,
        tel3: Option<String>,
        tel3_note: Option<String>,
        fax: Option<String>,
        e_mail: Option<String>,
        homepage: Option<String>,
        open_info: Option<String>,
        restriction: Option<String>,
        outline: Option<String>,
        feature: Option<String>,
        notes: Option<String>,
        access: Option<String>,
        isil: Option<String>,
        system: CrdSystemWithoutSysId,
    },
}

/// A code flag is set only by the code 0; an absent code or any other code
/// leaves it unset.
pub open spec fn code_is_zero(code: Option<i8>) -> bool {
    code == Some(0i8)
}

/// The continuation flag is set only by the text "0".
pub open spec fn text_is_zero(t: Option<String>) -> bool {
    match t {
        Some(s) => s@ == "0"@,
        None => false,
    }
}

/// A hit of the service re-expressed for the caller.
pub open spec fn normalized(v: CrdResult) -> CrdSearchResult {
    match v {
        CrdResult::Reference(r) => CrdSearchResult::Reference {
            url: r.url,
            question: r.question,
            registration_id: r.reg_id,
            answer: r.answer,
            created_at: r.crt_date,
            is_solution: code_is_zero(r.solution),
            keywords: r.keywords,
            classes: r.classes,
            survey_type: r.res_type,
            content_type: r.con_type,
            bibls: r.bibls,
            answer_process: r.ans_proc,
            referrals: r.referrals,
            pre_survey: r.pre_res,
            note: r.note,
            questioner_type: r.ptn_type,
            contributors: r.contri,
            system: r.system,
        },
        CrdResult::Manual(r) => CrdSearchResult::Manual {
            url: r.url,
            theme: r.theme,
            registration_id: r.reg_id,
            guide: r.guide,
            created_at: r.crt_date,
            is_completed: code_is_zero(r.completion),
            keywords: r.keywords,
            classes: r.classes,
            bibls: r.bibls,
            note: r.note,
            system: r.system,
        },
        CrdResult::Collection(r) => CrdSearchResult::Collection {
            url: r.url,
            name: r.col_name,
            name_kana: r.pro_key,
            registration_id: r.reg_id,
            content: r.outline,
            origin: r.origin,
            restriction: r.restriction,
            catalog: r.catalog,
            literature: r.literature,
            number: r.number,
            is_continued: text_is_zero(r.continued),
            keywords: r.keywords,
            classes: r.classes,
            note: r.note,
            system: r.system,
        },
        CrdResult::Profile(r) => CrdSearchResult::Profile {
            url: r.url,
            library_type: r.ty,
            library_name: r.name,
            library_name_kana: r.pro_key,
            library_name_abbr: r.abbr,
            zip_code: r.zip_code,
            address_prefecture: r.add_pref,
            address_city: r.add_city,
            address_street: r.add_street,
            tel1: r.tel1,
            tel1_note: r.tel1_note,
            tel2: r.tel2,
            tel2_note: r.tel2_note,
            tel3: r.tel3,
            tel3_note: r.tel3_note,
            fax: r.fax,
            e_mail: r.e_mail,
            homepage: r.lib_url,
            open_info: r.open_info,
            restriction: r.restriction,
            outline: r.outline,
            feature: r.feature,
            notes: r.notes,
            access: r.access,
            isil: r.isil,
            system: r.system,
        },
    }
}

fn is_zero_code(code: Option<i8>) -> (r: bool)
    ensures
        r == code_is_zero(code),
{
    match code {
        Some(c) => c == 0,
        None => false,
    }
}

fn is_zero_text(t: &Option<String>) -> (r: bool)
    ensures
        r == text_is_zero(*t),
{
    match t {
        Some(s) => same_text(s, "0"),
        None => false,
    }
}

impl vstd::std_specs::convert::FromSpecImpl<CrdResult> for CrdSearchResult {
    open spec fn obeys_from_spec() -> bool {
        true
    }

    open spec fn from_spec(v: CrdResult) -> CrdSearchResult {
        normalized(v)
    }
}

impl From<CrdResult> for CrdSearchResult {
    fn from(value: CrdResult) -> CrdSearchResult {
        match value {
            CrdResult::Reference(CrdReferenceResult {
                url,
                question,
                reg_id,
                answer,
                crt_date,
                solution,
                keywords,
                classes,
                res_type,
                con_type,
                bibls,
                ans_proc,
                referrals,
                pre_res,
                note,
                ptn_type,
                contri,
                system,
            }) => CrdSearchResult::Reference {
                url,
                question,
                registration_id: reg_id,
                answer,
                created_at: crt_date,
                is_solution: is_zero_code(solution),
                keywords,
                classes,
                survey_type: res_type,
                content_type: con_type,
                bibls,
                answer_process: ans_proc,
                referrals,
                pre_survey: pre_res,
                note,
                questioner_type: ptn_type,
                contributors: contri,
                system,
            },
            CrdResult::Manual(CrdManualResult {
                url,
                theme,
                reg_id,
                guide,
                crt_date,
                completion,
                keywords,
                classes,
                bibls,
                note,
                system,
            }) => CrdSearchResult::Manual {
                url,
                theme,
                registration_id: reg_id,
                guide,
                created_at: crt_date,
                is_completed: is_zero_code(completion),
                keywords,
                classes,
                bibls,
                note,
                system,
            },
            CrdResult::Collection(CrdCollectionResult {
                url,
                col_name,
                pro_key,
                reg_id,
                outline,
                origin,
                restriction,
                catalog,
                literature,
                number,
                continued,
                keywords,
                classes,
                note,
                system,
            }) => {
                let is_continued = is_zero_text(&continued);
                CrdSearchResult::Collection {
                    url,
                    name: col_name,
                    name_kana: pro_key,
                    registration_id: reg_id,
                    content: outline,
                    origin,
                    restriction,
                    catalog,
                    literature,
                    number,
                    is_continued,
                    keywords,
                    classes,
                    note,
                    system,
                }
            },
            CrdResult::Profile(CrdProfileResult {
                url,
                ty,
                name,
                abbr,
                pro_key,
                zip_code,
                add_pref,
                add_city,
                add_street,
                tel1,
                tel1_note,
                tel2,
                tel2_note,
                tel3,
                tel3_note,
                fax,
                e_mail,
                lib_url,
                open_info,
                restriction,
                outline,
                feature,
                notes,
                access,
                isil,
                system,
            }) => CrdSearchResult::Profile {
                url,
                library_type: ty,
                library_name: name,
                library_name_kana: pro_key,
                library_name_abbr: abbr,
                zip_code,
                address_prefecture: add_pref,
                address_city: add_city,
                address_street: add_street,
                tel1,
                tel1_note,
                tel2,
                tel2_note,
                tel3,
                tel3_note,
                fax,
                e_mail,
                homepage: lib_url,
                open_info,
                restriction,
                outline,
                feature,
                notes,
                access,
                isil,
                system,
            },
        }
    }
}

/// Why a search produced no response.
#[derive(Debug, Clone)]
pub enum SearchError {
    /// The service rejected the request; its first reported error.
    Upstream(CrdError),
    /// The service broke its own contract: success without a hit count or a
    /// result list, or failure without any error entry.
    Unknown,
}

impl SearchError {
    pub open spec fn spec_message(self) -> Seq<char> {
        match self {
            SearchError::Upstream(e) => e.err_msg@,
            SearchError::Unknown => "Unknown error"@,
        }
    }

    /// The message to show the caller.
    pub fn message(&self) -> (r: String)
        ensures
            r@ == self.spec_message(),
    {
        match self {
            SearchError::Upstream(e) => e.err_msg.clone(),
            SearchError::Unknown => String::from_str("Unknown error"),
        }
    }
}

/// The response for a successful result set: its counts, and every entry
/// normalized, in order.
pub open spec fn response_of(s: CrdResultSet, resp: CrdSearchResponse) -> bool {
    &&& s.hit_num == Some(resp.hit_count)
    &&& resp.cursor_position == s.results_get_position
    &&& resp.results_returned == s.results_num
    &&& s.result is Some
    &&& resp.results@.len() == s.result.unwrap()@.len()
    &&& forall|j: int|
        0 <= j < resp.results@.len() ==> resp.results@[j] == normalized(
            #[trigger] s.result.unwrap()@[j].item,
        )
}

/// Status 0 gives the response, or `Unknown` when the hit count or the
/// result list is missing. Any other status gives the first error entry, or
/// `Unknown` when there is none.
pub open spec fn outcome_of(s: CrdResultSet, r: Result<CrdSearchResponse, SearchError>) -> bool {
    if s.results_cd == 0 {
        if s.hit_num is Some && s.result is Some {
            r is Ok && response_of(s, r->Ok_0)
        } else {
            r == Err::<CrdSearchResponse, SearchError>(SearchError::Unknown)
        }
    } else {
        match s.err_list {
            Some(es) => if es@.len() > 0 {
                r == Err::<CrdSearchResponse, SearchError>(SearchError::Upstream(es@[0].err_item))
            } else {
                r == Err::<CrdSearchResponse, SearchError>(SearchError::Unknown)
            },
            None => r == Err::<CrdSearchResponse, SearchError>(SearchError::Unknown),
        }
    }
}

/// The entries of a result set that has them.
pub open spec fn all_entries(s: CrdResultSet) -> Vec<ResultEntry> {
    s.result.unwrap()
}

/// Turns a decoded result set into the caller's response or error.
pub fn classify(set: CrdResultSet) -> (r: Result<CrdSearchResponse, SearchError>)
    ensures
        outcome_of(set, r),
{
    let ghost s = set;
    let CrdResultSet { hit_num, results_get_position, results_num, results_cd, err_list, result } =
        set;
    if results_cd == 0 {
        let hit_count = match hit_num {
            Some(h) => h,
            None => return Err(SearchError::Unknown),
        };
        let mut entries = match result {
            Some(rs) => rs,
            None => return Err(SearchError::Unknown),
        };
        let ghost all = entries@;
        let n = entries.len();
        let mut results: Vec<CrdSearchResult> = Vec::new();
        let mut j: usize = 0;
        while j < n
            invariant
                s.result == Some(all_entries(s)),
                all == all_entries(s)@,
                n == all.len(),
                j <= n,
                entries@ == all.subrange(j as int, n as int),
                results@.len() == j,
                forall|m: int| 0 <= m < j ==> results@[m] == normalized(#[trigger] all[m].item),
            decreases n - j,
        {
            let e = entries.remove(0);
            assert(e == all[j as int]);
            assert(entries@ =~= all.subrange(j + 1, n as int));
            results.push(CrdSearchResult::from(e.item));
            j = j + 1;
        }
        Ok(CrdSearchResponse { hit_count, cursor_position: results_get_position, results_returned: results_num, results })
    } else {
        match err_list {
            Some(mut es) => {
                if es.len() > 0 {
                    let first = es.remove(0);
                    Err(SearchError::Upstream(first.err_item))
                } else {
                    Err(SearchError::Unknown)
                }
            },
            None => Err(SearchError::Unknown),
        }
    }
}

/// A successful result set with a hit count and a result list is answered
/// with that hit count and one normalized result per entry, whatever the
/// kinds of the entries and however often a kind repeats.
pub proof fn lemma_success_keeps_counts(s: CrdResultSet, r: Result<CrdSearchResponse, SearchError>)
    requires
        outcome_of(s, r),
        s.results_cd == 0,
        s.hit_num is Some,
        s.result is Some,
    ensures
        r is Ok,
        r->Ok_0.hit_count == s.hit_num.unwrap(),
        r->Ok_0.results@.len() == s.result.unwrap()@.len(),
{
}

/// A failed result set with error entries is answered with the first entry
/// alone; the later entries do not appear in the error.
pub proof fn lemma_failure_reports_first_error(
    s: CrdResultSet,
    r: Result<CrdSearchResponse, SearchError>,
)
    requires
        outcome_of(s, r),
        s.results_cd != 0,
        s.err_list is Some,
        s.err_list.unwrap()@.len() > 0,
    ensures
        r == Err::<CrdSearchResponse, SearchError>(
            SearchError::Upstream(s.err_list.unwrap()@[0].err_item),
        ),
{
}

} // verus!
