use vstd::prelude::*;

use crate::xml::{
    child, child_elements, children_named, field, field_list, integer_in, parse_integer, as_ints,
    attr, elem_text, opens_at, first_where, token_name, lemma_all_has_first, lemma_first_in_all,
    nested, read_events, tokens_from_events, tokens_of_events, all_readable, xml_events, XmlEvent, DecodeError, XmlDocument, XmlToken, SATURATION,
};

verus! {

// ---------------------------------------------------------------------------
// The records of a response document
// ---------------------------------------------------------------------------

/// A response document: the status, the hit count and position, and either
/// the error entries or the result entries.
#[derive(Debug, Clone)]
pub struct CrdResultSet {
    pub hit_num: Option<i32>,
    pub results_get_position: i32,
    pub results_num: i32,
    /// 0 on success, anything else on failure.
    pub results_cd: i32,
    pub err_list: Option<Vec<ErrorEntry>>,
    pub result: Option<Vec<ResultEntry>>,
}

#[derive(Debug, Clone)]
pub struct ResultEntry {
    pub item: CrdResult,
}

#[derive(Debug, Clone)]
pub struct ErrorEntry {
    pub err_item: CrdError,
}

/// A rejected request parameter, as the service reports it.
#[derive(Debug, Clone)]
pub struct CrdError {
    pub err_code: String,
    /// The parameter, or the query key, that was rejected.
    pub err_fld: String,
    pub err_msg: String,
}

#[derive(Debug, Clone)]
pub enum CrdResult {
    Reference(CrdReferenceResult),
    Manual(CrdManualResult),
    Collection(CrdCollectionResult),
    Profile(CrdProfileResult),
}

#[derive(Debug, Clone)]
pub struct CrdReferenceResult {
    pub url: String,
    pub question: String,
    pub reg_id: String,
    pub answer: String,
    /// Empty when the document leaves it out.
    pub crt_date: String,
    /// 0: solved, 1: unsolved.
    pub solution: Option<i8>,
    pub keywords: Option<Vec<String>>,
    pub classes: Option<Vec<NdcClass>>,
    pub res_type: Option<String>,
    pub con_type: Option<String>,
    pub bibls: Option<Vec<Bibl>>,
    pub ans_proc: Option<String>,
    pub referrals: Option<Vec<String>>,
    pub pre_res: Option<String>,
    pub note: Option<String>,
    pub ptn_type: Option<String>,
    pub contri: Option<Vec<String>>,
    pub system: CrdSystem,
}

#[derive(Debug, Clone)]
pub struct CrdManualResult {
    pub url: String,
    pub theme: String,
    pub reg_id: String,
    pub guide: String,
    pub crt_date: String,
    /// 0: complete, 1: incomplete.
    pub completion: Option<i8>,
    pub keywords: Option<Vec<String>>,
    pub classes: Option<Vec<NdcClass>>,
    pub bibls: Option<Vec<Bibl>>,
    pub note: Option<String>,
    pub system: CrdSystem,
}

#[derive(Debug, Clone)]
pub struct CrdCollectionResult {
    pub url: String,
    pub col_name: String,
    pub pro_key: String,
    pub reg_id: String,
    pub outline: String,
    pub origin: Option<String>,
    pub restriction: Option<String>,
    pub catalog: Option<String>,
    pub literature: Option<String>,
    pub number: Option<String>,
    /// "0": continued, "1": not continued.
    pub continued: Option<String>,
    pub keywords: Option<Vec<String>>,
    pub classes: Option<Vec<NdcClass>>,
    pub note: Option<String>,
    pub system: CrdSystem,
}

#[derive(Debug, Clone)]
pub struct CrdProfileResult {
    pub url: String,
    pub ty: String,
    pub name: String,
    pub abbr: String,
    pub pro_key: String,
    pub zip_code: String,
    pub add_pref: String,
    pub add_city: String,
    pub add_street: String,
    pub tel1: String,
    pub tel1_note: Option<String>,
    pub tel2: Option<String>,
    pub tel2_note: Option<String>,
    pub tel3: Option<String>,
    pub tel3_note: Option<String>,
    pub fax: Option<String>,
    pub e_mail: Option<String>,
    pub lib_url: Option<String>,
    pub open_info: Option<String>,
    pub restriction: Option<String>,
    pub outline: Option<String>,
    pub feature: Option<String>,
    pub notes: Option<String>,
    pub access: Option<String>,
    pub isil: Option<String>,
    pub system: CrdSystemWithoutSysId,
}

/// The bookkeeping block of a library profile.
#[derive(Debug, Clone)]
pub struct CrdSystemWithoutSysId {
    pub reg_date: String,
    pub lst_date: String,
    pub lib_id: String,
    pub lib_name: String,
    /// 0 when no file is attached.
    pub file_num: i32,
}

/// The bookkeeping block of a reference, guide or collection.
#[derive(Debug, Clone)]
pub struct CrdSystem {
    pub reg_date: String,
    pub lst_date: String,
    pub sys_id: String,
    pub lib_id: String,
    pub lib_name: String,
    /// 0 when no file is attached.
    pub file_num: i32,
}

/// A classification number, with the scheme and its edition.
#[derive(Debug, Clone)]
pub struct NdcClass {
    pub ty: String,
    pub version: Option<String>,
    pub value: Option<String>,
}

/// A source consulted for an answer.
#[derive(Debug, Clone)]
pub struct Bibl {
    pub desc: Option<String>,
    pub isbn: Option<String>,
    pub note: Option<String>,
}

// ---------------------------------------------------------------------------
// Scalar fields
// ---------------------------------------------------------------------------

/// A field read as an integer within `lo..=hi`: `Some(None)` when the field is
/// absent, `None` when it is present but not such an integer.
pub open spec fn int_field(ts: Seq<XmlToken>, i: int, name: Seq<char>, lo: int, hi: int) -> Option<
    Option<int>,
> {
    match field(ts, i, name) {
        None => Some(None),
        Some(t) => match integer_in(t, lo, hi) {
            Some(v) => Some(Some(v)),
            None => None,
        },
    }
}

pub open spec fn opt_i8(o: Option<i8>) -> Option<int> {
    match o {
        Some(x) => Some(x as int),
        None => None,
    }
}

pub open spec fn opt_i32(o: Option<i32>) -> Option<int> {
    match o {
        Some(x) => Some(x as int),
        None => None,
    }
}

pub open spec fn i32_field(ts: Seq<XmlToken>, i: int, name: Seq<char>) -> Option<Option<int>> {
    int_field(ts, i, name, i32::MIN as int, i32::MAX as int)
}

pub open spec fn i8_field(ts: Seq<XmlToken>, i: int, name: Seq<char>) -> Option<Option<int>> {
    int_field(ts, i, name, i8::MIN as int, i8::MAX as int)
}

/// The text of a field, or the empty text when it is absent.
pub open spec fn text_or_empty(o: Option<Seq<char>>) -> Seq<char> {
    match o {
        Some(t) => t,
        None => seq![],
    }
}

/// Reads an integer field that may be absent.
fn int_field_of(doc: &XmlDocument, i: usize, name: &str, lo: i64, hi: i64) -> (r: Result<
    Option<i64>,
    DecodeError,
>)
    requires
        doc.wf(),
        i < doc.ts().len(),
        -SATURATION < lo <= hi < SATURATION,
    ensures
        r is Ok <==> int_field(doc.ts(), i as int, name@, lo as int, hi as int) is Some,
        r matches Ok(v) ==> int_field(doc.ts(), i as int, name@, lo as int, hi as int) == Some(
            match v {
                Some(x) => Some(x as int),
                None => None,
            },
        ),
        r matches Ok(Some(x)) ==> lo <= x <= hi,
{
    match doc.field(i, name) {
        None => Ok(None),
        Some(t) => match parse_integer(&t, lo, hi) {
            Some(v) => Ok(Some(v)),
            None => Err(DecodeError),
        },
    }
}

fn opt_i8_field(doc: &XmlDocument, i: usize, name: &str) -> (r: Result<Option<i8>, DecodeError>)
    requires
        doc.wf(),
        i < doc.ts().len(),
    ensures
        r is Ok <==> i8_field(doc.ts(), i as int, name@) is Some,
        r matches Ok(v) ==> i8_field(doc.ts(), i as int, name@) == Some(opt_i8(v)),
{
    match int_field_of(doc, i, name, -128, 127)? {
        Some(x) => Ok(Some(x as i8)),
        None => Ok(None),
    }
}

fn opt_i32_field(doc: &XmlDocument, i: usize, name: &str) -> (r: Result<Option<i32>, DecodeError>)
    requires
        doc.wf(),
        i < doc.ts().len(),
    ensures
        r is Ok <==> i32_field(doc.ts(), i as int, name@) is Some,
        r matches Ok(v) ==> i32_field(doc.ts(), i as int, name@) == Some(opt_i32(v)),
{
    match int_field_of(doc, i, name, -2147483648, 2147483647)? {
        Some(x) => Ok(Some(x as i32)),
        None => Ok(None),
    }
}

fn required_i32(doc: &XmlDocument, i: usize, name: &str) -> (r: Result<i32, DecodeError>)
    requires
        doc.wf(),
        i < doc.ts().len(),
    ensures
        r is Ok <==> i32_field(doc.ts(), i as int, name@) matches Some(Some(_)),
        r matches Ok(v) ==> i32_field(doc.ts(), i as int, name@) == Some(Some(v as int)),
{
    match opt_i32_field(doc, i, name)? {
        Some(x) => Ok(x),
        None => Err(DecodeError),
    }
}

fn required_text(doc: &XmlDocument, i: usize, name: &str) -> (r: Result<String, DecodeError>)
    requires
        doc.wf(),
        i < doc.ts().len(),
    ensures
        r is Ok <==> field(doc.ts(), i as int, name@) is Some,
        r matches Ok(s) ==> field(doc.ts(), i as int, name@) == Some(s@),
{
    match doc.field(i, name) {
        Some(s) => Ok(s),
        None => Err(DecodeError),
    }
}

} // verus!

verus! {

// ---------------------------------------------------------------------------
// What a decoded record holds
// ---------------------------------------------------------------------------

pub open spec fn present(ts: Seq<XmlToken>, i: int, name: Seq<char>) -> bool {
    field(ts, i, name) is Some
}

pub open spec fn has(ts: Seq<XmlToken>, i: int, name: Seq<char>, s: String) -> bool {
    field(ts, i, name) == Some(s@)
}

pub open spec fn opt(ts: Seq<XmlToken>, i: int, name: Seq<char>, o: Option<String>) -> bool {
    field(ts, i, name) == o.deep_view()
}

pub open spec fn texts(ts: Seq<XmlToken>, i: int, name: Seq<char>, o: Option<Vec<String>>) -> bool {
    field_list(ts, i, name) == o.deep_view()
}

/// The attached-file count: the field's value, or 0 when it is absent.
pub open spec fn file_num_is(ts: Seq<XmlToken>, i: int, n: i32) -> bool {
    match i32_field(ts, i, "file-num"@) {
        Some(Some(v)) => v == n as int,
        Some(None) => n == 0,
        None => false,
    }
}

pub open spec fn system_ok(ts: Seq<XmlToken>, i: int) -> bool {
    &&& present(ts, i, "reg-date"@)
    &&& present(ts, i, "lst-date"@)
    &&& present(ts, i, "sys-id"@)
    &&& present(ts, i, "lib-id"@)
    &&& present(ts, i, "lib-name"@)
    &&& i32_field(ts, i, "file-num"@) is Some
}

pub open spec fn system_of(ts: Seq<XmlToken>, i: int, s: CrdSystem) -> bool {
    &&& has(ts, i, "reg-date"@, s.reg_date)
    &&& has(ts, i, "lst-date"@, s.lst_date)
    &&& has(ts, i, "sys-id"@, s.sys_id)
    &&& has(ts, i, "lib-id"@, s.lib_id)
    &&& has(ts, i, "lib-name"@, s.lib_name)
    &&& file_num_is(ts, i, s.file_num)
}

pub open spec fn short_system_ok(ts: Seq<XmlToken>, i: int) -> bool {
    &&& present(ts, i, "reg-date"@)
    &&& present(ts, i, "lst-date"@)
    &&& present(ts, i, "lib-id"@)
    &&& present(ts, i, "lib-name"@)
    &&& i32_field(ts, i, "file-num"@) is Some
}

pub open spec fn short_system_of(ts: Seq<XmlToken>, i: int, s: CrdSystemWithoutSysId) -> bool {
    &&& has(ts, i, "reg-date"@, s.reg_date)
    &&& has(ts, i, "lst-date"@, s.lst_date)
    &&& has(ts, i, "lib-id"@, s.lib_id)
    &&& has(ts, i, "lib-name"@, s.lib_name)
    &&& file_num_is(ts, i, s.file_num)
}

/// The `system` child of `i` decodes.
pub open spec fn system_child_ok(ts: Seq<XmlToken>, i: int) -> bool {
    match child(ts, i, "system"@) {
        Some(c) => system_ok(ts, c),
        None => false,
    }
}

pub open spec fn system_child_of(ts: Seq<XmlToken>, i: int, s: CrdSystem) -> bool {
    match child(ts, i, "system"@) {
        Some(c) => system_of(ts, c, s),
        None => false,
    }
}

/// A classification: its `type` attribute is required, `code` is optional,
/// and an empty text means no value.
pub open spec fn ndc_ok(ts: Seq<XmlToken>, i: int) -> bool {
    attr(ts, i, "type"@) is Some
}

pub open spec fn ndc_of(ts: Seq<XmlToken>, i: int, c: NdcClass) -> bool {
    &&& attr(ts, i, "type"@) == Some(c.ty@)
    &&& attr(ts, i, "code"@) == c.version.deep_view()
    &&& c.value.deep_view() == (if elem_text(ts, i).len() == 0 {
        None
    } else {
        Some(elem_text(ts, i))
    })
}

pub open spec fn bibl_of(ts: Seq<XmlToken>, i: int, b: Bibl) -> bool {
    &&& opt(ts, i, "bibl-desc"@, b.desc)
    &&& opt(ts, i, "bibl-isbn"@, b.isbn)
    &&& opt(ts, i, "bibl-note"@, b.note)
}

pub open spec fn classes_ok(ts: Seq<XmlToken>, i: int) -> bool {
    let cs = children_named(ts, i, "classes"@);
    forall|j: int| 0 <= j < cs.len() ==> ndc_ok(ts, #[trigger] cs[j])
}

pub open spec fn classes_of(ts: Seq<XmlToken>, i: int, v: Option<Vec<NdcClass>>) -> bool {
    let cs = children_named(ts, i, "classes"@);
    if cs.len() == 0 {
        v is None
    } else {
        &&& v is Some
        &&& v.unwrap()@.len() == cs.len()
        &&& forall|j: int| 0 <= j < cs.len() ==> ndc_of(ts, #[trigger] cs[j], v.unwrap()@[j])
    }
}

pub open spec fn bibls_of(ts: Seq<XmlToken>, i: int, v: Option<Vec<Bibl>>) -> bool {
    let cs = children_named(ts, i, "bibl"@);
    if cs.len() == 0 {
        v is None
    } else {
        &&& v is Some
        &&& v.unwrap()@.len() == cs.len()
        &&& forall|j: int| 0 <= j < cs.len() ==> bibl_of(ts, #[trigger] cs[j], v.unwrap()@[j])
    }
}

pub open spec fn error_ok(ts: Seq<XmlToken>, i: int) -> bool {
    present(ts, i, "err_code"@) && present(ts, i, "err_fld"@) && present(ts, i, "err_msg"@)
}

pub open spec fn error_of(ts: Seq<XmlToken>, i: int, e: CrdError) -> bool {
    &&& has(ts, i, "err_code"@, e.err_code)
    &&& has(ts, i, "err_fld"@, e.err_fld)
    &&& has(ts, i, "err_msg"@, e.err_msg)
}

// ---------------------------------------------------------------------------
// Decoding the small records
// ---------------------------------------------------------------------------

pub fn decode_system(doc: &XmlDocument, i: usize) -> (r: Result<CrdSystem, DecodeError>)
    requires
        doc.wf(),
        i < doc.ts().len(),
    ensures
        r is Ok <==> system_ok(doc.ts(), i as int),
        r matches Ok(s) ==> system_of(doc.ts(), i as int, s),
{
    let reg_date = required_text(doc, i, "reg-date")?;
    let lst_date = required_text(doc, i, "lst-date")?;
    let sys_id = required_text(doc, i, "sys-id")?;
    let lib_id = required_text(doc, i, "lib-id")?;
    let lib_name = required_text(doc, i, "lib-name")?;
    let file_num = match opt_i32_field(doc, i, "file-num")? {
        Some(n) => n,
        None => 0,
    };
    Ok(CrdSystem { reg_date, lst_date, sys_id, lib_id, lib_name, file_num })
}

pub fn decode_short_system(doc: &XmlDocument, i: usize) -> (r: Result<
    CrdSystemWithoutSysId,
    DecodeError,
>)
    requires
        doc.wf(),
        i < doc.ts().len(),
    ensures
        r is Ok <==> short_system_ok(doc.ts(), i as int),
        r matches Ok(s) ==> short_system_of(doc.ts(), i as int, s),
{
    let reg_date = required_text(doc, i, "reg-date")?;
    let lst_date = required_text(doc, i, "lst-date")?;
    let lib_id = required_text(doc, i, "lib-id")?;
    let lib_name = required_text(doc, i, "lib-name")?;
    let file_num = match opt_i32_field(doc, i, "file-num")? {
        Some(n) => n,
        None => 0,
    };
    Ok(CrdSystemWithoutSysId { reg_date, lst_date, lib_id, lib_name, file_num })
}

fn decode_system_child(doc: &XmlDocument, i: usize) -> (r: Result<CrdSystem, DecodeError>)
    requires
        doc.wf(),
        i < doc.ts().len(),
    ensures
        r is Ok <==> system_child_ok(doc.ts(), i as int),
        r matches Ok(s) ==> system_child_of(doc.ts(), i as int, s),
{
    match doc.child(i, "system") {
        Some(c) => decode_system(doc, c),
        None => Err(DecodeError),
    }
}

pub fn decode_ndc(doc: &XmlDocument, i: usize) -> (r: Result<NdcClass, DecodeError>)
    requires
        doc.wf(),
        i < doc.ts().len(),
    ensures
        r is Ok <==> ndc_ok(doc.ts(), i as int),
        r matches Ok(c) ==> ndc_of(doc.ts(), i as int, c),
{
    let ty = match doc.attr(i, "type") {
        Some(t) => t,
        None => return Err(DecodeError),
    };
    let version = doc.attr(i, "code");
    let text = doc.text_of(i);
    let value = if text.as_str().unicode_len() == 0 {
        None
    } else {
        Some(text)
    };
    Ok(NdcClass { ty, version, value })
}

pub fn decode_bibl(doc: &XmlDocument, i: usize) -> (r: Bibl)
    requires
        doc.wf(),
        i < doc.ts().len(),
    ensures
        bibl_of(doc.ts(), i as int, r),
{
    Bibl {
        desc: doc.field(i, "bibl-desc"),
        isbn: doc.field(i, "bibl-isbn"),
        note: doc.field(i, "bibl-note"),
    }
}

pub fn decode_error(doc: &XmlDocument, i: usize) -> (r: Result<CrdError, DecodeError>)
    requires
        doc.wf(),
        i < doc.ts().len(),
    ensures
        r is Ok <==> error_ok(doc.ts(), i as int),
        r matches Ok(e) ==> error_of(doc.ts(), i as int, e),
{
    let err_code = required_text(doc, i, "err_code")?;
    let err_fld = required_text(doc, i, "err_fld")?;
    let err_msg = required_text(doc, i, "err_msg")?;
    Ok(CrdError { err_code, err_fld, err_msg })
}

fn decode_classes(doc: &XmlDocument, i: usize) -> (r: Result<Option<Vec<NdcClass>>, DecodeError>)
    requires
        doc.wf(),
        i < doc.ts().len(),
    ensures
        r is Ok <==> classes_ok(doc.ts(), i as int),
        r matches Ok(v) ==> classes_of(doc.ts(), i as int, v),
{
    let ghost ts = doc.ts();
    let cs = doc.children_named(i, "classes");
    let ghost csi = as_ints(cs@);
    if cs.len() == 0 {
        return Ok(None);
    }
    let mut out: Vec<NdcClass> = Vec::new();
    let mut j: usize = 0;
    while j < cs.len()
        invariant
            doc.wf(),
            ts == doc.ts(),
            csi == as_ints(cs@),
            csi == children_named(ts, i as int, "classes"@),
            forall|m: int| 0 <= m < cs@.len() ==> cs@[m] < ts.len(),
            j <= cs@.len(),
            out@.len() == j,
            forall|m: int| 0 <= m < j ==> ndc_ok(ts, #[trigger] csi[m]),
            forall|m: int| 0 <= m < j ==> ndc_of(ts, #[trigger] csi[m], out@[m]),
        decreases cs@.len() - j,
    {
        assert(csi[j as int] == cs@[j as int] as int);
        match decode_ndc(doc, cs[j]) {
            Ok(c) => out.push(c),
            Err(e) => return Err(e),
        }
        j = j + 1;
    }
    Ok(Some(out))
}

fn decode_bibls(doc: &XmlDocument, i: usize) -> (r: Option<Vec<Bibl>>)
    requires
        doc.wf(),
        i < doc.ts().len(),
    ensures
        bibls_of(doc.ts(), i as int, r),
{
    let ghost ts = doc.ts();
    let cs = doc.children_named(i, "bibl");
    let ghost csi = as_ints(cs@);
    if cs.len() == 0 {
        return None;
    }
    let mut out: Vec<Bibl> = Vec::new();
    let mut j: usize = 0;
    while j < cs.len()
        invariant
            doc.wf(),
            ts == doc.ts(),
            csi == as_ints(cs@),
            csi == children_named(ts, i as int, "bibl"@),
            forall|m: int| 0 <= m < cs@.len() ==> cs@[m] < ts.len(),
            j <= cs@.len(),
            out@.len() == j,
            forall|m: int| 0 <= m < j ==> bibl_of(ts, #[trigger] csi[m], out@[m]),
        decreases cs@.len() - j,
    {
        assert(csi[j as int] == cs@[j as int] as int);
        out.push(decode_bibl(doc, cs[j]));
        j = j + 1;
    }
    Some(out)
}

} // verus!

verus! {

// ---------------------------------------------------------------------------
// The four kinds of result
// ---------------------------------------------------------------------------

pub open spec fn reference_ok(ts: Seq<XmlToken>, i: int) -> bool {
    &&& present(ts, i, "url"@)
    &&& present(ts, i, "question"@)
    &&& present(ts, i, "reg-id"@)
    &&& present(ts, i, "answer"@)
    &&& i8_field(ts, i, "solution"@) is Some
    &&& classes_ok(ts, i)
    &&& system_child_ok(ts, i)
}

/// A reference case; a missing creation date reads as empty.
pub open spec fn reference_of(ts: Seq<XmlToken>, i: int, r: CrdReferenceResult) -> bool {
    &&& has(ts, i, "url"@, r.url)
    &&& has(ts, i, "question"@, r.question)
    &&& has(ts, i, "reg-id"@, r.reg_id)
    &&& has(ts, i, "answer"@, r.answer)
    &&& r.crt_date@ == text_or_empty(field(ts, i, "crt-date"@))
    &&& i8_field(ts, i, "solution"@) == Some(opt_i8(r.solution))
    &&& texts(ts, i, "keyword"@, r.keywords)
    &&& classes_of(ts, i, r.classes)
    &&& opt(ts, i, "res-type"@, r.res_type)
    &&& opt(ts, i, "con-type"@, r.con_type)
    &&& bibls_of(ts, i, r.bibls)
    &&& opt(ts, i, "ans-proc"@, r.ans_proc)
    &&& texts(ts, i, "referral"@, r.referrals)
    &&& opt(ts, i, "pre-res"@, r.pre_res)
    &&& opt(ts, i, "note"@, r.note)
    &&& opt(ts, i, "ptn-type"@, r.ptn_type)
    &&& texts(ts, i, "contri"@, r.contri)
    &&& system_child_of(ts, i, r.system)
}

pub open spec fn manual_ok(ts: Seq<XmlToken>, i: int) -> bool {
    &&& present(ts, i, "url"@)
    &&& present(ts, i, "theme"@)
    &&& present(ts, i, "reg-id"@)
    &&& present(ts, i, "guide"@)
    &&& present(ts, i, "crt-date"@)
    &&& i8_field(ts, i, "completion"@) is Some
    &&& classes_ok(ts, i)
    &&& system_child_ok(ts, i)
}

pub open spec fn manual_of(ts: Seq<XmlToken>, i: int, r: CrdManualResult) -> bool {
    &&& has(ts, i, "url"@, r.url)
    &&& has(ts, i, "theme"@, r.theme)
    &&& has(ts, i, "reg-id"@, r.reg_id)
    &&& has(ts, i, "guide"@, r.guide)
    &&& has(ts, i, "crt-date"@, r.crt_date)
    &&& i8_field(ts, i, "completion"@) == Some(opt_i8(r.completion))
    &&& texts(ts, i, "keyword"@, r.keywords)
    &&& classes_of(ts, i, r.classes)
    &&& bibls_of(ts, i, r.bibls)
    &&& opt(ts, i, "note"@, r.note)
    &&& system_child_of(ts, i, r.system)
}

pub open spec fn collection_ok(ts: Seq<XmlToken>, i: int) -> bool {
    &&& present(ts, i, "url"@)
    &&& present(ts, i, "col-name"@)
    &&& present(ts, i, "pro_key"@)
    &&& present(ts, i, "reg-id"@)
    &&& present(ts, i, "outline"@)
    &&& classes_ok(ts, i)
    &&& system_child_ok(ts, i)
}

pub open spec fn collection_of(ts: Seq<XmlToken>, i: int, r: CrdCollectionResult) -> bool {
    &&& has(ts, i, "url"@, r.url)
    &&& has(ts, i, "col-name"@, r.col_name)
    &&& has(ts, i, "pro_key"@, r.pro_key)
    &&& has(ts, i, "reg-id"@, r.reg_id)
    &&& has(ts, i, "outline"@, r.outline)
    &&& opt(ts, i, "origin"@, r.origin)
    &&& opt(ts, i, "restriction"@, r.restriction)
    &&& opt(ts, i, "catalog"@, r.catalog)
    &&& opt(ts, i, "literature"@, r.literature)
    &&& opt(ts, i, "number"@, r.number)
    &&& opt(ts, i, "continue"@, r.continued)
    &&& texts(ts, i, "keyword"@, r.keywords)
    &&& classes_of(ts, i, r.classes)
    &&& opt(ts, i, "note"@, r.note)
    &&& system_child_of(ts, i, r.system)
}

pub open spec fn profile_ok(ts: Seq<XmlToken>, i: int) -> bool {
    &&& present(ts, i, "url"@)
    &&& present(ts, i, "lib-type"@)
    &&& present(ts, i, "lib-name"@)
    &&& present(ts, i, "abbr"@)
    &&& present(ts, i, "pro-key"@)
    &&& present(ts, i, "zip-code"@)
    &&& present(ts, i, "add-pref"@)
    &&& present(ts, i, "add-city"@)
    &&& present(ts, i, "add-street"@)
    &&& present(ts, i, "tel1"@)
    &&& match child(ts, i, "system"@) {
        Some(c) => short_system_ok(ts, c),
        None => false,
    }
}

pub open spec fn profile_contact_of(ts: Seq<XmlToken>, i: int, r: CrdProfileResult) -> bool {
    &&& has(ts, i, "tel1"@, r.tel1)
    &&& opt(ts, i, "tel1-note"@, r.tel1_note)
    &&& opt(ts, i, "tel2"@, r.tel2)
    &&& opt(ts, i, "tel2-note"@, r.tel2_note)
    &&& opt(ts, i, "tel3"@, r.tel3)
    &&& opt(ts, i, "tel3-note"@, r.tel3_note)
    &&& opt(ts, i, "fax"@, r.fax)
    &&& opt(ts, i, "e-mail"@, r.e_mail)
    &&& opt(ts, i, "lib-url"@, r.lib_url)
}

pub open spec fn profile_of(ts: Seq<XmlToken>, i: int, r: CrdProfileResult) -> bool {
    &&& has(ts, i, "url"@, r.url)
    &&& has(ts, i, "lib-type"@, r.ty)
    &&& has(ts, i, "lib-name"@, r.name)
    &&& has(ts, i, "abbr"@, r.abbr)
    &&& has(ts, i, "pro-key"@, r.pro_key)
    &&& has(ts, i, "zip-code"@, r.zip_code)
    &&& has(ts, i, "add-pref"@, r.add_pref)
    &&& has(ts, i, "add-city"@, r.add_city)
    &&& has(ts, i, "add-street"@, r.add_street)
    &&& profile_contact_of(ts, i, r)
    &&& opt(ts, i, "open-info"@, r.open_info)
    &&& opt(ts, i, "restriction"@, r.restriction)
    &&& opt(ts, i, "outline"@, r.outline)
    &&& opt(ts, i, "feature"@, r.feature)
    &&& opt(ts, i, "notes"@, r.notes)
    &&& opt(ts, i, "access"@, r.access)
    &&& opt(ts, i, "isil"@, r.isil)
    &&& match child(ts, i, "system"@) {
        Some(c) => short_system_of(ts, c, r.system),
        None => false,
    }
}

pub fn decode_reference(doc: &XmlDocument, i: usize) -> (r: Result<
    CrdReferenceResult,
    DecodeError,
>)
    requires
        doc.wf(),
        i < doc.ts().len(),
    ensures
        r is Ok <==> reference_ok(doc.ts(), i as int),
        r matches Ok(v) ==> reference_of(doc.ts(), i as int, v),
{
    let url = required_text(doc, i, "url")?;
    let question = required_text(doc, i, "question")?;
    let reg_id = required_text(doc, i, "reg-id")?;
    let answer = required_text(doc, i, "answer")?;
    let crt_date = match doc.field(i, "crt-date") {
        Some(s) => s,
        None => String::new(),
    };
    let solution = opt_i8_field(doc, i, "solution")?;
    let keywords = doc.field_list(i, "keyword");
    let classes = decode_classes(doc, i)?;
    let res_type = doc.field(i, "res-type");
    let con_type = doc.field(i, "con-type");
    let bibls = decode_bibls(doc, i);
    let ans_proc = doc.field(i, "ans-proc");
    let referrals = doc.field_list(i, "referral");
    let pre_res = doc.field(i, "pre-res");
    let note = doc.field(i, "note");
    let ptn_type = doc.field(i, "ptn-type");
    let contri = doc.field_list(i, "contri");
    let system = decode_system_child(doc, i)?;
    Ok(
        CrdReferenceResult {
            url,
            question,
            reg_id,
            answer,
            crt_date,
            solution,
            keywords,
            classes,
            res_type,
            con_type,
            bibls,
            ans_proc,
            referrals,
            pre_res,
            note,
            ptn_type,
            contri,
            system,
        },
    )
}

pub fn decode_manual(doc: &XmlDocument, i: usize) -> (r: Result<CrdManualResult, DecodeError>)
    requires
        doc.wf(),
        i < doc.ts().len(),
    ensures
        r is Ok <==> manual_ok(doc.ts(), i as int),
        r matches Ok(v) ==> manual_of(doc.ts(), i as int, v),
{
    let url = required_text(doc, i, "url")?;
    let theme = required_text(doc, i, "theme")?;
    let reg_id = required_text(doc, i, "reg-id")?;
    let guide = required_text(doc, i, "guide")?;
    let crt_date = required_text(doc, i, "crt-date")?;
    let completion = opt_i8_field(doc, i, "completion")?;
    let keywords = doc.field_list(i, "keyword");
    let classes = decode_classes(doc, i)?;
    let bibls = decode_bibls(doc, i);
    let note = doc.field(i, "note");
    let system = decode_system_child(doc, i)?;
    Ok(
        CrdManualResult {
            url,
            theme,
            reg_id,
            guide,
            crt_date,
            completion,
            keywords,
            classes,
            bibls,
            note,
            system,
        },
    )
}

pub fn decode_collection(doc: &XmlDocument, i: usize) -> (r: Result<
    CrdCollectionResult,
    DecodeError,
>)
    requires
        doc.wf(),
        i < doc.ts().len(),
    ensures
        r is Ok <==> collection_ok(doc.ts(), i as int),
        r matches Ok(v) ==> collection_of(doc.ts(), i as int, v),
{
    let url = required_text(doc, i, "url")?;
    let col_name = required_text(doc, i, "col-name")?;
    let pro_key = required_text(doc, i, "pro_key")?;
    let reg_id = required_text(doc, i, "reg-id")?;
    let outline = required_text(doc, i, "outline")?;
    let origin = doc.field(i, "origin");
    let restriction = doc.field(i, "restriction");
    let catalog = doc.field(i, "catalog");
    let literature = doc.field(i, "literature");
    let number = doc.field(i, "number");
    let continued = doc.field(i, "continue");
    let keywords = doc.field_list(i, "keyword");
    let classes = decode_classes(doc, i)?;
    let note = doc.field(i, "note");
    let system = decode_system_child(doc, i)?;
    Ok(
        CrdCollectionResult {
            url,
            col_name,
            pro_key,
            reg_id,
            outline,
            origin,
            restriction,
            catalog,
            literature,
            number,
            continued,
            keywords,
            classes,
            note,
            system,
        },
    )
}

pub fn decode_profile(doc: &XmlDocument, i: usize) -> (r: Result<CrdProfileResult, DecodeError>)
    requires
        doc.wf(),
        i < doc.ts().len(),
    ensures
        r is Ok <==> profile_ok(doc.ts(), i as int),
        r matches Ok(v) ==> profile_of(doc.ts(), i as int, v),
{
    let url = required_text(doc, i, "url")?;
    let ty = required_text(doc, i, "lib-type")?;
    let name = required_text(doc, i, "lib-name")?;
    let abbr = required_text(doc, i, "abbr")?;
    let pro_key = required_text(doc, i, "pro-key")?;
    let zip_code = required_text(doc, i, "zip-code")?;
    let add_pref = required_text(doc, i, "add-pref")?;
    let add_city = required_text(doc, i, "add-city")?;
    let add_street = required_text(doc, i, "add-street")?;
    let tel1 = required_text(doc, i, "tel1")?;
    let system = match doc.child(i, "system") {
        Some(c) => decode_short_system(doc, c)?,
        None => return Err(DecodeError),
    };
    Ok(
        CrdProfileResult {
            url,
            ty,
            name,
            abbr,
            pro_key,
            zip_code,
            add_pref,
            add_city,
            add_street,
            tel1,
            tel1_note: doc.field(i, "tel1-note"),
            tel2: doc.field(i, "tel2"),
            tel2_note: doc.field(i, "tel2-note"),
            tel3: doc.field(i, "tel3"),
            tel3_note: doc.field(i, "tel3-note"),
            fax: doc.field(i, "fax"),
            e_mail: doc.field(i, "e-mail"),
            lib_url: doc.field(i, "lib-url"),
            open_info: doc.field(i, "open-info"),
            restriction: doc.field(i, "restriction"),
            outline: doc.field(i, "outline"),
            feature: doc.field(i, "feature"),
            notes: doc.field(i, "notes"),
            access: doc.field(i, "access"),
            isil: doc.field(i, "isil"),
            system,
        },
    )
}

} // verus!

verus! {

// ---------------------------------------------------------------------------
// Lists of entries and the whole document
// ---------------------------------------------------------------------------

/// The child elements of each container in turn.
pub open spec fn items_of(ts: Seq<XmlToken>, conts: Seq<int>) -> Seq<int>
    decreases conts.len(),
{
    if conts.len() == 0 {
        seq![]
    } else {
        items_of(ts, conts.drop_last()) + child_elements(ts, conts.last())
    }
}

/// The entries held by every child of `i` named `name`, in document order.
pub open spec fn list_items(ts: Seq<XmlToken>, i: int, name: Seq<char>) -> Seq<int> {
    items_of(ts, children_named(ts, i, name))
}

/// A result entry is read by its element name.
pub open spec fn entry_ok(ts: Seq<XmlToken>, k: int) -> bool {
    let n = token_name(ts[k]);
    if n == "reference"@ {
        reference_ok(ts, k)
    } else if n == "manual"@ {
        manual_ok(ts, k)
    } else if n == "collection"@ {
        collection_ok(ts, k)
    } else if n == "profile"@ {
        profile_ok(ts, k)
    } else {
        false
    }
}

pub open spec fn entry_of(ts: Seq<XmlToken>, k: int, e: CrdResult) -> bool {
    let n = token_name(ts[k]);
    match e {
        CrdResult::Reference(r) => n == "reference"@ && reference_of(ts, k, r),
        CrdResult::Manual(r) => n == "manual"@ && manual_of(ts, k, r),
        CrdResult::Collection(r) => n == "collection"@ && collection_of(ts, k, r),
        CrdResult::Profile(r) => n == "profile"@ && profile_of(ts, k, r),
    }
}

pub open spec fn errors_ok(ts: Seq<XmlToken>, i: int) -> bool {
    let items = list_items(ts, i, "err_list"@);
    forall|j: int| 0 <= j < items.len() ==> error_ok(ts, #[trigger] items[j])
}

/// `None` when there is no `err_list`; otherwise every entry of every one.
pub open spec fn errors_of(ts: Seq<XmlToken>, i: int, v: Option<Vec<ErrorEntry>>) -> bool {
    let items = list_items(ts, i, "err_list"@);
    if children_named(ts, i, "err_list"@).len() == 0 {
        v is None
    } else {
        &&& v is Some
        &&& v.unwrap()@.len() == items.len()
        &&& forall|j: int|
            0 <= j < items.len() ==> error_of(ts, #[trigger] items[j], v.unwrap()@[j].err_item)
    }
}

pub open spec fn results_ok(ts: Seq<XmlToken>, i: int) -> bool {
    let items = list_items(ts, i, "result"@);
    forall|j: int| 0 <= j < items.len() ==> entry_ok(ts, #[trigger] items[j])
}

/// `None` when there is no `result`; otherwise every entry of every one.
pub open spec fn results_of(ts: Seq<XmlToken>, i: int, v: Option<Vec<ResultEntry>>) -> bool {
    let items = list_items(ts, i, "result"@);
    if children_named(ts, i, "result"@).len() == 0 {
        v is None
    } else {
        &&& v is Some
        &&& v.unwrap()@.len() == items.len()
        &&& forall|j: int| 0 <= j < items.len() ==> entry_of(ts, #[trigger] items[j], v.unwrap()@[j].item)
    }
}

/// The document element.
pub open spec fn root_of(ts: Seq<XmlToken>) -> Option<int> {
    first_where(opens_at(ts, 0), 0, ts.len() as int)
}

pub open spec fn result_set_ok(ts: Seq<XmlToken>) -> bool {
    match root_of(ts) {
        Some(i) => {
            &&& i32_field(ts, i, "results_cd"@) matches Some(Some(_))
            &&& i32_field(ts, i, "results_get_position"@) matches Some(Some(_))
            &&& i32_field(ts, i, "results_num"@) matches Some(Some(_))
            &&& i32_field(ts, i, "hit_num"@) is Some
            &&& errors_ok(ts, i)
            &&& results_ok(ts, i)
        },
        None => false,
    }
}

pub open spec fn result_set_of(ts: Seq<XmlToken>, s: CrdResultSet) -> bool {
    match root_of(ts) {
        Some(i) => {
            &&& i32_field(ts, i, "results_cd"@) == Some(Some(s.results_cd as int))
            &&& i32_field(ts, i, "results_get_position"@) == Some(Some(s.results_get_position as int))
            &&& i32_field(ts, i, "results_num"@) == Some(Some(s.results_num as int))
            &&& i32_field(ts, i, "hit_num"@) == Some(opt_i32(s.hit_num))
            &&& errors_of(ts, i, s.err_list)
            &&& results_of(ts, i, s.result)
        },
        None => false,
    }
}

fn list_items_of(doc: &XmlDocument, i: usize, name: &str) -> (r: Vec<usize>)
    requires
        doc.wf(),
        i < doc.ts().len(),
    ensures
        as_ints(r@) == list_items(doc.ts(), i as int, name@),
        forall|j: int| 0 <= j < r@.len() ==> r@[j] < doc.ts().len(),
{
    let ghost ts = doc.ts();
    let conts = doc.children_named(i, name);
    let ghost csi = as_ints(conts@);
    let mut out: Vec<usize> = Vec::new();
    let mut j: usize = 0;
    while j < conts.len()
        invariant
            doc.wf(),
            ts == doc.ts(),
            csi == as_ints(conts@),
            csi == children_named(ts, i as int, name@),
            forall|m: int| 0 <= m < conts@.len() ==> conts@[m] < ts.len(),
            j <= conts@.len(),
            as_ints(out@) == items_of(ts, csi.take(j as int)),
            forall|m: int| 0 <= m < out@.len() ==> out@[m] < ts.len(),
        decreases conts@.len() - j,
    {
        let mut kids = doc.child_elements(conts[j]);
        let ghost before = out@;
        let ghost added = kids@;
        out.append(&mut kids);
        proof {
            assert(csi.take(j + 1).drop_last() =~= csi.take(j as int));
            assert(csi.take(j + 1).last() == conts@[j as int] as int);
            assert(as_ints(out@) =~= as_ints(before) + as_ints(added));
            assert forall|m: int| 0 <= m < out@.len() implies out@[m] < ts.len() by {
                if m >= before.len() {
                    assert(out@[m] == added[m - before.len()]);
                }
            }
        }
        j = j + 1;
    }
    assert(csi.take(conts@.len() as int) =~= csi);
    out
}

pub fn decode_entry(doc: &XmlDocument, k: usize) -> (r: Result<CrdResult, DecodeError>)
    requires
        doc.wf(),
        k < doc.ts().len(),
    ensures
        r is Ok <==> entry_ok(doc.ts(), k as int),
        r matches Ok(e) ==> entry_of(doc.ts(), k as int, e),
{
    proof {
        reveal_strlit("reference");
        reveal_strlit("manual");
        reveal_strlit("collection");
        reveal_strlit("profile");
    }
    if doc.name_is(k, "reference") {
        Ok(CrdResult::Reference(decode_reference(doc, k)?))
    } else if doc.name_is(k, "manual") {
        Ok(CrdResult::Manual(decode_manual(doc, k)?))
    } else if doc.name_is(k, "collection") {
        Ok(CrdResult::Collection(decode_collection(doc, k)?))
    } else if doc.name_is(k, "profile") {
        Ok(CrdResult::Profile(decode_profile(doc, k)?))
    } else {
        proof {
            let n = token_name(doc.ts()[k as int]);
            if !(doc.ts()[k as int] is Open) {
                assert(n =~= seq![]);
            }
            assert(n != "reference"@);
            assert(n != "manual"@);
            assert(n != "collection"@);
            assert(n != "profile"@);
        }
        Err(DecodeError)
    }
}

fn decode_errors(doc: &XmlDocument, i: usize) -> (r: Result<Option<Vec<ErrorEntry>>, DecodeError>)
    requires
        doc.wf(),
        i < doc.ts().len(),
    ensures
        r is Ok <==> errors_ok(doc.ts(), i as int),
        r matches Ok(v) ==> errors_of(doc.ts(), i as int, v),
{
    let ghost ts = doc.ts();
    let items = list_items_of(doc, i, "err_list");
    let ghost its = as_ints(items@);
    let mut out: Vec<ErrorEntry> = Vec::new();
    let mut j: usize = 0;
    while j < items.len()
        invariant
            doc.wf(),
            ts == doc.ts(),
            its == as_ints(items@),
            its == list_items(ts, i as int, "err_list"@),
            forall|m: int| 0 <= m < items@.len() ==> items@[m] < ts.len(),
            j <= items@.len(),
            out@.len() == j,
            forall|m: int| 0 <= m < j ==> error_ok(ts, #[trigger] its[m]),
            forall|m: int| 0 <= m < j ==> error_of(ts, #[trigger] its[m], out@[m].err_item),
        decreases items@.len() - j,
    {
        assert(its[j as int] == items@[j as int] as int);
        let e = decode_error(doc, items[j])?;
        out.push(ErrorEntry { err_item: e });
        j = j + 1;
    }
    if doc.child(i, "err_list").is_none() {
        proof {
            let cs = children_named(ts, i as int, "err_list"@);
            if cs.len() > 0 {
                lemma_all_has_first(
                    crate::xml::opens_named_at(ts, crate::xml::depth(ts, i as int) + 1, "err_list"@),
                    i + 1,
                    crate::xml::elem_end(ts, i as int),
                );
            }
        }
        Ok(None)
    } else {
        proof {
            let cs = children_named(ts, i as int, "err_list"@);
            lemma_first_in_all(
                crate::xml::opens_named_at(ts, crate::xml::depth(ts, i as int) + 1, "err_list"@),
                i + 1,
                crate::xml::elem_end(ts, i as int),
            );
        }
        Ok(Some(out))
    }
}

fn decode_results(doc: &XmlDocument, i: usize) -> (r: Result<Option<Vec<ResultEntry>>, DecodeError>)
    requires
        doc.wf(),
        i < doc.ts().len(),
    ensures
        r is Ok <==> results_ok(doc.ts(), i as int),
        r matches Ok(v) ==> results_of(doc.ts(), i as int, v),
{
    let ghost ts = doc.ts();
    let items = list_items_of(doc, i, "result");
    let ghost its = as_ints(items@);
    let mut out: Vec<ResultEntry> = Vec::new();
    let mut j: usize = 0;
    while j < items.len()
        invariant
            doc.wf(),
            ts == doc.ts(),
            its == as_ints(items@),
            its == list_items(ts, i as int, "result"@),
            forall|m: int| 0 <= m < items@.len() ==> items@[m] < ts.len(),
            j <= items@.len(),
            out@.len() == j,
            forall|m: int| 0 <= m < j ==> entry_ok(ts, #[trigger] its[m]),
            forall|m: int| 0 <= m < j ==> entry_of(ts, #[trigger] its[m], out@[m].item),
        decreases items@.len() - j,
    {
        assert(its[j as int] == items@[j as int] as int);
        let e = decode_entry(doc, items[j])?;
        out.push(ResultEntry { item: e });
        j = j + 1;
    }
    if doc.child(i, "result").is_none() {
        proof {
            let cs = children_named(ts, i as int, "result"@);
            if cs.len() > 0 {
                lemma_all_has_first(
                    crate::xml::opens_named_at(ts, crate::xml::depth(ts, i as int) + 1, "result"@),
                    i + 1,
                    crate::xml::elem_end(ts, i as int),
                );
            }
        }
        Ok(None)
    } else {
        proof {
            lemma_first_in_all(
                crate::xml::opens_named_at(ts, crate::xml::depth(ts, i as int) + 1, "result"@),
                i + 1,
                crate::xml::elem_end(ts, i as int),
            );
        }
        Ok(Some(out))
    }
}

/// Decodes a token sequence whose structure has been checked.
pub fn decode_document(doc: &XmlDocument) -> (r: Result<CrdResultSet, DecodeError>)
    requires
        doc.wf(),
    ensures
        r is Ok <==> result_set_ok(doc.ts()),
        r matches Ok(s) ==> result_set_of(doc.ts(), s),
{
    let i = match doc.root() {
        Some(i) => i,
        None => return Err(DecodeError),
    };
    let results_cd = required_i32(doc, i, "results_cd")?;
    let results_get_position = required_i32(doc, i, "results_get_position")?;
    let results_num = required_i32(doc, i, "results_num")?;
    let hit_num = opt_i32_field(doc, i, "hit_num")?;
    let err_list = decode_errors(doc, i)?;
    let result = decode_results(doc, i)?;
    Ok(CrdResultSet { hit_num, results_get_position, results_num, results_cd, err_list, result })
}

/// Decodes a token sequence: it must be nested and hold a result set.
pub fn decode_tokens(tokens: Vec<XmlToken>) -> (r: Result<CrdResultSet, DecodeError>)
    ensures
        r is Ok <==> nested(tokens@) && result_set_ok(tokens@),
        r matches Ok(s) ==> result_set_of(tokens@, s),
{
    let doc = XmlDocument::from_tokens(tokens)?;
    decode_document(&doc)
}

/// What a sequence of events decodes to: the tokens they read as are nested
/// and hold the result set `s`. The tokens' texts are fixed by the events.
pub open spec fn events_decode_to(evs: Seq<XmlEvent>, s: CrdResultSet) -> bool {
    exists|ts: Seq<XmlToken>| tokens_of_events(evs, ts) && nested(ts) && result_set_of(ts, s)
}

/// The events do not decode: one of them cannot be read, or the tokens they
/// read as are not nested or hold no result set.
pub open spec fn events_refused(evs: Seq<XmlEvent>) -> bool {
    ||| !all_readable(evs)
    ||| exists|ts: Seq<XmlToken>| tokens_of_events(evs, ts) && !(nested(ts) && result_set_ok(ts))
}

/// Decodes the events of a response document.
pub fn decode_events(evs: &Vec<XmlEvent>) -> (r: Result<CrdResultSet, DecodeError>)
    ensures
        r matches Ok(s) ==> events_decode_to(evs@, s),
        r is Err ==> events_refused(evs@),
{
    let tokens = tokens_from_events(evs)?;
    let ghost ts = tokens@;
    let r = decode_tokens(tokens);
    proof {
        if r is Ok {
            assert(tokens_of_events(evs@, ts) && nested(ts) && result_set_of(ts, r->Ok_0));
        } else {
            assert(tokens_of_events(evs@, ts) && !(nested(ts) && result_set_ok(ts)));
        }
    }
    r
}

impl CrdResultSet {
    /// Reads a response document: quick-xml's events for the text, decoded.
    pub fn from_xml(text: &str) -> (r: Result<CrdResultSet, DecodeError>)
        ensures
            r matches Ok(s) ==> (xml_events(text@) matches Some(evs) && events_decode_to(evs, s)),
            r is Err ==> match xml_events(text@) {
                Some(evs) => events_refused(evs),
                None => true,
            },
    {
        match read_events(text) {
            Some(evs) => decode_events(&evs),
            None => Err(DecodeError),
        }
    }
}

} // verus!
