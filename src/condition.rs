use vstd::prelude::*;

verus! {

/// The search condition: a query in the service's query language and three
/// date ranges (creation, registration, last update), each bound written as
/// `YYYYMMDD`. A usable condition sets at least one of the seven fields.
#[derive(Debug, Clone)]
pub struct Condition {
    pub query: Option<String>,
    pub crt_date_from: Option<String>,
    pub crt_date_to: Option<String>,
    pub reg_date_from: Option<String>,
    pub reg_date_to: Option<String>,
    pub lst_date_from: Option<String>,
    pub lst_date_to: Option<String>,
}

/// A condition with none of its seven fields set.
#[derive(Debug, Clone, Copy, PartialEq, Eq, Structural)]
pub struct ConditionError;

pub open spec fn condition_message() -> Seq<char> {
    "query, crt_date_from, crt_date_to, reg_date_from, reg_date_to, lst_date_from, lst_date_to のうち少なくとも1つは指定してください"@
}

impl ConditionError {
    /// What the caller has to change.
    pub fn message(&self) -> (r: String)
        ensures
            r@ == condition_message(),
    {
        String::from_str(
            "query, crt_date_from, crt_date_to, reg_date_from, reg_date_to, lst_date_from, lst_date_to のうち少なくとも1つは指定してください",
        )
    }
}

impl Condition {
    /// Whether at least one of the seven fields is set.
    pub open spec fn has_any(&self) -> bool {
        ||| self.query is Some
        ||| self.crt_date_from is Some
        ||| self.crt_date_to is Some
        ||| self.reg_date_from is Some
        ||| self.reg_date_to is Some
        ||| self.lst_date_from is Some
        ||| self.lst_date_to is Some
    }

    /// Builds a condition from its fields, refusing one with no field set.
    pub fn try_new(
        query: Option<String>,
        crt_date_from: Option<String>,
        crt_date_to: Option<String>,
        reg_date_from: Option<String>,
        reg_date_to: Option<String>,
        lst_date_from: Option<String>,
        lst_date_to: Option<String>,
    ) -> (r: Result<Condition, ConditionError>)
        ensures
            r is Ok <==> (query is Some || crt_date_from is Some || crt_date_to is Some
                || reg_date_from is Some || reg_date_to is Some || lst_date_from is Some
                || lst_date_to is Some),
            r matches Ok(c) ==> (c.query == query && c.crt_date_from == crt_date_from
                && c.crt_date_to == crt_date_to && c.reg_date_from == reg_date_from
                && c.reg_date_to == reg_date_to && c.lst_date_from == lst_date_from
                && c.lst_date_to == lst_date_to),
    {
        let c = Condition {
            query,
            crt_date_from,
            crt_date_to,
            reg_date_from,
            reg_date_to,
            lst_date_from,
            lst_date_to,
        };
        match c.validate() {
            Ok(()) => Ok(c),
            Err(e) => Err(e),
        }
    }

    /// Checks that at least one field is set.
    pub fn validate(&self) -> (r: Result<(), ConditionError>)
        ensures
            r is Ok <==> self.has_any(),
    {
        if self.query.is_none() && self.crt_date_from.is_none() && self.crt_date_to.is_none()
            && self.reg_date_from.is_none() && self.reg_date_to.is_none()
            && self.lst_date_from.is_none() && self.lst_date_to.is_none() {
            Err(ConditionError)
        } else {
            Ok(())
        }
    }
}

} // verus!
