//! Statements for the database, with the values they are given.
use crate::text;
use vstd::prelude::*;

verus! {

/// A value that takes the place of a question mark.
#[derive(Debug, Clone)]
pub enum Param {
    Text(String),
    /// A text, or null.
    MaybeText(Option<String>),
    Integer(i64),
    Flag(bool),
}

/// A value as the database sees it.
pub enum ParamView {
    Text(Seq<char>),
    MaybeText(Option<Seq<char>>),
    Integer(i64),
    Flag(bool),
}

impl View for Param {
    type V = ParamView;

    open spec fn view(&self) -> ParamView {
        match *self {
            Param::Text(t) => ParamView::Text(t@),
            Param::MaybeText(t) => ParamView::MaybeText(text::opt_text(t)),
            Param::Integer(n) => ParamView::Integer(n),
            Param::Flag(b) => ParamView::Flag(b),
        }
    }
}

/// A statement with the values for its question marks, in their order.
#[derive(Debug, Clone)]
pub struct Query {
    pub sql: &'static str,
    pub params: Vec<Param>,
}

/// A statement as the database sees it.
pub struct QueryView {
    pub sql: Seq<char>,
    pub params: Seq<ParamView>,
}

impl View for Query {
    type V = QueryView;

    open spec fn view(&self) -> QueryView {
        QueryView { sql: self.sql@, params: values(self.params@) }
    }
}

/// The values as the database sees them.
pub open spec fn values(params: Seq<Param>) -> Seq<ParamView> {
    params.map_values(|p: Param| p@)
}

/// The statements as the database sees them.
pub open spec fn statements(queries: Seq<Query>) -> Seq<QueryView> {
    queries.map_values(|q: Query| q@)
}

/// A statement that is given texts only.
pub open spec fn text_query(sql: Seq<char>, texts: Seq<Seq<char>>) -> QueryView {
    QueryView { sql, params: texts.map_values(|t: Seq<char>| ParamView::Text(t)) }
}

/// A statement that is given nothing.
pub fn query0(sql: &'static str) -> (r: Query)
    ensures
        r@ == text_query(sql@, Seq::empty()),
{
    let r = Query { sql, params: Vec::new() };
    proof {
        assert(r@.params =~= text_query(sql@, Seq::empty()).params);
    }
    r
}

/// A statement that is given one text.
pub fn query1(sql: &'static str, a: &str) -> (r: Query)
    ensures
        r@ == text_query(sql@, seq![a@]),
{
    let mut params: Vec<Param> = Vec::new();
    params.push(Param::Text(a.to_owned()));
    let r = Query { sql, params };
    proof {
        assert(r@.params =~= text_query(sql@, seq![a@]).params);
    }
    r
}

/// A statement that is given two texts.
pub fn query2(sql: &'static str, a: &str, b: &str) -> (r: Query)
    ensures
        r@ == text_query(sql@, seq![a@, b@]),
{
    let mut params: Vec<Param> = Vec::new();
    params.push(Param::Text(a.to_owned()));
    params.push(Param::Text(b.to_owned()));
    let r = Query { sql, params };
    proof {
        assert(r@.params =~= text_query(sql@, seq![a@, b@]).params);
    }
    r
}

/// A statement that is given three texts.
pub fn query3(sql: &'static str, a: &str, b: &str, c: &str) -> (r: Query)
    ensures
        r@ == text_query(sql@, seq![a@, b@, c@]),
{
    let mut params: Vec<Param> = Vec::new();
    params.push(Param::Text(a.to_owned()));
    params.push(Param::Text(b.to_owned()));
    params.push(Param::Text(c.to_owned()));
    let r = Query { sql, params };
    proof {
        assert(r@.params =~= text_query(sql@, seq![a@, b@, c@]).params);
    }
    r
}

/// A statement is given every value, as it is and in its order.
pub proof fn law_values_keep_their_order(sql: Seq<char>, texts: Seq<Seq<char>>, i: int)
    ensures
        text_query(sql, texts).sql == sql,
        text_query(sql, texts).params.len() == texts.len(),
        0 <= i < texts.len() ==> text_query(sql, texts).params[i] == ParamView::Text(texts[i]),
{
}

/// The database sees every statement, in their order, and every value of each.
pub proof fn law_every_statement_is_seen(queries: Seq<Query>, i: int, j: int)
    requires
        0 <= i < queries.len(),
        0 <= j < queries[i].params@.len(),
    ensures
        statements(queries).len() == queries.len(),
        statements(queries)[i].sql == queries[i].sql@,
        statements(queries)[i].params.len() == queries[i].params@.len(),
        statements(queries)[i].params[j] == queries[i].params@[j]@,
{
}

} // verus!
