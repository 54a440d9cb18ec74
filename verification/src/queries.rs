//! The SQL of the listing queries: which filters a listing applies, in
//! what order, and the arguments bound to its placeholders.
use vstd::prelude::*;

use crate::models::{Classification, JobStatus, MediaType, ProjectStatus, ProjectType};
use crate::text::push_str;

verus! {

/// A value bound to a `?` placeholder.
#[derive(Clone, Debug)]
pub enum SqlArg {
    Text(String),
    Int(i64),
    Null,
}

/// An SQL statement and the values of its placeholders, in order.
pub struct SqlQuery {
    pub sql: String,
    pub args: Vec<SqlArg>,
}

/// A placeholder value, as a specification value.
pub enum ArgValue {
    Text(Seq<char>),
    Int(int),
    Null,
}

/// The specification value of a placeholder value.
pub open spec fn arg_value(a: SqlArg) -> ArgValue {
    match a {
        SqlArg::Text(s) => ArgValue::Text(s@),
        SqlArg::Int(n) => ArgValue::Int(n as int),
        SqlArg::Null => ArgValue::Null,
    }
}

/// The specification values of the placeholders of a query.
pub open spec fn arg_values(args: Seq<SqlArg>) -> Seq<ArgValue> {
    args.map_values(|a: SqlArg| arg_value(a))
}

/// A flag as stored: 1 or 0.
pub open spec fn flag(b: bool) -> int {
    if b {
        1
    } else {
        0
    }
}

/// The step of a listing: when `present`, the clause is appended and its
/// value bound.
pub open spec fn step(q: (Seq<char>, Seq<ArgValue>), present: bool, clause: Seq<char>, arg: ArgValue) -> (
    Seq<char>,
    Seq<ArgValue>,
) {
    if present {
        (q.0 + clause, q.1.push(arg))
    } else {
        q
    }
}

fn add_clause(q: &mut SqlQuery, clause: &str, arg: SqlArg)
    ensures
        final(q).sql@ == old(q).sql@ + clause@,
        arg_values(final(q).args@) == arg_values(old(q).args@).push(arg_value(arg)),
{
    push_str(&mut q.sql, clause);
    let ghost before = q.args@;
    q.args.push(arg);
    assert(arg_values(q.args@) =~= arg_values(before).push(arg_value(arg)));
}

/// Which media a listing returns, and in what order.
#[derive(Clone, Debug)]
pub struct MediaFilter {
    pub project_id: Option<String>,
    pub classification: Option<Classification>,
    pub media_type: Option<MediaType>,
    pub is_private: Option<bool>,
    pub is_starred: Option<bool>,
    pub is_duplicate: Option<bool>,
    pub date_from: Option<String>,
    pub date_to: Option<String>,
    pub source_folder: Option<String>,
    pub limit: Option<i64>,
    pub offset: Option<i64>,
    pub order_by: Option<String>,
}

impl MediaFilter {
    /// A filter that lets every media file through, newest first.
    pub fn new() -> (r: MediaFilter)
        ensures
            r.project_id is None && r.classification is None && r.media_type is None
                && r.is_private is None && r.is_starred is None && r.is_duplicate is None
                && r.date_from is None && r.date_to is None && r.source_folder is None
                && r.limit is None && r.offset is None && r.order_by is None,
    {
        MediaFilter {
            project_id: None,
            classification: None,
            media_type: None,
            is_private: None,
            is_starred: None,
            is_duplicate: None,
            date_from: None,
            date_to: None,
            source_folder: None,
            limit: None,
            offset: None,
            order_by: None,
        }
    }
}

/// The text of an optional string, or nothing.
pub open spec fn text_or_empty(o: Option<String>) -> Seq<char> {
    match o {
        Some(s) => s@,
        None => seq![],
    }
}

/// The SQL and placeholder values of a media listing: each filter that is
/// set adds its clause, in a fixed order; then the ordering (by default
/// newest first), the limit and the offset.
pub open spec fn media_list_spec(f: MediaFilter) -> (Seq<char>, Seq<ArgValue>) {
    let q6 = media_filters_before_dates(f);
    let q7 = step(q6, f.date_from is Some, " AND date_taken >= ?"@, ArgValue::Text(text_or_empty(f.date_from)));
    let q8 = step(q7, f.date_to is Some, " AND date_taken <= ?"@, ArgValue::Text(text_or_empty(f.date_to)));
    media_list_tail(f, q8)
}

/// The first clauses of a media listing: project, classification, type
/// and the three flags.
pub open spec fn media_filters_before_dates(f: MediaFilter) -> (Seq<char>, Seq<ArgValue>) {
    let q0 = ("SELECT * FROM media WHERE 1=1"@, Seq::<ArgValue>::empty());
    let q1 = step(q0, f.project_id is Some, " AND project_id = ?"@, ArgValue::Text(text_or_empty(f.project_id)));
    let q2 = step(q1, f.classification is Some, " AND classification = ?"@, ArgValue::Text(f.classification->0.db_text()));
    let q3 = step(q2, f.media_type is Some, " AND media_type = ?"@, ArgValue::Text(f.media_type->0.db_text()));
    let q4 = step(q3, f.is_private is Some, " AND is_private = ?"@, ArgValue::Int(flag(f.is_private->0)));
    let q5 = step(q4, f.is_starred is Some, " AND is_starred = ?"@, ArgValue::Int(flag(f.is_starred->0)));
    step(q5, f.is_duplicate is Some, " AND is_duplicate = ?"@, ArgValue::Int(flag(f.is_duplicate->0)))
}

/// The end of a media listing after the date clauses: the folder, the
/// ordering (by default newest first), the limit and the offset.
pub open spec fn media_list_tail(f: MediaFilter, q8: (Seq<char>, Seq<ArgValue>)) -> (Seq<char>, Seq<ArgValue>) {
    let q9 = step(q8, f.source_folder is Some, " AND source_folder = ?"@, ArgValue::Text(text_or_empty(f.source_folder)));
    let order = match f.order_by {
        Some(o) => o@,
        None => "date_taken DESC"@,
    };
    let q10 = (q9.0 + " ORDER BY "@ + order, q9.1);
    let q11 = step(q10, f.limit is Some, " LIMIT ?"@, ArgValue::Int(f.limit->0 as int));
    step(q11, f.offset is Some, " OFFSET ?"@, ArgValue::Int(f.offset->0 as int))
}

/// The number of `?` placeholders in an SQL text.
pub open spec fn placeholders(s: Seq<char>) -> nat
    decreases s.len(),
{
    if s.len() == 0 {
        0
    } else {
        placeholders(s.drop_last()) + if s.last() == '?' {
            1nat
        } else {
            0nat
        }
    }
}

proof fn lemma_placeholders_concat(a: Seq<char>, b: Seq<char>)
    ensures
        placeholders(a + b) == placeholders(a) + placeholders(b),
    decreases b.len(),
{
    if b.len() == 0 {
        assert(a + b =~= a);
    } else {
        lemma_placeholders_concat(a, b.drop_last());
        assert((a + b).drop_last() =~= a + b.drop_last());
    }
}

proof fn lemma_step_counts(q: (Seq<char>, Seq<ArgValue>), present: bool, clause: Seq<char>, arg: ArgValue)
    requires
        placeholders(q.0) == q.1.len(),
        placeholders(clause) == 1,
    ensures
        placeholders(step(q, present, clause, arg).0) == step(q, present, clause, arg).1.len(),
        q.0.is_prefix_of(step(q, present, clause, arg).0),
        step(q, present, clause, arg).1.take(q.1.len() as int) == q.1,
        step(q, present, clause, arg).1.len() >= q.1.len(),
{
    if present {
        lemma_placeholders_concat(q.0, clause);
        assert(q.1.push(arg).take(q.1.len() as int) =~= q.1);
    } else {
        assert(q.1.take(q.1.len() as int) =~= q.1);
    }
    assert(q.0.is_prefix_of(step(q, present, clause, arg).0)) by {
        if present {
            assert((q.0 + clause).subrange(0, q.0.len() as int) =~= q.0);
        }
    }
}

proof fn lemma_clause_0_count()
    ensures
        placeholders(" AND project_id = ?"@) == 1,
{
    reveal_strlit(" AND project_id = ?");
    reveal_with_fuel(placeholders, 20);
}

proof fn lemma_clause_1_count()
    ensures
        placeholders(" AND classification = ?"@) == 1,
{
    reveal_strlit(" AND classification = ?");
    reveal_with_fuel(placeholders, 24);
}

proof fn lemma_clause_2_count()
    ensures
        placeholders(" AND media_type = ?"@) == 1,
{
    reveal_strlit(" AND media_type = ?");
    reveal_with_fuel(placeholders, 20);
}

proof fn lemma_clause_3_count()
    ensures
        placeholders(" AND is_private = ?"@) == 1,
{
    reveal_strlit(" AND is_private = ?");
    reveal_with_fuel(placeholders, 20);
}

proof fn lemma_clause_4_count()
    ensures
        placeholders(" AND is_starred = ?"@) == 1,
{
    reveal_strlit(" AND is_starred = ?");
    reveal_with_fuel(placeholders, 20);
}

proof fn lemma_clause_5_count()
    ensures
        placeholders(" AND is_duplicate = ?"@) == 1,
{
    reveal_strlit(" AND is_duplicate = ?");
    reveal_with_fuel(placeholders, 22);
}

proof fn lemma_date_from_count()
    ensures
        placeholders(" AND date_taken >= ?"@) == 1,
{
    reveal_strlit(" AND date_taken >= ?");
    reveal_with_fuel(placeholders, 21);
}

proof fn lemma_date_to_count()
    ensures
        placeholders(" AND date_taken <= ?"@) == 1,
{
    reveal_strlit(" AND date_taken <= ?");
    reveal_with_fuel(placeholders, 21);
}

proof fn lemma_select_count()
    ensures
        placeholders("SELECT * FROM media WHERE 1=1"@) == 0,
{
    reveal_strlit("SELECT * FROM media WHERE 1=1");
    reveal_with_fuel(placeholders, 31);
}

/// The first clauses of a media listing hold one placeholder per value.
proof fn lemma_filters_before_dates_count(f: MediaFilter)
    ensures
        placeholders(media_filters_before_dates(f).0) == media_filters_before_dates(f).1.len(),
{
    lemma_select_count();
    lemma_clause_0_count();
    lemma_clause_1_count();
    lemma_clause_2_count();
    lemma_clause_3_count();
    lemma_clause_4_count();
    lemma_clause_5_count();
    let q0 = ("SELECT * FROM media WHERE 1=1"@, Seq::<ArgValue>::empty());
    let q1 = step(q0, f.project_id is Some, " AND project_id = ?"@, ArgValue::Text(text_or_empty(f.project_id)));
    let q2 = step(q1, f.classification is Some, " AND classification = ?"@, ArgValue::Text(f.classification->0.db_text()));
    let q3 = step(q2, f.media_type is Some, " AND media_type = ?"@, ArgValue::Text(f.media_type->0.db_text()));
    let q4 = step(q3, f.is_private is Some, " AND is_private = ?"@, ArgValue::Int(flag(f.is_private->0)));
    let q5 = step(q4, f.is_starred is Some, " AND is_starred = ?"@, ArgValue::Int(flag(f.is_starred->0)));
    lemma_step_counts(q0, f.project_id is Some, " AND project_id = ?"@, ArgValue::Text(text_or_empty(f.project_id)));
    lemma_step_counts(q1, f.classification is Some, " AND classification = ?"@, ArgValue::Text(f.classification->0.db_text()));
    lemma_step_counts(q2, f.media_type is Some, " AND media_type = ?"@, ArgValue::Text(f.media_type->0.db_text()));
    lemma_step_counts(q3, f.is_private is Some, " AND is_private = ?"@, ArgValue::Int(flag(f.is_private->0)));
    lemma_step_counts(q4, f.is_starred is Some, " AND is_starred = ?"@, ArgValue::Int(flag(f.is_starred->0)));
    lemma_step_counts(q5, f.is_duplicate is Some, " AND is_duplicate = ?"@, ArgValue::Int(flag(f.is_duplicate->0)));
}

/// The end of a listing only appends text and placeholder values.
proof fn lemma_media_tail_extends(f: MediaFilter, q8: (Seq<char>, Seq<ArgValue>))
    ensures
        q8.0.is_prefix_of(media_list_tail(f, q8).0),
        media_list_tail(f, q8).1.len() >= q8.1.len(),
        media_list_tail(f, q8).1.take(q8.1.len() as int) == q8.1,
{
    let r = media_list_tail(f, q8);
    let q9 = step(q8, f.source_folder is Some, " AND source_folder = ?"@, ArgValue::Text(text_or_empty(f.source_folder)));
    let order = match f.order_by {
        Some(o) => o@,
        None => "date_taken DESC"@,
    };
    let q10 = (q9.0 + " ORDER BY "@ + order, q9.1);
    let q11 = step(q10, f.limit is Some, " LIMIT ?"@, ArgValue::Int(f.limit->0 as int));
    assert(r.0.subrange(0, q8.0.len() as int) =~= q8.0) by {
        assert(q9.0.subrange(0, q8.0.len() as int) =~= q8.0);
        assert(q10.0.subrange(0, q8.0.len() as int) =~= q8.0);
        assert(q11.0.subrange(0, q8.0.len() as int) =~= q8.0);
    }
    assert(r.1.take(q8.1.len() as int) =~= q8.1) by {
        assert(q9.1.take(q8.1.len() as int) =~= q8.1);
        assert(q11.1.take(q8.1.len() as int) =~= q8.1);
    }
}

proof fn lemma_folder_count()
    ensures
        placeholders(" AND source_folder = ?"@) == 1,
{
    reveal_strlit(" AND source_folder = ?");
    reveal_with_fuel(placeholders, 23);
}

/// `b` continues `a`: its text starts with `a`'s and its values with
/// `a`'s.
pub open spec fn extends(a: (Seq<char>, Seq<ArgValue>), b: (Seq<char>, Seq<ArgValue>)) -> bool {
    &&& a.0.is_prefix_of(b.0)
    &&& a.1.len() <= b.1.len()
    &&& b.1.take(a.1.len() as int) == a.1
}

/// The query holds `clause`, and the placeholder of that clause (counted
/// from the start of the text) is bound to `arg`.
pub open spec fn binds(q: (Seq<char>, Seq<ArgValue>), clause: Seq<char>, arg: ArgValue) -> bool {
    exists|pre: Seq<char>, post: Seq<char>|
        #![trigger placeholders(pre), post.len()]
        q.0 == pre + clause + post && placeholders(pre) < q.1.len() && q.1[placeholders(pre) as int]
            == arg
}

proof fn lemma_extends_trans(
    a: (Seq<char>, Seq<ArgValue>),
    b: (Seq<char>, Seq<ArgValue>),
    c: (Seq<char>, Seq<ArgValue>),
)
    requires
        extends(a, b),
        extends(b, c),
    ensures
        extends(a, c),
{
    assert(c.0.subrange(0, a.0.len() as int) =~= c.0.subrange(0, b.0.len() as int).subrange(
        0,
        a.0.len() as int,
    ));
    assert(c.1.take(a.1.len() as int) =~= c.1.take(b.1.len() as int).take(a.1.len() as int));
}

proof fn lemma_step_extends(q: (Seq<char>, Seq<ArgValue>), present: bool, clause: Seq<char>, arg: ArgValue)
    ensures
        extends(q, step(q, present, clause, arg)),
{
    if present {
        assert((q.0 + clause).subrange(0, q.0.len() as int) =~= q.0);
        assert(q.1.push(arg).take(q.1.len() as int) =~= q.1);
    } else {
        assert(q.0.subrange(0, q.0.len() as int) =~= q.0);
        assert(q.1.take(q.1.len() as int) =~= q.1);
    }
}

/// A present clause whose placeholder count matches is bound in every
/// continuation.
proof fn lemma_bound_step(
    q: (Seq<char>, Seq<ArgValue>),
    clause: Seq<char>,
    arg: ArgValue,
    r: (Seq<char>, Seq<ArgValue>),
)
    requires
        placeholders(q.0) == q.1.len(),
        extends(step(q, true, clause, arg), r),
    ensures
        binds(r, clause, arg),
{
    let n = q.0.len() + clause.len();
    let pre = q.0;
    let post = r.0.subrange(n as int, r.0.len() as int);
    assert(r.0.subrange(0, n as int) =~= q.0 + clause);
    assert(r.0 =~= pre + clause + post);
    assert(r.1.take(q.1.len() as int + 1)[q.1.len() as int] == r.1[q.1.len() as int]);
    assert(q.1.push(arg)[q.1.len() as int] == arg);
}

proof fn lemma_tail_after_folder(f: MediaFilter, q8: (Seq<char>, Seq<ArgValue>))
    ensures
        extends(
            step(q8, f.source_folder is Some, " AND source_folder = ?"@, ArgValue::Text(text_or_empty(f.source_folder))),
            media_list_tail(f, q8),
        ),
{
    let r = media_list_tail(f, q8);
    let q9 = step(q8, f.source_folder is Some, " AND source_folder = ?"@, ArgValue::Text(text_or_empty(f.source_folder)));
    let order = match f.order_by {
        Some(o) => o@,
        None => "date_taken DESC"@,
    };
    let q10 = (q9.0 + " ORDER BY "@ + order, q9.1);
    let q11 = step(q10, f.limit is Some, " LIMIT ?"@, ArgValue::Int(f.limit->0 as int));
    assert(extends(q9, q10)) by {
        assert(q10.0.subrange(0, q9.0.len() as int) =~= q9.0);
        assert(q9.1.take(q9.1.len() as int) =~= q9.1);
    }
    lemma_step_extends(q10, f.limit is Some, " LIMIT ?"@, ArgValue::Int(f.limit->0 as int));
    lemma_step_extends(q11, f.offset is Some, " OFFSET ?"@, ArgValue::Int(f.offset->0 as int));
    lemma_extends_trans(q9, q10, q11);
    lemma_extends_trans(q9, q11, r);
}

/// Every filter a media listing is given shows up in its SQL with its
/// placeholder bound to the filter's value: the project, the
/// classification and media type (by their stored names), the private,
/// starred and duplicate flags (1 or 0), and the source folder.
pub proof fn lemma_media_filters_bound(f: MediaFilter)
    ensures
        f.project_id is Some ==> binds(media_list_spec(f), " AND project_id = ?"@, ArgValue::Text(f.project_id->0@)),
        f.classification is Some ==> binds(media_list_spec(f), " AND classification = ?"@, ArgValue::Text(f.classification->0.db_text())),
        f.media_type is Some ==> binds(media_list_spec(f), " AND media_type = ?"@, ArgValue::Text(f.media_type->0.db_text())),
        f.is_private is Some ==> binds(media_list_spec(f), " AND is_private = ?"@, ArgValue::Int(if f.is_private->0 { 1 } else { 0 })),
        f.is_starred is Some ==> binds(media_list_spec(f), " AND is_starred = ?"@, ArgValue::Int(if f.is_starred->0 { 1 } else { 0 })),
        f.is_duplicate is Some ==> binds(media_list_spec(f), " AND is_duplicate = ?"@, ArgValue::Int(if f.is_duplicate->0 { 1 } else { 0 })),
        f.source_folder is Some ==> binds(media_list_spec(f), " AND source_folder = ?"@, ArgValue::Text(f.source_folder->0@)),
{
    lemma_select_count();
    lemma_clause_0_count();
    lemma_clause_1_count();
    lemma_clause_2_count();
    lemma_clause_3_count();
    lemma_clause_4_count();
    lemma_clause_5_count();
    lemma_date_from_count();
    lemma_date_to_count();
    lemma_folder_count();
    let a0 = ("SELECT * FROM media WHERE 1=1"@, Seq::<ArgValue>::empty());
    let a1 = step(a0, f.project_id is Some, " AND project_id = ?"@, ArgValue::Text(text_or_empty(f.project_id)));
    let a2 = step(a1, f.classification is Some, " AND classification = ?"@, ArgValue::Text(f.classification->0.db_text()));
    let a3 = step(a2, f.media_type is Some, " AND media_type = ?"@, ArgValue::Text(f.media_type->0.db_text()));
    let a4 = step(a3, f.is_private is Some, " AND is_private = ?"@, ArgValue::Int(flag(f.is_private->0)));
    let a5 = step(a4, f.is_starred is Some, " AND is_starred = ?"@, ArgValue::Int(flag(f.is_starred->0)));
    let a6 = step(a5, f.is_duplicate is Some, " AND is_duplicate = ?"@, ArgValue::Int(flag(f.is_duplicate->0)));
    assert(a6 == media_filters_before_dates(f));
    let a7 = step(a6, f.date_from is Some, " AND date_taken >= ?"@, ArgValue::Text(text_or_empty(f.date_from)));
    let a8 = step(a7, f.date_to is Some, " AND date_taken <= ?"@, ArgValue::Text(text_or_empty(f.date_to)));
    let a9 = step(a8, f.source_folder is Some, " AND source_folder = ?"@, ArgValue::Text(text_or_empty(f.source_folder)));
    let r = media_list_spec(f);
    assert(r == media_list_tail(f, a8));
    lemma_step_counts(a0, f.project_id is Some, " AND project_id = ?"@, ArgValue::Text(text_or_empty(f.project_id)));
    lemma_step_counts(a1, f.classification is Some, " AND classification = ?"@, ArgValue::Text(f.classification->0.db_text()));
    lemma_step_counts(a2, f.media_type is Some, " AND media_type = ?"@, ArgValue::Text(f.media_type->0.db_text()));
    lemma_step_counts(a3, f.is_private is Some, " AND is_private = ?"@, ArgValue::Int(flag(f.is_private->0)));
    lemma_step_counts(a4, f.is_starred is Some, " AND is_starred = ?"@, ArgValue::Int(flag(f.is_starred->0)));
    lemma_step_counts(a5, f.is_duplicate is Some, " AND is_duplicate = ?"@, ArgValue::Int(flag(f.is_duplicate->0)));
    lemma_step_counts(a6, f.date_from is Some, " AND date_taken >= ?"@, ArgValue::Text(text_or_empty(f.date_from)));
    lemma_step_counts(a7, f.date_to is Some, " AND date_taken <= ?"@, ArgValue::Text(text_or_empty(f.date_to)));
    lemma_step_extends(a0, f.project_id is Some, " AND project_id = ?"@, ArgValue::Text(text_or_empty(f.project_id)));
    lemma_step_extends(a1, f.classification is Some, " AND classification = ?"@, ArgValue::Text(f.classification->0.db_text()));
    lemma_step_extends(a2, f.media_type is Some, " AND media_type = ?"@, ArgValue::Text(f.media_type->0.db_text()));
    lemma_step_extends(a3, f.is_private is Some, " AND is_private = ?"@, ArgValue::Int(flag(f.is_private->0)));
    lemma_step_extends(a4, f.is_starred is Some, " AND is_starred = ?"@, ArgValue::Int(flag(f.is_starred->0)));
    lemma_step_extends(a5, f.is_duplicate is Some, " AND is_duplicate = ?"@, ArgValue::Int(flag(f.is_duplicate->0)));
    lemma_step_extends(a6, f.date_from is Some, " AND date_taken >= ?"@, ArgValue::Text(text_or_empty(f.date_from)));
    lemma_step_extends(a7, f.date_to is Some, " AND date_taken <= ?"@, ArgValue::Text(text_or_empty(f.date_to)));
    lemma_step_extends(a8, f.source_folder is Some, " AND source_folder = ?"@, ArgValue::Text(text_or_empty(f.source_folder)));
    lemma_tail_after_folder(f, a8);
    // each stage continues into the whole query
    lemma_extends_trans(a8, a9, r);
    lemma_extends_trans(a7, a8, r);
    lemma_extends_trans(a6, a7, r);
    lemma_extends_trans(a5, a6, r);
    lemma_extends_trans(a4, a5, r);
    lemma_extends_trans(a3, a4, r);
    lemma_extends_trans(a2, a3, r);
    lemma_extends_trans(a1, a2, r);
    if f.project_id is Some {
        lemma_bound_step(a0, " AND project_id = ?"@, ArgValue::Text(text_or_empty(f.project_id)), r);
    }
    if f.classification is Some {
        lemma_bound_step(a1, " AND classification = ?"@, ArgValue::Text(f.classification->0.db_text()), r);
    }
    if f.media_type is Some {
        lemma_bound_step(a2, " AND media_type = ?"@, ArgValue::Text(f.media_type->0.db_text()), r);
    }
    if f.is_private is Some {
        lemma_bound_step(a3, " AND is_private = ?"@, ArgValue::Int(flag(f.is_private->0)), r);
    }
    if f.is_starred is Some {
        lemma_bound_step(a4, " AND is_starred = ?"@, ArgValue::Int(flag(f.is_starred->0)), r);
    }
    if f.is_duplicate is Some {
        lemma_bound_step(a5, " AND is_duplicate = ?"@, ArgValue::Int(flag(f.is_duplicate->0)), r);
    }
    if f.source_folder is Some {
        lemma_bound_step(a8, " AND source_folder = ?"@, ArgValue::Text(text_or_empty(f.source_folder)), r);
    }
}

/// A media listing bounds the date taken from below by `date_from` and
/// from above by `date_to`: when a bound is set, the SQL holds its
/// comparison (`date_taken >= ?` for the lower bound, `date_taken <= ?`
/// for the upper one), and the placeholder of that comparison is bound to
/// the bound's text.
pub proof fn lemma_media_date_bounds(f: MediaFilter)
    ensures
        f.date_from is Some ==> exists|pre: Seq<char>, post: Seq<char>|
            #![trigger placeholders(pre), post.len()]
            media_list_spec(f).0 == pre + " AND date_taken >= ?"@ + post && placeholders(pre)
                < media_list_spec(f).1.len() && media_list_spec(f).1[placeholders(pre) as int]
                == ArgValue::Text(f.date_from->0@),
        f.date_to is Some ==> exists|pre: Seq<char>, post: Seq<char>|
            #![trigger placeholders(pre), post.len()]
            media_list_spec(f).0 == pre + " AND date_taken <= ?"@ + post && placeholders(pre)
                < media_list_spec(f).1.len() && media_list_spec(f).1[placeholders(pre) as int]
                == ArgValue::Text(f.date_to->0@),
{
    let q6 = media_filters_before_dates(f);
    let lower = step(q6, f.date_from is Some, " AND date_taken >= ?"@, ArgValue::Text(text_or_empty(f.date_from)));
    let upper = step(lower, f.date_to is Some, " AND date_taken <= ?"@, ArgValue::Text(text_or_empty(f.date_to)));
    let r = media_list_spec(f);
    assert(r == media_list_tail(f, upper));
    lemma_filters_before_dates_count(f);
    lemma_date_from_count();
    lemma_date_to_count();
    lemma_step_counts(q6, f.date_from is Some, " AND date_taken >= ?"@, ArgValue::Text(text_or_empty(f.date_from)));
    lemma_step_counts(lower, f.date_to is Some, " AND date_taken <= ?"@, ArgValue::Text(text_or_empty(f.date_to)));
    lemma_media_tail_extends(f, upper);
    if f.date_from is Some {
        let pre = q6.0;
        let post = r.0.subrange(lower.0.len() as int, r.0.len() as int);
        assert(r.0.subrange(0, lower.0.len() as int) =~= lower.0) by {
            assert(upper.0.subrange(0, lower.0.len() as int) =~= lower.0);
            assert(r.0.subrange(0, upper.0.len() as int) =~= upper.0);
            assert(r.0.subrange(0, lower.0.len() as int) =~= r.0.subrange(0, upper.0.len() as int).subrange(0, lower.0.len() as int));
        }
        assert(r.0 =~= pre + " AND date_taken >= ?"@ + post);
        assert(r.1[q6.1.len() as int] == lower.1[q6.1.len() as int]) by {
            assert(r.1.take(upper.1.len() as int)[q6.1.len() as int] == r.1[q6.1.len() as int]);
            assert(upper.1[q6.1.len() as int] == lower.1[q6.1.len() as int]);
        }
        assert(placeholders(pre) < r.1.len());
    }
    if f.date_to is Some {
        let pre = lower.0;
        let post = r.0.subrange(upper.0.len() as int, r.0.len() as int);
        assert(r.0.subrange(0, upper.0.len() as int) =~= upper.0);
        assert(r.0 =~= pre + " AND date_taken <= ?"@ + post);
        assert(r.1[lower.1.len() as int] == upper.1[lower.1.len() as int]) by {
            assert(r.1.take(upper.1.len() as int)[lower.1.len() as int] == r.1[lower.1.len() as int]);
        }
        assert(placeholders(pre) < r.1.len());
    }
}

/// The query that lists the media a filter selects (see `media_list_spec`).
pub fn media_list_query(f: &MediaFilter) -> (r: SqlQuery)
    ensures
        (r.sql@, arg_values(r.args@)) == media_list_spec(*f),
{
    let mut q = SqlQuery { sql: String::new(), args: Vec::new() };
    push_str(&mut q.sql, "SELECT * FROM media WHERE 1=1");
    assert(arg_values(q.args@) =~= Seq::<ArgValue>::empty());
    if let Some(pid) = &f.project_id {
        add_clause(&mut q, " AND project_id = ?", SqlArg::Text(pid.clone()));
    }
    if let Some(c) = f.classification {
        add_clause(&mut q, " AND classification = ?", SqlArg::Text(c.as_db().to_string()));
    }
    if let Some(t) = f.media_type {
        add_clause(&mut q, " AND media_type = ?", SqlArg::Text(t.as_db().to_string()));
    }
    if let Some(p) = f.is_private {
        add_clause(&mut q, " AND is_private = ?", SqlArg::Int(if p { 1 } else { 0 }));
    }
    if let Some(s) = f.is_starred {
        add_clause(&mut q, " AND is_starred = ?", SqlArg::Int(if s { 1 } else { 0 }));
    }
    if let Some(d) = f.is_duplicate {
        add_clause(&mut q, " AND is_duplicate = ?", SqlArg::Int(if d { 1 } else { 0 }));
    }
    if let Some(df) = &f.date_from {
        add_clause(&mut q, " AND date_taken >= ?", SqlArg::Text(df.clone()));
    }
    if let Some(dt) = &f.date_to {
        add_clause(&mut q, " AND date_taken <= ?", SqlArg::Text(dt.clone()));
    }
    if let Some(sf) = &f.source_folder {
        add_clause(&mut q, " AND source_folder = ?", SqlArg::Text(sf.clone()));
    }
    push_str(&mut q.sql, " ORDER BY ");
    match &f.order_by {
        Some(o) => push_str(&mut q.sql, o.as_str()),
        None => push_str(&mut q.sql, "date_taken DESC"),
    }
    if let Some(l) = f.limit {
        add_clause(&mut q, " LIMIT ?", SqlArg::Int(l));
    }
    if let Some(o) = f.offset {
        add_clause(&mut q, " OFFSET ?", SqlArg::Int(o));
    }
    q
}

/// Which projects a listing returns.
#[derive(Clone, Debug)]
pub struct ProjectFilter {
    pub status: Option<ProjectStatus>,
    pub project_type: Option<ProjectType>,
    pub is_private: Option<bool>,
    pub limit: Option<i64>,
    pub offset: Option<i64>,
}

/// The SQL and placeholder values of a project listing, most recently
/// updated first.
pub open spec fn project_list_spec(f: ProjectFilter) -> (Seq<char>, Seq<ArgValue>) {
    let q0 = ("SELECT * FROM projects WHERE 1=1"@, Seq::<ArgValue>::empty());
    let q1 = step(q0, f.status is Some, " AND status = ?"@, ArgValue::Text(f.status->0.db_text()));
    let q2 = step(q1, f.project_type is Some, " AND project_type = ?"@, ArgValue::Text(f.project_type->0.db_text()));
    let q3 = step(q2, f.is_private is Some, " AND is_private = ?"@, ArgValue::Int(flag(f.is_private->0)));
    let q4 = (q3.0 + " ORDER BY updated_at DESC"@, q3.1);
    let q5 = step(q4, f.limit is Some, " LIMIT ?"@, ArgValue::Int(f.limit->0 as int));
    step(q5, f.offset is Some, " OFFSET ?"@, ArgValue::Int(f.offset->0 as int))
}

/// The query that lists the projects a filter selects (see
/// `project_list_spec`).
pub fn project_list_query(f: &ProjectFilter) -> (r: SqlQuery)
    ensures
        (r.sql@, arg_values(r.args@)) == project_list_spec(*f),
{
    let mut q = SqlQuery { sql: String::new(), args: Vec::new() };
    push_str(&mut q.sql, "SELECT * FROM projects WHERE 1=1");
    assert(arg_values(q.args@) =~= Seq::<ArgValue>::empty());
    if let Some(s) = f.status {
        add_clause(&mut q, " AND status = ?", SqlArg::Text(s.as_db().to_string()));
    }
    if let Some(t) = f.project_type {
        add_clause(&mut q, " AND project_type = ?", SqlArg::Text(t.as_db().to_string()));
    }
    if let Some(p) = f.is_private {
        add_clause(&mut q, " AND is_private = ?", SqlArg::Int(if p { 1 } else { 0 }));
    }
    push_str(&mut q.sql, " ORDER BY updated_at DESC");
    if let Some(l) = f.limit {
        add_clause(&mut q, " LIMIT ?", SqlArg::Int(l));
    }
    if let Some(o) = f.offset {
        add_clause(&mut q, " OFFSET ?", SqlArg::Int(o));
    }
    q
}

/// The update that records a job's new status at `now`: a running job
/// gets its start time; a finished one (completed, failed or cancelled)
/// its error (or none), end time and full progress; any other status only
/// the status.
pub open spec fn job_status_spec(id: Seq<char>, status: JobStatus, error: Option<Seq<char>>, now: Seq<char>) -> (
    Seq<char>,
    Seq<ArgValue>,
) {
    match status {
        JobStatus::Running => (
            "UPDATE jobs SET status=?, started_at=?, updated_at=datetime('now') WHERE id=?"@,
            seq![ArgValue::Text(status.db_text()), ArgValue::Text(now), ArgValue::Text(id)],
        ),
        JobStatus::Completed | JobStatus::Failed | JobStatus::Cancelled => (
            "UPDATE jobs SET status=?, error_message=?, completed_at=?, progress=1.0, updated_at=datetime('now') WHERE id=?"@,
            seq![
                ArgValue::Text(status.db_text()),
                match error {
                    Some(e) => ArgValue::Text(e),
                    None => ArgValue::Null,
                },
                ArgValue::Text(now),
                ArgValue::Text(id),
            ],
        ),
        _ => (
            "UPDATE jobs SET status=?, updated_at=datetime('now') WHERE id=?"@,
            seq![ArgValue::Text(status.db_text()), ArgValue::Text(id)],
        ),
    }
}

/// The update that records a job's new status (see `job_status_spec`).
pub fn set_status_query(id: &str, status: JobStatus, error: Option<&str>, now: &str) -> (r: SqlQuery)
    ensures
        (r.sql@, arg_values(r.args@)) == job_status_spec(
            id@,
            status,
            match error {
                Some(e) => Some(e@),
                None => None,
            },
            now@,
        ),
{
    let mut q = SqlQuery { sql: String::new(), args: Vec::new() };
    let st = SqlArg::Text(status.as_db().to_string());
    match status {
        JobStatus::Running => {
            push_str(&mut q.sql, "UPDATE jobs SET status=?, started_at=?, updated_at=datetime('now') WHERE id=?");
            q.args.push(st);
            q.args.push(SqlArg::Text(now.to_string()));
            q.args.push(SqlArg::Text(id.to_string()));
        },
        JobStatus::Completed | JobStatus::Failed | JobStatus::Cancelled => {
            push_str(
                &mut q.sql,
                "UPDATE jobs SET status=?, error_message=?, completed_at=?, progress=1.0, updated_at=datetime('now') WHERE id=?",
            );
            q.args.push(st);
            q.args.push(
                match error {
                    Some(e) => SqlArg::Text(e.to_string()),
                    None => SqlArg::Null,
                },
            );
            q.args.push(SqlArg::Text(now.to_string()));
            q.args.push(SqlArg::Text(id.to_string()));
        },
        _ => {
            push_str(&mut q.sql, "UPDATE jobs SET status=?, updated_at=datetime('now') WHERE id=?");
            q.args.push(st);
            q.args.push(SqlArg::Text(id.to_string()));
        },
    }
    assert(arg_values(q.args@) =~= job_status_spec(
        id@,
        status,
        match error {
            Some(e) => Some(e@),
            None => None,
        },
        now@,
    ).1);
    q
}

} // verus!
