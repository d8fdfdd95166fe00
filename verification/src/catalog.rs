//! Catalog search planning: the parameterized filter, ordering and paging that a
//! `CatalogQuery` becomes before the metadata store runs it.
use vstd::prelude::*;

use crate::error::{AppError, AppResult};
use crate::models::CatalogQuery;
use crate::text::{
    ascii_lowercase_str, decimal, spec_ascii_lowercase, spec_decimal, spec_trim, str_eq, trim_str,
};

verus! {

/// A value bound to a numbered SQL parameter.
#[derive(Clone, Debug)]
pub enum SqlValue {
    Integer(i64),
    Text(String),
}

/// The mathematical value of a bound parameter.
pub ghost enum SqlParam {
    Integer(int),
    Text(Seq<char>),
}

/// The parameter a bound value stands for.
pub open spec fn param_of(v: SqlValue) -> SqlParam {
    match v {
        SqlValue::Integer(i) => SqlParam::Integer(i as int),
        SqlValue::Text(t) => SqlParam::Text(t@),
    }
}

/// The parameters of a list of bound values.
pub open spec fn params_of(v: Seq<SqlValue>) -> Seq<SqlParam> {
    v.map_values(|x: SqlValue| param_of(x))
}

/// One filter predicate: its text pieces, joined by references to its own
/// parameter slot, and the parameter bound to that slot, if any.
pub ghost struct Clause {
    pub parts: Seq<Seq<char>>,
    pub param: Option<SqlParam>,
}

/// A predicate without a parameter.
pub open spec fn fixed(text: Seq<char>) -> Clause {
    Clause { parts: seq![text], param: None }
}

/// A predicate with one parameter referenced between its pieces.
pub open spec fn bound(parts: Seq<Seq<char>>, param: SqlParam) -> Clause {
    Clause { parts, param: Some(param) }
}

/// The pieces joined by `?N`, where `N` is the slot number.
pub open spec fn render_parts(parts: Seq<Seq<char>>, slot: nat) -> Seq<char>
    decreases parts.len(),
{
    if parts.len() == 0 {
        Seq::empty()
    } else if parts.len() == 1 {
        parts[0]
    } else {
        render_parts(parts.drop_last(), slot) + "?"@ + spec_decimal(slot) + parts.last()
    }
}

/// The parameters of a list of clauses, in slot order.
pub open spec fn clause_params(cs: Seq<Clause>) -> Seq<SqlParam>
    decreases cs.len(),
{
    if cs.len() == 0 {
        Seq::empty()
    } else {
        match cs.last().param {
            Some(p) => clause_params(cs.drop_last()).push(p),
            None => clause_params(cs.drop_last()),
        }
    }
}

/// Rendered predicates and bound values of a filter.
#[derive(Clone, Debug)]
pub struct CatalogFilter {
    pub predicates: Vec<String>,
    pub values: Vec<SqlValue>,
}

/// `f` is the rendering of the clauses `cs`: each clause's parameter gets the next slot.
pub open spec fn filter_renders(f: CatalogFilter, cs: Seq<Clause>) -> bool {
    &&& f.predicates@.len() == cs.len()
    &&& params_of(f.values@) == clause_params(cs)
    &&& forall|i: int|
        0 <= i < cs.len() ==> #[trigger] f.predicates@[i]@ == render_parts(
            cs[i].parts,
            clause_params(cs.take(i)).len() + 1,
        )
}

fn push_fixed(f: &mut CatalogFilter, text: &str, Ghost(cs): Ghost<Seq<Clause>>)
    requires
        filter_renders(*old(f), cs),
    ensures
        filter_renders(*final(f), cs.push(fixed(text@))),
{
    let ghost before = f.predicates@;
    f.predicates.push(text.to_string());
    proof {
        let next = cs.push(fixed(text@));
        assert(next.drop_last() =~= cs);
        assert forall|i: int| 0 <= i < next.len() implies #[trigger] f.predicates@[i]@
            == render_parts(next[i].parts, clause_params(next.take(i)).len() + 1) by {
            if i < cs.len() {
                assert(next.take(i) =~= cs.take(i));
                assert(f.predicates@[i] == before[i]);
            }
        }
    }
}

fn push_bound(
    f: &mut CatalogFilter,
    parts: &Vec<&str>,
    value: SqlValue,
    Ghost(cs): Ghost<Seq<Clause>>,
)
    requires
        filter_renders(*old(f), cs),
        parts@.len() >= 1,
        old(f).values@.len() < 0x1_0000_0000,
    ensures
        filter_renders(
            *final(f),
            cs.push(bound(parts@.map_values(|p: &str| p@), param_of(value))),
        ),
        final(f).values@.len() == old(f).values@.len() + 1,
{
    let ghost pv = parts@.map_values(|p: &str| p@);
    let slot: u64 = f.values.len() as u64 + 1;
    let slot_text = decimal(slot);
    let mut text = parts[0].to_string();
    let mut j: usize = 1;
    assert(pv.take(1).drop_last() =~= Seq::<Seq<char>>::empty());
    while j < parts.len()
        invariant
            1 <= j <= parts.len(),
            pv == parts@.map_values(|p: &str| p@),
            slot_text@ == spec_decimal(slot as nat),
            text@ == render_parts(pv.take(j as int), slot as nat),
        decreases parts.len() - j,
    {
        text.append("?");
        text.append(slot_text.as_str());
        text.append(parts[j]);
        assert(pv.take(j + 1).drop_last() =~= pv.take(j as int));
        assert(pv.take(j + 1).last() == parts@[j as int]@);
        j += 1;
    }
    assert(pv.take(parts.len() as int) =~= pv);
    let ghost before = f.predicates@;
    let ghost before_values = f.values@;
    assert(clause_params(cs).len() == f.values@.len()) by {
        assert(params_of(f.values@).len() == f.values@.len());
    }
    f.predicates.push(text);
    f.values.push(value);
    proof {
        let next = cs.push(bound(pv, param_of(value)));
        assert(next.drop_last() =~= cs);
        assert(next.take(cs.len() as int) =~= cs);
        assert(params_of(f.values@) =~= params_of(before_values).push(param_of(value)));
        assert forall|i: int| 0 <= i < next.len() implies #[trigger] f.predicates@[i]@
            == render_parts(next[i].parts, clause_params(next.take(i)).len() + 1) by {
            if i < cs.len() {
                assert(next.take(i) =~= cs.take(i));
                assert(f.predicates@[i] == before[i]);
            }
        }
    }
}

// ---------------------------------------------------------------------------
// The clauses of a catalog query
// ---------------------------------------------------------------------------

/// Whether an optional filter value is absent or the word `all` in any ASCII case.
pub open spec fn is_all_or_none(value: Option<String>) -> bool {
    match value {
        Some(v) => spec_ascii_lowercase(v@) == "all"@,
        None => true,
    }
}

/// `%text%`, the LIKE pattern for a substring.
pub open spec fn like_pattern(text: Seq<char>) -> Seq<char> {
    "%"@ + text + "%"@
}

/// The keyword predicate's pieces.
pub open spec fn keyword_parts() -> Seq<Seq<char>> {
    seq![
        "(wallpaper.name LIKE "@,
        " COLLATE NOCASE OR wallpaper.provider LIKE "@,
        " COLLATE NOCASE OR wallpaper.category LIKE "@,
        " COLLATE NOCASE OR EXISTS (SELECT 1 FROM wallpaper_tag wt JOIN tag t ON t.id = wt.tag_id WHERE wt.wallpaper_id = wallpaper.id AND t.name LIKE "@,
        " COLLATE NOCASE))"@,
    ]
}

/// The predicate that an indexed file copy exists.
pub open spec fn file_backed_text() -> Seq<char> {
    "EXISTS (SELECT 1 FROM wallpaper_file_state AS state WHERE state.wallpaper_id = wallpaper.id)"@
}

/// The predicate that no indexed file copy exists.
pub open spec fn remote_only_text() -> Seq<char> {
    "NOT EXISTS (SELECT 1 FROM wallpaper_file_state AS state WHERE state.wallpaper_id = wallpaper.id)"@
}

/// The predicate that some file copy is available now.
pub open spec fn locally_available_text() -> Seq<char> {
    "EXISTS (SELECT 1 FROM wallpaper_file_state AS state WHERE state.wallpaper_id = wallpaper.id AND state.availability = 'available')"@
}

/// Clauses for the tags that are not blank, trimmed, in order.
pub open spec fn tag_clauses(tags: Seq<String>) -> Seq<Clause>
    decreases tags.len(),
{
    if tags.len() == 0 {
        Seq::empty()
    } else {
        let rest = tag_clauses(tags.drop_last());
        let t = spec_trim(tags.last()@);
        if t.len() == 0 {
            rest
        } else {
            rest.push(
                bound(
                    seq![
                        "EXISTS (SELECT 1 FROM wallpaper_tag AS wt JOIN tag AS filter_tag ON filter_tag.id = wt.tag_id WHERE wt.wallpaper_id = wallpaper.id AND filter_tag.name = "@,
                        " COLLATE NOCASE)"@,
                    ],
                    SqlParam::Text(t),
                ),
            )
        }
    }
}

/// Appends a clause when the condition holds.
pub open spec fn push_if(cs: Seq<Clause>, condition: bool, c: Clause) -> Seq<Clause> {
    if condition {
        cs.push(c)
    } else {
        cs
    }
}

/// The blacklist predicate every catalog query starts with.
pub open spec fn base_clauses(q: CatalogQuery) -> Seq<Clause> {
    seq![
        fixed(
            if q.include_blacklisted {
                "1 = 1"@
            } else {
                "wallpaper.blacklisted = 0"@
            },
        ),
    ]
}

/// An optional text, trimmed; empty when absent.
pub open spec fn trimmed_or_empty(value: Option<String>) -> Seq<char> {
    match value {
        Some(k) => spec_trim(k@),
        None => Seq::empty(),
    }
}

/// Keyword, name, category and provider predicates.
pub open spec fn text_filter_clauses(cs: Seq<Clause>, q: CatalogQuery) -> Seq<Clause> {
    let keyword = trimmed_or_empty(q.keyword);
    let c1 = push_if(cs, keyword.len() > 0, bound(keyword_parts(), SqlParam::Text(like_pattern(keyword))));
    let name = trimmed_or_empty(q.name);
    let c2 = push_if(
        c1,
        name.len() > 0,
        bound(seq!["wallpaper.name LIKE "@, " COLLATE NOCASE"@], SqlParam::Text(like_pattern(name))),
    );
    let c3 = push_if(
        c2,
        !is_all_or_none(q.category),
        bound(
            seq!["wallpaper.category = "@, " COLLATE NOCASE"@],
            SqlParam::Text(q.category->0@),
        ),
    );
    push_if(
        c3,
        !is_all_or_none(q.provider),
        bound(
            seq!["wallpaper.provider = "@, " COLLATE NOCASE"@],
            SqlParam::Text(q.provider->0@),
        ),
    )
}

/// The predicate on the preferred file copy's availability or storage kind.
pub open spec fn copy_clause(value: Seq<char>, remote: Seq<char>, head: Seq<char>) -> Clause {
    if value == remote {
        fixed(remote_only_text())
    } else {
        bound(seq![head, ")"@], SqlParam::Text(value))
    }
}

/// The head of the availability predicate.
pub open spec fn availability_head() -> Seq<char> {
    "EXISTS (SELECT 1 FROM wallpaper_file_state AS state WHERE state.wallpaper_id = wallpaper.id AND state.availability = "@
}

/// The head of the storage-kind predicate.
pub open spec fn storage_head() -> Seq<char> {
    "EXISTS (SELECT 1 FROM wallpaper_file_state AS state WHERE state.wallpaper_id = wallpaper.id AND state.storage_kind = "@
}

/// File-state predicates: availability, backing file, download status, copy filters.
pub open spec fn file_filter_clauses(cs: Seq<Clause>, q: CatalogQuery) -> Seq<Clause> {
    let c5 = push_if(cs, q.locally_available, fixed(locally_available_text()));
    let c6 = push_if(c5, q.file_backed, fixed(file_backed_text()));
    let c7 = push_if(
        c6,
        q.download_status is Some,
        bound(seq!["wallpaper.download_status = "@, ""@], SqlParam::Text(q.download_status->0@)),
    );
    let c8 = match q.file_availability {
        Some(a) => c7.push(copy_clause(a@, "remote"@, availability_head())),
        None => c7,
    };
    match q.storage_kind {
        Some(k) => c8.push(copy_clause(k@, "remote_metadata"@, storage_head())),
        None => c8,
    }
}

/// Collection membership and favorite predicates.
pub open spec fn membership_clauses(cs: Seq<Clause>, q: CatalogQuery) -> Seq<Clause> {
    let c10 = match q.collection_id {
        Some(id) => push_if(
            cs,
            id > 0,
            bound(
                seq![
                    "EXISTS (SELECT 1 FROM collection_wallpaper AS member WHERE member.wallpaper_id = wallpaper.id AND member.collection_id = "@,
                    ")"@,
                ],
                SqlParam::Integer(id as int),
            ),
        ),
        None => cs,
    };
    match q.favorite {
        Some(f) => c10.push(
            bound(
                seq!["wallpaper.favorite = "@, ""@],
                SqlParam::Integer(
                    if f {
                        1
                    } else {
                        0
                    },
                ),
            ),
        ),
        None => c10,
    }
}

/// A positive dimension bound.
pub open spec fn dimension_clause(cs: Seq<Clause>, bound_value: Option<u32>, text: Seq<char>) -> Seq<Clause> {
    match bound_value {
        Some(v) => push_if(cs, v > 0, bound(seq![text, ""@], SqlParam::Integer(v as int))),
        None => cs,
    }
}

/// Size, ratio and format predicates.
pub open spec fn format_filter_clauses(cs: Seq<Clause>, q: CatalogQuery) -> Seq<Clause> {
    let c12 = dimension_clause(cs, q.min_width, "wallpaper.width >= "@);
    let c13 = dimension_clause(c12, q.min_height, "wallpaper.height >= "@);
    let c14 = dimension_clause(c13, q.max_width, "wallpaper.width <= "@);
    let c15 = dimension_clause(c14, q.max_height, "wallpaper.height <= "@);
    let c16 = push_if(
        c15,
        q.aspect_ratio is Some,
        bound(seq!["wallpaper.aspect_ratio = "@, ""@], SqlParam::Text(q.aspect_ratio->0@)),
    );
    push_if(
        c16,
        q.mime_type is Some,
        bound(seq!["wallpaper.mime_type = "@, ""@], SqlParam::Text(q.mime_type->0@)),
    )
}

/// The predicates of a catalog query, in the order they are combined with AND.
pub open spec fn catalog_clauses(q: CatalogQuery) -> Seq<Clause> {
    format_filter_clauses(
        membership_clauses(
            file_filter_clauses(text_filter_clauses(base_clauses(q), q), q),
            q,
        ),
        q,
    ) + tag_clauses(q.tags@)
}

proof fn lemma_params_len(cs: Seq<Clause>)
    ensures
        clause_params(cs).len() <= cs.len(),
    decreases cs.len(),
{
    if cs.len() > 0 {
        lemma_params_len(cs.drop_last());
    }
}

fn text_value(t: String) -> (v: SqlValue)
    ensures
        param_of(v) == SqlParam::Text(t@),
{
    SqlValue::Text(t)
}

fn like_value(t: &str) -> (v: SqlValue)
    ensures
        param_of(v) == SqlParam::Text(like_pattern(t@)),
{
    let mut s = String::from_str("%");
    s.append(t);
    s.append("%");
    SqlValue::Text(s)
}

fn is_all(value: &str) -> (b: bool)
    ensures
        b == (spec_ascii_lowercase(value@) == "all"@),
{
    str_eq(ascii_lowercase_str(value).as_str(), "all")
}

fn two(a: &'static str, b: &'static str) -> (v: Vec<&'static str>)
    ensures
        v@.len() == 2,
        v@.map_values(|p: &str| p@) == seq![a@, b@],
{
    let v = vec![a, b];
    assert(v@.map_values(|p: &str| p@) =~= seq![a@, b@]);
    v
}

/// Room for at least one more bound parameter.
pub open spec fn has_room(f: CatalogFilter, cs: Seq<Clause>) -> bool {
    filter_renders(f, cs) && f.predicates@.len() < 0x1000_0000
}

proof fn lemma_room(f: CatalogFilter, cs: Seq<Clause>)
    requires
        has_room(f, cs),
    ensures
        f.values@.len() < 0x1000_0000,
{
    lemma_params_len(cs);
    assert(params_of(f.values@).len() == f.values@.len());
}

fn add_text_filters(f: &mut CatalogFilter, query: &CatalogQuery, Ghost(cs): Ghost<Seq<Clause>>)
    requires
        has_room(*old(f), cs),
        old(f).predicates@.len() < 0x0FFF_FFF0,
    ensures
        filter_renders(*final(f), text_filter_clauses(cs, *query)),
        final(f).predicates@.len() <= old(f).predicates@.len() + 4,
{
    let ghost mut c = cs;
    let keyword = match &query.keyword {
        Some(k) => trim_str(k.as_str()),
        None => String::new(),
    };
    proof {
        lemma_room(*f, c);
    }
    if !keyword.as_str().is_empty() {
        let parts: Vec<&str> = vec![
            "(wallpaper.name LIKE ",
            " COLLATE NOCASE OR wallpaper.provider LIKE ",
            " COLLATE NOCASE OR wallpaper.category LIKE ",
            " COLLATE NOCASE OR EXISTS (SELECT 1 FROM wallpaper_tag wt JOIN tag t ON t.id = wt.tag_id WHERE wt.wallpaper_id = wallpaper.id AND t.name LIKE ",
            " COLLATE NOCASE))",
        ];
        assert(parts@.map_values(|p: &str| p@) =~= keyword_parts());
        push_bound(f, &parts, like_value(keyword.as_str()), Ghost(c));
        proof {
            c = c.push(bound(keyword_parts(), SqlParam::Text(like_pattern(keyword@))));
        }
    }
    proof {
        lemma_room(*f, c);
    }
    let name = match &query.name {
        Some(k) => trim_str(k.as_str()),
        None => String::new(),
    };
    if !name.as_str().is_empty() {
        let parts = two("wallpaper.name LIKE ", " COLLATE NOCASE");
        push_bound(f, &parts, like_value(name.as_str()), Ghost(c));
        proof {
            c = c.push(
                bound(
                    seq!["wallpaper.name LIKE "@, " COLLATE NOCASE"@],
                    SqlParam::Text(like_pattern(name@)),
                ),
            );
        }
    }
    proof {
        lemma_room(*f, c);
    }
    match &query.category {
        Some(v) => {
            if !is_all(v.as_str()) {
                let parts = two("wallpaper.category = ", " COLLATE NOCASE");
                push_bound(f, &parts, text_value(v.clone()), Ghost(c));
                proof {
                    c = c.push(
                        bound(seq!["wallpaper.category = "@, " COLLATE NOCASE"@], SqlParam::Text(v@)),
                    );
                }
            }
        },
        None => {},
    }
    proof {
        lemma_room(*f, c);
    }
    match &query.provider {
        Some(v) => {
            if !is_all(v.as_str()) {
                let parts = two("wallpaper.provider = ", " COLLATE NOCASE");
                push_bound(f, &parts, text_value(v.clone()), Ghost(c));
                proof {
                    c = c.push(
                        bound(seq!["wallpaper.provider = "@, " COLLATE NOCASE"@], SqlParam::Text(v@)),
                    );
                }
            }
        },
        None => {},
    }
    assert(c == text_filter_clauses(cs, *query));
}

fn add_copy_filter(
    f: &mut CatalogFilter,
    value: &String,
    remote: &str,
    head: &'static str,
    Ghost(cs): Ghost<Seq<Clause>>,
)
    requires
        has_room(*old(f), cs),
    ensures
        filter_renders(*final(f), cs.push(copy_clause(value@, remote@, head@))),
        final(f).predicates@.len() == old(f).predicates@.len() + 1,
{
    proof {
        lemma_room(*f, cs);
    }
    if str_eq(value.as_str(), remote) {
        push_fixed(
            f,
            "NOT EXISTS (SELECT 1 FROM wallpaper_file_state AS state WHERE state.wallpaper_id = wallpaper.id)",
            Ghost(cs),
        );
    } else {
        let parts = two(head, ")");
        push_bound(f, &parts, text_value(value.clone()), Ghost(cs));
    }
}

fn add_file_filters(f: &mut CatalogFilter, query: &CatalogQuery, Ghost(cs): Ghost<Seq<Clause>>)
    requires
        has_room(*old(f), cs),
        old(f).predicates@.len() < 0x0FFF_FFF0,
    ensures
        filter_renders(*final(f), file_filter_clauses(cs, *query)),
        final(f).predicates@.len() <= old(f).predicates@.len() + 5,
{
    let ghost mut c = cs;
    if query.locally_available {
        push_fixed(
            f,
            "EXISTS (SELECT 1 FROM wallpaper_file_state AS state WHERE state.wallpaper_id = wallpaper.id AND state.availability = 'available')",
            Ghost(c),
        );
        proof {
            c = c.push(fixed(locally_available_text()));
        }
    }
    if query.file_backed {
        push_fixed(
            f,
            "EXISTS (SELECT 1 FROM wallpaper_file_state AS state WHERE state.wallpaper_id = wallpaper.id)",
            Ghost(c),
        );
        proof {
            c = c.push(fixed(file_backed_text()));
        }
    }
    proof {
        lemma_room(*f, c);
    }
    match &query.download_status {
        Some(d) => {
            let parts = two("wallpaper.download_status = ", "");
            push_bound(f, &parts, text_value(d.clone()), Ghost(c));
            proof {
                c = c.push(bound(seq!["wallpaper.download_status = "@, ""@], SqlParam::Text(d@)));
            }
        },
        None => {},
    }
    match &query.file_availability {
        Some(a) => {
            add_copy_filter(
                f,
                a,
                "remote",
                "EXISTS (SELECT 1 FROM wallpaper_file_state AS state WHERE state.wallpaper_id = wallpaper.id AND state.availability = ",
                Ghost(c),
            );
            proof {
                c = c.push(copy_clause(a@, "remote"@, availability_head()));
            }
        },
        None => {},
    }
    match &query.storage_kind {
        Some(k) => {
            add_copy_filter(
                f,
                k,
                "remote_metadata",
                "EXISTS (SELECT 1 FROM wallpaper_file_state AS state WHERE state.wallpaper_id = wallpaper.id AND state.storage_kind = ",
                Ghost(c),
            );
            proof {
                c = c.push(copy_clause(k@, "remote_metadata"@, storage_head()));
            }
        },
        None => {},
    }
    assert(c == file_filter_clauses(cs, *query));
}

fn add_membership_filters(f: &mut CatalogFilter, query: &CatalogQuery, Ghost(cs): Ghost<Seq<Clause>>)
    requires
        has_room(*old(f), cs),
        old(f).predicates@.len() < 0x0FFF_FFF0,
    ensures
        filter_renders(*final(f), membership_clauses(cs, *query)),
        final(f).predicates@.len() <= old(f).predicates@.len() + 2,
{
    let ghost mut c = cs;
    proof {
        lemma_room(*f, c);
    }
    match query.collection_id {
        Some(id) => {
            if id > 0 {
                let parts = two(
                    "EXISTS (SELECT 1 FROM collection_wallpaper AS member WHERE member.wallpaper_id = wallpaper.id AND member.collection_id = ",
                    ")",
                );
                push_bound(f, &parts, SqlValue::Integer(id), Ghost(c));
                proof {
                    c = c.push(
                        bound(
                            seq![
                                "EXISTS (SELECT 1 FROM collection_wallpaper AS member WHERE member.wallpaper_id = wallpaper.id AND member.collection_id = "@,
                                ")"@,
                            ],
                            SqlParam::Integer(id as int),
                        ),
                    );
                }
            }
        },
        None => {},
    }
    proof {
        lemma_room(*f, c);
    }
    match query.favorite {
        Some(favorite) => {
            let n: i64 = if favorite {
                1
            } else {
                0
            };
            let parts = two("wallpaper.favorite = ", "");
            push_bound(f, &parts, SqlValue::Integer(n), Ghost(c));
            proof {
                c = c.push(bound(seq!["wallpaper.favorite = "@, ""@], SqlParam::Integer(n as int)));
            }
        },
        None => {},
    }
    assert(c == membership_clauses(cs, *query));
}

fn add_dimension_filter(
    f: &mut CatalogFilter,
    value: Option<u32>,
    text: &'static str,
    Ghost(cs): Ghost<Seq<Clause>>,
)
    requires
        has_room(*old(f), cs),
    ensures
        filter_renders(*final(f), dimension_clause(cs, value, text@)),
        final(f).predicates@.len() <= old(f).predicates@.len() + 1,
{
    proof {
        lemma_room(*f, cs);
    }
    match value {
        Some(v) => {
            if v > 0 {
                let parts = two(text, "");
                push_bound(f, &parts, SqlValue::Integer(v as i64), Ghost(cs));
            }
        },
        None => {},
    }
}

fn add_format_filters(f: &mut CatalogFilter, query: &CatalogQuery, Ghost(cs): Ghost<Seq<Clause>>)
    requires
        has_room(*old(f), cs),
        old(f).predicates@.len() < 0x0FFF_FFF0,
    ensures
        filter_renders(*final(f), format_filter_clauses(cs, *query)),
        final(f).predicates@.len() <= old(f).predicates@.len() + 6,
{
    let ghost c12 = dimension_clause(cs, query.min_width, "wallpaper.width >= "@);
    add_dimension_filter(f, query.min_width, "wallpaper.width >= ", Ghost(cs));
    let ghost c13 = dimension_clause(c12, query.min_height, "wallpaper.height >= "@);
    add_dimension_filter(f, query.min_height, "wallpaper.height >= ", Ghost(c12));
    let ghost c14 = dimension_clause(c13, query.max_width, "wallpaper.width <= "@);
    add_dimension_filter(f, query.max_width, "wallpaper.width <= ", Ghost(c13));
    let ghost c15 = dimension_clause(c14, query.max_height, "wallpaper.height <= "@);
    add_dimension_filter(f, query.max_height, "wallpaper.height <= ", Ghost(c14));
    let ghost mut c = c15;
    proof {
        lemma_room(*f, c);
    }
    match &query.aspect_ratio {
        Some(a) => {
            let parts = two("wallpaper.aspect_ratio = ", "");
            push_bound(f, &parts, text_value(a.clone()), Ghost(c));
            proof {
                c = c.push(bound(seq!["wallpaper.aspect_ratio = "@, ""@], SqlParam::Text(a@)));
            }
        },
        None => {},
    }
    proof {
        lemma_room(*f, c);
    }
    match &query.mime_type {
        Some(m) => {
            let parts = two("wallpaper.mime_type = ", "");
            push_bound(f, &parts, text_value(m.clone()), Ghost(c));
            proof {
                c = c.push(bound(seq!["wallpaper.mime_type = "@, ""@], SqlParam::Text(m@)));
            }
        },
        None => {},
    }
    assert(c == format_filter_clauses(cs, *query));
}

fn add_tag_filters(f: &mut CatalogFilter, tags: &Vec<String>, Ghost(cs): Ghost<Seq<Clause>>)
    requires
        filter_renders(*old(f), cs),
        old(f).predicates@.len() + tags@.len() < 0x1000_0000,
    ensures
        filter_renders(*final(f), cs + tag_clauses(tags@)),
        final(f).predicates@.len() <= old(f).predicates@.len() + tags@.len(),
{
    let ghost mut c = cs;
    let mut i: usize = 0;
    assert(tag_clauses(tags@.take(0)) =~= Seq::<Clause>::empty());
    assert(cs + Seq::<Clause>::empty() =~= cs);
    while i < tags.len()
        invariant
            i <= tags.len(),
            c == cs + tag_clauses(tags@.take(i as int)),
            filter_renders(*f, c),
            f.predicates@.len() <= old(f).predicates@.len() + i,
            old(f).predicates@.len() + tags@.len() < 0x1000_0000,
        decreases tags.len() - i,
    {
        proof {
            lemma_room(*f, c);
            assert(tags@.take(i + 1).drop_last() =~= tags@.take(i as int));
        }
        let t = trim_str(tags[i].as_str());
        if !t.as_str().is_empty() {
            let parts = two(
                "EXISTS (SELECT 1 FROM wallpaper_tag AS wt JOIN tag AS filter_tag ON filter_tag.id = wt.tag_id WHERE wt.wallpaper_id = wallpaper.id AND filter_tag.name = ",
                " COLLATE NOCASE)",
            );
            let ghost clause = bound(
                seq![
                    "EXISTS (SELECT 1 FROM wallpaper_tag AS wt JOIN tag AS filter_tag ON filter_tag.id = wt.tag_id WHERE wt.wallpaper_id = wallpaper.id AND filter_tag.name = "@,
                    " COLLATE NOCASE)"@,
                ],
                SqlParam::Text(spec_trim(tags@[i as int]@)),
            );
            push_bound(f, &parts, text_value(t), Ghost(c));
            proof {
                assert(cs + tag_clauses(tags@.take(i + 1)) =~= (cs + tag_clauses(
                    tags@.take(i as int),
                )).push(clause));
                c = c.push(clause);
            }
        }
        i += 1;
    }
    assert(tags@.take(tags.len() as int) =~= tags@);
}

/// Builds the parameterized predicates of a catalog query; every user value is
/// bound to a numbered parameter, never spliced into SQL text.
pub fn catalog_filter(query: &CatalogQuery) -> (f: CatalogFilter)
    requires
        query.tags@.len() < 0x0FFF_0000,
    ensures
        filter_renders(f, catalog_clauses(*query)),
        f.predicates@.len() <= 18 + query.tags@.len(),
{
    let mut f = CatalogFilter { predicates: Vec::new(), values: Vec::new() };
    let ghost empty: Seq<Clause> = Seq::empty();
    assert(params_of(f.values@) =~= Seq::<SqlParam>::empty());
    if query.include_blacklisted {
        push_fixed(&mut f, "1 = 1", Ghost(empty));
    } else {
        push_fixed(&mut f, "wallpaper.blacklisted = 0", Ghost(empty));
    }
    let ghost c0 = base_clauses(*query);
    assert(c0 =~= empty.push(fixed(if query.include_blacklisted { "1 = 1"@ } else { "wallpaper.blacklisted = 0"@ })));
    add_text_filters(&mut f, query, Ghost(c0));
    let ghost c1 = text_filter_clauses(c0, *query);
    add_file_filters(&mut f, query, Ghost(c1));
    let ghost c2 = file_filter_clauses(c1, *query);
    add_membership_filters(&mut f, query, Ghost(c2));
    let ghost c3 = membership_clauses(c2, *query);
    add_format_filters(&mut f, query, Ghost(c3));
    let ghost c4 = format_filter_clauses(c3, *query);
    add_tag_filters(&mut f, &query.tags, Ghost(c4));
    f
}

// ---------------------------------------------------------------------------
// Ordering, paging and the statements run by the store
// ---------------------------------------------------------------------------

/// The ORDER BY expression of a catalog sort name; unknown names sort newest first.
pub open spec fn spec_order_clause(sort: Option<Seq<char>>) -> Seq<char> {
    match sort {
        Some(s) => if s == "random"@ {
            "RANDOM()"@
        } else if s == "name"@ {
            "wallpaper.name COLLATE NOCASE ASC, wallpaper.id ASC"@
        } else if s == "recently_used"@ {
            "wallpaper.last_used_at DESC, wallpaper.id DESC"@
        } else if s == "file_size"@ {
            "wallpaper.file_size DESC, wallpaper.id DESC"@
        } else {
            "wallpaper.synced_at DESC, wallpaper.id DESC"@
        },
        None => "wallpaper.synced_at DESC, wallpaper.id DESC"@,
    }
}

/// Chooses the ORDER BY expression of a catalog sort name.
pub fn order_clause(sort: Option<&str>) -> (r: &'static str)
    ensures
        r@ == spec_order_clause(crate::provider::download::opt_view(sort)),
{
    match sort {
        Some(s) => {
            if str_eq(s, "random") {
                "RANDOM()"
            } else if str_eq(s, "name") {
                "wallpaper.name COLLATE NOCASE ASC, wallpaper.id ASC"
            } else if str_eq(s, "recently_used") {
                "wallpaper.last_used_at DESC, wallpaper.id DESC"
            } else if str_eq(s, "file_size") {
                "wallpaper.file_size DESC, wallpaper.id DESC"
            } else {
                "wallpaper.synced_at DESC, wallpaper.id DESC"
            }
        },
        None => "wallpaper.synced_at DESC, wallpaper.id DESC",
    }
}

/// A bounded page: the page number (at least one), its size (1 to 100) and the row offset.
#[derive(Clone, Copy, Debug)]
pub struct PageWindow {
    pub page: u32,
    pub page_size: u32,
    pub offset: i64,
}

/// Bounds a requested page so catalog queries stay small as the metadata set grows.
pub fn page_window(page: u32, page_size: u32) -> (w: PageWindow)
    ensures
        w.page == crate::provider::first_page(page),
        w.page_size == crate::provider::clamp(page_size, 1, 100),
        w.offset == (w.page - 1) * w.page_size,
{
    let page: u32 = if page < 1 {
        1
    } else {
        page
    };
    let page_size: u32 = if page_size < 1 {
        1
    } else if page_size > 100 {
        100
    } else {
        page_size
    };
    assert((page - 1) as int * page_size as int <= 0xFFFF_FFFF * 100) by (nonlinear_arith)
        requires
            1 <= page <= 0xFFFF_FFFF,
            page_size <= 100,
    ;
    PageWindow { page, page_size, offset: (page as i64 - 1) * page_size as i64 }
}

/// Texts joined by ` AND `.
pub open spec fn join_and(texts: Seq<Seq<char>>) -> Seq<char>
    decreases texts.len(),
{
    if texts.len() == 0 {
        Seq::empty()
    } else if texts.len() == 1 {
        texts[0]
    } else {
        join_and(texts.drop_last()) + " AND "@ + texts.last()
    }
}


/// Consecutive pages tile the ordered results: page one starts at offset zero and
/// each following page starts exactly where the previous one ended.
pub proof fn pages_tile_the_results(page: u32, page_size: u32)
    requires
        1 <= page < u32::MAX,
    ensures
        (crate::provider::first_page(1) - 1) * crate::provider::clamp(page_size, 1, 100) == 0,
        (crate::provider::first_page((page + 1) as u32) - 1) * crate::provider::clamp(page_size, 1, 100)
            == (crate::provider::first_page(page) - 1) * crate::provider::clamp(page_size, 1, 100)
            + crate::provider::clamp(page_size, 1, 100),
{
    let c = crate::provider::clamp(page_size, 1, 100) as int;
    let p = page as int;
    assert(crate::provider::first_page(1) == 1);
    assert(0 * c == 0) by (nonlinear_arith);
    assert(p * c == (p - 1) * c + c) by (nonlinear_arith);
}

/// The WHERE expression of a filter.
pub fn where_clause(filter: &CatalogFilter) -> (s: String)
    ensures
        s@ == join_and(crate::provider::string_views(filter.predicates@)),
{
    let ghost v = crate::provider::string_views(filter.predicates@);
    let mut s = String::new();
    let mut i: usize = 0;
    while i < filter.predicates.len()
        invariant
            i <= filter.predicates.len(),
            v == crate::provider::string_views(filter.predicates@),
            s@ == join_and(v.take(i as int)),
        decreases filter.predicates.len() - i,
    {
        if i > 0 {
            s.append(" AND ");
        }
        s.append(filter.predicates[i].as_str());
        proof {
            assert(v.take(i + 1).drop_last() =~= v.take(i as int));
            if i == 0 {
                assert(join_and(v.take(0)) =~= Seq::<char>::empty());
                assert(s@ =~= v.take(1)[0]);
            }
        }
        i += 1;
    }
    assert(v.take(filter.predicates.len() as int) =~= v);
    s
}

/// The columns of a catalog row: the record fields, then the preferred file
/// copy's availability and storage kind, then the number of indexed copies.
pub open spec fn wallpaper_columns() -> Seq<char> {
    "SELECT id, provider, remote_id, name, source_page_url, original_url, thumbnail_url, thumbnail_local_path, local_path, width, height, aspect_ratio, file_size, mime_type, category, purity, hash, download_status, favorite, blacklisted, preset, created_at, synced_at, downloaded_at, last_used_at, COALESCE((SELECT state.availability FROM wallpaper_file_state AS state WHERE state.wallpaper_id = wallpaper.id ORDER BY CASE state.availability WHEN 'available' THEN 0 WHEN 'temporarily_unavailable' THEN 1 ELSE 2 END, state.id LIMIT 1), 'remote') AS file_availability, COALESCE((SELECT state.storage_kind FROM wallpaper_file_state AS state WHERE state.wallpaper_id = wallpaper.id ORDER BY CASE state.availability WHEN 'available' THEN 0 WHEN 'temporarily_unavailable' THEN 1 ELSE 2 END, state.id LIMIT 1), 'remote_metadata') AS storage_kind, (SELECT COUNT(*) FROM wallpaper_file_state AS state WHERE state.wallpaper_id = wallpaper.id) AS file_copy_count"@
}

/// The statements and parameters of one catalog page.
#[derive(Clone, Debug)]
pub struct CatalogPlan {
    pub count_sql: String,
    pub count_values: Vec<SqlValue>,
    pub page_sql: String,
    pub page_values: Vec<SqlValue>,
    pub window: PageWindow,
}

/// The rendered predicates of a list of clauses.
pub open spec fn rendered(cs: Seq<Clause>) -> Seq<Seq<char>> {
    Seq::new(cs.len(), |i: int| render_parts(cs[i].parts, clause_params(cs.take(i)).len() + 1))
}

/// The plan of a catalog query: a COUNT over the filter, and one ordered page
/// whose LIMIT and OFFSET take the two slots after the filter's parameters.
pub open spec fn plan_of(q: CatalogQuery, plan: CatalogPlan) -> bool {
    let cs = catalog_clauses(q);
    let w = join_and(rendered(cs));
    let n = clause_params(cs).len();
    &&& plan.window.page == crate::provider::first_page(q.page)
    &&& plan.window.page_size == crate::provider::clamp(q.page_size, 1, 100)
    &&& plan.window.offset == (plan.window.page - 1) * plan.window.page_size
    &&& plan.count_sql@ == "SELECT COUNT(*) FROM wallpaper WHERE "@ + w
    &&& params_of(plan.count_values@) == clause_params(cs)
    &&& plan.page_sql@ == wallpaper_columns() + " FROM wallpaper WHERE "@ + w + " ORDER BY "@
        + spec_order_clause(
        match q.sort {
            Some(s) => Some(s@),
            None => None,
        },
    ) + " LIMIT ?"@ + spec_decimal(n + 1) + " OFFSET ?"@ + spec_decimal(n + 2)
    &&& params_of(plan.page_values@) == clause_params(cs).push(
        SqlParam::Integer(plan.window.page_size as int),
    ).push(SqlParam::Integer(plan.window.offset as int))
}

/// Copies bound values.
fn copy_values(values: &Vec<SqlValue>) -> (r: Vec<SqlValue>)
    ensures
        params_of(r@) == params_of(values@),
{
    let mut r: Vec<SqlValue> = Vec::new();
    let mut i: usize = 0;
    while i < values.len()
        invariant
            i <= values.len(),
            params_of(r@) == params_of(values@.take(i as int)),
        decreases values.len() - i,
    {
        let v = match &values[i] {
            SqlValue::Integer(n) => SqlValue::Integer(*n),
            SqlValue::Text(t) => SqlValue::Text(t.clone()),
        };
        let ghost before = r@;
        r.push(v);
        assert(params_of(r@) =~= params_of(values@.take(i + 1))) by {
            assert(values@.take(i + 1).drop_last() =~= values@.take(i as int));
            assert(params_of(values@.take(i + 1)) =~= params_of(values@.take(i as int)).push(
                param_of(values@[i as int]),
            ));
            assert(params_of(r@) =~= params_of(before).push(param_of(v)));
        }
        i += 1;
    }
    assert(values@.take(values.len() as int) =~= values@);
    r
}

/// Plans one catalog page: parameterized filter, ordering and bounded paging.
pub fn plan_catalog_search(query: &CatalogQuery) -> (plan: CatalogPlan)
    requires
        query.tags@.len() < 0x0FFF_0000,
    ensures
        plan_of(*query, plan),
{
    let window = page_window(query.page, query.page_size);
    let filter = catalog_filter(query);
    let ghost cs = catalog_clauses(*query);
    proof {
        lemma_params_len(cs);
        assert(params_of(filter.values@).len() == filter.values@.len());
        assert(filter.values@.len() <= filter.predicates@.len());
        assert(crate::provider::string_views(filter.predicates@) =~= rendered(cs));
    }
    let w = where_clause(&filter);
    let mut count_sql = String::from_str("SELECT COUNT(*) FROM wallpaper WHERE ");
    count_sql.append(w.as_str());
    let n: u64 = filter.values.len() as u64;
    let order = match &query.sort {
        Some(s) => order_clause(Some(s.as_str())),
        None => order_clause(None),
    };
    let mut page_sql = String::from_str(
        "SELECT id, provider, remote_id, name, source_page_url, original_url, thumbnail_url, thumbnail_local_path, local_path, width, height, aspect_ratio, file_size, mime_type, category, purity, hash, download_status, favorite, blacklisted, preset, created_at, synced_at, downloaded_at, last_used_at, COALESCE((SELECT state.availability FROM wallpaper_file_state AS state WHERE state.wallpaper_id = wallpaper.id ORDER BY CASE state.availability WHEN 'available' THEN 0 WHEN 'temporarily_unavailable' THEN 1 ELSE 2 END, state.id LIMIT 1), 'remote') AS file_availability, COALESCE((SELECT state.storage_kind FROM wallpaper_file_state AS state WHERE state.wallpaper_id = wallpaper.id ORDER BY CASE state.availability WHEN 'available' THEN 0 WHEN 'temporarily_unavailable' THEN 1 ELSE 2 END, state.id LIMIT 1), 'remote_metadata') AS storage_kind, (SELECT COUNT(*) FROM wallpaper_file_state AS state WHERE state.wallpaper_id = wallpaper.id) AS file_copy_count",
    );
    page_sql.append(" FROM wallpaper WHERE ");
    page_sql.append(w.as_str());
    page_sql.append(" ORDER BY ");
    page_sql.append(order);
    page_sql.append(" LIMIT ?");
    page_sql.append(decimal(n + 1).as_str());
    page_sql.append(" OFFSET ?");
    page_sql.append(decimal(n + 2).as_str());
    let count_values = copy_values(&filter.values);
    let mut page_values = filter.values;
    let ghost before = page_values@;
    page_values.push(SqlValue::Integer(window.page_size as i64));
    page_values.push(SqlValue::Integer(window.offset));
    assert(params_of(page_values@) =~= params_of(before).push(
        SqlParam::Integer(window.page_size as int),
    ).push(SqlParam::Integer(window.offset as int)));
    CatalogPlan { count_sql, count_values, page_sql, page_values, window }
}

/// Converts the store's row count into the page total.
pub fn page_total(count: i64) -> (r: AppResult<u64>)
    ensures
        count >= 0 ==> r == Ok::<u64, AppError>(count as u64),
        count < 0 ==> (r matches Err(AppError::Database(m)) && m@ == "wallpaper count was negative"@),
{
    if count < 0 {
        Err(AppError::Database("wallpaper count was negative".to_string()))
    } else {
        Ok(count as u64)
    }
}

/// A later step of a query's clause list only appends, so a clause keeps its place.
proof fn lemma_extends(a: Seq<Clause>, b: Seq<Clause>, i: int)
    requires
        a.len() <= b.len(),
        b.take(a.len() as int) == a,
        0 <= i < a.len(),
    ensures
        b[i] == a[i],
{
    assert(b.take(a.len() as int)[i] == b[i]);
}

/// Whether `c` is one of the query's predicates.
pub open spec fn has_clause(q: CatalogQuery, c: Clause) -> bool {
    exists|i: int| 0 <= i < catalog_clauses(q).len() && catalog_clauses(q)[i] == c
}

/// Size bounds filter in their own direction: a positive maximum width or
/// height adds `<=` against its value, a positive minimum adds `>=`, each bound
/// to the value the query gave.
pub proof fn size_bounds_filter_in_their_direction(q: CatalogQuery)
    ensures
        q.max_width matches Some(w) ==> (w > 0 ==> has_clause(
            q,
            bound(seq!["wallpaper.width <= "@, ""@], SqlParam::Integer(w as int)),
        )),
        q.max_height matches Some(h) ==> (h > 0 ==> has_clause(
            q,
            bound(seq!["wallpaper.height <= "@, ""@], SqlParam::Integer(h as int)),
        )),
        q.min_width matches Some(w) ==> (w > 0 ==> has_clause(
            q,
            bound(seq!["wallpaper.width >= "@, ""@], SqlParam::Integer(w as int)),
        )),
        q.min_height matches Some(h) ==> (h > 0 ==> has_clause(
            q,
            bound(seq!["wallpaper.height >= "@, ""@], SqlParam::Integer(h as int)),
        )),
{
    let c11 = membership_clauses(
        file_filter_clauses(text_filter_clauses(base_clauses(q), q), q),
        q,
    );
    let c12 = dimension_clause(c11, q.min_width, "wallpaper.width >= "@);
    let c13 = dimension_clause(c12, q.min_height, "wallpaper.height >= "@);
    let c14 = dimension_clause(c13, q.max_width, "wallpaper.width <= "@);
    let c15 = dimension_clause(c14, q.max_height, "wallpaper.height <= "@);
    let c16 = push_if(
        c15,
        q.aspect_ratio is Some,
        bound(seq!["wallpaper.aspect_ratio = "@, ""@], SqlParam::Text(q.aspect_ratio->0@)),
    );
    let c17 = push_if(
        c16,
        q.mime_type is Some,
        bound(seq!["wallpaper.mime_type = "@, ""@], SqlParam::Text(q.mime_type->0@)),
    );
    let all = catalog_clauses(q);
    assert(c17 == format_filter_clauses(c11, q));
    assert(all == c17 + tag_clauses(q.tags@));
    assert(c12.take(c11.len() as int) =~= c11);
    assert(c13.take(c12.len() as int) =~= c12);
    assert(c14.take(c13.len() as int) =~= c13);
    assert(c15.take(c14.len() as int) =~= c14);
    assert(c16.take(c15.len() as int) =~= c15);
    assert(c17.take(c16.len() as int) =~= c16);
    assert(all.take(c17.len() as int) =~= c17);
    if q.max_width is Some && q.max_width->0 > 0 {
        let i = c13.len() as int;
        lemma_extends(c14, c15, i);
        lemma_extends(c15, c16, i);
        lemma_extends(c16, c17, i);
        lemma_extends(c17, all, i);
    }
    if q.max_height is Some && q.max_height->0 > 0 {
        let i = c14.len() as int;
        lemma_extends(c15, c16, i);
        lemma_extends(c16, c17, i);
        lemma_extends(c17, all, i);
    }
    if q.min_width is Some && q.min_width->0 > 0 {
        let i = c11.len() as int;
        lemma_extends(c12, c13, i);
        lemma_extends(c13, c14, i);
        lemma_extends(c14, c15, i);
        lemma_extends(c15, c16, i);
        lemma_extends(c16, c17, i);
        lemma_extends(c17, all, i);
    }
    if q.min_height is Some && q.min_height->0 > 0 {
        let i = c12.len() as int;
        lemma_extends(c13, c14, i);
        lemma_extends(c14, c15, i);
        lemma_extends(c15, c16, i);
        lemma_extends(c16, c17, i);
        lemma_extends(c17, all, i);
    }
}

} // verus!

