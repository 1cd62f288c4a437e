//! The four parallel column-naming projections, and the alias-scoped
//! select expressions used under join aliases.
//!
//! For a table `t` and a field whose plain column name is `p`:
//! `plain = p`, `tabled = "t.p"`, `renamed = "t_p"`, and
//! `aliased = "t.p AS t_p"`.  Under a join alias `a` the disambiguating
//! prefix changes: the select expression becomes `"t.p AS a_p"` and rows
//! of that join are keyed by `"a_p"`.

use vstd::prelude::*;

use crate::text::{cat, cat_lit, join, spec_join, views_of};

verus! {

/// `"{table}.{plain}"`: the table-qualified column form.
pub open spec fn tabled_model(table: Seq<char>, plain: Seq<char>) -> Seq<char> {
    table + "."@ + plain
}

/// `"{prefix}_{plain}"`: the disambiguated column name; `prefix` is the
/// table name in the base projection and the alias name under an alias.
pub open spec fn renamed_model(prefix: Seq<char>, plain: Seq<char>) -> Seq<char> {
    prefix + "_"@ + plain
}

/// `"{table}.{plain} AS {prefix}_{plain}"`: the select-list expression.
pub open spec fn aliased_model(table: Seq<char>, prefix: Seq<char>, plain: Seq<char>) -> Seq<
    char,
> {
    tabled_model(table, plain) + " AS "@ + renamed_model(prefix, plain)
}

/// The separator between column entries in an "all columns" string.
pub open spec fn sep_model() -> Seq<char> {
    ", "@
}

/// One projection group: the four parallel naming tables over the
/// attributed fields of one entity, each with its precomputed
/// "all columns" string, in field-declaration order.
pub struct Projection {
    pub plain: Vec<String>,
    pub tabled: Vec<String>,
    pub renamed: Vec<String>,
    pub aliased: Vec<String>,
    pub plain_all: String,
    pub tabled_all: String,
    pub renamed_all: String,
    pub aliased_all: String,
}

/// What a projection built for `table` with disambiguating `prefix` over
/// the plain column names `plains` holds.
pub open spec fn projection_wf(
    p: Projection,
    table: Seq<char>,
    prefix: Seq<char>,
    plains: Seq<Seq<char>>,
) -> bool {
    &&& views_of(p.plain@) == plains
    &&& p.tabled@.len() == plains.len()
    &&& (forall|i: int|
        0 <= i < plains.len() ==> (#[trigger] p.tabled@[i])@ == tabled_model(table, plains[i]))
    &&& p.renamed@.len() == plains.len()
    &&& (forall|i: int|
        0 <= i < plains.len() ==> (#[trigger] p.renamed@[i])@ == renamed_model(prefix, plains[i]))
    &&& p.aliased@.len() == plains.len()
    &&& (forall|i: int|
        0 <= i < plains.len() ==> (#[trigger] p.aliased@[i])@ == aliased_model(
            table,
            prefix,
            plains[i],
        ))
    &&& p.plain_all@ == spec_join(plains, sep_model())
    &&& p.tabled_all@ == spec_join(views_of(p.tabled@), sep_model())
    &&& p.renamed_all@ == spec_join(views_of(p.renamed@), sep_model())
    &&& p.aliased_all@ == spec_join(views_of(p.aliased@), sep_model())
}

/// Builds the projection for `table` over `plains`, with `prefix` as the
/// disambiguating name (the table name itself for the base projection, an
/// alias name for an alias-scoped one).
pub fn build_projection(table: &String, prefix: &String, plains: &Vec<String>) -> (p: Projection)
    ensures
        projection_wf(p, table@, prefix@, views_of(plains@)),
{
    let mut tabled: Vec<String> = Vec::new();
    let mut renamed: Vec<String> = Vec::new();
    let mut aliased: Vec<String> = Vec::new();
    let mut plain: Vec<String> = Vec::new();
    let mut i: usize = 0;
    while i < plains.len()
        invariant
            i <= plains.len(),
            plain@.len() == i,
            tabled@.len() == i,
            renamed@.len() == i,
            aliased@.len() == i,
            forall|j: int| 0 <= j < i ==> (#[trigger] plain@[j])@ == (plains@[j])@,
            forall|j: int|
                0 <= j < i ==> (#[trigger] tabled@[j])@ == tabled_model(table@, (plains@[j])@),
            forall|j: int|
                0 <= j < i ==> (#[trigger] renamed@[j])@ == renamed_model(prefix@, (plains@[j])@),
            forall|j: int|
                0 <= j < i ==> (#[trigger] aliased@[j])@ == aliased_model(
                    table@,
                    prefix@,
                    (plains@[j])@,
                ),
        decreases plains.len() - i,
    {
        let p = &plains[i];
        let t = cat(&cat_lit(table, "."), p);
        let r = cat(&cat_lit(prefix, "_"), p);
        let a = cat(&cat_lit(&t, " AS "), &r);
        plain.push(p.clone());
        tabled.push(t);
        renamed.push(r);
        aliased.push(a);
        i = i + 1;
    }
    let plain_all = join(&plain, ", ");
    let tabled_all = join(&tabled, ", ");
    let renamed_all = join(&renamed, ", ");
    let aliased_all = join(&aliased, ", ");
    let p = Projection { plain, tabled, renamed, aliased, plain_all, tabled_all, renamed_all, aliased_all };
    proof {
        assert(views_of(p.plain@) =~~= views_of(plains@));
    }
    p
}

} // verus!
