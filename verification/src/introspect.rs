//! The field introspector and the schema-compiler driver.
//!
//! Introspection renders each declared type to its compact text, checks
//! it against the library's type-expression grammar, unwraps a
//! single-level generic to its inner type, and derives the per-field
//! metadata (value kind, table participation, nullability).  A field
//! whose type fails the grammar is a fatal structural error for the
//! whole entity; a malformed attribute on one field merely defaults that
//! field's metadata.

use vstd::prelude::*;

use crate::decl::{
    has_marker,
    is_ident_char,
    len_until,
    markers_ok,
    scan_until,
    spec_table_attrs,
    struct_attrs,
    substring,
    EntityDecl,
    FieldDeclModel,
    TableAttrsModel,
};
use crate::schema::{assemble, field_models, group_names, schema_named, schema_wf, EntitySchema, FieldDescriptor, FieldModel};
use crate::text::{
    ascii_lower,
    has_prefix,
    replace_char,
    snake_case,
    spec_lower,
    spec_replace,
    spec_snake,
    spec_split,
    split_char,
    views_of,
};
use crate::value::ValueKind;

verus! {

/// A character the type grammar accepts: identifier characters and the
/// punctuation of paths, generics, references, tuples and slices.
pub open spec fn allowed_type_char(c: char) -> bool {
    is_ident_char(c) || c == '<' || c == '>' || c == ',' || c == ':' || c == '&' || c == '['
        || c == ']' || c == '(' || c == ')' || c == '\''
}

/// Whether the angle brackets of `s` balance, starting at depth `d`.
pub open spec fn angle_balance(s: Seq<char>, d: int) -> bool
    decreases s.len(),
{
    if s.len() == 0 {
        d == 0
    } else if s[0] == '<' {
        angle_balance(s.drop_first(), d + 1)
    } else if s[0] == '>' {
        d > 0 && angle_balance(s.drop_first(), d - 1)
    } else {
        angle_balance(s.drop_first(), d)
    }
}

/// The library's type-expression grammar: non-empty, every character
/// accepted, and angle brackets balanced.
pub open spec fn valid_type(s: Seq<char>) -> bool {
    &&& s.len() > 0
    &&& (forall|j: int| 0 <= j < s.len() ==> allowed_type_char(#[trigger] s[j]))
    &&& angle_balance(s, 0)
}

/// The single-level generic unwrap: for `Wrapper<Inner>` — something
/// before the first `<`, and a final `>` with at least one character
/// between — the inner text; nothing otherwise.
pub open spec fn generic_split(s: Seq<char>) -> Option<Seq<char>> {
    let k = len_until(s, '<');
    if k < s.len() && s.len() >= k + 3 && s[s.len() - 1] == '>' {
        Option::Some(s.subrange(k + 1, s.len() - 1))
    } else {
        Option::None
    }
}

/// The inner type of a rendered type text: the unwrapped inner text of a
/// single-level generic, or the text itself when it is not generic; in
/// both cases nothing unless the candidate passes the type grammar —
/// the fatal structural failure.
pub open spec fn spec_parse_inner(s: Seq<char>) -> Option<Seq<char>> {
    match generic_split(s) {
        Option::Some(inner) => if valid_type(inner) {
            Option::Some(inner)
        } else {
            Option::None
        },
        Option::None => if valid_type(s) {
            Option::Some(s)
        } else {
            Option::None
        },
    }
}

/// The compact rendering of a declared type: its text with every space
/// removed.
pub open spec fn spec_type_text(s: Seq<char>) -> Seq<char> {
    s.filter(|c: char| c != ' ')
}

/// The value kind used for typed row extraction, derived from the inner
/// type text; inner types outside the library's value model are
/// extracted as text.
pub open spec fn spec_kind_from(inner: Seq<char>) -> ValueKind {
    if inner == "i64"@ {
        ValueKind::Int
    } else if inner == "bool"@ {
        ValueKind::Flag
    } else if inner == "Vec<String>"@ {
        ValueKind::TextList
    } else {
        ValueKind::Text
    }
}

/// Whether the rendered type is the tri-state wrapper: it starts, after
/// ASCII case folding, with `null<`.
pub open spec fn spec_nullable(norm: Seq<char>) -> bool {
    "null<"@.is_prefix_of(spec_lower(norm))
}

/// What introspection makes of one declared field: its descriptor, or
/// nothing when the declared type fails the grammar.  The field is
/// attributed when it carries a marker of `group` and every such marker
/// is bare; a marker that carries arguments fails the field's extraction
/// and defaults it to unattributed.
pub open spec fn spec_descriptor(f: FieldDeclModel, group: Seq<char>) -> Option<FieldModel> {
    let norm = spec_type_text(f.ty);
    match spec_parse_inner(norm) {
        Option::None => Option::None,
        Option::Some(inner) => Option::Some(
            FieldModel {
                name: f.name,
                declared_ty: norm,
                inner_ty: inner,
                kind: spec_kind_from(inner),
                is_attributed: has_marker(f.attrs, group) && markers_ok(f.attrs, group),
                nullable: spec_nullable(norm),
            },
        ),
    }
}

/// A fatal structural failure: the named field's declared type cannot be
/// read as a type expression.
#[derive(Clone, PartialEq, Debug)]
pub struct StructuralError {
    pub field: String,
}

/// Removes every space: the compact rendering of a declared type.
pub fn type_text(s: &String) -> (r: String)
    ensures
        r@ == spec_type_text(s@),
{
    let n = s.as_str().unicode_len();
    let mut r = String::new();
    let mut i: usize = 0;
    while i < n
        invariant
            i <= n,
            n == s@.len(),
            r@ == spec_type_text(s@.take(i as int)),
        decreases n - i,
    {
        proof {
            reveal_with_fuel(Seq::<char>::filter, 2);
            assert(s@.take(i + 1).drop_last() =~= s@.take(i as int));
        }
        let c = s.as_str().get_char(i);
        if c != ' ' {
            let mut r2 = r;
            r2.append(s.as_str().substring_char(i, i + 1));
            r = r2;
            proof {
                assert(s@.subrange(i as int, i + 1) =~= seq![s@[i as int]]);
                assert(r@ =~= spec_type_text(s@.take(i + 1)));
            }
        } else {
            proof {
                assert(r@ =~= spec_type_text(s@.take(i + 1)));
            }
        }
        i = i + 1;
    }
    proof {
        assert(s@.take(n as int) =~= s@);
    }
    r
}

/// Checks the type grammar: every character accepted and angle brackets
/// balanced (emptiness is the caller's check).
fn grammar_ok(s: &String) -> (r: bool)
    ensures
        r == ((forall|j: int| 0 <= j < s@.len() ==> allowed_type_char(#[trigger] s@[j]))
            && angle_balance(s@, 0)),
{
    let n = s.as_str().unicode_len();
    let mut d: usize = 0;
    let mut i: usize = 0;
    proof {
        assert(s@.skip(0) =~= s@);
    }
    while i < n
        invariant
            i <= n,
            n == s@.len(),
            d <= i,
            angle_balance(s@, 0) == angle_balance(s@.skip(i as int), d as int),
            forall|j: int| 0 <= j < i ==> allowed_type_char(#[trigger] s@[j]),
        decreases n - i,
    {
        let c = s.as_str().get_char(i);
        let ok = ('a' <= c && c <= 'z') || ('A' <= c && c <= 'Z') || ('0' <= c && c <= '9') || c
            == '_' || c == '<' || c == '>' || c == ',' || c == ':' || c == '&' || c == '[' || c
            == ']' || c == '(' || c == ')' || c == '\'';
        if !ok {
            return false;
        }
        proof {
            assert(s@.skip(i as int)[0] == s@[i as int]);
            assert(s@.skip(i as int).drop_first() =~= s@.skip(i as int + 1));
        }
        if c == '<' {
            d = d + 1;
        } else if c == '>' {
            if d == 0 {
                proof {
                    assert(!angle_balance(s@.skip(i as int), 0));
                }
                return false;
            }
            d = d - 1;
        }
        i = i + 1;
    }
    proof {
        assert(s@.skip(n as int).len() == 0);
    }
    d == 0
}

/// Whether `s` passes the library's type-expression grammar.
pub fn valid_type_exec(s: &String) -> (r: bool)
    ensures
        r == valid_type(s@),
{
    if s.as_str().unicode_len() == 0 {
        return false;
    }
    grammar_ok(s)
}

/// Unwraps a rendered type text to its inner type: the text between the
/// first `<` and a final `>` for a single-level generic, the text itself
/// otherwise; nothing — the fatal structural failure — when the
/// candidate fails the type grammar.
pub fn parse_inner_type(ty: &String) -> (r: Option<String>)
    ensures
        match r {
            Option::Some(inner) => spec_parse_inner(ty@) == Option::Some(inner@),
            Option::None => spec_parse_inner(ty@) is None,
        },
{
    let n = ty.as_str().unicode_len();
    let k = scan_until(ty, 0, '<');
    proof {
        assert(ty@.skip(0) =~= ty@);
    }
    if k < n && n - k >= 3 && ty.as_str().get_char(n - 1) == '>' {
        let inner = substring(ty, k + 1, n - 1);
        if valid_type_exec(&inner) {
            Option::Some(inner)
        } else {
            Option::None
        }
    } else {
        if valid_type_exec(ty) {
            Option::Some(ty.clone())
        } else {
            Option::None
        }
    }
}

/// Introspects every declared field in order: each field's descriptor,
/// or the first fatal structural failure.  Success yields exactly one
/// descriptor per field, each as `spec_descriptor` states; failure means
/// some field's type fails the grammar.
pub fn introspect_fields(decl: &EntityDecl, group: &String) -> (r: Result<
    Vec<FieldDescriptor>,
    StructuralError,
>)
    ensures
        match r {
            Result::Ok(fs) => {
                &&& fs@.len() == decl@.fields.len()
                &&& (forall|i: int|
                    0 <= i < fs@.len() ==> spec_descriptor(decl@.fields[i], group@)
                        == Option::Some(#[trigger] field_models(fs@)[i]))
            },
            Result::Err(e) => exists|i: int|
                0 <= i < decl@.fields.len() && spec_descriptor(
                    #[trigger] decl@.fields[i],
                    group@,
                ) is None,
        },
{
    let ghost dm = decl@.fields;
    let n = decl.fields.len();
    let mut out: Vec<FieldDescriptor> = Vec::new();
    let mut i: usize = 0;
    while i < n
        invariant
            i <= n,
            n == decl.fields@.len(),
            dm == decl@.fields,
            out@.len() == i,
            forall|j: int|
                0 <= j < i ==> spec_descriptor(dm[j], group@) == Option::Some(
                    #[trigger] field_models(out@)[j],
                ),
        decreases n - i,
    {
        let f = &decl.fields[i];
        let norm = type_text(&f.ty);
        let inner = match parse_inner_type(&norm) {
            Option::Some(inner) => inner,
            Option::None => {
                proof {
                    assert(spec_descriptor(dm[i as int], group@) is None);
                }
                return Result::Err(StructuralError { field: f.name.clone() });
            },
        };
        let kind = kind_from(&inner);
        let marked = crate::decl::has_marker_exec(&f.attrs, group);
        let ok = crate::decl::markers_ok_exec(&f.attrs, group);
        let lowered = ascii_lower(&norm);
        let nullable = has_prefix(&lowered, "null<");
        let d = FieldDescriptor {
            name: f.name.clone(),
            declared_ty: norm,
            inner_ty: inner,
            kind,
            is_attributed: marked && ok,
            nullable,
        };
        let ghost dv = d@;
        let ghost prev = out@;
        out.push(d);
        proof {
            assert(dm[i as int] == decl.fields@[i as int]@);
            assert(field_models(out@)[i as int] == dv);
            assert(spec_descriptor(dm[i as int], group@) == Option::Some(dv)) by {
                assert(spec_descriptor(dm[i as int], group@)->Some_0 =~~= dv);
            }
            assert forall|j: int| 0 <= j < i implies spec_descriptor(dm[j], group@)
                == Option::Some(field_models(out@)[j]) by {
                assert(out@[j] == prev[j]);
                assert(field_models(out@)[j] == field_models(prev)[j]);
            }
        }
        i = i + 1;
    }
    Result::Ok(out)
}

/// The value kind of an inner type text.
fn kind_from(inner: &String) -> (k: ValueKind)
    ensures
        k == spec_kind_from(inner@),
{
    let int_name = String::from_str("i64");
    let flag_name = String::from_str("bool");
    let list_name = String::from_str("Vec<String>");
    if *inner == int_name {
        ValueKind::Int
    } else if *inner == flag_name {
        ValueKind::Flag
    } else if *inner == list_name {
        ValueKind::TextList
    } else {
        ValueKind::Text
    }
}

/// The declared alias names: the alias value with spaces removed and
/// commas turned to semicolons, folded to ASCII lower case, split at
/// semicolons.
pub open spec fn spec_alias_list(s: Seq<char>) -> Seq<Seq<char>> {
    spec_split(spec_lower(spec_replace(s.filter(|c: char| c != ' '), ',', ';')), ';')
}

/// The alias names a table annotation declares: none without an alias
/// value.
pub open spec fn spec_alias_names(t: TableAttrsModel) -> Seq<Seq<char>> {
    match t.alias {
        Option::Some(a) => spec_alias_list(a),
        Option::None => Seq::<Seq<char>>::empty(),
    }
}

/// The table a declaration resolves to, before case conversion: the
/// declared rename, or the entity's own name.
pub open spec fn spec_table_base(t: TableAttrsModel, entity: Seq<char>) -> Seq<char> {
    match t.rename {
        Option::Some(r) => r,
        Option::None => entity,
    }
}

/// Splits a declared alias value into alias names.
pub fn alias_list(a: &String) -> (r: Vec<String>)
    ensures
        views_of(r@) == spec_alias_list(a@),
{
    let stripped = type_text(a);
    let replaced = replace_char(&stripped, ',', ';');
    let lowered = ascii_lower(&replaced);
    split_char(&lowered, ';')
}

/// Compiles an entity declaration: introspects the fields once, resolves
/// the table name and alias list from the table annotation, and
/// assembles the naming projections and alias groups.  The one fatal
/// failure is a field whose declared type fails the type grammar.
pub fn compile(decl: &EntityDecl, group: &String) -> (r: Result<EntitySchema, StructuralError>)
    ensures
        match r {
            Result::Ok(s) => {
                &&& schema_wf(s)
                &&& schema_named(s)
                &&& s.entity_name@ == decl@.name
                &&& s.table_name@ == spec_snake(
                    spec_table_base(spec_table_attrs(decl@.attrs), decl@.name),
                )
                &&& group_names(s.groups@) == spec_alias_names(spec_table_attrs(decl@.attrs))
                &&& s.fields@.len() == decl@.fields.len()
                &&& (forall|i: int|
                    0 <= i < s.fields@.len() ==> spec_descriptor(decl@.fields[i], group@)
                        == Option::Some(#[trigger] field_models(s.fields@)[i]))
            },
            Result::Err(_) => exists|i: int|
                0 <= i < decl@.fields.len() && spec_descriptor(
                    #[trigger] decl@.fields[i],
                    group@,
                ) is None,
        },
{
    let ta = struct_attrs(decl);
    let base_name = match ta.rename {
        Option::Some(r) => r,
        Option::None => decl.name.clone(),
    };
    let table_name = snake_case(&base_name);
    let aliases = match ta.alias {
        Option::Some(a) => alias_list(&a),
        Option::None => Vec::new(),
    };
    let fields = match introspect_fields(decl, group) {
        Result::Ok(fs) => fs,
        Result::Err(e) => {
            return Result::Err(e);
        },
    };
    let s = assemble(decl.name.clone(), table_name, fields, aliases);
    proof {
        if (spec_table_attrs(views_of(decl.attrs@)).alias) is None {
            assert(group_names(s.groups@) =~~= spec_alias_names(spec_table_attrs(decl@.attrs)));
        }
    }
    Result::Ok(s)
}

} // verus!
