//! The entity declaration as the introspector consumes it: ordered named
//! fields with declared types, and textual attribute annotations.
//!
//! An annotation is either a bare marker (`column`) or a name with a
//! parenthesized argument list (`table(rename = "users", alias =
//! "owner")`).  The argument grammar is `key = "value"` pairs separated
//! by commas, with spaces allowed around the tokens; keys are
//! identifiers and values are quote-delimited and may hold anything but
//! a quote.

use vstd::prelude::*;

use crate::text::views_of;

verus! {

/// One declared field: identifier, declared type text, and its attribute
/// annotations.
#[derive(Clone, PartialEq, Debug)]
pub struct FieldDecl {
    pub name: String,
    pub ty: String,
    pub attrs: Vec<String>,
}

/// Spec-level model of a field declaration.
#[verifier::ext_equal]
pub struct FieldDeclModel {
    pub name: Seq<char>,
    pub ty: Seq<char>,
    pub attrs: Seq<Seq<char>>,
}

impl View for FieldDecl {
    type V = FieldDeclModel;

    open spec fn view(&self) -> FieldDeclModel {
        FieldDeclModel { name: self.name@, ty: self.ty@, attrs: views_of(self.attrs@) }
    }
}

/// One entity declaration: its name, its own annotations, and its
/// ordered fields.
#[derive(Clone, PartialEq, Debug)]
pub struct EntityDecl {
    pub name: String,
    pub attrs: Vec<String>,
    pub fields: Vec<FieldDecl>,
}

/// Spec-level model of an entity declaration.
#[verifier::ext_equal]
pub struct EntityDeclModel {
    pub name: Seq<char>,
    pub attrs: Seq<Seq<char>>,
    pub fields: Seq<FieldDeclModel>,
}

impl View for EntityDecl {
    type V = EntityDeclModel;

    open spec fn view(&self) -> EntityDeclModel {
        EntityDeclModel {
            name: self.name@,
            attrs: views_of(self.attrs@),
            fields: self.fields@.map_values(|f: FieldDecl| f@),
        }
    }
}

/// An identifier character: ASCII letters, digits, and the underscore.
pub open spec fn is_ident_char(c: char) -> bool {
    ('a' <= c && c <= 'z') || ('A' <= c && c <= 'Z') || ('0' <= c && c <= '9') || c == '_'
}

/// The length of the longest prefix of `s` that avoids `stop`.
pub open spec fn len_until(s: Seq<char>, stop: char) -> int
    decreases s.len(),
{
    if s.len() > 0 && s[0] != stop {
        1 + len_until(s.drop_first(), stop)
    } else {
        0
    }
}

/// The length of the longest identifier prefix of `s`.
pub open spec fn ident_len(s: Seq<char>) -> int
    decreases s.len(),
{
    if s.len() > 0 && is_ident_char(s[0]) {
        1 + ident_len(s.drop_first())
    } else {
        0
    }
}

/// `s` without its leading spaces.
pub open spec fn sp_skip(s: Seq<char>) -> Seq<char>
    decreases s.len(),
{
    if s.len() > 0 && s[0] == ' ' {
        sp_skip(s.drop_first())
    } else {
        s
    }
}

/// An annotation's name: its text up to the first opening parenthesis.
pub open spec fn attr_name(s: Seq<char>) -> Seq<char> {
    s.take(len_until(s, '('))
}

pub proof fn lemma_len_until_bounds(s: Seq<char>, stop: char)
    ensures
        0 <= len_until(s, stop) <= s.len(),
        len_until(s, stop) < s.len() ==> s[len_until(s, stop)] == stop,
        forall|j: int| 0 <= j < len_until(s, stop) ==> s[j] != stop,
    decreases s.len(),
{
    if s.len() > 0 && s[0] != stop {
        lemma_len_until_bounds(s.drop_first(), stop);
        assert forall|j: int| 0 <= j < len_until(s, stop) implies s[j] != stop by {
            if j > 0 {
                assert(s.drop_first()[j - 1] == s[j]);
            }
        }
    }
}

pub proof fn lemma_ident_len_bounds(s: Seq<char>)
    ensures
        0 <= ident_len(s) <= s.len(),
        ident_len(s) < s.len() ==> !is_ident_char(s[ident_len(s)]),
        forall|j: int| 0 <= j < ident_len(s) ==> is_ident_char(s[j]),
    decreases s.len(),
{
    if s.len() > 0 && is_ident_char(s[0]) {
        lemma_ident_len_bounds(s.drop_first());
        assert forall|j: int| 0 <= j < ident_len(s) implies is_ident_char(s[j]) by {
            if j > 0 {
                assert(s.drop_first()[j - 1] == s[j]);
            }
        }
    }
}

pub proof fn lemma_sp_skip_len(s: Seq<char>)
    ensures
        sp_skip(s).len() <= s.len(),
    decreases s.len(),
{
    if s.len() > 0 && s[0] == ' ' {
        lemma_sp_skip_len(s.drop_first());
    }
}

/// Skips spaces: the first position at or after `pos` holding something
/// other than a space.
pub fn skip_spaces(s: &String, pos: usize) -> (r: usize)
    requires
        pos <= s@.len(),
    ensures
        pos <= r <= s@.len(),
        s@.skip(r as int) == sp_skip(s@.skip(pos as int)),
    decreases s@.len() - pos,
{
    let n = s.as_str().unicode_len();
    if pos < n && s.as_str().get_char(pos) == ' ' {
        proof {
            assert(s@.skip(pos as int).drop_first() =~= s@.skip(pos as int + 1));
        }
        skip_spaces(s, pos + 1)
    } else {
        proof {
            if pos == n {
                assert(s@.skip(pos as int).len() == 0);
            }
        }
        pos
    }
}

/// Scans an identifier: the first position at or after `pos` holding a
/// non-identifier character.
pub fn scan_ident(s: &String, pos: usize) -> (r: usize)
    requires
        pos <= s@.len(),
    ensures
        pos <= r <= s@.len(),
        r - pos == ident_len(s@.skip(pos as int)),
    decreases s@.len() - pos,
{
    let n = s.as_str().unicode_len();
    if pos < n {
        let c = s.as_str().get_char(pos);
        let ic = ('a' <= c && c <= 'z') || ('A' <= c && c <= 'Z') || ('0' <= c && c <= '9') || c
            == '_';
        if ic {
            proof {
                assert(s@.skip(pos as int).drop_first() =~= s@.skip(pos as int + 1));
            }
            return scan_ident(s, pos + 1);
        }
    }
    pos
}

/// Scans up to the next occurrence of `stop`: the first position at or
/// after `pos` holding it, or the end.
pub fn scan_until(s: &String, pos: usize, stop: char) -> (r: usize)
    requires
        pos <= s@.len(),
    ensures
        pos <= r <= s@.len(),
        r - pos == len_until(s@.skip(pos as int), stop),
    decreases s@.len() - pos,
{
    let n = s.as_str().unicode_len();
    if pos < n {
        let c = s.as_str().get_char(pos);
        if c != stop {
            proof {
                assert(s@.skip(pos as int).drop_first() =~= s@.skip(pos as int + 1));
            }
            return scan_until(s, pos + 1, stop);
        }
    }
    pos
}

/// One parsed `key = "value"` pair, and what follows it (leading spaces
/// skipped): nothing when the text at hand does not start with one.
pub open spec fn spec_parse_pair(s: Seq<char>) -> Option<((Seq<char>, Seq<char>), Seq<char>)> {
    let s1 = sp_skip(s);
    let n = ident_len(s1);
    if n == 0 {
        Option::None
    } else {
        let key = s1.take(n);
        let s2 = sp_skip(s1.skip(n));
        if s2.len() == 0 || s2[0] != '=' {
            Option::None
        } else {
            let s3 = sp_skip(s2.drop_first());
            if s3.len() == 0 || s3[0] != '"' {
                Option::None
            } else {
                let body = s3.drop_first();
                let m = len_until(body, '"');
                if m == body.len() {
                    Option::None
                } else {
                    let value = body.take(m);
                    let s4 = sp_skip(body.skip(m + 1));
                    Option::Some(((key, value), s4))
                }
            }
        }
    }
}

/// A parsed pair consumes at least one character.
pub proof fn lemma_pair_consumes(s: Seq<char>)
    requires
        spec_parse_pair(s) is Some,
    ensures
        spec_parse_pair(s)->Some_0.1.len() < s.len(),
{
    let s1 = sp_skip(s);
    let n = ident_len(s1);
    lemma_sp_skip_len(s);
    lemma_ident_len_bounds(s1);
    let s2 = sp_skip(s1.skip(n));
    lemma_sp_skip_len(s1.skip(n));
    let s3 = sp_skip(s2.drop_first());
    lemma_sp_skip_len(s2.drop_first());
    let body = s3.drop_first();
    let m = len_until(body, '"');
    lemma_len_until_bounds(body, '"');
    lemma_sp_skip_len(body.skip(m + 1));
}

/// The full argument text as `key = "value"` pairs separated by commas:
/// nothing when the text is not exactly such a list.  An empty text is
/// the empty list.
pub open spec fn spec_parse_pairs(s: Seq<char>) -> Option<Seq<(Seq<char>, Seq<char>)>>
    decreases s.len(),
{
    if s.len() == 0 {
        Option::Some(Seq::<(Seq<char>, Seq<char>)>::empty())
    } else {
        match spec_parse_pair(s) {
            Option::None => Option::None,
            Option::Some((kv, rest)) => if rest.len() < s.len() {
                if rest.len() == 0 {
                    Option::Some(seq![kv])
                } else if rest[0] == ',' {
                    match spec_parse_pairs(rest.drop_first()) {
                        Option::None => Option::None,
                        Option::Some(t) => Option::Some(seq![kv] + t),
                    }
                } else {
                    Option::None
                }
            } else {
                Option::None
            },
        }
    }
}

/// The views of a parsed pair list.
pub open spec fn pairs_views(v: Seq<(String, String)>) -> Seq<(Seq<char>, Seq<char>)> {
    v.map_values(|p: (String, String)| (p.0@, p.1@))
}

/// Parses one `key = "value"` pair starting at `pos`, returning the key,
/// the value, and the position after the pair and any trailing spaces.
pub fn parse_pair(s: &String, pos: usize) -> (r: Option<(String, String, usize)>)
    requires
        pos <= s@.len(),
    ensures
        match r {
            Option::Some(kvp) => {
                &&& pos < kvp.2 <= s@.len()
                &&& spec_parse_pair(s@.skip(pos as int)) == Option::Some(
                    ((kvp.0@, kvp.1@), s@.skip(kvp.2 as int)),
                )
            },
            Option::None => spec_parse_pair(s@.skip(pos as int)) is None,
        },
{
    let ghost whole = s@.skip(pos as int);
    let n_total = s.as_str().unicode_len();
    let p1 = skip_spaces(s, pos);
    let r1 = scan_ident(s, p1);
    proof {
        assert(s@.skip(p1 as int) == sp_skip(whole));
        assert(ident_len(sp_skip(whole)) == r1 - p1);
    }
    if r1 == p1 {
        return Option::None;
    }
    let key = substring(s, p1, r1);
    proof {
        assert(key@ =~= sp_skip(whole).take(ident_len(sp_skip(whole))));
        assert(s@.skip(p1 as int).skip((r1 - p1) as int) =~= s@.skip(r1 as int));
    }
    let p2 = skip_spaces(s, r1);
    proof {
        assert(s@.skip(p2 as int) == sp_skip(sp_skip(whole).skip(ident_len(sp_skip(whole)))));
    }
    if p2 == n_total {
        return Option::None;
    }
    if s.as_str().get_char(p2) != '=' {
        return Option::None;
    }
    proof {
        assert(s@.skip(p2 as int).drop_first() =~= s@.skip(p2 as int + 1));
    }
    let p3 = skip_spaces(s, p2 + 1);
    if p3 == n_total {
        return Option::None;
    }
    if s.as_str().get_char(p3) != '"' {
        return Option::None;
    }
    proof {
        assert(s@.skip(p3 as int).drop_first() =~= s@.skip(p3 as int + 1));
    }
    let q = scan_until(s, p3 + 1, '"');
    proof {
        lemma_len_until_bounds(s@.skip(p3 as int + 1), '"');
    }
    if q == n_total {
        return Option::None;
    }
    let value = substring(s, p3 + 1, q);
    proof {
        assert(value@ =~= s@.skip(p3 as int + 1).take((q - p3 - 1) as int));
        assert(s@.skip(p3 as int + 1).skip((q - p3 - 1) + 1) =~= s@.skip(q as int + 1));
    }
    let p4 = skip_spaces(s, q + 1);
    Option::Some((key, value, p4))
}

/// Parses the whole argument text from `pos` to the end as a pair list.
pub fn parse_pairs(s: &String, pos: usize) -> (r: Option<Vec<(String, String)>>)
    requires
        pos <= s@.len(),
    ensures
        match r {
            Option::Some(v) => spec_parse_pairs(s@.skip(pos as int)) == Option::Some(
                pairs_views(v@),
            ),
            Option::None => spec_parse_pairs(s@.skip(pos as int)) is None,
        },
    decreases s@.len() - pos,
{
    let n_total = s.as_str().unicode_len();
    if pos == n_total {
        let r: Vec<(String, String)> = Vec::new();
        proof {
            assert(s@.skip(pos as int).len() == 0);
            assert(pairs_views(r@) =~~= Seq::<(Seq<char>, Seq<char>)>::empty());
        }
        return Option::Some(r);
    }
    match parse_pair(s, pos) {
        Option::None => Option::None,
        Option::Some((k, v, np)) => {
            if np == n_total {
                let mut r: Vec<(String, String)> = Vec::new();
                let ghost kk = k@;
                let ghost vv = v@;
                r.push((k, v));
                proof {
                    assert(s@.skip(np as int).len() == 0);
                    assert(pairs_views(r@) =~~= seq![(kk, vv)]);
                }
                Option::Some(r)
            } else if s.as_str().get_char(np) == ',' {
                proof {
                    assert(s@.skip(np as int).drop_first() =~= s@.skip(np as int + 1));
                }
                match parse_pairs(s, np + 1) {
                    Option::None => Option::None,
                    Option::Some(t) => {
                        let mut t = t;
                        let ghost kk = k@;
                        let ghost vv = v@;
                        let ghost told = t@;
                        t.insert(0, (k, v));
                        proof {
                            assert(pairs_views(t@) =~~= seq![(kk, vv)] + pairs_views(told));
                        }
                        Option::Some(t)
                    },
                }
            } else {
                Option::None
            }
        },
    }
}

/// The first annotation named `g`, if any.
pub open spec fn first_group_attr(attrs: Seq<Seq<char>>, g: Seq<char>) -> Option<Seq<char>>
    decreases attrs.len(),
{
    if attrs.len() == 0 {
        Option::None
    } else if attr_name(attrs[0]) == g {
        Option::Some(attrs[0])
    } else {
        first_group_attr(attrs.drop_first(), g)
    }
}

/// An annotation's argument text: empty for a bare marker, the text
/// between the first opening parenthesis and a final closing one
/// otherwise; a dangling parenthesis is malformed.
pub open spec fn attr_args(a: Seq<char>) -> Option<Seq<char>> {
    let k = len_until(a, '(');
    if k == a.len() {
        Option::Some(Seq::<char>::empty())
    } else if a.len() >= k + 2 && a[a.len() - 1] == ')' {
        Option::Some(a.subrange(k + 1, a.len() - 1))
    } else {
        Option::None
    }
}

/// The value of the first pair keyed `key`, if any.
pub open spec fn kv_value(pairs: Seq<(Seq<char>, Seq<char>)>, key: Seq<char>) -> Option<Seq<char>>
    decreases pairs.len(),
{
    if pairs.len() == 0 {
        Option::None
    } else if pairs[0].0 == key {
        Option::Some(pairs[0].1)
    } else {
        kv_value(pairs.drop_first(), key)
    }
}

/// A table-annotation argument list is acceptable when every key is
/// `rename` or `alias` and no key repeats.
pub open spec fn kvs_ok(pairs: Seq<(Seq<char>, Seq<char>)>) -> bool {
    &&& (forall|i: int|
        0 <= i < pairs.len() ==> ((#[trigger] pairs[i]).0 == "rename"@ || pairs[i].0 == "alias"@))
    &&& (forall|i: int, j: int|
        0 <= i < j < pairs.len() ==> (#[trigger] pairs[i]).0 != (#[trigger] pairs[j]).0)
}

/// Spec-level model of the table annotation's extracted values.
#[verifier::ext_equal]
pub struct TableAttrsModel {
    pub rename: Option<Seq<char>>,
    pub alias: Option<Seq<char>>,
}

/// What extracting the table annotation yields: the `rename` and `alias`
/// values of the first `table` annotation, both absent when there is no
/// such annotation or when it is malformed in any way.
pub open spec fn spec_table_attrs(attrs: Seq<Seq<char>>) -> TableAttrsModel {
    match first_group_attr(attrs, "table"@) {
        Option::None => TableAttrsModel { rename: Option::None, alias: Option::None },
        Option::Some(a) => match attr_args(a) {
            Option::None => TableAttrsModel { rename: Option::None, alias: Option::None },
            Option::Some(args) => match spec_parse_pairs(args) {
                Option::None => TableAttrsModel { rename: Option::None, alias: Option::None },
                Option::Some(pairs) => if kvs_ok(pairs) {
                    TableAttrsModel {
                        rename: kv_value(pairs, "rename"@),
                        alias: kv_value(pairs, "alias"@),
                    }
                } else {
                    TableAttrsModel { rename: Option::None, alias: Option::None }
                },
            },
        },
    }
}

/// The table annotation's extracted values: the declared rename and the
/// declared alias list, each absent when not given (or when the
/// annotation is malformed, which defaults the whole extraction).
pub struct TableAttrs {
    pub rename: Option<String>,
    pub alias: Option<String>,
}

impl View for TableAttrs {
    type V = TableAttrsModel;

    open spec fn view(&self) -> TableAttrsModel {
        TableAttrsModel {
            rename: match &self.rename {
                Option::Some(s) => Option::Some(s@),
                Option::None => Option::None,
            },
            alias: match &self.alias {
                Option::Some(s) => Option::Some(s@),
                Option::None => Option::None,
            },
        }
    }
}

/// A group scan that passed `i` annotations named otherwise continues in
/// the remainder.
proof fn lemma_group_skip(attrs: Seq<Seq<char>>, g: Seq<char>, i: int)
    requires
        0 <= i <= attrs.len(),
        forall|j: int| 0 <= j < i ==> attr_name(#[trigger] attrs[j]) != g,
    ensures
        first_group_attr(attrs, g) == first_group_attr(attrs.skip(i), g),
    decreases i,
{
    if i > 0 {
        assert(attrs.drop_first().skip(i - 1) =~= attrs.skip(i));
        lemma_group_skip(attrs.drop_first(), g, i - 1);
    } else {
        assert(attrs.skip(0) =~= attrs);
    }
}

/// A key scan that passed `i` pairs keyed otherwise continues in the
/// remainder.
proof fn lemma_kv_skip(pairs: Seq<(Seq<char>, Seq<char>)>, key: Seq<char>, i: int)
    requires
        0 <= i <= pairs.len(),
        forall|j: int| 0 <= j < i ==> (#[trigger] pairs[j]).0 != key,
    ensures
        kv_value(pairs, key) == kv_value(pairs.skip(i), key),
    decreases i,
{
    if i > 0 {
        assert(pairs.drop_first().skip(i - 1) =~= pairs.skip(i));
        lemma_kv_skip(pairs.drop_first(), key, i - 1);
    } else {
        assert(pairs.skip(0) =~= pairs);
    }
}

/// The value of the first parsed pair keyed `key`, if any.
fn kv_lookup(pairs: &Vec<(String, String)>, key: &String) -> (r: Option<String>)
    ensures
        match r {
            Option::Some(v) => kv_value(pairs_views(pairs@), key@) == Option::Some(v@),
            Option::None => kv_value(pairs_views(pairs@), key@) is None,
        },
{
    let ghost pv = pairs_views(pairs@);
    let n = pairs.len();
    let mut i: usize = 0;
    while i < n
        invariant
            i <= n,
            n == pairs@.len(),
            pv == pairs_views(pairs@),
            forall|j: int| 0 <= j < i ==> (#[trigger] pv[j]).0 != key@,
        decreases n - i,
    {
        if pairs[i].0 == *key {
            proof {
                lemma_kv_skip(pv, key@, i as int);
                assert(pv.skip(i as int)[0] == pv[i as int]);
            }
            return Option::Some(pairs[i].1.clone());
        }
        i = i + 1;
    }
    proof {
        lemma_kv_skip(pv, key@, n as int);
        assert(pv.skip(n as int) =~= Seq::<(Seq<char>, Seq<char>)>::empty());
    }
    Option::None
}

/// Whether every key of the parsed list is `rename` or `alias`, no key
/// repeating.
fn kvs_check(pairs: &Vec<(String, String)>) -> (r: bool)
    ensures
        r == kvs_ok(pairs_views(pairs@)),
{
    let ghost pv = pairs_views(pairs@);
    let mut rename_key: String = String::new();
    rename_key.append("rename");
    let mut alias_key: String = String::new();
    alias_key.append("alias");
    proof {
        assert(Seq::<char>::empty() + "rename"@ =~= "rename"@);
        assert(Seq::<char>::empty() + "alias"@ =~= "alias"@);
    }
    let n = pairs.len();
    let mut i: usize = 0;
    while i < n
        invariant
            i <= n,
            n == pairs@.len(),
            pv == pairs_views(pairs@),
            rename_key@ == "rename"@,
            alias_key@ == "alias"@,
            forall|j: int|
                0 <= j < i ==> ((#[trigger] pv[j]).0 == "rename"@ || pv[j].0 == "alias"@),
            forall|j: int, l: int| 0 <= j < l < i ==> (#[trigger] pv[j]).0 != (#[trigger] pv[l]).0,
        decreases n - i,
    {
        if !(pairs[i].0 == rename_key) && !(pairs[i].0 == alias_key) {
            proof {
                assert(pv[i as int].0 == (pairs@[i as int].0)@);
                assert(!kvs_ok(pv));
            }
            return false;
        }
        let mut j: usize = 0;
        while j < i
            invariant
                j <= i < n,
                n == pairs@.len(),
                pv == pairs_views(pairs@),
                forall|l: int| 0 <= l < j ==> (#[trigger] pv[l]).0 != pv[i as int].0,
            decreases i - j,
        {
            if pairs[j].0 == pairs[i].0 {
                proof {
                    assert(pv[j as int].0 == (pairs@[j as int].0)@);
                    assert(pv[i as int].0 == (pairs@[i as int].0)@);
                    assert(!kvs_ok(pv));
                }
                return false;
            }
            j = j + 1;
        }
        i = i + 1;
    }
    true
}

/// Extracts the table annotation's values from the entity's own
/// annotations: the declared rename and alias list of the first `table`
/// annotation, with the whole extraction defaulting to absent values
/// when the annotation is missing or malformed.
pub fn struct_attrs(decl: &EntityDecl) -> (t: TableAttrs)
    ensures
        t@ == spec_table_attrs(views_of(decl.attrs@)),
{
    let ghost av = views_of(decl.attrs@);
    let mut table_key: String = String::new();
    table_key.append("table");
    proof {
        assert(Seq::<char>::empty() + "table"@ =~= "table"@);
    }
    let none = TableAttrs { rename: Option::None, alias: Option::None };
    let n = decl.attrs.len();
    let mut i: usize = 0;
    while i < n
        invariant
            i <= n,
            n == decl.attrs@.len(),
            av == views_of(decl.attrs@),
            table_key@ == "table"@,
            forall|j: int| 0 <= j < i ==> attr_name(#[trigger] av[j]) != "table"@,
        decreases n - i,
    {
        let name = attr_name_of(&decl.attrs[i]);
        if name == table_key {
            proof {
                lemma_group_skip(av, "table"@, i as int);
                assert(av.skip(i as int)[0] == av[i as int]);
            }
            let a = &decl.attrs[i];
            let alen = a.as_str().unicode_len();
            let k = scan_until(a, 0, '(');
            proof {
                assert(a@.skip(0) =~= a@);
            }
            let args: String = if k == alen {
                String::new()
            } else if alen - k >= 2 && a.as_str().get_char(alen - 1) == ')' {
                substring(a, k + 1, alen - 1)
            } else {
                return TableAttrs { rename: Option::None, alias: Option::None };
            };
            proof {
                match attr_args(av[i as int]) {
                    Option::Some(sargs) => {
                        assert(args@ =~= sargs);
                    },
                    Option::None => {
                        assert(false);
                    },
                }
            }
            let parsed = parse_pairs(&args, 0);
            proof {
                assert(args@.skip(0) =~= args@);
            }
            match parsed {
                Option::None => {
                    return TableAttrs { rename: Option::None, alias: Option::None };
                },
                Option::Some(pairs) => {
                    if !kvs_check(&pairs) {
                        return TableAttrs { rename: Option::None, alias: Option::None };
                    }
                    let mut rename_key: String = String::new();
                    rename_key.append("rename");
                    let mut alias_key: String = String::new();
                    alias_key.append("alias");
                    proof {
                        assert(Seq::<char>::empty() + "rename"@ =~= "rename"@);
                        assert(Seq::<char>::empty() + "alias"@ =~= "alias"@);
                    }
                    let rename = kv_lookup(&pairs, &rename_key);
                    let alias = kv_lookup(&pairs, &alias_key);
                    return TableAttrs { rename, alias };
                },
            }
        }
        i = i + 1;
    }
    proof {
        lemma_group_skip(av, "table"@, n as int);
        assert(av.skip(n as int) =~= Seq::<Seq<char>>::empty());
    }
    none
}

/// Whether some annotation of `attrs` is named `g`.
pub open spec fn has_marker(attrs: Seq<Seq<char>>, g: Seq<char>) -> bool {
    exists|j: int| 0 <= j < attrs.len() && attr_name(#[trigger] attrs[j]) == g
}

/// Whether every annotation of `attrs` named `g` is a bare marker:
/// exactly `g`, or `g()` with nothing between the parentheses.  One that
/// carries anything else fails the group's extraction.
pub open spec fn markers_ok(attrs: Seq<Seq<char>>, g: Seq<char>) -> bool {
    forall|j: int|
        0 <= j < attrs.len() && attr_name(#[trigger] attrs[j]) == g ==> (attrs[j] == g || attrs[j]
            == g + "()"@)
}

/// Whether some annotation of `attrs` is named `g`.
pub fn has_marker_exec(attrs: &Vec<String>, g: &String) -> (r: bool)
    ensures
        r == has_marker(views_of(attrs@), g@),
{
    let ghost av = views_of(attrs@);
    let n = attrs.len();
    let mut i: usize = 0;
    while i < n
        invariant
            i <= n,
            n == attrs@.len(),
            av == views_of(attrs@),
            forall|j: int| 0 <= j < i ==> attr_name(#[trigger] av[j]) != g@,
        decreases n - i,
    {
        let name = attr_name_of(&attrs[i]);
        if name == *g {
            proof {
                assert(attr_name(av[i as int]) == g@);
            }
            return true;
        }
        i = i + 1;
    }
    false
}

/// Whether every annotation of `attrs` named `g` is a bare marker.
pub fn markers_ok_exec(attrs: &Vec<String>, g: &String) -> (r: bool)
    ensures
        r == markers_ok(views_of(attrs@), g@),
{
    let ghost av = views_of(attrs@);
    let g_paren = crate::text::cat_lit(g, "()");
    let n = attrs.len();
    let mut i: usize = 0;
    while i < n
        invariant
            i <= n,
            n == attrs@.len(),
            av == views_of(attrs@),
            g_paren@ == g@ + "()"@,
            forall|j: int|
                0 <= j < i && attr_name(#[trigger] av[j]) == g@ ==> (av[j] == g@ || av[j] == g@
                    + "()"@),
        decreases n - i,
    {
        let name = attr_name_of(&attrs[i]);
        if name == *g {
            if !(attrs[i] == *g) && !(attrs[i] == g_paren) {
                proof {
                    assert(av[i as int] == (attrs@[i as int])@);
                    assert(!markers_ok(av, g@));
                }
                return false;
            }
        }
        i = i + 1;
    }
    true
}

/// Whether the field named `field` carries an annotation named `group`:
/// the per-field attribute test over a declaration.
pub open spec fn decl_field_marked(
    fields: Seq<FieldDeclModel>,
    field: Seq<char>,
    group: Seq<char>,
) -> bool {
    exists|i: int|
        0 <= i < fields.len() && (#[trigger] fields[i]).name == field && has_marker(
            fields[i].attrs,
            group,
        )
}

/// Whether the declaration's field named `field` carries an annotation
/// named `group`.
pub fn is_attributed_field(decl: &EntityDecl, field: &String, group: &String) -> (r: bool)
    ensures
        r == decl_field_marked(decl@.fields, field@, group@),
{
    let ghost fm = decl@.fields;
    let n = decl.fields.len();
    let mut i: usize = 0;
    while i < n
        invariant
            i <= n,
            n == decl.fields@.len(),
            fm == decl@.fields,
            forall|j: int|
                0 <= j < i ==> !((#[trigger] fm[j]).name == field@ && has_marker(
                    fm[j].attrs,
                    group@,
                )),
        decreases n - i,
    {
        if decl.fields[i].name == *field {
            if has_marker_exec(&decl.fields[i].attrs, group) {
                proof {
                    assert(fm[i as int].name == field@ && has_marker(fm[i as int].attrs, group@));
                }
                return true;
            }
        }
        i = i + 1;
    }
    false
}

/// Whether the entity declaration itself carries an annotation named
/// `name`.
pub fn is_attributed_struct(decl: &EntityDecl, name: &String) -> (r: bool)
    ensures
        r == has_marker(views_of(decl.attrs@), name@),
{
    has_marker_exec(&decl.attrs, name)
}

/// The text of `s` from `from` to `to`, as an owned string.
pub fn substring(s: &String, from: usize, to: usize) -> (r: String)
    requires
        from <= to <= s@.len(),
    ensures
        r@ == s@.subrange(from as int, to as int),
{
    let piece = s.as_str().substring_char(from, to);
    let r = piece.to_owned();
    r
}

/// The name of the annotation `s`: its text up to the first opening
/// parenthesis.
pub fn attr_name_of(s: &String) -> (r: String)
    ensures
        r@ == attr_name(s@),
{
    let k = scan_until(s, 0, '(');
    proof {
        assert(s@.skip(0) =~= s@);
        assert(s@.subrange(0, k as int) =~= attr_name(s@));
    }
    substring(s, 0, k)
}

} // verus!
