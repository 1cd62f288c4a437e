//! Verified string utilities: concatenation, joining with a separator,
//! ASCII case folding, decimal rendering, splitting, and the snake-case
//! conversion that column names are derived from.

use vstd::prelude::*;

verus! {

/// Relies on `String::push`: appends the given character to the end of
/// the string.
#[verifier::external_body]
fn push_char(s: &mut String, c: char)
    ensures
        final(s)@ == old(s)@.push(c),
{
    s.push(c)
}

/// The characters of `parts` joined with `sep` between consecutive parts.
pub open spec fn spec_join(parts: Seq<Seq<char>>, sep: Seq<char>) -> Seq<char>
    decreases parts.len(),
{
    if parts.len() == 0 {
        Seq::<char>::empty()
    } else if parts.len() == 1 {
        parts[0]
    } else {
        parts[0] + sep + spec_join(parts.drop_first(), sep)
    }
}

/// Joining one more part appends a separator and the part (or is the part
/// itself when nothing was joined yet).
pub proof fn lemma_join_push(parts: Seq<Seq<char>>, sep: Seq<char>, last: Seq<char>)
    ensures
        spec_join(parts.push(last), sep) == if parts.len() == 0 {
            last
        } else {
            (spec_join(parts, sep) + sep + last)
        },
    decreases parts.len(),
{
    if parts.len() == 0 {
        assert(parts.push(last) =~= seq![last]);
    } else {
        assert(parts.push(last).drop_first() =~= parts.drop_first().push(last));
        lemma_join_push(parts.drop_first(), sep, last);
        if parts.len() == 1 {
            assert(parts.push(last)[0] == parts[0]);
        } else {
            assert(spec_join(parts.push(last), sep) == parts[0] + sep + spec_join(
                parts.drop_first().push(last),
                sep,
            ));
            assert(parts[0] + sep + (spec_join(parts.drop_first(), sep) + sep + last) =~= (parts[0]
                + sep + spec_join(parts.drop_first(), sep)) + sep + last);
        }
    }
}

/// The views of the strings in `v`.
pub open spec fn views_of(v: Seq<String>) -> Seq<Seq<char>> {
    v.map_values(|s: String| s@)
}

/// `a` followed by `b`.
pub fn cat(a: &String, b: &String) -> (r: String)
    ensures
        r@ == a@ + b@,
{
    let mut r = a.clone();
    r.append(b.as_str());
    r
}

/// `a` followed by the literal `b`.
pub fn cat_lit(a: &String, b: &str) -> (r: String)
    ensures
        r@ == a@ + b@,
{
    let mut r = a.clone();
    r.append(b);
    r
}

/// The strings of `parts` joined with the separator `sep`.
pub fn join(parts: &Vec<String>, sep: &str) -> (r: String)
    ensures
        r@ == spec_join(views_of(parts@), sep@),
{
    let mut r = String::new();
    let mut i: usize = 0;
    while i < parts.len()
        invariant
            i <= parts.len(),
            r@ == spec_join(views_of(parts@).take(i as int), sep@),
        decreases parts.len() - i,
    {
        if i > 0 {
            r.append(sep);
        }
        r.append(parts[i].as_str());
        proof {
            let mapped = views_of(parts@);
            assert(mapped.take(i as int).push(mapped[i as int]) =~= mapped.take(i + 1));
            lemma_join_push(mapped.take(i as int), sep@, mapped[i as int]);
        }
        i = i + 1;
    }
    proof {
        assert(views_of(parts@).take(parts@.len() as int) =~= views_of(parts@));
    }
    r
}

/// ASCII case folding of one character: `'A'..='Z'` map to their lower-case
/// forms, every other character is unchanged.
pub open spec fn spec_lower_char(c: char) -> char {
    if 'A' <= c && c <= 'Z' {
        (((c as u8) + 32) as char)
    } else {
        c
    }
}

/// ASCII case folding of a whole string.
pub open spec fn spec_lower(s: Seq<char>) -> Seq<char> {
    s.map_values(|c: char| spec_lower_char(c))
}

/// The ASCII lower-case form of `s`; characters outside `'A'..='Z'` are kept.
pub fn ascii_lower(s: &String) -> (r: String)
    ensures
        r@ == spec_lower(s@),
{
    let n = s.as_str().unicode_len();
    let mut r = String::new();
    let mut i: usize = 0;
    while i < n
        invariant
            i <= n,
            n == s@.len(),
            r@ == spec_lower(s@).take(i as int),
        decreases n - i,
    {
        let c = s.as_str().get_char(i);
        let low = if 'A' <= c && c <= 'Z' {
            ((c as u8) + 32) as char
        } else {
            c
        };
        push_char(&mut r, low);
        proof {
            assert(spec_lower(s@).take(i as int).push(spec_lower_char(s@[i as int])) =~= spec_lower(
                s@,
            ).take(i + 1));
        }
        i = i + 1;
    }
    proof {
        assert(spec_lower(s@).take(s@.len() as int) =~= spec_lower(s@));
    }
    r
}

/// `s` with every occurrence of `from` replaced by `to`.
pub open spec fn spec_replace(s: Seq<char>, from: char, to: char) -> Seq<char> {
    s.map_values(|c: char| if c == from { to } else { c })
}

/// Replaces every occurrence of the character `from` with `to`.
pub fn replace_char(s: &String, from: char, to: char) -> (r: String)
    ensures
        r@ == spec_replace(s@, from, to),
{
    let n = s.as_str().unicode_len();
    let mut r = String::new();
    let mut i: usize = 0;
    while i < n
        invariant
            i <= n,
            n == s@.len(),
            r@ == spec_replace(s@, from, to).take(i as int),
        decreases n - i,
    {
        let c = s.as_str().get_char(i);
        let next = if c == from { to } else { c };
        push_char(&mut r, next);
        proof {
            let mapped = spec_replace(s@, from, to);
            assert(mapped.take(i as int).push(mapped[i as int]) =~= mapped.take(i + 1));
        }
        i = i + 1;
    }
    proof {
        assert(spec_replace(s@, from, to).take(s@.len() as int) =~= spec_replace(s@, from, to));
    }
    r
}

/// `s` cut at every occurrence of `sep`: the parts between separators, in
/// order.  The empty string has one (empty) part, and a separator at either
/// end contributes an empty part.
pub open spec fn spec_split(s: Seq<char>, sep: char) -> Seq<Seq<char>>
    decreases s.len(),
{
    if s.len() == 0 {
        seq![Seq::<char>::empty()]
    } else if s[0] == sep {
        seq![Seq::<char>::empty()] + spec_split(s.drop_first(), sep)
    } else {
        let rest = spec_split(s.drop_first(), sep);
        seq![seq![s[0]] + rest[0]] + rest.drop_first()
    }
}

/// A split has at least one part.
pub proof fn lemma_split_len(s: Seq<char>, sep: char)
    ensures
        spec_split(s, sep).len() >= 1,
    decreases s.len(),
{
    if s.len() != 0 {
        lemma_split_len(s.drop_first(), sep)
    }
}

/// Splitting one more character extends the last part, or opens a fresh
/// empty part when the character is the separator.
pub proof fn lemma_split_push(s: Seq<char>, sep: char, c: char)
    ensures
        spec_split(s.push(c), sep) == if c == sep {
            spec_split(s, sep).push(Seq::<char>::empty())
        } else {
            spec_split(s, sep).update(
                spec_split(s, sep).len() - 1,
                spec_split(s, sep).last() + seq![c],
            )
        },
    decreases s.len(),
{
    lemma_split_len(s, sep);
    if s.len() == 0 {
        assert(s =~~= Seq::<char>::empty());
        assert(s.push(c) =~~= seq![c]);
        assert(s.push(c).drop_first() =~~= Seq::<char>::empty());
        assert(spec_split(Seq::<char>::empty(), sep) =~~= seq![Seq::<char>::empty()]);
        assert(spec_split(s.push(c).drop_first(), sep) == seq![Seq::<char>::empty()]);
        if c == sep {
            assert(spec_split(s.push(c), sep) =~~= spec_split(s, sep).push(Seq::<char>::empty()));
        } else {
            assert(spec_split(s.push(c), sep) =~~= spec_split(s, sep).update(
                0,
                spec_split(s, sep).last() + seq![c],
            ));
        }
    } else {
        assert(s.push(c).drop_first() =~~= s.drop_first().push(c));
        lemma_split_push(s.drop_first(), sep, c);
        lemma_split_len(s.drop_first(), sep);
        let restp = spec_split(s.drop_first().push(c), sep);
        let rest = spec_split(s.drop_first(), sep);
        if s[0] == sep {
            if c == sep {
                assert(spec_split(s.push(c), sep) =~~= spec_split(s, sep).push(
                    Seq::<char>::empty(),
                ));
            } else {
                assert(spec_split(s.push(c), sep) =~~= spec_split(s, sep).update(
                    spec_split(s, sep).len() - 1,
                    spec_split(s, sep).last() + seq![c],
                ));
            }
        } else {
            if c == sep {
                assert(restp[0] == rest[0]);
                assert(restp.drop_first() =~~= rest.drop_first().push(Seq::<char>::empty()));
                assert(spec_split(s.push(c), sep) =~~= spec_split(s, sep).push(
                    Seq::<char>::empty(),
                ));
            } else {
                if rest.len() == 1 {
                    assert(restp[0] == rest[0] + seq![c]);
                    assert(spec_split(s.push(c), sep) =~~= spec_split(s, sep).update(
                        spec_split(s, sep).len() - 1,
                        spec_split(s, sep).last() + seq![c],
                    ));
                } else {
                    assert(restp[0] == rest[0]);
                    assert(spec_split(s.push(c), sep) =~~= spec_split(s, sep).update(
                        spec_split(s, sep).len() - 1,
                        spec_split(s, sep).last() + seq![c],
                    ));
                }
            }
        }
    }
}

/// Splits `s` at every occurrence of `sep`.
pub fn split_char(s: &String, sep: char) -> (parts: Vec<String>)
    ensures
        views_of(parts@) == spec_split(s@, sep),
{
    let n = s.as_str().unicode_len();
    let mut parts: Vec<String> = Vec::new();
    let mut cur = String::new();
    let mut i: usize = 0;
    while i < n
        invariant
            i <= n,
            n == s@.len(),
            views_of(parts@).push(cur@) =~~= spec_split(s@.take(i as int), sep),
        decreases n - i,
    {
        let c = s.as_str().get_char(i);
        proof {
            assert(s@.take(i as int).push(s@[i as int]) =~~= s@.take(i + 1));
            lemma_split_push(s@.take(i as int), sep, s@[i as int]);
            lemma_split_len(s@.take(i as int), sep);
        }
        if c == sep {
            parts.push(cur);
            cur = String::new();
            proof {
                assert(views_of(parts@).push(cur@) =~~= spec_split(s@.take(i + 1), sep));
            }
        } else {
            push_char(&mut cur, c);
            proof {
                assert(views_of(parts@).push(cur@) =~~= spec_split(s@.take(i + 1), sep));
            }
        }
        i = i + 1;
    }
    parts.push(cur);
    proof {
        assert(s@.take(s@.len() as int) =~~= s@);
        assert(views_of(parts@) =~~= spec_split(s@, sep));
    }
    parts
}

/// The decimal digit character for `d`, which must lie in `0..=9`.
pub open spec fn spec_digit(d: int) -> char {
    ((48 + d) as u8) as char
}

/// The decimal rendering of `n`, most significant digit first, no sign and
/// no leading zero (except for `n == 0` itself).
pub open spec fn spec_dec(n: nat) -> Seq<char>
    decreases n,
{
    if n < 10 {
        seq![spec_digit(n as int)]
    } else {
        spec_dec(n / 10).push(spec_digit((n % 10) as int))
    }
}

/// Renders `n` in decimal.
pub fn dec_string(n: u64) -> (r: String)
    ensures
        r@ == spec_dec(n as nat),
    decreases n,
{
    if n < 10 {
        let mut r = String::new();
        push_char(&mut r, ((48 + n as u8)) as char);
        proof {
            assert(Seq::<char>::empty().push(spec_digit(n as int)) =~= spec_dec(n as nat));
        }
        r
    } else {
        let mut r = dec_string(n / 10);
        push_char(&mut r, (48 + (n % 10) as u8) as char);
        r
    }
}

/// What `change_case::snake_case` returns for the characters of its
/// input.  The conversion splits its input into word segments and joins
/// them with underscores; its exact result would take pages to state, and
/// it depends on the input characters alone, so it only gets a name here.
pub uninterp spec fn snake_of(s: Seq<char>) -> Seq<char>;

/// Relies on `change_case::snake_case`: joins the lower-cased word
/// segments of the input with underscores.  The result is a function of
/// the input characters alone, and an empty input stays empty.
#[verifier::external_body]
fn snake_raw(s: &String) -> (r: String)
    ensures
        r@ == snake_of(s@),
        s@.len() == 0 ==> r@.len() == 0,
{
    change_case::snake_case(s.as_str())
}

/// The canonical column form of a name: its snake-case conversion, folded
/// to ASCII lower case.
pub open spec fn spec_snake(s: Seq<char>) -> Seq<char> {
    spec_lower(snake_of(s))
}

/// Converts a declared name to the snake-case, lower-case form that column
/// names are built from.
pub fn snake_case(s: &String) -> (r: String)
    ensures
        r@ == spec_snake(s@),
{
    let t = snake_raw(s);
    ascii_lower(&t)
}

/// Whether `p` is a prefix of `s`.
pub fn has_prefix(s: &String, p: &str) -> (r: bool)
    ensures
        r == p@.is_prefix_of(s@),
{
    let sn = s.as_str().unicode_len();
    let pn = p.unicode_len();
    if pn > sn {
        proof {
            assert(!p@.is_prefix_of(s@));
        }
        return false;
    }
    let mut i: usize = 0;
    while i < pn
        invariant
            i <= pn,
            pn == p@.len(),
            pn <= s@.len(),
            sn == s@.len(),
            forall|j: int| 0 <= j < i ==> s@[j] == p@[j],
        decreases pn - i,
    {
        if s.as_str().get_char(i) != p.get_char(i) {
            proof {
                assert(!p@.is_prefix_of(s@));
            }
            return false;
        }
        i = i + 1;
    }
    proof {
        assert(p@ =~= s@.take(pn as int));
    }
    true
}

} // verus!
