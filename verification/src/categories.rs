//! Category lookup: the flattened category tree, names by id, and resolving
//! a category given by name on the command line.

use vstd::prelude::*;
use crate::client::{Category, CategoryId};
use crate::text::{chars_eq, chars_of, lowercase, to_lowercase, trim, trim_str};

verus! {

/// The id and name (empty when absent) of a category.
pub open spec fn entry(c: Category) -> (Seq<char>, Seq<char>) {
    (
        c.id@,
        match c.name {
            Some(n) => n@,
            None => Seq::empty(),
        },
    )
}

/// The categories of a forest in depth-first pre-order: each category, then
/// its children, then the categories after it.
pub open spec fn flatten(cats: Seq<Category>) -> Seq<(Seq<char>, Seq<char>)>
    decreases cats,
{
    if cats.len() == 0 {
        Seq::empty()
    } else {
        let c = cats[0];
        let children = match c.child_categories {
            Some(v) => {
                proof {
                    assert(decreases_to!(cats => cats[0]));
                }
                flatten(v@)
            },
            None => Seq::empty(),
        };
        seq![entry(c)] + children + flatten(cats.drop_first())
    }
}

/// The flattened list of (id, name) pairs, as owned strings.
pub open spec fn pair_views(v: Seq<(CategoryId, String)>) -> Seq<(Seq<char>, Seq<char>)> {
    v.map_values(|p: (CategoryId, String)| (p.0@, p.1@))
}

/// Appends the flattened categories to `out`.
fn walk(out: &mut Vec<(CategoryId, String)>, cats: &[Category])
    ensures
        pair_views(final(out)@) == pair_views(old(out)@) + flatten(cats@),
    decreases cats@,
{
    let n = cats.len();
    let ghost start = pair_views(out@);
    for i in 0..n
        invariant
            n == cats@.len(),
            pair_views(out@) == start + flatten(cats@.take(i as int)),
    {
        let c = &cats[i];
        let name = match &c.name {
            Some(s) => s.clone(),
            None => String::new(),
        };
        out.push((c.id.clone(), name));
        proof {
            assert(pair_views(out@) =~= start + flatten(cats@.take(i as int)) + seq![entry(*c)]);
        }
        match &c.child_categories {
            Some(children) => {
                proof {
                    assert(decreases_to!(cats@ => cats@[i as int]));
                }
                walk(out, children.as_slice());
            },
            None => {},
        }
        proof {
            lemma_flatten_append(cats@.take(i as int), *c);
            assert(cats@.take(i + 1) =~= cats@.take(i as int).push(*c));
        }
    }
    assert(cats@.take(n as int) =~= cats@);
}

/// Flattening distributes over appending one category.
proof fn lemma_flatten_append(cats: Seq<Category>, c: Category)
    ensures
        flatten(cats.push(c)) == flatten(cats) + seq![entry(c)] + (match c.child_categories {
            Some(v) => flatten(v@),
            None => Seq::empty(),
        }),
    decreases cats.len(),
{
    let ch = match c.child_categories {
        Some(v) => flatten(v@),
        None => Seq::empty(),
    };
    let s = cats.push(c);
    if cats.len() == 0 {
        assert(s.drop_first() =~= Seq::<Category>::empty());
        assert(s[0] == c);
        assert(flatten(s.drop_first()) == Seq::<(Seq<char>, Seq<char>)>::empty());
        assert(flatten(s) == seq![entry(c)] + ch + flatten(s.drop_first()));
        assert(flatten(cats) == Seq::<(Seq<char>, Seq<char>)>::empty());
        assert(flatten(s) =~= flatten(cats) + seq![entry(c)] + ch);
    } else {
        assert(s.drop_first() =~= cats.drop_first().push(c));
        assert(s[0] == cats[0]);
        let c0 = cats[0];
        let ch0 = match c0.child_categories {
            Some(v) => flatten(v@),
            None => Seq::empty(),
        };
        lemma_flatten_append(cats.drop_first(), c);
        assert(flatten(s) == seq![entry(c0)] + ch0 + flatten(s.drop_first()));
        assert(flatten(cats) == seq![entry(c0)] + ch0 + flatten(cats.drop_first()));
        assert(flatten(s) =~= flatten(cats) + seq![entry(c)] + ch);
    }
}

/// The categories of the forest with their children, as (id, name) pairs in
/// depth-first pre-order; a missing name is empty.
pub fn flatten_categories_for_lookup(categories: &[Category]) -> (r: Vec<(CategoryId, String)>)
    ensures
        pair_views(r@) == flatten(categories@),
{
    let mut out: Vec<(CategoryId, String)> = Vec::new();
    assert(pair_views(out@) =~= Seq::empty());
    walk(&mut out, categories);
    out
}

/// Category names by id, for rendering.
pub type CategoryNames = Vec<(CategoryId, String)>;

/// The name under `id`: the last pair with that id wins, as when the pairs are
/// inserted into a map in order.
pub open spec fn lookup_name(names: Seq<(Seq<char>, Seq<char>)>, id: Seq<char>) -> Option<Seq<char>>
    decreases names.len(),
{
    if names.len() == 0 {
        None
    } else if names.last().0 == id {
        Some(names.last().1)
    } else {
        lookup_name(names.drop_last(), id)
    }
}

/// The names of all categories by id.
pub fn category_name_map(categories: &[Category]) -> (r: CategoryNames)
    ensures
        forall|id: Seq<char>| lookup_name(pair_views(r@), id) == lookup_name(flatten(categories@), id),
{
    flatten_categories_for_lookup(categories)
}

/// The name under `id`, if any.
pub fn find_name(names: &[(CategoryId, String)], id: &str) -> (r: Option<String>)
    ensures
        r matches Some(n) ==> lookup_name(pair_views(names@), id@) == Some(n@),
        r is None ==> lookup_name(pair_views(names@), id@) is None,
{
    let want = chars_of(id);
    let mut i = names.len();
    let ghost all = pair_views(names@);
    assert(all.take(all.len() as int) =~= all);
    while i > 0
        invariant
            i <= names@.len(),
            all == pair_views(names@),
            want@ == id@,
            lookup_name(all, id@) == lookup_name(all.take(i as int), id@),
        decreases i,
    {
        let k = &names[i - 1].0;
        let v = &names[i - 1].1;
        let kc = chars_of(k.as_str());
        let ghost pre = all.take(i as int);
        assert(pre.last() == all[i - 1]);
        assert(all[i - 1] == (names@[i - 1].0@, names@[i - 1].1@));
        assert(pre.drop_last() =~= all.take(i - 1));
        if chars_eq(kc.as_slice(), want.as_slice()) {
            assert(pre.last().0 == id@);
            assert(lookup_name(pre, id@) == Some(pre.last().1));
            return Some(v.clone());
        }
        assert(pre.last().0 != id@);
        assert(lookup_name(pre, id@) == lookup_name(pre.drop_last(), id@));
        i = i - 1;
    }
    None
}

/// Why a category given by name cannot be resolved.
#[derive(Debug, Clone, Copy, PartialEq, Eq, Structural)]
pub enum CategoryError {
    /// The name is empty after trimming.
    EmptyName,
    /// No category has that name.
    NotFound,
    /// Several categories have that name (the count is given).
    Ambiguous(usize),
}

/// The ids of the pairs whose name, lower-cased, is `want`, in order.
pub open spec fn ids_named(pairs: Seq<(Seq<char>, Seq<char>)>, want: Seq<char>) -> Seq<Seq<char>>
    decreases pairs.len(),
{
    if pairs.len() == 0 {
        Seq::empty()
    } else {
        let rest = ids_named(pairs.drop_last(), want);
        if lowercase(pairs.last().1) == want {
            rest.push(pairs.last().0)
        } else {
            rest
        }
    }
}

/// The name wanted for a category name argument: trimmed, then lower-cased.
pub open spec fn wanted_name(name: Seq<char>) -> Seq<char> {
    lowercase(trim(name))
}

/// Whether resolving needs the list of categories: only a category name
/// that is not blank, given without a category id, does.
pub fn needs_category_list(category_id: Option<&str>, category_name: Option<&str>) -> (r: bool)
    ensures
        r == (category_id is None && (category_name matches Some(n) && trim(n@).len() > 0)),
{
    if category_id.is_some() {
        return false;
    }
    match category_name {
        None => false,
        Some(n) => {
            let t = trim_str(n);
            let w = to_lowercase(t.as_str());
            !w.as_str().is_empty()
        },
    }
}

/// Resolves the category target of a command: a given id is used as it is;
/// without a name there is none; else the name (trimmed, case-insensitive)
/// must match exactly one category of the forest `categories` by its
/// lower-cased name.
pub fn resolve_category_id(
    category_id: Option<&str>,
    category_name: Option<&str>,
    categories: &[Category],
) -> (r: Result<Option<CategoryId>, CategoryError>)
    ensures
        category_id matches Some(id) ==> (r matches Ok(Some(v)) && v@ == id@),
        category_id is None && category_name is None ==> r matches Ok(None),
        category_id is None ==> (category_name matches Some(n) ==> {
            let want = wanted_name(n@);
            let found = ids_named(flatten(categories@), want);
            if trim(n@).len() == 0 {
                r == Err::<Option<CategoryId>, CategoryError>(CategoryError::EmptyName)
            } else if found.len() == 0 {
                r == Err::<Option<CategoryId>, CategoryError>(CategoryError::NotFound)
            } else if found.len() == 1 {
                r matches Ok(Some(v)) && v@ == found[0]
            } else {
                r == Err::<Option<CategoryId>, CategoryError>(CategoryError::Ambiguous(found.len() as usize))
            }
        }),
{
    if let Some(id) = category_id {
        return Ok(Some(id.to_owned()));
    }
    let name = match category_name {
        None => return Ok(None),
        Some(n) => n,
    };
    let t = trim_str(name);
    let want_s = to_lowercase(t.as_str());
    let want = chars_of(want_s.as_str());
    if want.len() == 0 {
        return Err(CategoryError::EmptyName);
    }
    let pairs = flatten_categories_for_lookup(categories);
    let ghost pv = pair_views(pairs@);
    let mut found: Vec<CategoryId> = Vec::new();
    let n = pairs.len();
    for i in 0..n
        invariant
            n == pairs@.len(),
            pv == pair_views(pairs@),
            want@ == wanted_name(name@),
            found@.map_values(|s: String| s@) == ids_named(pv.take(i as int), want@),
    {
        let k = &pairs[i].0;
        let v = &pairs[i].1;
        let lv = to_lowercase(v.as_str());
        let lc = chars_of(lv.as_str());
        let ghost next = pv.take(i + 1);
        assert(next.drop_last() =~= pv.take(i as int));
        assert(next.last() == (k@, v@));
        if chars_eq(lc.as_slice(), want.as_slice()) {
            found.push(k.clone());
            assert(found@.map_values(|s: String| s@) =~= ids_named(next, want@));
        }
    }
    assert(pv.take(n as int) =~= pv);
    let ghost fv = found@.map_values(|s: String| s@);
    if found.len() == 0 {
        Err(CategoryError::NotFound)
    } else if found.len() == 1 {
        assert(fv[0] == found@[0]@);
        Ok(Some(found[0].clone()))
    } else {
        Err(CategoryError::Ambiguous(found.len()))
    }
}

} // verus!
