use vstd::prelude::*;

use crate::text::{name_eq, same_name};

verus! {

/// A header list as names and values, in order.
pub open spec fn header_seq(h: Seq<(String, String)>) -> Seq<(Seq<char>, Seq<char>)> {
    h.map_values(|e: (String, String)| (e.0@, e.1@))
}

/// Whether `name` is one of `names`, ignoring ASCII case.
pub open spec fn named_any(name: Seq<char>, names: Seq<Seq<char>>) -> bool {
    exists|j: int| 0 <= j < names.len() && same_name(name, names[j])
}

/// The views of a list of names.
pub open spec fn name_seq(names: Seq<&str>) -> Seq<Seq<char>> {
    names.map_values(|n: &str| n@)
}

/// The entries of `h` whose names are none of `names`, in order.
pub open spec fn without_names(h: Seq<(Seq<char>, Seq<char>)>, names: Seq<Seq<char>>) -> Seq<
    (Seq<char>, Seq<char>),
>
    decreases h.len(),
{
    if h.len() == 0 {
        h
    } else {
        let init = without_names(h.drop_last(), names);
        if named_any(h.last().0, names) {
            init
        } else {
            init.push(h.last())
        }
    }
}

/// No entry that survives the removal carries one of the removed names.
pub proof fn lemma_without_names(h: Seq<(Seq<char>, Seq<char>)>, names: Seq<Seq<char>>)
    ensures
        forall|i: int|
            0 <= i < without_names(h, names).len() ==> !named_any(
                #[trigger] without_names(h, names)[i].0,
                names,
            ),
    decreases h.len(),
{
    if h.len() > 0 {
        lemma_without_names(h.drop_last(), names);
        let init = without_names(h.drop_last(), names);
        assert forall|i: int| 0 <= i < without_names(h, names).len() implies !named_any(
            #[trigger] without_names(h, names)[i].0,
            names,
        ) by {
            if i < init.len() {
                assert(without_names(h, names)[i] == init[i]);
            }
        }
    }
}

/// Whether `name` is one of `names`, ignoring ASCII case.
pub fn is_named_any(name: &str, names: &Vec<&str>) -> (r: bool)
    ensures
        r == named_any(name@, name_seq(names@)),
{
    let mut j: usize = 0;
    while j < names.len()
        invariant
            j <= names@.len(),
            forall|k: int| 0 <= k < j ==> !same_name(name@, #[trigger] name_seq(names@)[k]),
        decreases names@.len() - j,
    {
        if name_eq(name, names[j]) {
            assert(same_name(name@, name_seq(names@)[j as int]));
            return true;
        }
        j = j + 1;
    }
    false
}

/// A copy of `headers` without the entries named by `names`.
pub fn remove_headers(headers: &Vec<(String, String)>, names: &Vec<&str>) -> (r: Vec<(String, String)>)
    ensures
        header_seq(r@) == without_names(header_seq(headers@), name_seq(names@)),
{
    let mut out: Vec<(String, String)> = Vec::new();
    let n = headers.len();
    let mut i: usize = 0;
    proof {
        assert(header_seq(headers@).take(0) =~= Seq::<(Seq<char>, Seq<char>)>::empty());
        assert(header_seq(out@) =~= Seq::<(Seq<char>, Seq<char>)>::empty());
    }
    while i < n
        invariant
            n == headers@.len(),
            i <= n,
            header_seq(out@) == without_names(header_seq(headers@).take(i as int), name_seq(names@)),
        decreases n - i,
    {
        let entry = &headers[i];
        proof {
            assert(header_seq(headers@).take(i + 1).drop_last() =~= header_seq(headers@).take(
                i as int,
            ));
            assert(header_seq(headers@).take(i + 1).last() == (entry.0@, entry.1@));
        }
        if !is_named_any(entry.0.as_str(), names) {
            let ghost before = out@;
            out.push((entry.0.clone(), entry.1.clone()));
            proof {
                assert(header_seq(out@) =~= header_seq(before).push((entry.0@, entry.1@)));
            }
        }
        i = i + 1;
    }
    proof {
        assert(header_seq(headers@).take(n as int) =~= header_seq(headers@));
    }
    out
}

/// Whether `i` is the first entry of `h` named `name`.
pub open spec fn is_first_named(h: Seq<(Seq<char>, Seq<char>)>, name: Seq<char>, i: int) -> bool {
    0 <= i < h.len() && same_name(h[i].0, name) && forall|k: int|
        0 <= k < i ==> !same_name(#[trigger] h[k].0, name)
}

/// Whether some entry of `h` is named `name`.
pub open spec fn has_header(h: Seq<(Seq<char>, Seq<char>)>, name: Seq<char>) -> bool {
    exists|i: int| 0 <= i < h.len() && same_name(#[trigger] h[i].0, name)
}

/// The index of the first entry named `name`, if there is one.
pub fn find_header(headers: &Vec<(String, String)>, name: &str) -> (r: Option<usize>)
    ensures
        r matches Some(i) ==> is_first_named(header_seq(headers@), name@, i as int),
        r is None <==> !has_header(header_seq(headers@), name@),
{
    let n = headers.len();
    let mut i: usize = 0;
    while i < n
        invariant
            n == headers@.len(),
            i <= n,
            forall|k: int| 0 <= k < i ==> !same_name(#[trigger] header_seq(headers@)[k].0, name@),
        decreases n - i,
    {
        if name_eq(headers[i].0.as_str(), name) {
            assert(same_name(header_seq(headers@)[i as int].0, name@));
            return Some(i);
        }
        i = i + 1;
    }
    None
}

} // verus!
