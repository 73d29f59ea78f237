//! Which files of a directory are desktop entries, and how they are listed.

use vstd::prelude::*;
use crate::text::{lower_of, lex_lt, is_suffix, lowercase, less_than, ends_with};

verus! {

/// The type of a directory child, as far as it could be inspected.
#[derive(Debug, Clone, Copy, PartialEq, Eq)]
pub enum EntryKind {
    File,
    Symlink,
    Directory,
    Other,
}

/// One child of a directory: its file name and, when it could be inspected, its type.
#[derive(Debug)]
pub struct DirChild {
    pub name: String,
    pub kind: Option<EntryKind>,
}

/// A regular file or a symbolic link whose name ends with `.desktop`.
pub open spec fn is_candidate(c: DirChild) -> bool {
    (c.kind == Some(EntryKind::File) || c.kind == Some(EntryKind::Symlink)) && is_suffix(
        c.name@,
        ".desktop"@,
    )
}

/// The names of the candidates among `cs`, in their order.
pub open spec fn candidate_names(cs: Seq<DirChild>) -> Seq<Seq<char>>
    decreases cs.len(),
{
    if cs.len() == 0 {
        Seq::empty()
    } else {
        let prev = candidate_names(cs.drop_last());
        if is_candidate(cs.last()) {
            prev.push(cs.last().name@)
        } else {
            prev
        }
    }
}

/// The names of the desktop entry files among a directory's children, in
/// the order given.
pub fn get_dir_desktop_files(children: &Vec<DirChild>) -> (r: Vec<String>)
    ensures
        r.deep_view() == candidate_names(children@),
{
    let suffix = ".desktop";
    let mut r: Vec<String> = Vec::new();
    let mut i: usize = 0;
    assert(children@.take(0) =~= Seq::<DirChild>::empty());
    while i < children.len()
        invariant
            i <= children.len(),
            suffix@ == ".desktop"@,
            r.deep_view() == candidate_names(children@.take(i as int)),
        decreases children.len() - i,
    {
        let c = &children[i];
        let kind_ok = match c.kind {
            Some(EntryKind::File) => true,
            Some(EntryKind::Symlink) => true,
            _ => false,
        };
        assert(children@.take(i + 1).drop_last() =~= children@.take(i as int));
        if kind_ok && ends_with(c.name.as_str(), suffix) {
            let ghost before = r.deep_view();
            r.push(c.name.clone());
            assert(r.deep_view() =~= before.push(c.name@));
        }
        i = i + 1;
    }
    assert(children@.take(i as int) =~= children@);
    r
}

/// `x` placed after every item of `s` whose key is not greater than its own
/// and before the rest.
pub open spec fn insert_keyed(s: Seq<(Seq<char>, Seq<char>)>, x: (Seq<char>, Seq<char>)) -> Seq<(Seq<char>, Seq<char>)>
    decreases s.len(),
{
    if s.len() == 0 {
        seq![x]
    } else if lex_lt(x.0, s[0].0) {
        seq![x] + s
    } else {
        seq![s[0]] + insert_keyed(s.drop_first(), x)
    }
}

/// The stable sort of `s` by its keys: items with equal keys keep their order.
pub open spec fn keyed_sort(s: Seq<(Seq<char>, Seq<char>)>) -> Seq<(Seq<char>, Seq<char>)>
    decreases s.len(),
{
    if s.len() == 0 {
        s
    } else {
        insert_keyed(keyed_sort(s.drop_last()), s.last())
    }
}

/// Each name with its key beside it.
pub open spec fn pair_up(keys: Seq<Seq<char>>, names: Seq<Seq<char>>) -> Seq<(Seq<char>, Seq<char>)> {
    Seq::new(names.len(), |j: int| (keys[j], names[j]))
}

/// The names of keyed items, in order.
pub open spec fn names_of(s: Seq<(Seq<char>, Seq<char>)>) -> Seq<Seq<char>> {
    s.map_values(|p: (Seq<char>, Seq<char>)| p.1)
}

/// `names` sorted stably by their lowercase forms.
pub open spec fn case_sorted(names: Seq<Seq<char>>) -> Seq<Seq<char>> {
    names_of(keyed_sort(pair_up(names.map_values(|n: Seq<char>| lower_of(n)), names)))
}

proof fn lemma_insert_keyed_at(s: Seq<(Seq<char>, Seq<char>)>, x: (Seq<char>, Seq<char>), p: int)
    requires
        0 <= p <= s.len(),
        forall|j: int| 0 <= j < p ==> !lex_lt(x.0, #[trigger] s[j].0),
        p < s.len() ==> lex_lt(x.0, s[p].0),
    ensures
        insert_keyed(s, x) == s.insert(p, x),
    decreases p,
{
    if p == 0 {
        if s.len() == 0 {
            assert(seq![x] =~= s.insert(0, x));
        } else {
            assert(seq![x] + s =~= s.insert(0, x));
        }
    } else {
        assert(!lex_lt(x.0, s[0].0));
        let t = s.drop_first();
        assert forall|j: int| 0 <= j < p - 1 implies !lex_lt(x.0, #[trigger] t[j].0) by {
            assert(t[j] == s[j + 1]);
        }
        lemma_insert_keyed_at(t, x, p - 1);
        assert(seq![s[0]] + t.insert(p - 1, x) =~= s.insert(p, x));
    }
}

/// No item's key comes before the key of the item ahead of it.
pub open spec fn key_ordered(s: Seq<(Seq<char>, Seq<char>)>) -> bool {
    forall|i: int| 0 < i < s.len() ==> !lex_lt(#[trigger] s[i].0, s[i - 1].0)
}

proof fn lemma_lex_lt_asymmetric(a: Seq<char>, b: Seq<char>)
    requires
        lex_lt(a, b),
    ensures
        !lex_lt(b, a),
    decreases a.len(),
{
    if a.len() > 0 && b.len() > 0 && a[0] == b[0] {
        lemma_lex_lt_asymmetric(a.drop_first(), b.drop_first());
    }
}

proof fn lemma_insert_keyed_ordered(s: Seq<(Seq<char>, Seq<char>)>, x: (Seq<char>, Seq<char>))
    requires
        key_ordered(s),
    ensures
        key_ordered(insert_keyed(s, x)),
        insert_keyed(s, x).len() == s.len() + 1,
        insert_keyed(s, x)[0] == x || (s.len() > 0 && insert_keyed(s, x)[0] == s[0]),
        insert_keyed(s, x).to_multiset() == s.to_multiset().insert(x),
    decreases s.len(),
{
    broadcast use vstd::seq_lib::lemma_multiset_commutative, vstd::seq_lib::to_multiset_build;
    broadcast use vstd::multiset::group_multiset_axioms;

    let r = insert_keyed(s, x);
    assert(seq![x] =~= Seq::<(Seq<char>, Seq<char>)>::empty().push(x));
    if s.len() == 0 {
        assert(s =~= Seq::<(Seq<char>, Seq<char>)>::empty());
        assert(r =~= s.push(x));
    } else if lex_lt(x.0, s[0].0) {
        lemma_lex_lt_asymmetric(x.0, s[0].0);
        assert forall|i: int| 0 < i < r.len() implies !lex_lt(#[trigger] r[i].0, r[i - 1].0) by {
            if i > 1 {
                assert(r[i] == s[i - 1]);
            }
        }
        assert(r =~= s.insert(0, x));
        assert(r.to_multiset() =~= s.to_multiset().insert(x)) by {
            vstd::seq_lib::to_multiset_insert(s, 0, x);
        }
    } else {
        let t = s.drop_first();
        assert forall|i: int| 0 < i < t.len() implies !lex_lt(#[trigger] t[i].0, t[i - 1].0) by {
            assert(t[i] == s[i + 1]);
        }
        lemma_insert_keyed_ordered(t, x);
        let u = insert_keyed(t, x);
        assert forall|i: int| 0 < i < r.len() implies !lex_lt(#[trigger] r[i].0, r[i - 1].0) by {
            assert(r[i] == u[i - 1]);
            if i == 1 {
                if u[0] != x {
                    assert(u[0] == s[1]);
                }
            }
        }
        assert(s =~= seq![s[0]] + t);
        assert(r.to_multiset() =~= seq![s[0]].to_multiset().add(u.to_multiset()));
        assert(s.to_multiset() =~= seq![s[0]].to_multiset().add(t.to_multiset()));
        assert(r.to_multiset() =~= s.to_multiset().insert(x));
    }
}

/// The stable sort puts its items in key order, each key no smaller than
/// the one before it, and keeps every item as often as it occurs.
pub proof fn lemma_keyed_sort_is_ordered_permutation(s: Seq<(Seq<char>, Seq<char>)>)
    ensures
        key_ordered(keyed_sort(s)),
        keyed_sort(s).to_multiset() == s.to_multiset(),
    decreases s.len(),
{
    broadcast use vstd::seq_lib::to_multiset_build;

    if s.len() > 0 {
        lemma_keyed_sort_is_ordered_permutation(s.drop_last());
        lemma_insert_keyed_ordered(keyed_sort(s.drop_last()), s.last());
        assert(s =~= s.drop_last().push(s.last()));
    }
}

proof fn lemma_names_of_multiset(a: Seq<(Seq<char>, Seq<char>)>, b: Seq<(Seq<char>, Seq<char>)>)
    requires
        a.to_multiset() == b.to_multiset(),
    ensures
        names_of(a).to_multiset() == names_of(b).to_multiset(),
    decreases a.len(),
{
    broadcast use vstd::seq_lib::to_multiset_build, vstd::seq_lib::to_multiset_remove,
        vstd::seq_lib::to_multiset_insert, vstd::seq_lib::to_multiset_len,
        vstd::seq_lib::to_multiset_contains;
    broadcast use vstd::multiset::group_multiset_axioms;

    if a.len() == 0 {
        assert(a.to_multiset().len() == 0);
        assert(b.to_multiset().len() == b.len());
        assert(names_of(a) =~= names_of(b));
    } else {
        let x = a.last();
        let a0 = a.drop_last();
        assert(a =~= a0.push(x));
        assert(b.to_multiset().count(x) > 0);
        assert(b.contains(x));
        let j = choose|j: int| 0 <= j < b.len() && b[j] == x;
        let b0 = b.remove(j);
        assert(a0.to_multiset() =~= b0.to_multiset());
        lemma_names_of_multiset(a0, b0);
        assert(names_of(a) =~= names_of(a0).push(x.1));
        assert(names_of(b) =~= names_of(b0).insert(j, x.1));
    }
}

/// Every item of the stable sort of `s` is an item of `s`.
proof fn lemma_keyed_sort_items(s: Seq<(Seq<char>, Seq<char>)>, i: int)
    requires
        0 <= i < keyed_sort(s).len(),
    ensures
        s.contains(keyed_sort(s)[i]),
{
    broadcast use vstd::seq_lib::to_multiset_contains;

    lemma_keyed_sort_is_ordered_permutation(s);
    let e = keyed_sort(s)[i];
    assert(keyed_sort(s).contains(e));
    assert(keyed_sort(s).to_multiset().count(e) > 0);
    assert(s.to_multiset().count(e) > 0);
}

/// A case-insensitive listing holds exactly the given names, each as often
/// as given, and no name's lowercase form comes before that of the name
/// ahead of it.
pub proof fn lemma_case_sorted_is_ordered_permutation(names: Seq<Seq<char>>)
    ensures
        case_sorted(names).to_multiset() == names.to_multiset(),
        forall|i: int|
            0 < i < case_sorted(names).len() ==> !lex_lt(
                lower_of(#[trigger] case_sorted(names)[i]),
                lower_of(case_sorted(names)[i - 1]),
            ),
{
    let pairs = pair_up(names.map_values(|n: Seq<char>| lower_of(n)), names);
    let sorted = keyed_sort(pairs);
    lemma_keyed_sort_is_ordered_permutation(pairs);
    lemma_names_of_multiset(sorted, pairs);
    assert(names_of(pairs) =~= names);
    assert forall|i: int| 0 < i < case_sorted(names).len() implies !lex_lt(
        lower_of(#[trigger] case_sorted(names)[i]),
        lower_of(case_sorted(names)[i - 1]),
    ) by {
        lemma_keyed_sort_items(pairs, i);
        lemma_keyed_sort_items(pairs, i - 1);
        assert(sorted[i].0 == lower_of(sorted[i].1));
        assert(sorted[i - 1].0 == lower_of(sorted[i - 1].1));
        assert(!lex_lt(sorted[i].0, sorted[i - 1].0));
    }
}

/// `names` sorted stably by the given keys, the key of `names[j]` being `keys[j]`.
pub fn sort_by_keys(keys: &Vec<String>, names: &Vec<String>) -> (r: Vec<String>)
    requires
        keys.len() == names.len(),
    ensures
        r.deep_view() == names_of(keyed_sort(pair_up(keys.deep_view(), names.deep_view()))),
{
    let ghost all = pair_up(keys.deep_view(), names.deep_view());
    let mut out_keys: Vec<String> = Vec::new();
    let mut out_names: Vec<String> = Vec::new();
    let mut i: usize = 0;
    assert(all.take(0) =~= Seq::<(Seq<char>, Seq<char>)>::empty());
    assert(pair_up(out_keys.deep_view(), out_names.deep_view()) =~= Seq::<(Seq<char>, Seq<char>)>::empty());
    while i < names.len()
        invariant
            keys.len() == names.len(),
            i <= names.len(),
            all == pair_up(keys.deep_view(), names.deep_view()),
            out_keys.len() == out_names.len(),
            pair_up(out_keys.deep_view(), out_names.deep_view()) == keyed_sort(all.take(i as int)),
        decreases names.len() - i,
    {
        let ghost sorted = pair_up(out_keys.deep_view(), out_names.deep_view());
        let ghost x = (keys[i as int]@, names[i as int]@);
        let mut p: usize = 0;
        while p < out_keys.len() && !less_than(keys[i].as_str(), out_keys[p].as_str())
            invariant
                p <= out_keys.len(),
                sorted == pair_up(out_keys.deep_view(), out_names.deep_view()),
                out_keys.len() == out_names.len(),
                i < keys.len(),
                x == (keys[i as int]@, names[i as int]@),
                forall|j: int| 0 <= j < p ==> !lex_lt(x.0, #[trigger] sorted[j].0),
            decreases out_keys.len() - p,
        {
            p = p + 1;
        }
        proof {
            lemma_insert_keyed_at(sorted, x, p as int);
            assert(all.take(i + 1).drop_last() =~= all.take(i as int));
            assert(all.take(i + 1).last() == x);
        }
        out_keys.insert(p, keys[i].clone());
        out_names.insert(p, names[i].clone());
        assert(pair_up(out_keys.deep_view(), out_names.deep_view()) =~= sorted.insert(p as int, x));
        i = i + 1;
    }
    assert(all.take(i as int) =~= all);
    let ghost fin = pair_up(out_keys.deep_view(), out_names.deep_view());
    assert(out_names.deep_view() =~= names_of(fin));
    out_names
}

/// `names` sorted stably by their lowercase forms.
pub fn sort_case_insensitive(names: &Vec<String>) -> (r: Vec<String>)
    ensures
        r.deep_view() == case_sorted(names.deep_view()),
{
    let mut keys: Vec<String> = Vec::new();
    let mut i: usize = 0;
    while i < names.len()
        invariant
            i <= names.len(),
            keys.len() == i,
            forall|j: int| 0 <= j < i ==> #[trigger] keys[j]@ == lower_of(names[j]@),
        decreases names.len() - i,
    {
        keys.push(lowercase(names[i].as_str()));
        i = i + 1;
    }
    assert(keys.deep_view() =~= names.deep_view().map_values(|n: Seq<char>| lower_of(n)));
    sort_by_keys(&keys, names)
}

/// What was found at a search directory.
#[derive(Debug)]
pub enum DirContents {
    /// The path does not exist or is not a directory.
    NotADirectory,
    /// The directory could not be enumerated; the cause.
    Unreadable(String),
    /// The directory's children, in the order enumerated.
    Children(Vec<DirChild>),
}

/// The outcome of listing one search directory.
#[derive(Debug)]
pub enum DirListing {
    NotADirectory,
    Unreadable(String),
    NoDesktopFiles,
    /// The entry file names, sorted case-insensitively.
    Files(Vec<String>),
}

/// A search directory and what was found there.
#[derive(Debug)]
pub struct DirScan {
    pub path: String,
    pub contents: DirContents,
}

/// A search directory and the outcome of listing it.
#[derive(Debug)]
pub struct DirReport {
    pub path: String,
    pub listing: DirListing,
}

/// `l` is the listing of a directory with contents `c`.
pub open spec fn listing_of(c: DirContents, l: DirListing) -> bool {
    match c {
        DirContents::NotADirectory => l matches DirListing::NotADirectory,
        DirContents::Unreadable(e) => l matches DirListing::Unreadable(m) && m@ == e@,
        DirContents::Children(ch) => if candidate_names(ch@).len() == 0 {
            l matches DirListing::NoDesktopFiles
        } else {
            l matches DirListing::Files(v) && v.deep_view() == case_sorted(candidate_names(ch@))
        },
    }
}

/// The listing of one search directory: its entry file names sorted
/// case-insensitively, or why there are none.
pub fn ls_one_dir(contents: &DirContents) -> (r: DirListing)
    ensures
        listing_of(*contents, r),
{
    match contents {
        DirContents::NotADirectory => DirListing::NotADirectory,
        DirContents::Unreadable(e) => DirListing::Unreadable(e.clone()),
        DirContents::Children(ch) => {
            let names = get_dir_desktop_files(ch);
            if names.len() == 0 {
                DirListing::NoDesktopFiles
            } else {
                DirListing::Files(sort_case_insensitive(&names))
            }
        },
    }
}

/// The listing of each search directory, in the order given.
pub fn ls(dirs: &Vec<DirScan>) -> (r: Vec<DirReport>)
    ensures
        r.len() == dirs.len(),
        forall|i: int|
            0 <= i < dirs.len() ==> #[trigger] r[i].path@ == dirs[i].path@ && listing_of(
                dirs[i].contents,
                r[i].listing,
            ),
{
    let mut r: Vec<DirReport> = Vec::new();
    let mut i: usize = 0;
    while i < dirs.len()
        invariant
            i <= dirs.len(),
            r.len() == i,
            forall|j: int|
                0 <= j < i ==> #[trigger] r[j].path@ == dirs[j].path@ && listing_of(
                    dirs[j].contents,
                    r[j].listing,
                ),
        decreases dirs.len() - i,
    {
        let d = &dirs[i];
        let report = DirReport { path: d.path.clone(), listing: ls_one_dir(&d.contents) };
        assert(listing_of(dirs[i as int].contents, report.listing));
        let ghost before = r@;
        r.push(report);
        assert(forall|j: int| 0 <= j < i ==> r[j] == before[j]);
        i = i + 1;
    }
    r
}

} // verus!
