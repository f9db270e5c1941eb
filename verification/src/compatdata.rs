//! The prefix scanner: enumerating compatibility prefixes from a directory
//! listing of the compatibility-data root, and discovering candidate save
//! folders under the fixed save-bearing locations of one prefix.
//!
//! The scanner itself performs no I/O: the surrounding layer reads the
//! directories and hands their listings in as plain values.

use vstd::prelude::*;
use vstd::multiset::Multiset;

use crate::config::{spec_compatdata_path, spec_drive_c_path, spec_user_path, Config};
use crate::strutil::{
    chars_lt, digits_val, is_numeric_id, lemma_chars_lt_asym, lower_of, lowercase, parse_u64,
    str_eq, str_lt,
};
use crate::SaveError;

verus! {

broadcast use vstd::string::group_string_axioms, vstd::seq_lib::group_to_multiset_ensures,
    vstd::multiset::group_multiset_axioms;

/// One immediate child of the compatibility-data root, as reported by the
/// surrounding layer: its name, whether it is a directory, and whether it
/// holds a child directory literally named `pfx`.
pub struct PrefixCandidate {
    /// The child's file name.
    pub name: String,
    /// Whether the child is a directory.
    pub is_dir: bool,
    /// Whether the child holds a child directory named `pfx`.
    pub has_pfx: bool,
}

/// One immediate child of a save-bearing location, as reported by the
/// surrounding layer.
pub struct DirEntryInfo {
    /// The child's file name.
    pub name: String,
    /// Whether the child is a directory.
    pub is_dir: bool,
}

/// A candidate is accepted as a prefix only if it is a directory holding a
/// `pfx` marker directory.
pub open spec fn is_valid_prefix(c: PrefixCandidate) -> bool {
    c.is_dir && c.has_pfx
}

/// Order of prefix identifiers: identifiers that both denote integers order
/// by value; any other pair orders lexicographically.
pub open spec fn id_lt(a: Seq<char>, b: Seq<char>) -> bool {
    if is_numeric_id(a) && is_numeric_id(b) {
        digits_val(a) < digits_val(b)
    } else {
        chars_lt(a, b)
    }
}

/// No identifier is ordered before its left neighbour.
pub open spec fn sorted_ids(s: Seq<String>) -> bool {
    forall|i: int| 0 <= i < s.len() - 1 ==> !id_lt(#[trigger] s[i + 1]@, s[i]@)
}

/// The identifier order is asymmetric.
proof fn lemma_id_lt_asym(a: Seq<char>, b: Seq<char>)
    requires
        id_lt(a, b),
    ensures
        !id_lt(b, a),
{
    if !(is_numeric_id(a) && is_numeric_id(b)) {
        lemma_chars_lt_asym(a, b);
    }
}

/// Compares two prefix identifiers: by integer value when both denote
/// integers, lexicographically otherwise.
pub fn id_lt_exec(a: &str, b: &str) -> (r: bool)
    ensures
        r == id_lt(a@, b@),
{
    match (parse_u64(a), parse_u64(b)) {
        (Some(x), Some(y)) => x < y,
        _ => str_lt(a, b),
    }
}

/// Inserting an identifier where the scan stopped keeps the order.
proof fn lemma_ids_insert_sorted(out0: Seq<String>, x: String, pos: int)
    requires
        sorted_ids(out0),
        0 <= pos <= out0.len(),
        forall|k: int| 0 <= k < pos ==> !id_lt(x@, #[trigger] out0[k]@),
        pos < out0.len() ==> id_lt(x@, out0[pos]@),
    ensures
        sorted_ids(out0.insert(pos, x)),
{
    out0.insert_ensures(pos, x);
    if pos < out0.len() {
        lemma_id_lt_asym(x@, out0[pos]@);
    }
    let out = out0.insert(pos, x);
    assert forall|i: int| 0 <= i < out.len() - 1 implies !id_lt(
        #[trigger] out[i + 1]@,
        out[i]@,
    ) by {
        if i + 1 < pos {
            assert(out[i] == out0[i]);
            assert(out[i + 1] == out0[i + 1]);
        } else if i + 1 == pos {
            assert(out[i] == out0[i]);
            assert(out[i + 1] == x);
        } else if i == pos {
            assert(out[i] == x);
            assert(out[i + 1] == out0[i]);
        } else {
            assert(out[i] == out0[i - 1]);
            assert(out[i + 1] == out0[i]);
        }
    }
}

/// Sorts prefix identifiers: the result is a rearrangement of the input in
/// which no identifier is ordered before its left neighbour.
pub fn sort_game_ids(ids: Vec<String>) -> (r: Vec<String>)
    ensures
        r@.to_multiset() == ids@.to_multiset(),
        sorted_ids(r@),
{
    let mut rest = ids;
    let mut out: Vec<String> = Vec::new();
    proof {
        assert(out@.to_multiset() =~= Multiset::<String>::empty());
        assert(out@.to_multiset().add(rest@.to_multiset()) =~= rest@.to_multiset());
    }
    while rest.len() > 0
        invariant
            out@.to_multiset().add(rest@.to_multiset()) == ids@.to_multiset(),
            sorted_ids(out@),
        decreases rest.len(),
    {
        let ghost rest0 = rest@;
        let x = rest.pop().unwrap();
        proof {
            assert(rest0.drop_last() =~= rest@);
            assert(rest0 =~= rest@.push(x));
            broadcast use vstd::seq_lib::to_multiset_build;

        }
        let mut pos: usize = 0;
        while pos < out.len() && !id_lt_exec(x.as_str(), out[pos].as_str())
            invariant
                0 <= pos <= out@.len(),
                forall|k: int| 0 <= k < pos ==> !id_lt(x@, #[trigger] out@[k]@),
            decreases out@.len() - pos,
        {
            pos = pos + 1;
        }
        let ghost out0 = out@;
        let ghost xv = x;
        out.insert(pos, x);
        proof {
            assert(out@ =~= out0.insert(pos as int, xv));
            assert(out@.to_multiset().add(rest@.to_multiset()) =~= out0.to_multiset().add(
                rest0.to_multiset(),
            ));
            lemma_ids_insert_sorted(out0, xv, pos as int);
        }
    }
    proof {
        assert(rest@.to_multiset() =~= Multiset::<String>::empty());
        assert(out@.to_multiset() =~= ids@.to_multiset());
    }
    out
}

/// Law: among identifiers that all denote integers, the sorted order is
/// ascending by integer value.
pub proof fn lemma_numeric_ids_sorted_by_value(s: Seq<String>, i: int, j: int)
    requires
        sorted_ids(s),
        forall|k: int| 0 <= k < s.len() ==> is_numeric_id(#[trigger] s[k]@),
        0 <= i <= j < s.len(),
    ensures
        digits_val(s[i]@) <= digits_val(s[j]@),
    decreases j - i,
{
    if i < j {
        assert(!id_lt(s[i + 1]@, s[i]@));
        lemma_numeric_ids_sorted_by_value(s, i + 1, j);
    }
}

/// Enumerates the prefixes of the compatibility-data root from its directory
/// listing, or reports that the root itself is missing. A child is accepted
/// exactly when it is a directory holding a `pfx` marker directory; accepted
/// identifiers are ordered by integer value where both sides denote integers
/// and lexicographically otherwise.
pub fn list_game_ids(listing: Option<Vec<PrefixCandidate>>) -> (r: Result<Vec<String>, SaveError>)
    ensures
        match r {
            Ok(ids) => {
                &&& listing matches Some(l)
                &&& ids@.map_values(|s: String| s@).to_multiset() == l@.filter(
                    |c: PrefixCandidate| is_valid_prefix(c),
                ).map_values(|c: PrefixCandidate| c.name@).to_multiset()
                &&& sorted_ids(ids@)
            },
            Err(e) => e == SaveError::NotFound && listing is None,
        },
{
    let l = match listing {
        Some(l) => l,
        None => {
            return Err(SaveError::NotFound);
        },
    };
    let ghost pred = |c: PrefixCandidate| is_valid_prefix(c);
    let ghost nm = |c: PrefixCandidate| c.name@;
    let ghost vw = |s: String| s@;
    let mut names: Vec<String> = Vec::new();
    let mut i: usize = 0;
    proof {
        reveal_with_fuel(Seq::filter, 3);
        assert(l@.subrange(0, 0).filter(pred) =~= Seq::<PrefixCandidate>::empty());
        assert(names@.map_values(vw).to_multiset() =~= l@.subrange(0, 0).filter(pred).map_values(
            nm,
        ).to_multiset());
    }
    while i < l.len()
        invariant
            0 <= i <= l@.len(),
            names@.map_values(vw).to_multiset() == l@.subrange(0, i as int).filter(
                pred,
            ).map_values(nm).to_multiset(),
            pred == (|c: PrefixCandidate| is_valid_prefix(c)),
            nm == (|c: PrefixCandidate| c.name@),
            vw == (|s: String| s@),
        decreases l@.len() - i,
    {
        let ghost names0 = names@;
        let ghost sub0 = l@.subrange(0, i as int);
        let ghost sub1 = l@.subrange(0, i as int + 1);
        proof {
            assert(sub1 =~= sub0 + seq![l@[i as int]]);
            broadcast use vstd::prelude::Seq::filter_distributes_over_add;

            reveal_with_fuel(Seq::filter, 3);
            assert(seq![l@[i as int]].drop_last() =~= Seq::<PrefixCandidate>::empty());
        }
        if l[i].is_dir && l[i].has_pfx {
            names.push(l[i].name.clone());
            proof {
                assert(seq![l@[i as int]].filter(pred) =~= seq![l@[i as int]]);
                assert(sub1.filter(pred) =~= sub0.filter(pred).push(l@[i as int]));
                assert(names@ =~= names0.push(l@[i as int].name));
                assert(names@.map_values(vw) =~= names0.map_values(vw).push(l@[i as int].name@));
                assert(sub1.filter(pred).map_values(nm) =~= sub0.filter(pred).map_values(nm).push(
                    l@[i as int].name@,
                ));
                broadcast use vstd::seq_lib::to_multiset_build;

            }
        } else {
            proof {
                assert(seq![l@[i as int]].filter(pred) =~= Seq::<PrefixCandidate>::empty());
                assert(sub1.filter(pred) =~= sub0.filter(pred));
            }
        }
        i = i + 1;
    }
    proof {
        assert(l@.subrange(0, l@.len() as int) =~= l@);
    }
    let sorted = sort_game_ids(names);
    proof {
        crate::compatdata::lemma_map_multiset_eq(sorted@, names@, vw);
    }
    Ok(sorted)
}

/// Law: an identifier is listed exactly when some child of the
/// compatibility-data root carries its name, is a directory, and holds a
/// `pfx` marker directory. The premise is what `list_game_ids` ensures of
/// its result.
pub proof fn lemma_listed_iff(l: Seq<PrefixCandidate>, ids: Seq<String>, name: Seq<char>)
    requires
        ids.map_values(|s: String| s@).to_multiset() == l.filter(
            |c: PrefixCandidate| is_valid_prefix(c),
        ).map_values(|c: PrefixCandidate| c.name@).to_multiset(),
    ensures
        (exists|k: int| 0 <= k < ids.len() && (#[trigger] ids[k]@) == name) <==> (exists|j: int|
            0 <= j < l.len() && is_valid_prefix(#[trigger] l[j]) && l[j].name@ == name),
{
    broadcast use vstd::seq_lib::group_filter_ensures;

    let pred = |c: PrefixCandidate| is_valid_prefix(c);
    let nm = |c: PrefixCandidate| c.name@;
    let vw = |s: String| s@;
    let fl = l.filter(pred);
    if exists|k: int| 0 <= k < ids.len() && (#[trigger] ids[k]@) == name {
        let k = choose|k: int| 0 <= k < ids.len() && (#[trigger] ids[k]@) == name;
        assert(ids.map_values(vw)[k] == name);
        assert(ids.map_values(vw).contains(name));
        assert(ids.map_values(vw).to_multiset().count(name) > 0);
        assert(fl.map_values(nm).contains(name));
        let m = choose|m: int| 0 <= m < fl.map_values(nm).len() && fl.map_values(nm)[m] == name;
        assert(pred(fl[m]));
        assert(fl.contains(fl[m]));
        l.lemma_filter_contains_rev(pred, fl[m]);
        let j = choose|j: int| 0 <= j < l.len() && l[j] == fl[m];
        assert(is_valid_prefix(l[j]) && l[j].name@ == name);
    }
    if exists|j: int| 0 <= j < l.len() && is_valid_prefix(#[trigger] l[j]) && l[j].name@ == name {
        let j = choose|j: int|
            0 <= j < l.len() && is_valid_prefix(#[trigger] l[j]) && l[j].name@ == name;
        assert(fl.contains(l[j]));
        let m = choose|m: int| 0 <= m < fl.len() && fl[m] == l[j];
        assert(fl.map_values(nm)[m] == name);
        assert(fl.map_values(nm).contains(name));
        assert(fl.map_values(nm).to_multiset().count(name) > 0);
        assert(ids.map_values(vw).contains(name));
        let k = choose|k: int| 0 <= k < ids.map_values(vw).len() && ids.map_values(vw)[k] == name;
        assert(ids[k]@ == name);
    }
}

/// The fixed, ordered save-bearing locations inside a prefix's user-profile
/// root.
pub open spec fn spec_save_paths() -> Seq<Seq<char>> {
    seq!["AppData/Local"@, "AppData/LocalLow"@, "AppData/Roaming"@, "Saved Games"@]
}

/// The fixed, ordered save-bearing locations inside a prefix's user-profile
/// root.
pub fn save_paths() -> (r: Vec<String>)
    ensures
        r@.len() == spec_save_paths().len(),
        forall|k: int| 0 <= k < r@.len() ==> (#[trigger] r@[k]@) == spec_save_paths()[k],
{
    let mut r: Vec<String> = Vec::new();
    r.push(String::from_str("AppData/Local"));
    r.push(String::from_str("AppData/LocalLow"));
    r.push(String::from_str("AppData/Roaming"));
    r.push(String::from_str("Saved Games"));
    r
}

/// OS and platform housekeeping folders that are never candidate save
/// folders, by case-sensitive exact name.
pub open spec fn is_ignored(name: Seq<char>) -> bool {
    ||| name == "Microsoft"@
    ||| name == "Temp"@
    ||| name == "Packages"@
    ||| name == "ConnectedDevicesPlatform"@
    ||| name == "Comms"@
    ||| name == "Apps"@
}

/// Tests a folder name against the fixed deny-list.
pub fn is_ignored_dir(name: &str) -> (r: bool)
    ensures
        r == is_ignored(name@),
{
    str_eq(name, "Microsoft") || str_eq(name, "Temp") || str_eq(name, "Packages") || str_eq(
        name,
        "ConnectedDevicesPlatform",
    ) || str_eq(name, "Comms") || str_eq(name, "Apps")
}

/// A child of a save-bearing location is a candidate save folder when it is
/// a directory whose name is not on the deny-list.
pub open spec fn is_candidate(c: DirEntryInfo) -> bool {
    c.is_dir && !is_ignored(c.name@)
}

/// Case-insensitive order of folder names.
pub open spec fn ci_lt(a: Seq<char>, b: Seq<char>) -> bool {
    chars_lt(lower_of(a), lower_of(b))
}

/// One discovered save folder inside a save-bearing location.
pub struct SaveEntry {
    /// The folder's name.
    pub name: String,
    /// The folder's full path.
    pub path: String,
}

/// No entry's name is ordered before its left neighbour's, case-insensitively.
pub open spec fn sorted_ci(s: Seq<SaveEntry>) -> bool {
    forall|i: int| 0 <= i < s.len() - 1 ==> !ci_lt(#[trigger] s[i + 1].name@, s[i].name@)
}

/// Compares two entries by lower-cased name.
fn entry_lt(a: &SaveEntry, b: &SaveEntry) -> (r: bool)
    ensures
        r == ci_lt(a.name@, b.name@),
{
    let la = lowercase(a.name.as_str());
    let lb = lowercase(b.name.as_str());
    str_lt(la.as_str(), lb.as_str())
}

/// Inserting an entry where the scan stopped keeps the order.
proof fn lemma_entries_insert_sorted(out0: Seq<SaveEntry>, x: SaveEntry, pos: int)
    requires
        sorted_ci(out0),
        0 <= pos <= out0.len(),
        forall|k: int| 0 <= k < pos ==> !ci_lt(x.name@, (#[trigger] out0[k]).name@),
        pos < out0.len() ==> ci_lt(x.name@, out0[pos].name@),
    ensures
        sorted_ci(out0.insert(pos, x)),
{
    out0.insert_ensures(pos, x);
    if pos < out0.len() {
        lemma_chars_lt_asym(lower_of(x.name@), lower_of(out0[pos].name@));
    }
    let out = out0.insert(pos, x);
    assert forall|i: int| 0 <= i < out.len() - 1 implies !ci_lt(
        (#[trigger] out[i + 1]).name@,
        out[i].name@,
    ) by {
        if i + 1 < pos {
            assert(out[i] == out0[i]);
            assert(out[i + 1] == out0[i + 1]);
        } else if i + 1 == pos {
            assert(out[i] == out0[i]);
            assert(out[i + 1] == x);
        } else if i == pos {
            assert(out[i] == x);
            assert(out[i + 1] == out0[i]);
        } else {
            assert(out[i] == out0[i - 1]);
            assert(out[i + 1] == out0[i]);
        }
    }
}

/// Sorts discovered save folders by case-insensitive name: the result is a
/// rearrangement of the input in which no name is ordered before its left
/// neighbour's.
pub fn sort_save_entries(entries: Vec<SaveEntry>) -> (r: Vec<SaveEntry>)
    ensures
        r@.to_multiset() == entries@.to_multiset(),
        sorted_ci(r@),
{
    let mut rest = entries;
    let mut out: Vec<SaveEntry> = Vec::new();
    proof {
        assert(out@.to_multiset() =~= Multiset::<SaveEntry>::empty());
        assert(out@.to_multiset().add(rest@.to_multiset()) =~= rest@.to_multiset());
    }
    while rest.len() > 0
        invariant
            out@.to_multiset().add(rest@.to_multiset()) == entries@.to_multiset(),
            sorted_ci(out@),
        decreases rest.len(),
    {
        let ghost rest0 = rest@;
        let x = rest.pop().unwrap();
        proof {
            assert(rest0.drop_last() =~= rest@);
            assert(rest0 =~= rest@.push(x));
        }
        let mut pos: usize = 0;
        while pos < out.len() && !entry_lt(&x, &out[pos])
            invariant
                0 <= pos <= out@.len(),
                forall|k: int| 0 <= k < pos ==> !ci_lt(x.name@, (#[trigger] out@[k]).name@),
            decreases out@.len() - pos,
        {
            pos = pos + 1;
        }
        let ghost out0 = out@;
        let ghost xv = x;
        out.insert(pos, x);
        proof {
            assert(out@ =~= out0.insert(pos as int, xv));
            assert(out@.to_multiset().add(rest@.to_multiset()) =~= out0.to_multiset().add(
                rest0.to_multiset(),
            ));
            lemma_entries_insert_sorted(out0, xv, pos as int);
        }
    }
    proof {
        assert(rest@.to_multiset() =~= Multiset::<SaveEntry>::empty());
        assert(out@.to_multiset() =~= entries@.to_multiset());
    }
    out
}

/// The discovered save folders of one save-bearing location: exactly the
/// children that are directories off the deny-list, each with its full path
/// under the location, ordered case-insensitively by name.
pub open spec fn candidates_of(
    loc_path: Seq<char>,
    children: Seq<DirEntryInfo>,
    entries: Seq<SaveEntry>,
) -> bool {
    &&& entries.map_values(|e: SaveEntry| e.name@).to_multiset() == children.filter(
        |c: DirEntryInfo| is_candidate(c),
    ).map_values(|c: DirEntryInfo| c.name@).to_multiset()
    &&& sorted_ci(entries)
    &&& forall|j: int|
        0 <= j < entries.len() ==> (#[trigger] entries[j].path@) == loc_path + "/"@
            + entries[j].name@
}

/// Discovers the candidate save folders of one save-bearing location from its
/// directory listing: directories off the deny-list, sorted by
/// case-insensitive name, each given its full path under the location.
pub fn collect_candidates(loc_path: &str, children: &Vec<DirEntryInfo>) -> (r: Vec<SaveEntry>)
    ensures
        candidates_of(loc_path@, children@, r@),
{
    let ghost pred = |c: DirEntryInfo| is_candidate(c);
    let ghost nm = |c: DirEntryInfo| c.name@;
    let ghost enm = |e: SaveEntry| e.name@;
    let mut picked: Vec<SaveEntry> = Vec::new();
    let mut i: usize = 0;
    proof {
        reveal_with_fuel(Seq::filter, 3);
        assert(children@.subrange(0, 0).filter(pred) =~= Seq::<DirEntryInfo>::empty());
        assert(picked@.map_values(enm).to_multiset() =~= children@.subrange(0, 0).filter(
            pred,
        ).map_values(nm).to_multiset());
    }
    while i < children.len()
        invariant
            0 <= i <= children@.len(),
            picked@.map_values(enm).to_multiset() == children@.subrange(0, i as int).filter(
                pred,
            ).map_values(nm).to_multiset(),
            forall|j: int|
                0 <= j < picked@.len() ==> (#[trigger] picked@[j].path@) == loc_path@ + "/"@
                    + picked@[j].name@,
            pred == (|c: DirEntryInfo| is_candidate(c)),
            nm == (|c: DirEntryInfo| c.name@),
            enm == (|e: SaveEntry| e.name@),
        decreases children@.len() - i,
    {
        let ghost picked0 = picked@;
        let ghost sub0 = children@.subrange(0, i as int);
        let ghost sub1 = children@.subrange(0, i as int + 1);
        proof {
            assert(sub1 =~= sub0 + seq![children@[i as int]]);
            broadcast use vstd::prelude::Seq::filter_distributes_over_add;

            reveal_with_fuel(Seq::filter, 3);
            assert(seq![children@[i as int]].drop_last() =~= Seq::<DirEntryInfo>::empty());
        }
        if children[i].is_dir && !is_ignored_dir(children[i].name.as_str()) {
            let path = String::from_str(loc_path).concat("/").concat(children[i].name.as_str());
            picked.push(SaveEntry { name: children[i].name.clone(), path });
            proof {
                assert(seq![children@[i as int]].filter(pred) =~= seq![children@[i as int]]);
                assert(sub1.filter(pred) =~= sub0.filter(pred).push(children@[i as int]));
                assert(picked@ =~= picked0.push(picked@.last()));
                assert(picked@.map_values(enm) =~= picked0.map_values(enm).push(
                    children@[i as int].name@,
                ));
                assert(sub1.filter(pred).map_values(nm) =~= sub0.filter(pred).map_values(nm).push(
                    children@[i as int].name@,
                ));
            }
        } else {
            proof {
                assert(seq![children@[i as int]].filter(pred) =~= Seq::<DirEntryInfo>::empty());
                assert(sub1.filter(pred) =~= sub0.filter(pred));
            }
        }
        i = i + 1;
    }
    proof {
        assert(children@.subrange(0, children@.len() as int) =~= children@);
    }
    let sorted = sort_save_entries(picked);
    proof {
        lemma_map_multiset_eq(sorted@, picked@, enm);
        assert forall|j: int| 0 <= j < sorted@.len() implies (#[trigger] sorted@[j].path@)
            == loc_path@ + "/"@ + sorted@[j].name@ by {
            assert(sorted@.contains(sorted@[j]));
            assert(sorted@.to_multiset().count(sorted@[j]) > 0);
            assert(picked@.contains(sorted@[j]));
            let jj = choose|jj: int| 0 <= jj < picked@.len() && picked@[jj] == sorted@[j];
            assert(picked@[jj].path@ == loc_path@ + "/"@ + picked@[jj].name@);
        }
    }
    sorted
}

/// One save-bearing location of a prefix and the save folders found in it.
pub struct SaveLocation {
    /// The location's full path.
    pub path: String,
    /// The location's fixed path relative to the user-profile root.
    pub relative_path: String,
    /// The candidate save folders found in the location.
    pub entries: Vec<SaveEntry>,
}

/// One compatibility prefix: its identifier, its derived paths, and the save
/// locations discovered in it.
pub struct PrefixData {
    /// The prefix's identifier.
    pub game_id: String,
    /// The prefix's root directory.
    pub path: String,
    /// The prefix's emulated Windows drive root.
    pub drive_c_path: String,
    /// The prefix's user-profile root.
    pub user_path: String,
    /// The save-bearing locations discovered in the prefix.
    pub save_locations: Vec<SaveLocation>,
}

/// The indices of the listings that are present, in order, among the first
/// `n`.
pub open spec fn present_idx(listings: Seq<Option<Vec<DirEntryInfo>>>, n: int) -> Seq<int>
    decreases n,
{
    if n <= 0 {
        Seq::empty()
    } else if listings[n - 1] is Some {
        present_idx(listings, n - 1).push(n - 1)
    } else {
        present_idx(listings, n - 1)
    }
}

/// Every present index lies among the first `n`.
proof fn lemma_present_bounds(listings: Seq<Option<Vec<DirEntryInfo>>>, n: int)
    requires
        n >= 0,
    ensures
        forall|m: int|
            0 <= m < present_idx(listings, n).len() ==> 0 <= #[trigger] present_idx(listings, n)[m]
                < n,
    decreases n,
{
    if n > 0 {
        lemma_present_bounds(listings, n - 1);
        let prev = present_idx(listings, n - 1);
        if listings[n - 1] is Some {
            assert forall|m: int| 0 <= m < prev.push(n - 1).len() implies 0 <= #[trigger] prev.push(
                n - 1,
            )[m] < n by {
                if m < prev.len() {
                    assert(prev.push(n - 1)[m] == prev[m]);
                } else {
                    assert(prev.push(n - 1)[m] == n - 1);
                }
            }
        }
    }
}

/// Law: a save-bearing location appears in the scan exactly when its listing
/// is present; a missing location is omitted, not reported as empty.
pub proof fn lemma_present_exactly(listings: Seq<Option<Vec<DirEntryInfo>>>, n: int, k: int)
    requires
        0 <= k < n,
    ensures
        present_idx(listings, n).contains(k) <==> listings[k] is Some,
    decreases n,
{
    lemma_present_bounds(listings, n - 1);
    if k < n - 1 {
        lemma_present_exactly(listings, n - 1, k);
        if listings[n - 1] is Some {
            let prev = present_idx(listings, n - 1);
            assert(prev.push(n - 1)[prev.len() as int] == n - 1);
            assert forall|m: int|
                0 <= m < prev.push(n - 1).len() && #[trigger] prev.push(n - 1)[m] == k implies prev.contains(
                k,
            ) by {
                assert(m < prev.len());
            }
            if prev.contains(k) {
                let m = choose|m: int| 0 <= m < prev.len() && prev[m] == k;
                assert(prev.push(n - 1)[m] == k);
            }
        }
    } else {
        let prev = present_idx(listings, n - 1);
        if listings[k] is Some {
            assert(prev.push(k)[prev.len() as int] == k);
        } else {
            if prev.contains(k) {
                let m = choose|m: int| 0 <= m < prev.len() && prev[m] == k;
            }
        }
    }
}

impl PrefixData {
    /// Assembles the derived paths of the prefix for `game_id`; its save
    /// locations start empty and are filled by a scan.
    pub fn new(config: &Config, game_id: &str) -> (r: PrefixData)
        ensures
            r.game_id@ == game_id@,
            r.path@ == spec_compatdata_path(config.data.steam_path@) + "/"@ + game_id@,
            r.drive_c_path@ == spec_drive_c_path(config.data.steam_path@, game_id@),
            r.user_path@ == spec_user_path(config.data.steam_path@, game_id@),
            r.save_locations@.len() == 0,
    {
        PrefixData {
            game_id: String::from_str(game_id),
            path: config.compatdata_path().concat("/").concat(game_id),
            drive_c_path: config.drive_c_path(game_id),
            user_path: config.user_path(game_id),
            save_locations: Vec::new(),
        }
    }

    /// Rebuilds the prefix's save locations from the listings of the four
    /// fixed save-bearing locations, in their fixed order. A listing that is
    /// absent (the location does not exist on disk) is omitted from the
    /// result; a present listing contributes its candidate save folders.
    pub fn scan_save_locations(&mut self, listings: Vec<Option<Vec<DirEntryInfo>>>)
        requires
            listings@.len() == spec_save_paths().len(),
        ensures
            final(self).game_id == old(self).game_id,
            final(self).path == old(self).path,
            final(self).drive_c_path == old(self).drive_c_path,
            final(self).user_path == old(self).user_path,
            final(self).save_locations@.len() == present_idx(listings@, listings@.len() as int).len(),
            forall|m: int|
                0 <= m < present_idx(listings@, listings@.len() as int).len() ==> {
                    let k = present_idx(listings@, listings@.len() as int)[m];
                    let loc = #[trigger] final(self).save_locations@[m];
                    &&& loc.relative_path@ == spec_save_paths()[k]
                    &&& loc.path@ == old(self).user_path@ + "/"@ + spec_save_paths()[k]
                    &&& candidates_of(loc.path@, listings@[k]->0@, loc.entries@)
                },
    {
        let mut rels: Vec<&'static str> = Vec::new();
        rels.push("AppData/Local");
        rels.push("AppData/LocalLow");
        rels.push("AppData/Roaming");
        rels.push("Saved Games");
        self.save_locations = Vec::new();
        let mut k: usize = 0;
        proof {
            lemma_present_bounds(listings@, listings@.len() as int);
        }
        while k < 4
            invariant
                0 <= k <= 4,
                listings@.len() == 4,
                rels@.len() == 4,
                forall|q: int| 0 <= q < 4 ==> (#[trigger] rels@[q]@) == spec_save_paths()[q],
                self.game_id == old(self).game_id,
                self.path == old(self).path,
                self.drive_c_path == old(self).drive_c_path,
                self.user_path == old(self).user_path,
                self.save_locations@.len() == present_idx(listings@, k as int).len(),
                forall|m: int|
                    0 <= m < present_idx(listings@, k as int).len() ==> {
                        let kk = present_idx(listings@, k as int)[m];
                        let loc = #[trigger] self.save_locations@[m];
                        &&& loc.relative_path@ == spec_save_paths()[kk]
                        &&& loc.path@ == old(self).user_path@ + "/"@ + spec_save_paths()[kk]
                        &&& candidates_of(loc.path@, listings@[kk]->0@, loc.entries@)
                    },
            decreases 4 - k,
        {
            proof {
                lemma_present_bounds(listings@, k as int);
            }
            if let Some(children) = &listings[k] {
                let loc_path = self.user_path.clone().concat("/").concat(rels[k]);
                let entries = collect_candidates(loc_path.as_str(), children);
                let ghost locs0 = self.save_locations@;
                self.save_locations.push(
                    SaveLocation {
                        path: loc_path,
                        relative_path: String::from_str(rels[k]),
                        entries,
                    },
                );
                proof {
                    assert(present_idx(listings@, k as int + 1) =~= present_idx(
                        listings@,
                        k as int,
                    ).push(k as int));
                }
            }
            k = k + 1;
        }
    }
}

/// A rearrangement of a sequence maps to a rearrangement of its images.
proof fn lemma_map_multiset_eq<A, B>(s1: Seq<A>, s2: Seq<A>, f: spec_fn(A) -> B)
    requires
        s1.to_multiset() == s2.to_multiset(),
    ensures
        s1.map_values(f).to_multiset() == s2.map_values(f).to_multiset(),
    decreases s1.len(),
{
    broadcast use vstd::seq_lib::group_to_multiset_ensures;

    if s1.len() == 0 {
        assert(s1.to_multiset().len() == s1.len());
        assert(s2.to_multiset().len() == s2.len());
        assert(s2.len() == 0);
        assert(s1.map_values(f) =~= Seq::<B>::empty());
        assert(s2.map_values(f) =~= Seq::<B>::empty());
        assert(s1.map_values(f).to_multiset() =~= s2.map_values(f).to_multiset());
    } else {
        let x = s1.last();
        assert(s1 =~= s1.drop_last().push(x));
        assert(s1.to_multiset().count(x) > 0);
        assert(s2.to_multiset().count(x) > 0);
        assert(s2.contains(x));
        let j = choose|j: int| 0 <= j < s2.len() && s2[j] == x;
        assert(s1.drop_last().to_multiset() =~= s1.to_multiset().remove(x));
        assert(s2.remove(j).to_multiset() == s2.to_multiset().remove(x));
        lemma_map_multiset_eq(s1.drop_last(), s2.remove(j), f);
        assert(s1.map_values(f) =~= s1.drop_last().map_values(f).push(f(x)));
        assert(s2.remove(j).map_values(f) =~= s2.map_values(f).remove(j));
        assert(s2.map_values(f).remove(j).to_multiset() == s2.map_values(f).to_multiset().remove(
            s2.map_values(f)[j],
        ));
        assert(s2.map_values(f)[j] == f(x));
        assert(s1.map_values(f).to_multiset() =~= s1.drop_last().map_values(f).to_multiset().insert(
            f(x),
        ));
        assert(s2.map_values(f).to_multiset() =~= s2.map_values(f).to_multiset().remove(
            f(x),
        ).insert(f(x)));
    }
}

} // verus!
