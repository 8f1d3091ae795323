//! The catalogue of games under an installation root.
//!
//! A listing of the root's entries comes in; each sub-directory that holds
//! one of the two library directories is a game, and a directory named after
//! a game with `_hd` or `_addon` behind it is that game's variant.

use crate::text::{decimal, decimal_string, ends_with, has_suffix, join_lines, join_with_newlines};
use vstd::prelude::*;

verus! {

/// Ending of the directory that holds a game's high-definition variant.
pub const HD_GAME: &'static str = "_hd";

/// Ending of the directory that holds a game's addon variant.
pub const ADDON_GAME: &'static str = "_addon";

/// Directory of a game's server library.
pub const DLLS_DIR: &'static str = "dlls";

/// Directory of a game's client library.
pub const CL_DLLS_DIR: &'static str = "cl_dlls";

/// One entry of the installation root, as its listing shows it.
#[derive(Clone, Debug, PartialEq, Eq)]
pub struct SubDir {
    /// The entry's file name.
    pub name: String,
    /// Whether the entry is a directory.
    pub is_dir: bool,
    /// Whether it holds a directory `dlls`.
    pub has_dlls: bool,
    /// Whether it holds a directory `cl_dlls`.
    pub has_cl_dlls: bool,
}

/// One game, with the variants found beside it.
#[derive(Clone, Debug, PartialEq, Eq)]
pub struct DirType {
    pub name: String,
    pub has_hd: bool,
    pub has_addon: bool,
}

/// What a `SubDir` stands for.
pub ghost struct SubDirView {
    pub name: Seq<char>,
    pub is_dir: bool,
    pub has_dlls: bool,
    pub has_cl_dlls: bool,
}

/// What a `DirType` stands for.
pub ghost struct DirTypeView {
    pub name: Seq<char>,
    pub has_hd: bool,
    pub has_addon: bool,
}

impl DeepView for SubDir {
    type V = SubDirView;

    open spec fn deep_view(&self) -> SubDirView {
        SubDirView {
            name: self.name@,
            is_dir: self.is_dir,
            has_dlls: self.has_dlls,
            has_cl_dlls: self.has_cl_dlls,
        }
    }
}

impl DeepView for DirType {
    type V = DirTypeView;

    open spec fn deep_view(&self) -> DirTypeView {
        DirTypeView { name: self.name@, has_hd: self.has_hd, has_addon: self.has_addon }
    }
}

pub open spec fn hd_suffix() -> Seq<char> {
    seq!['_', 'h', 'd']
}

pub open spec fn addon_suffix() -> Seq<char> {
    seq!['_', 'a', 'd', 'd', 'o', 'n']
}

/// Whether a directory of this name is the high-definition variant of a game.
pub open spec fn is_hd_name(name: Seq<char>) -> bool {
    ends_with(name, hd_suffix())
}

/// Whether a directory of this name is the addon variant of a game.
pub open spec fn is_addon_name(name: Seq<char>) -> bool {
    ends_with(name, addon_suffix())
}

pub open spec fn is_variant_name(name: Seq<char>) -> bool {
    is_hd_name(name) || is_addon_name(name)
}

/// The name of the game that a directory belongs to: the directory's name
/// without any variant ending.
pub open spec fn base_name(name: Seq<char>) -> Seq<char>
    decreases name.len(),
{
    if is_hd_name(name) {
        base_name(name.take(name.len() - 3))
    } else if is_addon_name(name) {
        base_name(name.take(name.len() - 6))
    } else {
        name
    }
}

/// Whether the entry holds one of the two library directories.
pub open spec fn is_marked(e: SubDirView) -> bool {
    e.has_dlls || e.has_cl_dlls
}

/// Whether the entry adds to the catalogue: a directory that is a game or a
/// variant.
pub open spec fn counts(e: SubDirView) -> bool {
    e.is_dir && (is_marked(e) || is_variant_name(e.name))
}

/// Index of the first game called `name`, or the length where there is none.
pub open spec fn position(types: Seq<DirTypeView>, name: Seq<char>) -> int
    decreases types.len(),
{
    if types.len() == 0 {
        0
    } else if types[0].name == name {
        0
    } else {
        1 + position(types.skip(1), name)
    }
}

/// The catalogue after one more entry of the listing.
pub open spec fn record(types: Seq<DirTypeView>, e: SubDirView) -> Seq<DirTypeView> {
    let name = base_name(e.name);
    let at = position(types, name);
    if !counts(e) {
        types
    } else if at < types.len() {
        types.update(
            at,
            DirTypeView {
                name,
                has_hd: types[at].has_hd || is_hd_name(e.name),
                has_addon: types[at].has_addon || is_addon_name(e.name),
            },
        )
    } else {
        types.push(
            DirTypeView { name, has_hd: is_hd_name(e.name), has_addon: is_addon_name(e.name) },
        )
    }
}

/// The catalogue of a listing: its games in the order in which the listing
/// first shows them, each with the variants that the listing holds.
pub open spec fn classify(entries: Seq<SubDirView>) -> Seq<DirTypeView>
    decreases entries.len(),
{
    if entries.len() == 0 {
        seq![]
    } else {
        record(classify(entries.drop_last()), entries.last())
    }
}

/// Whether a game called `name` is in the catalogue.
pub open spec fn has_name(types: Seq<DirTypeView>, name: Seq<char>) -> bool {
    exists|i: int| 0 <= i < types.len() && types[i].name == name
}

/// Whether no two games of the catalogue share a name.
pub open spec fn names_distinct(types: Seq<DirTypeView>) -> bool {
    forall|i: int, j: int| 0 <= i < j < types.len() ==> types[i].name != types[j].name
}

/// The directory names that belong to a game: its own, then those of the
/// variants it has.
pub open spec fn dir_names_of(t: DirTypeView) -> Seq<Seq<char>> {
    let hd = if t.has_hd {
        seq![t.name + hd_suffix()]
    } else {
        seq![]
    };
    let addon = if t.has_addon {
        seq![t.name + addon_suffix()]
    } else {
        seq![]
    };
    seq![t.name] + hd + addon
}

/// The names of the catalogue's games, in order.
pub open spec fn names_of(types: Seq<DirTypeView>) -> Seq<Seq<char>> {
    Seq::new(types.len(), |i: int| types[i].name)
}

pub proof fn lemma_suffix_literals()
    ensures
        HD_GAME@ == hd_suffix(),
        ADDON_GAME@ == addon_suffix(),
{
    reveal_strlit("_hd");
    reveal_strlit("_addon");
    assert(HD_GAME@ =~= hd_suffix());
    assert(ADDON_GAME@ =~= addon_suffix());
}

/// A game's name has no variant ending left.
pub proof fn lemma_base_name_plain(name: Seq<char>)
    ensures
        !is_variant_name(base_name(name)),
        base_name(name).len() <= name.len(),
        !is_variant_name(name) ==> base_name(name) == name,
    decreases name.len(),
{
    if is_hd_name(name) {
        lemma_base_name_plain(name.take(name.len() - 3));
    } else if is_addon_name(name) {
        lemma_base_name_plain(name.take(name.len() - 6));
    }
}

/// `position` is the first index that holds the name.
pub proof fn lemma_position(types: Seq<DirTypeView>, name: Seq<char>)
    ensures
        0 <= position(types, name) <= types.len(),
        forall|k: int| 0 <= k < position(types, name) ==> types[k].name != name,
        position(types, name) < types.len() ==> types[position(types, name)].name == name,
        position(types, name) < types.len() <==> has_name(types, name),
    decreases types.len(),
{
    if types.len() > 0 && types[0].name != name {
        let rest = types.skip(1);
        lemma_position(rest, name);
        let p = position(rest, name);
        assert forall|k: int| 0 <= k < p + 1 implies types[k].name != name by {
            if k > 0 {
                assert(rest[k - 1].name != name);
            }
        }
        if p < rest.len() {
            assert(types[p + 1].name == rest[p].name);
        }
        if has_name(types, name) {
            let i = choose|i: int| 0 <= i < types.len() && types[i].name == name;
            assert(rest[i - 1].name == name);
        }
    } else if types.len() > 0 {
        assert(types[0].name == name);
    }
}

/// The index at which a search from the front finds the name.
pub proof fn lemma_position_found(types: Seq<DirTypeView>, name: Seq<char>, at: int)
    requires
        0 <= at <= types.len(),
        forall|k: int| 0 <= k < at ==> types[k].name != name,
        at < types.len() ==> types[at].name == name,
    ensures
        position(types, name) == at,
{
    lemma_position(types, name);
    let p = position(types, name);
    if p < at {
        assert(types[p].name == name);
    }
}

/// Whether the listing holds a directory that belongs to the game `name`.
pub open spec fn listed(entries: Seq<SubDirView>, name: Seq<char>) -> bool {
    exists|j: int|
        0 <= j < entries.len() && counts(entries[j]) && base_name(entries[j].name) == name
}

/// Whether the listing holds the high-definition variant of the game `name`.
pub open spec fn listed_hd(entries: Seq<SubDirView>, name: Seq<char>) -> bool {
    exists|j: int|
        0 <= j < entries.len() && entries[j].is_dir && is_hd_name(entries[j].name) && base_name(
            entries[j].name,
        ) == name
}

/// Whether the listing holds the addon variant of the game `name`.
pub open spec fn listed_addon(entries: Seq<SubDirView>, name: Seq<char>) -> bool {
    exists|j: int|
        0 <= j < entries.len() && entries[j].is_dir && is_addon_name(entries[j].name) && base_name(
            entries[j].name,
        ) == name
}

/// Whether the catalogue holds the game `name` with its high-definition variant.
pub open spec fn has_hd_of(types: Seq<DirTypeView>, name: Seq<char>) -> bool {
    exists|i: int| 0 <= i < types.len() && types[i].name == name && types[i].has_hd
}

/// Whether the catalogue holds the game `name` with its addon variant.
pub open spec fn has_addon_of(types: Seq<DirTypeView>, name: Seq<char>) -> bool {
    exists|i: int| 0 <= i < types.len() && types[i].name == name && types[i].has_addon
}

/// Whether every game of the catalogue has a name without variant ending.
pub open spec fn names_plain(types: Seq<DirTypeView>) -> bool {
    forall|i: int| 0 <= i < types.len() ==> !is_variant_name(#[trigger] types[i].name)
}

/// What one more entry of the listing does to the catalogue.
pub proof fn lemma_record(types: Seq<DirTypeView>, e: SubDirView)
    requires
        names_distinct(types),
        names_plain(types),
    ensures
        names_distinct(record(types, e)),
        names_plain(record(types, e)),
        forall|name: Seq<char>|
            has_name(record(types, e), name) <==> has_name(types, name) || (counts(e) && base_name(
                e.name,
            ) == name),
        forall|name: Seq<char>|
            has_hd_of(record(types, e), name) <==> has_hd_of(types, name) || (e.is_dir
                && is_hd_name(e.name) && base_name(e.name) == name),
        forall|name: Seq<char>|
            has_addon_of(record(types, e), name) <==> has_addon_of(types, name) || (e.is_dir
                && is_addon_name(e.name) && base_name(e.name) == name),
{
    let base = base_name(e.name);
    let at = position(types, base);
    let r = record(types, e);
    lemma_position(types, base);
    lemma_base_name_plain(e.name);
    if counts(e) {
        if at < types.len() {
            assert(r.len() == types.len());
            assert forall|i: int| 0 <= i < r.len() implies r[i].name == types[i].name by {}
            assert forall|name: Seq<char>|
                has_name(r, name) <==> has_name(types, name) || base == name by {
                if has_name(r, name) {
                    let i = choose|i: int| 0 <= i < r.len() && r[i].name == name;
                    assert(types[i].name == name);
                }
                if has_name(types, name) {
                    let i = choose|i: int| 0 <= i < types.len() && types[i].name == name;
                    assert(r[i].name == name);
                }
                if base == name {
                    assert(r[at].name == name);
                }
            }
            assert forall|name: Seq<char>|
                has_hd_of(r, name) <==> has_hd_of(types, name) || (is_hd_name(e.name) && base
                    == name) by {
                if has_hd_of(r, name) {
                    let i = choose|i: int| 0 <= i < r.len() && r[i].name == name && r[i].has_hd;
                    if i != at {
                        assert(types[i].name == name && types[i].has_hd);
                    } else if !is_hd_name(e.name) {
                        assert(types[i].name == name && types[i].has_hd);
                    }
                }
                if has_hd_of(types, name) {
                    let i = choose|i: int|
                        0 <= i < types.len() && types[i].name == name && types[i].has_hd;
                    assert(r[i].name == name && r[i].has_hd);
                }
                if is_hd_name(e.name) && base == name {
                    assert(r[at].name == name && r[at].has_hd);
                }
            }
            assert forall|name: Seq<char>|
                has_addon_of(r, name) <==> has_addon_of(types, name) || (is_addon_name(e.name)
                    && base == name) by {
                if has_addon_of(r, name) {
                    let i = choose|i: int|
                        0 <= i < r.len() && r[i].name == name && r[i].has_addon;
                    if i != at {
                        assert(types[i].name == name && types[i].has_addon);
                    } else if !is_addon_name(e.name) {
                        assert(types[i].name == name && types[i].has_addon);
                    }
                }
                if has_addon_of(types, name) {
                    let i = choose|i: int|
                        0 <= i < types.len() && types[i].name == name && types[i].has_addon;
                    assert(r[i].name == name && r[i].has_addon);
                }
                if is_addon_name(e.name) && base == name {
                    assert(r[at].name == name && r[at].has_addon);
                }
            }
        } else {
            let last = types.len() as int;
            assert(!has_name(types, base));
            assert forall|i: int, j: int| 0 <= i < j < r.len() implies r[i].name != r[j].name by {
                if j == last {
                    assert(types[i].name != base);
                }
            }
            assert forall|name: Seq<char>|
                has_name(r, name) <==> has_name(types, name) || base == name by {
                if has_name(r, name) {
                    let i = choose|i: int| 0 <= i < r.len() && r[i].name == name;
                    if i < last {
                        assert(types[i].name == name);
                    }
                }
                if has_name(types, name) {
                    let i = choose|i: int| 0 <= i < types.len() && types[i].name == name;
                    assert(r[i].name == name);
                }
                if base == name {
                    assert(r[last].name == name);
                }
            }
            assert forall|name: Seq<char>|
                has_hd_of(r, name) <==> has_hd_of(types, name) || (is_hd_name(e.name) && base
                    == name) by {
                if has_hd_of(r, name) {
                    let i = choose|i: int| 0 <= i < r.len() && r[i].name == name && r[i].has_hd;
                    if i < last {
                        assert(types[i].name == name && types[i].has_hd);
                    }
                }
                if has_hd_of(types, name) {
                    let i = choose|i: int|
                        0 <= i < types.len() && types[i].name == name && types[i].has_hd;
                    assert(r[i].name == name && r[i].has_hd);
                }
                if is_hd_name(e.name) && base == name {
                    assert(r[last].name == name && r[last].has_hd);
                }
            }
            assert forall|name: Seq<char>|
                has_addon_of(r, name) <==> has_addon_of(types, name) || (is_addon_name(e.name)
                    && base == name) by {
                if has_addon_of(r, name) {
                    let i = choose|i: int|
                        0 <= i < r.len() && r[i].name == name && r[i].has_addon;
                    if i < last {
                        assert(types[i].name == name && types[i].has_addon);
                    }
                }
                if has_addon_of(types, name) {
                    let i = choose|i: int|
                        0 <= i < types.len() && types[i].name == name && types[i].has_addon;
                    assert(r[i].name == name && r[i].has_addon);
                }
                if is_addon_name(e.name) && base == name {
                    assert(r[last].name == name && r[last].has_addon);
                }
            }
        }
    }
}

/// The catalogue of a listing, said without the order: which games it
/// holds, and which variants each of them has.
pub proof fn lemma_classify(entries: Seq<SubDirView>)
    ensures
        names_distinct(classify(entries)),
        names_plain(classify(entries)),
        forall|name: Seq<char>| has_name(classify(entries), name) <==> listed(entries, name),
        forall|name: Seq<char>| has_hd_of(classify(entries), name) <==> listed_hd(entries, name),
        forall|name: Seq<char>|
            has_addon_of(classify(entries), name) <==> listed_addon(entries, name),
    decreases entries.len(),
{
    if entries.len() > 0 {
        let init = entries.drop_last();
        let e = entries.last();
        let last = entries.len() - 1;
        lemma_classify(init);
        lemma_record(classify(init), e);
        assert forall|name: Seq<char>| listed(entries, name) <==> listed(init, name) || (counts(e)
            && base_name(e.name) == name) by {
            if listed(entries, name) {
                let j = choose|j: int|
                    0 <= j < entries.len() && counts(entries[j]) && base_name(entries[j].name)
                        == name;
                if j < last {
                    assert(counts(init[j]) && base_name(init[j].name) == name);
                }
            }
            if listed(init, name) {
                let j = choose|j: int|
                    0 <= j < init.len() && counts(init[j]) && base_name(init[j].name) == name;
                assert(counts(entries[j]) && base_name(entries[j].name) == name);
            }
            if counts(e) && base_name(e.name) == name {
                assert(counts(entries[last]) && base_name(entries[last].name) == name);
            }
        }
        assert forall|name: Seq<char>| listed_hd(entries, name) <==> listed_hd(init, name) || (
        e.is_dir && is_hd_name(e.name) && base_name(e.name) == name) by {
            if listed_hd(entries, name) {
                let j = choose|j: int|
                    0 <= j < entries.len() && entries[j].is_dir && is_hd_name(entries[j].name)
                        && base_name(entries[j].name) == name;
                if j < last {
                    assert(init[j].is_dir && is_hd_name(init[j].name) && base_name(init[j].name)
                        == name);
                }
            }
            if listed_hd(init, name) {
                let j = choose|j: int|
                    0 <= j < init.len() && init[j].is_dir && is_hd_name(init[j].name)
                        && base_name(init[j].name) == name;
                assert(entries[j].is_dir && is_hd_name(entries[j].name) && base_name(
                    entries[j].name,
                ) == name);
            }
            if e.is_dir && is_hd_name(e.name) && base_name(e.name) == name {
                assert(entries[last].is_dir && is_hd_name(entries[last].name) && base_name(
                    entries[last].name,
                ) == name);
            }
        }
        assert forall|name: Seq<char>|
            listed_addon(entries, name) <==> listed_addon(init, name) || (e.is_dir
                && is_addon_name(e.name) && base_name(e.name) == name) by {
            if listed_addon(entries, name) {
                let j = choose|j: int|
                    0 <= j < entries.len() && entries[j].is_dir && is_addon_name(entries[j].name)
                        && base_name(entries[j].name) == name;
                if j < last {
                    assert(init[j].is_dir && is_addon_name(init[j].name) && base_name(
                        init[j].name,
                    ) == name);
                }
            }
            if listed_addon(init, name) {
                let j = choose|j: int|
                    0 <= j < init.len() && init[j].is_dir && is_addon_name(init[j].name)
                        && base_name(init[j].name) == name;
                assert(entries[j].is_dir && is_addon_name(entries[j].name) && base_name(
                    entries[j].name,
                ) == name);
            }
            if e.is_dir && is_addon_name(e.name) && base_name(e.name) == name {
                assert(entries[last].is_dir && is_addon_name(entries[last].name) && base_name(
                    entries[last].name,
                ) == name);
            }
        }
    }
}

/// A directory is in the catalogue under its own name exactly if it is a
/// game and no variant, provided that every variant in the listing stands
/// beside the game it belongs to.
pub proof fn lemma_game_iff_marked(entries: Seq<SubDirView>, name: Seq<char>)
    requires
        forall|j: int|
            0 <= j < entries.len() && entries[j].is_dir && is_variant_name(entries[j].name)
                ==> exists|k: int|
                0 <= k < entries.len() && entries[k].is_dir && is_marked(entries[k])
                    && entries[k].name == base_name(entries[j].name),
    ensures
        has_name(classify(entries), name) <==> !is_variant_name(name) && exists|k: int|
            0 <= k < entries.len() && entries[k].is_dir && is_marked(entries[k])
                && entries[k].name == name,
{
    lemma_classify(entries);
    lemma_base_name_plain(name);
    assert(has_name(classify(entries), name) <==> listed(entries, name));
    if listed(entries, name) {
        let j = choose|j: int|
            0 <= j < entries.len() && counts(entries[j]) && base_name(entries[j].name) == name;
        lemma_base_name_plain(entries[j].name);
        if is_variant_name(entries[j].name) {
            let k = choose|k: int|
                0 <= k < entries.len() && entries[k].is_dir && is_marked(entries[k])
                    && entries[k].name == base_name(entries[j].name);
            assert(entries[k].is_dir && is_marked(entries[k]) && entries[k].name == name);
        } else {
            assert(entries[j].is_dir && is_marked(entries[j]) && entries[j].name == name);
        }
    }
    if !is_variant_name(name) && exists|k: int|
        0 <= k < entries.len() && entries[k].is_dir && is_marked(entries[k]) && entries[k].name
            == name {
        let k = choose|k: int|
            0 <= k < entries.len() && entries[k].is_dir && is_marked(entries[k])
                && entries[k].name == name;
        assert(counts(entries[k]) && base_name(entries[k].name) == name);
    }
}

/// The name of the game that the directory `name` belongs to.
pub fn game_name(name: &str) -> (base: String)
    ensures
        base@ == base_name(name@),
{
    let n: usize = name.unicode_len();
    let mut end: usize = n;
    let mut cur: &str = name;
    proof {
        lemma_suffix_literals();
    }
    loop
        invariant
            n == name@.len(),
            end <= n,
            cur@ == name@.take(end as int),
            base_name(cur@) == base_name(name@),
            HD_GAME@ == hd_suffix(),
            ADDON_GAME@ == addon_suffix(),
        ensures
            cur@ == base_name(name@),
        decreases end,
    {
        let ghost before = cur@;
        if has_suffix(cur, HD_GAME) {
            end = end - 3;
        } else if has_suffix(cur, ADDON_GAME) {
            end = end - 6;
        } else {
            break ;
        }
        cur = name.substring_char(0, end);
        assert(cur@ =~= before.take(end as int));
    }
    String::from_str(cur)
}

/// The catalogue of the games that a listing of the installation root shows.
///
/// A game stands where the listing first shows a directory of it. Its name
/// carries no variant ending, no name comes twice, and it is marked with
/// each variant that the listing holds.
pub fn game_dir_types(entries: &Vec<SubDir>) -> (types: Vec<DirType>)
    ensures
        types.deep_view() == classify(entries.deep_view()),
        names_distinct(types.deep_view()),
        names_plain(types.deep_view()),
        forall|name: Seq<char>|
            has_name(types.deep_view(), name) <==> listed(entries.deep_view(), name),
        forall|name: Seq<char>|
            has_hd_of(types.deep_view(), name) <==> listed_hd(entries.deep_view(), name),
        forall|name: Seq<char>|
            has_addon_of(types.deep_view(), name) <==> listed_addon(entries.deep_view(), name),
{
    let mut types: Vec<DirType> = Vec::new();
    let mut i: usize = 0;
    proof {
        lemma_suffix_literals();
        assert(entries.deep_view().take(0) =~= Seq::<SubDirView>::empty());
        assert(types.deep_view() =~= Seq::<DirTypeView>::empty());
    }
    while i < entries.len()
        invariant
            i <= entries.len(),
            types.deep_view() == classify(entries.deep_view().take(i as int)),
            HD_GAME@ == hd_suffix(),
            ADDON_GAME@ == addon_suffix(),
        decreases entries.len() - i,
    {
        let entry = &entries[i];
        let ghost e = entry.deep_view();
        let ghost before = types.deep_view();
        proof {
            let all = entries.deep_view();
            assert(all.take(i + 1).drop_last() =~= all.take(i as int));
            assert(all.take(i + 1).last() == e);
        }
        let is_game = entry.has_dlls || entry.has_cl_dlls;
        let is_hd = has_suffix(entry.name.as_str(), HD_GAME);
        let is_addon = has_suffix(entry.name.as_str(), ADDON_GAME);
        if entry.is_dir && (is_game || is_hd || is_addon) {
            let name = game_name(entry.name.as_str());
            let mut at: usize = 0;
            while at < types.len() && !types[at].name.eq(&name)
                invariant
                    at <= types.len(),
                    types.deep_view() == before,
                    forall|k: int| 0 <= k < at ==> before[k].name != name@,
                decreases types.len() - at,
            {
                assert(before[at as int].name == types[at as int].name@);
                at = at + 1;
            }
            proof {
                if at < types.len() {
                    assert(before[at as int].name == types[at as int].name@);
                }
                lemma_position_found(before, name@, at as int);
            }
            if at < types.len() {
                let found = &types[at];
                let merged = DirType {
                    name,
                    has_hd: found.has_hd || is_hd,
                    has_addon: found.has_addon || is_addon,
                };
                assert(before[at as int] == found.deep_view());
                types.set(at, merged);
                assert(types.deep_view() =~= record(before, e));
            } else {
                types.push(DirType { name, has_hd: is_hd, has_addon: is_addon });
                assert(types.deep_view() =~= record(before, e));
            }
        }
        i = i + 1;
    }
    proof {
        assert(entries.deep_view().take(entries.len() as int) =~= entries.deep_view());
        lemma_classify(entries.deep_view());
    }
    types
}

impl DirType {
    /// The names of the directories that belong to the game: its own, then
    /// that of each variant it has.
    pub fn dir_names(&self) -> (names: Vec<String>)
        ensures
            names.deep_view() == dir_names_of(self.deep_view()),
    {
        let mut names: Vec<String> = Vec::with_capacity(3);
        proof {
            lemma_suffix_literals();
        }
        names.push(self.name.clone());
        if self.has_hd {
            names.push(self.name.clone().concat(HD_GAME));
        }
        if self.has_addon {
            names.push(self.name.clone().concat(ADDON_GAME));
        }
        assert(names.deep_view() =~= dir_names_of(self.deep_view()));
        names
    }
}

/// The report on a catalogue: how many games there are, then their names,
/// one to a line.
pub open spec fn games_report(types: Seq<DirTypeView>) -> Seq<char> {
    "Found "@ + decimal(types.len()) + " games\n"@ + join_lines(names_of(types))
}

/// Reports the games that a listing of the installation root shows: their
/// number, then the name of each in the order of the catalogue.
pub fn games(entries: &Vec<SubDir>) -> (report: String)
    ensures
        report@ == games_report(classify(entries.deep_view())),
{
    let types = game_dir_types(entries);
    let mut names: Vec<String> = Vec::new();
    let mut i: usize = 0;
    while i < types.len()
        invariant
            i <= types.len(),
            names.deep_view() == names_of(types.deep_view()).take(i as int),
        decreases types.len() - i,
    {
        let ghost before = names.deep_view();
        names.push(types[i].name.clone());
        assert(names.deep_view() =~= before.push(types[i as int].name@));
        assert(names_of(types.deep_view())[i as int] == types[i as int].name@);
        assert(names.deep_view() =~= names_of(types.deep_view()).take(i + 1));
        i = i + 1;
    }
    assert(names.deep_view() =~= names_of(types.deep_view()));
    let mut report = String::from_str("Found ");
    report.append(decimal_string(types.len() as u64).as_str());
    report.append(" games\n");
    report.append(join_with_newlines(&names).as_str());
    report
}

} // verus!
