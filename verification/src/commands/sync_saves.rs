//! Keeping the save files of the two installations the same.
//!
//! For every game of the second installation the two save directories are
//! compared file by file. A file that only one side has is copied to the
//! other; of a file that both have, the one modified later is copied over
//! the other; nothing is ever removed.

use crate::cfg::Cfg;
use crate::commands::games::{classify, game_dir_types, DirTypeView, SubDir};
use crate::commands::sync::{SyncLoop, SyncPhase, SyncSetupError, SyncStep};
use crate::text::{ends_with, has_suffix};
use vstd::prelude::*;

verus! {

/// Name of the directory that holds a game's save files.
pub const SAVE_DIR: &'static str = "SAVE";

/// Ending of the name of a save file.
pub const SAVE_ENDING: &'static str = ".sav";

/// One file of a save directory. Within the directory the name tells it
/// from the others.
#[derive(Clone, Debug, PartialEq, Eq)]
pub struct SaveFileRecord {
    pub file_name: String,
    /// When the file was last modified, in nanoseconds since 1970.
    pub modified: i128,
}

/// What is done about one file.
#[derive(Clone, Copy, Debug, PartialEq, Eq)]
pub enum SyncAction {
    /// The first installation's file is copied to the second.
    CopyToMirror,
    /// The second installation's file is copied to the first.
    CopyToPrimary,
    /// Both sides were modified at the same time: nothing is copied.
    Unchanged,
}

/// The decision on one file of one game.
#[derive(Clone, Debug, PartialEq, Eq)]
pub struct SyncOutcome {
    pub file_name: String,
    pub action: SyncAction,
}

pub ghost struct SaveFileView {
    pub file_name: Seq<char>,
    pub modified: int,
}

pub ghost struct SyncOutcomeView {
    pub file_name: Seq<char>,
    pub action: SyncAction,
}

impl DeepView for SaveFileRecord {
    type V = SaveFileView;

    open spec fn deep_view(&self) -> SaveFileView {
        SaveFileView { file_name: self.file_name@, modified: self.modified as int }
    }
}

impl DeepView for SyncOutcome {
    type V = SyncOutcomeView;

    open spec fn deep_view(&self) -> SyncOutcomeView {
        SyncOutcomeView { file_name: self.file_name@, action: self.action }
    }
}

/// Whether a file of this name is a save file: the name ends with `.sav`
/// and has something before that.
pub open spec fn is_save_name(name: Seq<char>) -> bool {
    name.len() > 4 && ends_with(name, seq!['.', 's', 'a', 'v'])
}

/// The save files among the entries of a directory, in the listing's order.
pub open spec fn saves_of(entries: Seq<SaveFileView>) -> Seq<SaveFileView> {
    entries.filter(|e: SaveFileView| is_save_name(e.file_name))
}

/// Index of the first file called `name`, or the length where there is none.
pub open spec fn find(files: Seq<SaveFileView>, name: Seq<char>) -> int
    decreases files.len(),
{
    if files.len() == 0 {
        0
    } else if files[0].file_name == name {
        0
    } else {
        1 + find(files.skip(1), name)
    }
}

/// What is done about a file that both sides have: the side modified
/// later wins, and equal times are left alone.
pub open spec fn decide(primary: SaveFileView, mirror: SaveFileView) -> SyncAction {
    if primary.modified < mirror.modified {
        SyncAction::CopyToPrimary
    } else if primary.modified > mirror.modified {
        SyncAction::CopyToMirror
    } else {
        SyncAction::Unchanged
    }
}

/// The decision on the first side's first file.
pub open spec fn first_outcome(primary: Seq<SaveFileView>, mirror: Seq<SaveFileView>)
    -> SyncOutcomeView {
    let file = primary[0];
    let at = find(mirror, file.file_name);
    SyncOutcomeView {
        file_name: file.file_name,
        action: if at < mirror.len() {
            decide(file, mirror[at])
        } else {
            SyncAction::CopyToMirror
        },
    }
}

/// The second side's files that are still to be looked at once the first
/// side's first file is decided: its partner, if it has one, is taken out.
pub open spec fn mirror_rest(primary: Seq<SaveFileView>, mirror: Seq<SaveFileView>) -> Seq<
    SaveFileView,
> {
    let at = find(mirror, primary[0].file_name);
    if at < mirror.len() {
        mirror.remove(at)
    } else {
        mirror
    }
}

/// The decisions on the second side's files that the first side lacks.
pub open spec fn leftovers(mirror: Seq<SaveFileView>) -> Seq<SyncOutcomeView> {
    Seq::new(
        mirror.len(),
        |i: int|
            SyncOutcomeView { file_name: mirror[i].file_name, action: SyncAction::CopyToPrimary },
    )
}

/// The decisions on the save files of one game: one for each file of the
/// first side, in its order, then one for each file that only the second
/// side has, in its order.
pub open spec fn reconcile_of(primary: Seq<SaveFileView>, mirror: Seq<SaveFileView>) -> Seq<
    SyncOutcomeView,
>
    decreases primary.len(),
{
    if primary.len() == 0 {
        leftovers(mirror)
    } else {
        seq![first_outcome(primary, mirror)] + reconcile_of(
            primary.skip(1),
            mirror_rest(primary, mirror),
        )
    }
}

/// `find` is the first index that holds the name.
pub proof fn lemma_find(files: Seq<SaveFileView>, name: Seq<char>)
    ensures
        0 <= find(files, name) <= files.len(),
        forall|k: int| 0 <= k < find(files, name) ==> files[k].file_name != name,
        find(files, name) < files.len() ==> files[find(files, name)].file_name == name,
    decreases files.len(),
{
    if files.len() > 0 && files[0].file_name != name {
        let rest = files.skip(1);
        lemma_find(rest, name);
        let p = find(rest, name);
        assert forall|k: int| 0 <= k < p + 1 implies files[k].file_name != name by {
            if k > 0 {
                assert(rest[k - 1].file_name != name);
            }
        }
        if p < rest.len() {
            assert(files[p + 1].file_name == rest[p].file_name);
        }
    }
}

/// The index at which a search from the front finds the name.
pub proof fn lemma_find_at(files: Seq<SaveFileView>, name: Seq<char>, at: int)
    requires
        0 <= at <= files.len(),
        forall|k: int| 0 <= k < at ==> files[k].file_name != name,
        at < files.len() ==> files[at].file_name == name,
    ensures
        find(files, name) == at,
{
    lemma_find(files, name);
    let p = find(files, name);
    if p < at {
        assert(files[p].file_name == name);
    }
}

/// Whether `name` names a save file.
pub fn is_save_file(name: &str) -> (r: bool)
    ensures
        r == is_save_name(name@),
{
    proof {
        reveal_strlit(".sav");
        assert(SAVE_ENDING@ =~= seq!['.', 's', 'a', 'v']);
    }
    name.unicode_len() > 4 && has_suffix(name, SAVE_ENDING)
}

/// The save files among the entries of a save directory.
pub fn saves_from_dir(entries: &Vec<SaveFileRecord>) -> (saves: Vec<SaveFileRecord>)
    ensures
        saves.deep_view() == saves_of(entries.deep_view()),
{
    let mut saves: Vec<SaveFileRecord> = Vec::new();
    let mut i: usize = 0;
    let ghost keep = |e: SaveFileView| is_save_name(e.file_name);
    proof {
        assert(entries.deep_view().take(0) =~= Seq::<SaveFileView>::empty());
        assert(saves.deep_view() =~= Seq::<SaveFileView>::empty());
        assert(Seq::<SaveFileView>::empty().filter(keep) =~= Seq::<SaveFileView>::empty()) by {
            reveal(Seq::filter);
        }
    }
    while i < entries.len()
        invariant
            i <= entries.len(),
            keep == |e: SaveFileView| is_save_name(e.file_name),
            saves.deep_view() == entries.deep_view().take(i as int).filter(keep),
        decreases entries.len() - i,
    {
        let entry = &entries[i];
        let ghost before = saves.deep_view();
        proof {
            let all = entries.deep_view();
            assert(all.take(i + 1).drop_last() =~= all.take(i as int));
            assert(all.take(i + 1).last() == entry.deep_view());
            reveal(Seq::filter);
        }
        if is_save_file(entry.file_name.as_str()) {
            saves.push(
                SaveFileRecord { file_name: entry.file_name.clone(), modified: entry.modified },
            );
            assert(saves.deep_view() =~= before.push(entry.deep_view()));
        }
        i = i + 1;
    }
    assert(entries.deep_view().take(entries.len() as int) =~= entries.deep_view());
    saves
}

/// Decides, for the save files of one game, what is copied where.
///
/// Every file of the first side gets one decision, in the order of the
/// listing: with no file of its name on the second side it is copied
/// there; else the side modified later is copied over the other, and equal
/// times change nothing. A file of the second side is the partner of at
/// most one file. Every file of the second side that is left without
/// partner is then copied to the first side.
pub fn reconcile(primary: &Vec<SaveFileRecord>, mirror: &Vec<SaveFileRecord>) -> (outcomes: Vec<
    SyncOutcome,
>)
    ensures
        outcomes.deep_view() == reconcile_of(primary.deep_view(), mirror.deep_view()),
{
    let mut outcomes: Vec<SyncOutcome> = Vec::new();
    let mut rest: Vec<SaveFileRecord> = Vec::new();
    let mut k: usize = 0;
    while k < mirror.len()
        invariant
            k <= mirror.len(),
            rest.deep_view() == mirror.deep_view().take(k as int),
        decreases mirror.len() - k,
    {
        let ghost before = rest.deep_view();
        rest.push(
            SaveFileRecord { file_name: mirror[k].file_name.clone(), modified: mirror[k].modified },
        );
        assert(rest.deep_view() =~= before.push(mirror[k as int].deep_view()));
        assert(mirror.deep_view().take(k + 1) =~= before.push(mirror[k as int].deep_view()));
        k = k + 1;
    }
    assert(mirror.deep_view().take(mirror.len() as int) =~= mirror.deep_view());
    let ghost all = primary.deep_view();
    let mut i: usize = 0;
    assert(all.skip(0) =~= all);
    assert(outcomes.deep_view() + reconcile_of(all, rest.deep_view()) =~= reconcile_of(
        all,
        rest.deep_view(),
    ));
    while i < primary.len()
        invariant
            i <= primary.len(),
            all == primary.deep_view(),
            reconcile_of(all, mirror.deep_view()) == outcomes.deep_view() + reconcile_of(
                all.skip(i as int),
                rest.deep_view(),
            ),
        decreases primary.len() - i,
    {
        let file = &primary[i];
        let ghost left = all.skip(i as int);
        let ghost right = rest.deep_view();
        let ghost done = outcomes.deep_view();
        assert(left[0] == file.deep_view());
        let mut at: usize = 0;
        while at < rest.len() && !rest[at].file_name.eq(&file.file_name)
            invariant
                at <= rest.len(),
                rest.deep_view() == right,
                forall|j: int| 0 <= j < at ==> right[j].file_name != file.file_name@,
            decreases rest.len() - at,
        {
            assert(right[at as int].file_name == rest[at as int].file_name@);
            at = at + 1;
        }
        proof {
            if at < rest.len() {
                assert(right[at as int].file_name == rest[at as int].file_name@);
            }
            lemma_find_at(right, file.file_name@, at as int);
        }
        let action = if at < rest.len() {
            let partner = rest.remove(at);
            assert(partner.deep_view() == right[at as int]);
            assert(rest.deep_view() =~= right.remove(at as int));
            if file.modified < partner.modified {
                SyncAction::CopyToPrimary
            } else if file.modified > partner.modified {
                SyncAction::CopyToMirror
            } else {
                SyncAction::Unchanged
            }
        } else {
            SyncAction::CopyToMirror
        };
        outcomes.push(SyncOutcome { file_name: file.file_name.clone(), action });
        proof {
            let outcome = first_outcome(left, right);
            assert(outcomes.deep_view() =~= done.push(outcome));
            assert(left.skip(1) =~= all.skip(i + 1));
            assert(rest.deep_view() == mirror_rest(left, right));
            assert(done + (seq![outcome] + reconcile_of(left.skip(1), rest.deep_view()))
                =~= done.push(outcome) + reconcile_of(all.skip(i + 1), rest.deep_view()));
        }
        i = i + 1;
    }
    let ghost done = outcomes.deep_view();
    let ghost right = rest.deep_view();
    assert(all.skip(primary.len() as int) =~= Seq::<SaveFileView>::empty());
    let mut j: usize = 0;
    while j < rest.len()
        invariant
            j <= rest.len(),
            right == rest.deep_view(),
            outcomes.deep_view() == done + leftovers(right).take(j as int),
        decreases rest.len() - j,
    {
        let ghost before = outcomes.deep_view();
        outcomes.push(
            SyncOutcome { file_name: rest[j].file_name.clone(), action: SyncAction::CopyToPrimary },
        );
        assert(outcomes.deep_view() =~= before.push(leftovers(right)[j as int]));
        assert(leftovers(right).take(j + 1) =~= leftovers(right).take(j as int).push(
            leftovers(right)[j as int],
        ));
        j = j + 1;
    }
    assert(leftovers(right).take(rest.len() as int) =~= leftovers(right));
    outcomes
}

/// Whether no two of the files share a name, as in any directory.
pub open spec fn names_distinct(files: Seq<SaveFileView>) -> bool {
    forall|i: int, j: int| 0 <= i < j < files.len() ==> files[i].file_name != files[j].file_name
}

/// Whether a file called `name` is among the files.
pub open spec fn has_file(files: Seq<SaveFileView>, name: Seq<char>) -> bool {
    exists|i: int| 0 <= i < files.len() && files[i].file_name == name
}

/// A save directory: for each file's name, when the file was modified.
pub open spec fn dir_of(files: Seq<SaveFileView>) -> Map<Seq<char>, int>
    decreases files.len(),
{
    if files.len() == 0 {
        Map::empty()
    } else {
        dir_of(files.drop_last()).insert(files.last().file_name, files.last().modified)
    }
}

/// The two directories after a decision is carried out. A copy carries the
/// file with the time of its modification.
pub open spec fn apply_outcome(
    primary: Map<Seq<char>, int>,
    mirror: Map<Seq<char>, int>,
    outcome: SyncOutcomeView,
) -> (Map<Seq<char>, int>, Map<Seq<char>, int>) {
    match outcome.action {
        SyncAction::CopyToMirror => (
            primary,
            mirror.insert(outcome.file_name, primary[outcome.file_name]),
        ),
        SyncAction::CopyToPrimary => (
            primary.insert(outcome.file_name, mirror[outcome.file_name]),
            mirror,
        ),
        SyncAction::Unchanged => (primary, mirror),
    }
}

/// The two directories after the decisions are carried out in order.
pub open spec fn apply_all(
    outcomes: Seq<SyncOutcomeView>,
    primary: Map<Seq<char>, int>,
    mirror: Map<Seq<char>, int>,
) -> (Map<Seq<char>, int>, Map<Seq<char>, int>)
    decreases outcomes.len(),
{
    if outcomes.len() == 0 {
        (primary, mirror)
    } else {
        let (p, m) = apply_outcome(primary, mirror, outcomes[0]);
        apply_all(outcomes.skip(1), p, m)
    }
}

/// The directory that holds every file of either directory, and of a file
/// that both hold the one modified later.
pub open spec fn merged(a: Map<Seq<char>, int>, b: Map<Seq<char>, int>) -> Map<Seq<char>, int> {
    Map::new(
        |name: Seq<char>| a.dom().contains(name) || b.dom().contains(name),
        |name: Seq<char>|
            if a.dom().contains(name) && b.dom().contains(name) {
                if a[name] >= b[name] {
                    a[name]
                } else {
                    b[name]
                }
            } else if a.dom().contains(name) {
                a[name]
            } else {
                b[name]
            },
    )
}

/// Whether the directory holds each of the files, with its time.
pub open spec fn agrees(files: Seq<SaveFileView>, dir: Map<Seq<char>, int>) -> bool {
    forall|i: int|
        0 <= i < files.len() ==> dir.dom().contains(#[trigger] files[i].file_name)
            && dir[files[i].file_name] == files[i].modified
}

/// The directory of a listing holds the listing's files and no others.
pub proof fn lemma_dir_of(files: Seq<SaveFileView>)
    requires
        names_distinct(files),
    ensures
        agrees(files, dir_of(files)),
        forall|name: Seq<char>| dir_of(files).dom().contains(name) <==> has_file(files, name),
    decreases files.len(),
{
    if files.len() > 0 {
        let init = files.drop_last();
        let last = files.last();
        lemma_dir_of(init);
        assert forall|i: int| 0 <= i < files.len() implies dir_of(files).dom().contains(
            #[trigger] files[i].file_name,
        ) && dir_of(files)[files[i].file_name] == files[i].modified by {
            if i < init.len() {
                assert(init[i] == files[i]);
                assert(files[i].file_name != last.file_name);
            }
        }
        assert forall|name: Seq<char>|
            dir_of(files).dom().contains(name) <==> has_file(files, name) by {
            if has_file(files, name) {
                let i = choose|i: int| 0 <= i < files.len() && files[i].file_name == name;
                if i < init.len() {
                    assert(init[i].file_name == name);
                }
            }
            if has_file(init, name) {
                let i = choose|i: int| 0 <= i < init.len() && init[i].file_name == name;
                assert(files[i].file_name == name);
            }
            if name == last.file_name {
                assert(files[files.len() - 1].file_name == name);
            }
        }
    }
}

/// The time of the file `name` once both sides are the same: that of the
/// side that has it, or the later of the two.
pub open spec fn newest(
    primary: Seq<SaveFileView>,
    mirror: Seq<SaveFileView>,
    p: Map<Seq<char>, int>,
    m: Map<Seq<char>, int>,
    name: Seq<char>,
) -> int {
    if has_file(primary, name) && has_file(mirror, name) {
        if p[name] >= m[name] {
            p[name]
        } else {
            m[name]
        }
    } else if has_file(primary, name) {
        p[name]
    } else {
        m[name]
    }
}

/// What holds of the file `name` when the directories `p` and `m` have
/// become `p2` and `m2`: a listed file is on both sides with its newest
/// time, and a file that is not listed is as it was.
pub open spec fn settled_at(
    primary: Seq<SaveFileView>,
    mirror: Seq<SaveFileView>,
    p: Map<Seq<char>, int>,
    m: Map<Seq<char>, int>,
    p2: Map<Seq<char>, int>,
    m2: Map<Seq<char>, int>,
    name: Seq<char>,
) -> bool {
    if has_file(primary, name) || has_file(mirror, name) {
        &&& p2.dom().contains(name)
        &&& m2.dom().contains(name)
        &&& p2[name] == newest(primary, mirror, p, m, name)
        &&& m2[name] == newest(primary, mirror, p, m, name)
    } else {
        &&& p2.dom().contains(name) == p.dom().contains(name)
        &&& m2.dom().contains(name) == m.dom().contains(name)
        &&& p.dom().contains(name) ==> p2[name] == p[name]
        &&& m.dom().contains(name) ==> m2[name] == m[name]
    }
}

/// What carrying out the decisions does to two directories that hold the
/// listed files: every listed file is then on both sides with its newest
/// time, and no other file is touched.
pub open spec fn reconciled(
    primary: Seq<SaveFileView>,
    mirror: Seq<SaveFileView>,
    p: Map<Seq<char>, int>,
    m: Map<Seq<char>, int>,
) -> bool {
    let (p2, m2) = apply_all(reconcile_of(primary, mirror), p, m);
    forall|name: Seq<char>| #[trigger] settled_at(primary, mirror, p, m, p2, m2, name)
}

proof fn lemma_has_file_skip(files: Seq<SaveFileView>, name: Seq<char>)
    requires
        files.len() > 0,
        names_distinct(files),
    ensures
        names_distinct(files.skip(1)),
        has_file(files, name) <==> files[0].file_name == name || has_file(files.skip(1), name),
        files[0].file_name == name ==> !has_file(files.skip(1), name),
{
    let rest = files.skip(1);
    assert forall|i: int, j: int| 0 <= i < j < rest.len() implies rest[i].file_name
        != rest[j].file_name by {
        assert(files[i + 1].file_name != files[j + 1].file_name);
    }
    if has_file(files, name) {
        let i = choose|i: int| 0 <= i < files.len() && files[i].file_name == name;
        if i > 0 {
            assert(rest[i - 1].file_name == name);
        }
    }
    if has_file(rest, name) {
        let i = choose|i: int| 0 <= i < rest.len() && rest[i].file_name == name;
        assert(files[i + 1].file_name == name);
        assert(files[0].file_name != files[i + 1].file_name);
    }
}

proof fn lemma_has_file_remove(files: Seq<SaveFileView>, at: int, name: Seq<char>)
    requires
        0 <= at < files.len(),
        names_distinct(files),
    ensures
        names_distinct(files.remove(at)),
        has_file(files, name) <==> files[at].file_name == name || has_file(files.remove(at), name),
        files[at].file_name == name ==> !has_file(files.remove(at), name),
{
    let rest = files.remove(at);
    assert forall|i: int| 0 <= i < rest.len() implies rest[i] == files[if i < at {
        i
    } else {
        i + 1
    }] by {}
    assert forall|i: int, j: int| 0 <= i < j < rest.len() implies rest[i].file_name
        != rest[j].file_name by {
        let a = if i < at {
            i
        } else {
            i + 1
        };
        let b = if j < at {
            j
        } else {
            j + 1
        };
        assert(files[a].file_name != files[b].file_name);
    }
    if has_file(files, name) {
        let i = choose|i: int| 0 <= i < files.len() && files[i].file_name == name;
        if i < at {
            assert(rest[i].file_name == name);
        } else if i > at {
            assert(rest[i - 1].file_name == name);
        }
    }
    if has_file(rest, name) {
        let i = choose|i: int| 0 <= i < rest.len() && rest[i].file_name == name;
        let a = if i < at {
            i
        } else {
            i + 1
        };
        assert(files[a].file_name == name);
        if a < at {
            assert(files[a].file_name != files[at].file_name);
        } else {
            assert(files[at].file_name != files[a].file_name);
        }
    }
}

/// Carrying out the decisions on two directories that hold the listed
/// files leaves every listed file on both sides with its newest time and
/// touches no other file.
pub proof fn lemma_reconciled(
    primary: Seq<SaveFileView>,
    mirror: Seq<SaveFileView>,
    p: Map<Seq<char>, int>,
    m: Map<Seq<char>, int>,
)
    requires
        names_distinct(primary),
        names_distinct(mirror),
        agrees(primary, p),
        agrees(mirror, m),
    ensures
        reconciled(primary, mirror, p, m),
    decreases primary.len() + mirror.len(),
{
    let outcomes = reconcile_of(primary, mirror);
    let (p2, m2) = apply_all(outcomes, p, m);
    if primary.len() == 0 && mirror.len() == 0 {
        assert forall|name: Seq<char>| #[trigger]
            settled_at(primary, mirror, p, m, p2, m2, name) by {
            assert(!has_file(primary, name) && !has_file(mirror, name));
        }
    } else if primary.len() == 0 {
        let name0 = mirror[0].file_name;
        let mirror1 = mirror.skip(1);
        let p1 = p.insert(name0, m[name0]);
        assert(outcomes[0] == SyncOutcomeView {
            file_name: name0,
            action: SyncAction::CopyToPrimary,
        });
        assert(outcomes.skip(1) =~= reconcile_of(primary, mirror1));
        assert(apply_outcome(p, m, outcomes[0]) == (p1, m));
        assert forall|i: int| 0 <= i < mirror1.len() implies m.dom().contains(
            #[trigger] mirror1[i].file_name,
        ) && m[mirror1[i].file_name] == mirror1[i].modified by {
            assert(mirror1[i] == mirror[i + 1]);
        }
        assert(mirror[0].file_name == name0);
        assert forall|name: Seq<char>|
            (has_file(mirror, name) <==> name0 == name || has_file(mirror1, name)) && (name0
                == name ==> !has_file(mirror1, name)) && names_distinct(mirror1) by {
            lemma_has_file_skip(mirror, name);
        }
        lemma_has_file_skip(mirror, name0);
        lemma_reconciled(primary, mirror1, p1, m);
        assert forall|name: Seq<char>| !has_file(primary, name) by {}
        assert(apply_all(outcomes, p, m) == apply_all(reconcile_of(primary, mirror1), p1, m));
        assert forall|name: Seq<char>| #[trigger]
            settled_at(primary, mirror, p, m, p2, m2, name) by {
            assert(settled_at(primary, mirror1, p1, m, p2, m2, name));
            if name == name0 {
                assert(p1.dom().contains(name));
                assert(has_file(mirror, name));
                assert(!has_file(mirror1, name));
                assert(p2.dom().contains(name));
                assert(m.dom().contains(name));
                assert(m2.dom().contains(name));
                assert(p2[name] == p1[name]);
                assert(m2[name] == m[name]);
                assert(newest(primary, mirror, p, m, name) == m[name]);
            } else {
                assert(p1.dom().contains(name) == p.dom().contains(name));
                if has_file(mirror, name) {
                    assert(has_file(mirror1, name));
                    assert(p2.dom().contains(name));
                    assert(p2[name] == newest(primary, mirror1, p1, m, name));
                } else {
                    assert(!has_file(mirror1, name));
                    assert(p2.dom().contains(name) == p.dom().contains(name));
                }
            }
        }
    } else {
        let file = primary[0];
        let name0 = file.file_name;
        let at = find(mirror, name0);
        let primary1 = primary.skip(1);
        let mirror1 = mirror_rest(primary, mirror);
        let outcome = first_outcome(primary, mirror);
        let (p1, m1) = apply_outcome(p, m, outcome);
        lemma_find(mirror, name0);
        assert(outcomes[0] == outcome);
        assert(outcomes.skip(1) =~= reconcile_of(primary1, mirror1));
        assert(p.dom().contains(primary[0].file_name) && p[name0] == file.modified);
        assert forall|name: Seq<char>|
            (has_file(primary, name) <==> name0 == name || has_file(primary1, name)) && (name0
                == name ==> !has_file(primary1, name)) && names_distinct(primary1) by {
            lemma_has_file_skip(primary, name);
        }
        lemma_has_file_skip(primary, name0);
        if at < mirror.len() {
            assert(m.dom().contains(mirror[at].file_name) && m[name0] == mirror[at].modified);
            assert forall|name: Seq<char>|
                (has_file(mirror, name) <==> name0 == name || has_file(mirror1, name)) && (name0
                    == name ==> !has_file(mirror1, name)) && names_distinct(mirror1) by {
                lemma_has_file_remove(mirror, at, name);
            }
            lemma_has_file_remove(mirror, at, name0);
            assert forall|i: int| 0 <= i < mirror1.len() implies mirror1[i] == mirror[if i < at {
                i
            } else {
                i + 1
            }] by {}
        } else {
            assert forall|name: Seq<char>| has_file(mirror, name) implies name != name0 by {
                let i = choose|i: int| 0 <= i < mirror.len() && mirror[i].file_name == name;
                assert(mirror[i].file_name != name0);
            }
        }
        assert forall|i: int| 0 <= i < primary1.len() implies p1.dom().contains(
            #[trigger] primary1[i].file_name,
        ) && p1[primary1[i].file_name] == primary1[i].modified by {
            assert(primary1[i] == primary[i + 1]);
            assert(has_file(primary1, primary1[i].file_name));
        }
        assert forall|i: int| 0 <= i < mirror1.len() implies m1.dom().contains(
            #[trigger] mirror1[i].file_name,
        ) && m1[mirror1[i].file_name] == mirror1[i].modified by {
            assert(has_file(mirror1, mirror1[i].file_name));
            let j = if at < mirror.len() && i >= at {
                i + 1
            } else {
                i
            };
            assert(mirror1[i] == mirror[j]);
        }
        lemma_reconciled(primary1, mirror1, p1, m1);
        assert(apply_all(outcomes, p, m) == apply_all(reconcile_of(primary1, mirror1), p1, m1));
        assert forall|name: Seq<char>| #[trigger]
            settled_at(primary, mirror, p, m, p2, m2, name) by {
            assert(settled_at(primary1, mirror1, p1, m1, p2, m2, name));
            if name == name0 {
                assert(has_file(primary, name));
                assert(!has_file(primary1, name));
                assert(!has_file(mirror1, name));
                assert(p1.dom().contains(name));
                assert(m1.dom().contains(name));
                assert(p2[name] == p1[name]);
                assert(m2[name] == m1[name]);
                assert(has_file(mirror, name) <==> at < mirror.len());
            } else {
                assert(p1.dom().contains(name) == p.dom().contains(name));
                assert(m1.dom().contains(name) == m.dom().contains(name));
                assert(has_file(primary, name) == has_file(primary1, name));
                assert(has_file(mirror, name) == has_file(mirror1, name));
                assert(p.dom().contains(name) ==> p1[name] == p[name]);
                assert(m.dom().contains(name) ==> m1[name] == m[name]);
                if has_file(primary, name) {
                    let i = choose|i: int| 0 <= i < primary.len() && primary[i].file_name == name;
                    assert(p.dom().contains(primary[i].file_name));
                }
                if has_file(mirror, name) {
                    let i = choose|i: int| 0 <= i < mirror.len() && mirror[i].file_name == name;
                    assert(m.dom().contains(mirror[i].file_name));
                }
                if has_file(primary, name) || has_file(mirror, name) {
                    assert(p2[name] == newest(primary1, mirror1, p1, m1, name));
                    assert(newest(primary1, mirror1, p1, m1, name) == newest(
                        primary,
                        mirror,
                        p,
                        m,
                        name,
                    ));
                }
            }
        }
    }
}

/// One pass makes the two sides the same: with the decisions carried out,
/// each side holds every file of either, and of a file that both held the
/// one modified later. Nothing is lost on the way.
pub proof fn lemma_reconcile_converges(primary: Seq<SaveFileView>, mirror: Seq<SaveFileView>)
    requires
        names_distinct(primary),
        names_distinct(mirror),
    ensures
        apply_all(reconcile_of(primary, mirror), dir_of(primary), dir_of(mirror)) == (
            merged(dir_of(primary), dir_of(mirror)),
            merged(dir_of(primary), dir_of(mirror)),
        ),
{
    let p = dir_of(primary);
    let m = dir_of(mirror);
    let (p2, m2) = apply_all(reconcile_of(primary, mirror), p, m);
    lemma_dir_of(primary);
    lemma_dir_of(mirror);
    lemma_reconciled(primary, mirror, p, m);
    let both = merged(p, m);
    assert forall|name: Seq<char>| #[trigger]
        p2.dom().contains(name) == both.dom().contains(name) && (both.dom().contains(name)
            ==> p2[name] == both[name]) by {
        assert(settled_at(primary, mirror, p, m, p2, m2, name));
    }
    assert forall|name: Seq<char>| #[trigger]
        m2.dom().contains(name) == both.dom().contains(name) && (both.dom().contains(name)
            ==> m2[name] == both[name]) by {
        assert(settled_at(primary, mirror, p, m, p2, m2, name));
    }
    assert(p2 =~= both);
    assert(m2 =~= both);
}

/// It does not matter which side is called the first: the two sides end up
/// the same either way.
pub proof fn lemma_reconcile_symmetric(primary: Seq<SaveFileView>, mirror: Seq<SaveFileView>)
    requires
        names_distinct(primary),
        names_distinct(mirror),
    ensures
        apply_all(reconcile_of(primary, mirror), dir_of(primary), dir_of(mirror)).0 == apply_all(
            reconcile_of(mirror, primary),
            dir_of(mirror),
            dir_of(primary),
        ).0,
        merged(dir_of(primary), dir_of(mirror)) == merged(dir_of(mirror), dir_of(primary)),
{
    lemma_reconcile_converges(primary, mirror);
    lemma_reconcile_converges(mirror, primary);
    assert(merged(dir_of(primary), dir_of(mirror)) =~= merged(dir_of(mirror), dir_of(primary)));
}

/// Whether every decision leaves its file alone.
pub open spec fn all_unchanged(outcomes: Seq<SyncOutcomeView>) -> bool {
    forall|i: int| 0 <= i < outcomes.len() ==> (#[trigger] outcomes[i]).action is Unchanged
}

/// Two sides that hold the same files with the same times are settled: a
/// pass decides on each file once, and copies none.
pub proof fn lemma_reconcile_settled(primary: Seq<SaveFileView>, mirror: Seq<SaveFileView>)
    requires
        names_distinct(primary),
        names_distinct(mirror),
        dir_of(primary) == dir_of(mirror),
    ensures
        all_unchanged(reconcile_of(primary, mirror)),
        reconcile_of(primary, mirror).len() == primary.len(),
    decreases primary.len(),
{
    lemma_dir_of(primary);
    lemma_dir_of(mirror);
    if primary.len() == 0 {
        if mirror.len() > 0 {
            assert(has_file(mirror, mirror[0].file_name));
            assert(dir_of(mirror).dom().contains(mirror[0].file_name));
            assert(has_file(primary, mirror[0].file_name));
        }
    } else {
        let name0 = primary[0].file_name;
        let at = find(mirror, name0);
        let primary1 = primary.skip(1);
        lemma_find(mirror, name0);
        assert(dir_of(primary).dom().contains(primary[0].file_name));
        assert(has_file(mirror, name0));
        if at >= mirror.len() {
            let i = choose|i: int| 0 <= i < mirror.len() && mirror[i].file_name == name0;
            assert(mirror[i].file_name != name0);
        }
        let mirror1 = mirror.remove(at);
        assert(dir_of(mirror)[mirror[at].file_name] == mirror[at].modified);
        assert(first_outcome(primary, mirror).action is Unchanged);
        assert forall|name: Seq<char>|
            (has_file(primary, name) <==> name0 == name || has_file(primary1, name)) && (name0
                == name ==> !has_file(primary1, name)) && names_distinct(primary1) by {
            lemma_has_file_skip(primary, name);
        }
        assert forall|name: Seq<char>|
            (has_file(mirror, name) <==> name0 == name || has_file(mirror1, name)) && (name0
                == name ==> !has_file(mirror1, name)) && names_distinct(mirror1) by {
            lemma_has_file_remove(mirror, at, name);
        }
        lemma_has_file_skip(primary, name0);
        lemma_has_file_remove(mirror, at, name0);
        lemma_dir_of(primary1);
        lemma_dir_of(mirror1);
        let d1 = dir_of(primary1);
        let d2 = dir_of(mirror1);
        assert forall|name: Seq<char>| #[trigger]
            d1.dom().contains(name) == d2.dom().contains(name) && (d1.dom().contains(name)
                ==> d1[name] == d2[name]) by {
            assert(d1.dom().contains(name) == has_file(primary1, name));
            assert(d2.dom().contains(name) == has_file(mirror1, name));
            assert(dir_of(primary).dom().contains(name) == has_file(primary, name));
            assert(dir_of(mirror).dom().contains(name) == has_file(mirror, name));
            assert(has_file(primary1, name) == (has_file(primary, name) && name != name0));
            assert(has_file(mirror1, name) == (has_file(mirror, name) && name != name0));
            if has_file(primary1, name) {
                let i = choose|i: int| 0 <= i < primary1.len() && primary1[i].file_name == name;
                assert(primary1[i] == primary[i + 1]);
                assert(d1[primary1[i].file_name] == primary1[i].modified);
                assert(dir_of(primary)[primary[i + 1].file_name] == primary[i + 1].modified);
                assert(has_file(mirror1, name));
                let j = choose|j: int| 0 <= j < mirror1.len() && mirror1[j].file_name == name;
                let k = if j < at {
                    j
                } else {
                    j + 1
                };
                assert(mirror1[j] == mirror[k]);
                assert(d2[mirror1[j].file_name] == mirror1[j].modified);
                assert(dir_of(mirror)[mirror[k].file_name] == mirror[k].modified);
            }
        }
        assert(d1 =~= d2);
        lemma_reconcile_settled(primary1, mirror1);
        let rest = reconcile_of(primary1, mirror1);
        let all = reconcile_of(primary, mirror);
        assert(all =~= seq![first_outcome(primary, mirror)] + rest);
        assert forall|i: int| 0 <= i < all.len() implies (#[trigger] all[i]).action
            is Unchanged by {
            if i > 0 {
                assert(all[i] == rest[i - 1]);
            }
        }
    }
}

/// The save directory of one game. Its path is the same under both
/// installations: the game's directory, then the directory of the saves.
#[derive(Clone, Debug, PartialEq, Eq)]
pub struct SyncTarget {
    pub game: String,
    pub saves_dir: Vec<String>,
}

/// What was found of one game's save directories. A side is `None` where
/// its directory was not there and could not be made.
#[derive(Clone, Debug, PartialEq, Eq)]
pub struct GameSaves {
    pub game: String,
    pub primary: Option<Vec<SaveFileRecord>>,
    pub mirror: Option<Vec<SaveFileRecord>>,
}

/// The decisions on one game's save files, or `None` where one of its save
/// directories could not be made.
#[derive(Clone, Debug, PartialEq, Eq)]
pub struct GameSync {
    pub game: String,
    pub outcomes: Option<Vec<SyncOutcome>>,
}

/// What went wrong in a pass.
#[derive(Clone, Debug, PartialEq, Eq)]
pub enum SyncError {
    /// A save directory of the game could not be made.
    DirCreateFailed { game: String },
    /// The file of the game could not be copied.
    CopyFailed { game: String, file_name: String },
}

pub ghost struct SyncTargetView {
    pub game: Seq<char>,
    pub saves_dir: Seq<Seq<char>>,
}

pub ghost struct GameSavesView {
    pub game: Seq<char>,
    pub primary: Option<Seq<SaveFileView>>,
    pub mirror: Option<Seq<SaveFileView>>,
}

pub ghost struct GameSyncView {
    pub game: Seq<char>,
    pub outcomes: Option<Seq<SyncOutcomeView>>,
}

pub ghost enum SyncErrorView {
    DirCreateFailed { game: Seq<char> },
    CopyFailed { game: Seq<char>, file_name: Seq<char> },
}

impl DeepView for SyncTarget {
    type V = SyncTargetView;

    open spec fn deep_view(&self) -> SyncTargetView {
        SyncTargetView { game: self.game@, saves_dir: self.saves_dir.deep_view() }
    }
}

impl DeepView for GameSaves {
    type V = GameSavesView;

    open spec fn deep_view(&self) -> GameSavesView {
        GameSavesView {
            game: self.game@,
            primary: self.primary.deep_view(),
            mirror: self.mirror.deep_view(),
        }
    }
}

impl DeepView for GameSync {
    type V = GameSyncView;

    open spec fn deep_view(&self) -> GameSyncView {
        GameSyncView { game: self.game@, outcomes: self.outcomes.deep_view() }
    }
}

impl DeepView for SyncError {
    type V = SyncErrorView;

    open spec fn deep_view(&self) -> SyncErrorView {
        match self {
            SyncError::DirCreateFailed { game } => SyncErrorView::DirCreateFailed { game: game@ },
            SyncError::CopyFailed { game, file_name } => SyncErrorView::CopyFailed {
                game: game@,
                file_name: file_name@,
            },
        }
    }
}

/// The save directories to look at: one for each game of the catalogue, in
/// its order.
pub open spec fn targets_of(saves_dir: Seq<char>, types: Seq<DirTypeView>) -> Seq<SyncTargetView> {
    Seq::new(
        types.len(),
        |i: int| SyncTargetView { game: types[i].name, saves_dir: seq![types[i].name, saves_dir] },
    )
}

/// The decisions on one game: none where a save directory is missing, else
/// those on the save files among what the two directories hold.
pub open spec fn game_sync_of(found: GameSavesView) -> GameSyncView {
    GameSyncView {
        game: found.game,
        outcomes: match (found.primary, found.mirror) {
            (Some(primary), Some(mirror)) => Some(
                reconcile_of(saves_of(primary), saves_of(mirror)),
            ),
            _ => None,
        },
    }
}

/// The decisions of a pass: those on each game, in order. A game whose
/// directories are missing does not stop the others.
pub open spec fn pass_of(found: Seq<GameSavesView>) -> Seq<GameSyncView> {
    Seq::new(found.len(), |i: int| game_sync_of(found[i]))
}

/// Names the save directories that a pass looks at: those of the games
/// that the second installation holds. A game that only the first
/// installation holds is left alone.
pub fn sync_targets(saves_dir: &str, mirror_entries: &Vec<SubDir>) -> (targets: Vec<SyncTarget>)
    ensures
        targets.deep_view() == targets_of(saves_dir@, classify(mirror_entries.deep_view())),
{
    let types = game_dir_types(mirror_entries);
    let ghost expected = targets_of(saves_dir@, types.deep_view());
    let mut targets: Vec<SyncTarget> = Vec::new();
    let mut i: usize = 0;
    while i < types.len()
        invariant
            i <= types.len(),
            expected == targets_of(saves_dir@, types.deep_view()),
            targets.deep_view() == expected.take(i as int),
        decreases types.len() - i,
    {
        let ghost before = targets.deep_view();
        let mut path: Vec<String> = Vec::new();
        path.push(types[i].name.clone());
        path.push(String::from_str(saves_dir));
        let target = SyncTarget { game: types[i].name.clone(), saves_dir: path };
        proof {
            assert(target.saves_dir.deep_view() =~= seq![types[i as int].name@, saves_dir@]);
            assert(types.deep_view()[i as int].name == types[i as int].name@);
            assert(target.deep_view() == expected[i as int]);
        }
        targets.push(target);
        assert(targets.deep_view() =~= before.push(expected[i as int]));
        assert(expected.take(i + 1) =~= before.push(expected[i as int]));
        i = i + 1;
    }
    assert(expected.take(types.len() as int) =~= expected);
    targets
}

/// Decides what one pass copies, game by game, from what was found of the
/// save directories.
pub fn sync_saves_once(found: &Vec<GameSaves>) -> (pass: Vec<GameSync>)
    ensures
        pass.deep_view() == pass_of(found.deep_view()),
{
    let ghost expected = pass_of(found.deep_view());
    let mut pass: Vec<GameSync> = Vec::new();
    let mut i: usize = 0;
    while i < found.len()
        invariant
            i <= found.len(),
            expected == pass_of(found.deep_view()),
            pass.deep_view() == expected.take(i as int),
        decreases found.len() - i,
    {
        let ghost before = pass.deep_view();
        let game = &found[i];
        let outcomes = match (&game.primary, &game.mirror) {
            (Some(primary), Some(mirror)) => {
                let first = saves_from_dir(primary);
                let second = saves_from_dir(mirror);
                Some(reconcile(&first, &second))
            },
            _ => None,
        };
        let sync = GameSync { game: game.game.clone(), outcomes };
        proof {
            assert(found.deep_view()[i as int] == game.deep_view());
            assert(sync.deep_view() == expected[i as int]);
        }
        pass.push(sync);
        assert(pass.deep_view() =~= before.push(expected[i as int]));
        assert(expected.take(i + 1) =~= before.push(expected[i as int]));
        i = i + 1;
    }
    assert(expected.take(found.len() as int) =~= expected);
    pass
}

/// Whether the decision asks for a copy.
pub open spec fn asks_copy(action: SyncAction) -> bool {
    !(action is Unchanged)
}

/// Whether copy `k` is reported as failed. A copy without report counts
/// as made.
pub open spec fn reported_failed(copied: Seq<bool>, k: int) -> bool {
    0 <= k < copied.len() && !copied[k]
}

/// Index of the first decision from `from` on whose copy failed, or the
/// number of decisions where there is none.
pub open spec fn first_failed(outcomes: Seq<SyncOutcomeView>, copied: Seq<bool>, from: int) -> int
    decreases outcomes.len() - from,
{
    if from < 0 || from >= outcomes.len() {
        outcomes.len() as int
    } else if asks_copy(outcomes[from].action) && reported_failed(copied, from) {
        from
    } else {
        first_failed(outcomes, copied, from + 1)
    }
}

/// The reports on game `g`'s copies.
pub open spec fn reports_at(copied: Seq<Seq<bool>>, g: int) -> Seq<bool> {
    if 0 <= g < copied.len() {
        copied[g]
    } else {
        seq![]
    }
}

/// What went wrong with one game, if anything did: its directories were
/// missing, or the first of its copies that failed.
pub open spec fn game_error(sync: GameSyncView, copied: Seq<bool>) -> Option<SyncErrorView> {
    match sync.outcomes {
        None => Some(SyncErrorView::DirCreateFailed { game: sync.game }),
        Some(outcomes) => {
            let k = first_failed(outcomes, copied, 0);
            if k < outcomes.len() {
                Some(
                    SyncErrorView::CopyFailed {
                        game: sync.game,
                        file_name: outcomes[k].file_name,
                    },
                )
            } else {
                None
            }
        },
    }
}

/// The first thing that went wrong in a pass, from game `from` on.
pub open spec fn first_error(pass: Seq<GameSyncView>, copied: Seq<Seq<bool>>, from: int) -> Option<
    SyncErrorView,
>
    decreases pass.len() - from,
{
    if from < 0 || from >= pass.len() {
        None
    } else {
        match game_error(pass[from], reports_at(copied, from)) {
            Some(error) => Some(error),
            None => first_error(pass, copied, from + 1),
        }
    }
}

fn is_copy(action: SyncAction) -> (r: bool)
    ensures
        r == asks_copy(action),
{
    match action {
        SyncAction::Unchanged => false,
        _ => true,
    }
}

/// Sums a pass up once its copies have been tried: `copied` holds, game by
/// game and decision by decision, whether the copy was made.
///
/// Every game and every file has been gone through by then, whatever
/// failed on the way. The pass as a whole fails with the first thing that
/// went wrong: a game whose save directories could not be made, or a copy
/// that failed. Else it hands its decisions on.
#[verifier::loop_isolation(false)]
pub fn sync_result(pass: Vec<GameSync>, copied: &Vec<Vec<bool>>) -> (result: Result<
    Vec<GameSync>,
    SyncError,
>)
    ensures
        match first_error(pass.deep_view(), copied.deep_view(), 0) {
            Some(error) => result is Err && result->Err_0.deep_view() == error,
            None => result == Ok::<Vec<GameSync>, SyncError>(pass),
        },
{
    let mut g: usize = 0;
    while g < pass.len()
        invariant
            g <= pass.len(),
            first_error(pass.deep_view(), copied.deep_view(), 0) == first_error(
                pass.deep_view(),
                copied.deep_view(),
                g as int,
            ),
        decreases pass.len() - g,
    {
        let sync = &pass[g];
        let ghost reports = reports_at(copied.deep_view(), g as int);
        assert(pass.deep_view()[g as int] == sync.deep_view());
        match &sync.outcomes {
            None => {
                return Err(SyncError::DirCreateFailed { game: sync.game.clone() });
            },
            Some(outcomes) => {
                let mut k: usize = 0;
                while k < outcomes.len()
                    invariant
                        k <= outcomes.len(),
                        g < pass.len(),
                        reports == reports_at(copied.deep_view(), g as int),
                        first_failed(outcomes.deep_view(), reports, 0) == first_failed(
                            outcomes.deep_view(),
                            reports,
                            k as int,
                        ),
                    decreases outcomes.len() - k,
                {
                    assert(outcomes.deep_view()[k as int] == outcomes[k as int].deep_view());
                    if is_copy(outcomes[k].action) && g < copied.len() && k < copied[g].len()
                        && !copied[g][k] {
                        assert(copied.deep_view()[g as int] == copied[g as int].deep_view());
                        assert(reports[k as int] == copied[g as int][k as int]);
                        assert(first_failed(outcomes.deep_view(), reports, k as int) == k);
                        assert(sync.deep_view().outcomes == Some(outcomes.deep_view()));
                        assert(game_error(sync.deep_view(), reports) == Some(
                            SyncErrorView::CopyFailed {
                                game: sync.game@,
                                file_name: outcomes[k as int].file_name@,
                            },
                        ));
                        return Err(
                            SyncError::CopyFailed {
                                game: sync.game.clone(),
                                file_name: outcomes[k].file_name.clone(),
                            },
                        );
                    }
                    proof {
                        if g < copied.len() && k < copied[g as int].len() {
                            assert(copied.deep_view()[g as int] == copied[g as int].deep_view());
                            assert(reports[k as int] == copied[g as int][k as int]);
                        }
                    }
                    k = k + 1;
                }
            },
        }
        g = g + 1;
    }
    Ok(pass)
}

/// The loop that reconciles the save files: one pass, or with `keep_alive`
/// a pass every second. There is nothing to reconcile, and no loop, where
/// the configuration names no second installation.
pub fn sync_saves(cfg: &Cfg, keep_alive: bool) -> (begun: Result<
    (SyncLoop, SyncStep),
    SyncSetupError,
>)
    ensures
        cfg.no_client_dll_dir is None ==> begun == Err::<(SyncLoop, SyncStep), SyncSetupError>(
            SyncSetupError::NoSecondInstallation,
        ),
        cfg.no_client_dll_dir is Some ==> begun == Ok::<(SyncLoop, SyncStep), SyncSetupError>(
            (
                SyncLoop {
                    forever: keep_alive,
                    links: false,
                    saves: true,
                    phase: SyncPhase::Syncing,
                },
                SyncStep::SyncSaves,
            ),
        ),
{
    if cfg.no_client_dll_dir.is_none() {
        Err(SyncSetupError::NoSecondInstallation)
    } else {
        Ok(SyncLoop::begin(keep_alive, false, true))
    }
}

} // verus!
