//! The sync engine: planning and executing one transfer run.
//!
//! A run takes two snapshots, computes a `TransferPlan` once (create or
//! merge per source playlist, add or skip per liked track), and executes
//! it: creates carry the full source order, merges append only the
//! missing tracks in source order, likes go out in bounded batches. The
//! executor takes one success flag per write call, so a simulated or real
//! failure of one call is recorded for its items alone and every other
//! item still goes through.

use vstd::prelude::*;
use crate::library::{
    Track, TrackKey, Playlist, PlaylistModel, Library, LibraryModel, has_key, distinct_keys,
    tracks_contain, clone_tracks, append_tracks, playlist_models,
};

verus! {

/// Most tracks one write call may carry.
pub const LIKED_BATCH: usize = 50;

/// The tracks of `src` whose keys are missing from `have`, first
/// occurrence of each key only, in source order.
pub open spec fn dedup_missing(src: Seq<Track>, have: Seq<Track>) -> Seq<Track>
    decreases src.len(),
{
    if src.len() == 0 {
        Seq::empty()
    } else if has_key(have, src[0].key()) {
        dedup_missing(src.skip(1), have)
    } else {
        seq![src[0]] + dedup_missing(src.skip(1), have.push(src[0]))
    }
}

/// The tracks of `src` that `dedup_missing` leaves out: already present,
/// or a repeat of an earlier source track.
pub open spec fn skipped_of(src: Seq<Track>, have: Seq<Track>) -> Seq<Track>
    decreases src.len(),
{
    if src.len() == 0 {
        Seq::empty()
    } else if has_key(have, src[0].key()) {
        seq![src[0]] + skipped_of(src.skip(1), have)
    } else {
        skipped_of(src.skip(1), have.push(src[0]))
    }
}

/// Membership in an appended track list splits over the parts.
pub proof fn lemma_has_key_append(a: Seq<Track>, b: Seq<Track>, k: TrackKey)
    ensures
        has_key(a + b, k) == (has_key(a, k) || has_key(b, k)),
{
    if has_key(a + b, k) {
        let i = choose|i: int| 0 <= i < (a + b).len() && (a + b)[i].key() == k;
        if i < a.len() {
            assert(a[i].key() == k);
        } else {
            assert(b[i - a.len()].key() == k);
        }
    }
    if has_key(a, k) {
        let i = choose|i: int| 0 <= i < a.len() && a[i].key() == k;
        assert((a + b)[i].key() == k);
    }
    if has_key(b, k) {
        let i = choose|i: int| 0 <= i < b.len() && b[i].key() == k;
        assert((a + b)[a.len() + i].key() == k);
    }
}

/// Split `src` into the tracks to add (missing from `have`, deduplicated,
/// in source order) and the tracks to skip.
pub fn split_missing(src: &Vec<Track>, have: &Vec<Track>) -> (r: (Vec<Track>, Vec<Track>))
    ensures
        r.0@ == dedup_missing(src@, have@),
        r.1@ == skipped_of(src@, have@),
{
    let mut added: Vec<Track> = Vec::new();
    let mut skipped: Vec<Track> = Vec::new();
    let mut i: usize = 0;
    proof {
        assert(have@ + added@ =~= have@);
        assert(src@.skip(0) =~= src@);
    }
    while i < src.len()
        invariant
            i <= src@.len(),
            dedup_missing(src@, have@) == added@ + dedup_missing(
                src@.skip(i as int),
                have@ + added@,
            ),
            skipped_of(src@, have@) == skipped@ + skipped_of(src@.skip(i as int), have@ + added@),
        decreases src@.len() - i,
    {
        let ghost rest = src@.skip(i as int);
        let ghost seen = have@ + added@;
        let ghost added0 = added@;
        let ghost skipped0 = skipped@;
        proof {
            assert(rest[0] == src@[i as int]);
            assert(rest.skip(1) =~= src@.skip(i as int + 1));
        }
        let t = &src[i];
        let in_have = tracks_contain(have, t);
        let in_added = tracks_contain(&added, t);
        proof {
            lemma_has_key_append(have@, added@, t.key());
        }
        if in_have || in_added {
            skipped.push(t.clone());
            proof {
                assert(skipped0 + (seq![src@[i as int]] + skipped_of(
                    src@.skip(i as int + 1),
                    seen,
                )) =~= skipped@ + skipped_of(src@.skip(i as int + 1), seen));
            }
        } else {
            added.push(t.clone());
            proof {
                assert(seen.push(src@[i as int]) =~= have@ + added@);
                assert(added0 + (seq![src@[i as int]] + dedup_missing(
                    src@.skip(i as int + 1),
                    seen.push(src@[i as int]),
                )) =~= added@ + dedup_missing(src@.skip(i as int + 1), have@ + added@));
            }
        }
        i += 1;
    }
    proof {
        assert(src@.skip(src@.len() as int) =~= Seq::<Track>::empty());
        assert(added@ + Seq::<Track>::empty() =~= added@);
        assert(skipped@ + Seq::<Track>::empty() =~= skipped@);
    }
    (added, skipped)
}

/// Index of the first playlist named `name`, or -1.
pub open spec fn find_playlist(pls: Seq<PlaylistModel>, name: Seq<char>) -> int
    decreases pls.len(),
{
    if pls.len() == 0 {
        -1
    } else if pls[0].name == name {
        0
    } else {
        let r = find_playlist(pls.skip(1), name);
        if r < 0 {
            -1
        } else {
            r + 1
        }
    }
}

/// `find_playlist` stays in range and lands on a matching name.
pub proof fn lemma_find_playlist_range(pls: Seq<PlaylistModel>, name: Seq<char>)
    ensures
        find_playlist(pls, name) == -1 || (0 <= find_playlist(pls, name) < pls.len()),
        find_playlist(pls, name) >= 0 ==> pls[find_playlist(pls, name)].name == name,
    decreases pls.len(),
{
    if pls.len() > 0 && pls[0].name != name {
        lemma_find_playlist_range(pls.skip(1), name);
        if find_playlist(pls.skip(1), name) >= 0 {
            assert(pls[find_playlist(pls, name)] == pls.skip(1)[find_playlist(pls.skip(1), name)]);
        }
    }
}

/// A first match at `i` pins the result of `find_playlist` to `i`.
pub proof fn lemma_find_playlist_first(pls: Seq<PlaylistModel>, name: Seq<char>, i: int)
    requires
        0 <= i < pls.len(),
        pls[i].name == name,
        forall|j: int| 0 <= j < i ==> pls[j].name != name,
    ensures
        find_playlist(pls, name) == i,
    decreases i,
{
    if i > 0 {
        lemma_find_playlist_first(pls.skip(1), name, i - 1);
    }
}

/// No matching name anywhere means `find_playlist` reports none.
pub proof fn lemma_find_playlist_absent(pls: Seq<PlaylistModel>, name: Seq<char>)
    requires
        forall|j: int| 0 <= j < pls.len() ==> pls[j].name != name,
    ensures
        find_playlist(pls, name) == -1,
    decreases pls.len(),
{
    if pls.len() > 0 {
        lemma_find_playlist_absent(pls.skip(1), name);
    }
}

/// First playlist of `pls` whose name reads `name`, if any.
pub fn find_playlist_index(pls: &Vec<Playlist>, name: &String) -> (r: Option<usize>)
    ensures
        (match r {
            Some(j) => 0 <= j < pls@.len() && find_playlist(playlist_models(pls@), name@)
                == j as int,
            None => find_playlist(playlist_models(pls@), name@) == -1,
        }),
{
    let mut i: usize = 0;
    let n = pls.len();
    while i < n
        invariant
            n == pls@.len(),
            i <= n,
            forall|j: int| 0 <= j < i ==> playlist_models(pls@)[j].name != name@,
        decreases n - i,
    {
        if pls[i].name == *name {
            proof {
                lemma_find_playlist_first(playlist_models(pls@), name@, i as int);
            }
            return Some(i);
        }
        i += 1;
    }
    proof {
        lemma_find_playlist_absent(playlist_models(pls@), name@);
    }
    None
}

/// One planned write for a source playlist.
pub enum PlaylistAction {
    /// No target playlist of this name exists: create it with the full
    /// source track order and the source display data.
    Create {
        name: String,
        description: String,
        is_public: bool,
        collaborative: bool,
        tracks: Vec<Track>,
    },
    /// A target playlist of this name exists: append only these tracks.
    Merge { name: String, to_add: Vec<Track> },
}

/// What the engine sees of a planned write.
#[verifier::ext_equal]
pub enum ActionModel {
    Create(PlaylistModel),
    Merge(Seq<char>, Seq<Track>),
}

impl PlaylistAction {
    pub open spec fn model(self) -> ActionModel {
        match self {
            PlaylistAction::Create { name, tracks, .. } => ActionModel::Create(
                PlaylistModel { name: name@, tracks: tracks@ },
            ),
            PlaylistAction::Merge { name, to_add } => ActionModel::Merge(name@, to_add@),
        }
    }
}

pub open spec fn action_models(v: Seq<PlaylistAction>) -> Seq<ActionModel> {
    v.map_values(|a: PlaylistAction| a.model())
}

/// The playlist name an action is about.
pub open spec fn action_name(a: ActionModel) -> Seq<char> {
    match a {
        ActionModel::Create(p) => p.name,
        ActionModel::Merge(name, _) => name,
    }
}

/// The target playlists after one planned write lands.
pub open spec fn sync_playlist(tgt: Seq<PlaylistModel>, p: PlaylistModel) -> Seq<PlaylistModel> {
    let j = find_playlist(tgt, p.name);
    if j < 0 {
        tgt.push(p)
    } else {
        tgt.update(
            j,
            PlaylistModel { name: tgt[j].name, tracks: tgt[j].tracks + dedup_missing(p.tracks, tgt[j].tracks) },
        )
    }
}

/// The target playlists after every source playlist is processed in
/// source order, each against the state the previous ones produced.
pub open spec fn sync_playlists(tgt: Seq<PlaylistModel>, src: Seq<PlaylistModel>) -> Seq<
    PlaylistModel,
>
    decreases src.len(),
{
    if src.len() == 0 {
        tgt
    } else {
        sync_playlists(sync_playlist(tgt, src[0]), src.skip(1))
    }
}

/// The planned write for one source playlist against a target state.
pub open spec fn action_for(tgt: Seq<PlaylistModel>, p: PlaylistModel) -> ActionModel {
    let j = find_playlist(tgt, p.name);
    if j < 0 {
        ActionModel::Create(p)
    } else {
        ActionModel::Merge(p.name, dedup_missing(p.tracks, tgt[j].tracks))
    }
}

/// The planned writes for all source playlists, each computed against
/// the target state the earlier ones will have produced.
pub open spec fn plan_actions(tgt: Seq<PlaylistModel>, src: Seq<PlaylistModel>) -> Seq<ActionModel>
    decreases src.len(),
{
    if src.len() == 0 {
        Seq::empty()
    } else {
        seq![action_for(tgt, src[0])] + plan_actions(sync_playlist(tgt, src[0]), src.skip(1))
    }
}

/// The whole library after a fully successful run.
pub open spec fn transfer_model(src: LibraryModel, tgt: LibraryModel) -> LibraryModel {
    LibraryModel {
        playlists: sync_playlists(tgt.playlists, src.playlists),
        liked: tgt.liked + dedup_missing(src.liked, tgt.liked),
    }
}

/// The liked tracks a run against this source and target would add.
pub open spec fn liked_additions(src: LibraryModel, tgt: LibraryModel) -> Seq<Track> {
    dedup_missing(src.liked, tgt.liked)
}

/// The whole plan for one run.
pub struct TransferPlan {
    pub playlist_actions: Vec<PlaylistAction>,
    pub liked_to_add: Vec<Track>,
    pub liked_skipped: Vec<Track>,
}

/// Copy a vector of playlists element by element.
fn clone_playlists(v: &Vec<Playlist>) -> (r: Vec<Playlist>)
    ensures
        playlist_models(r@) == playlist_models(v@),
{
    let mut r: Vec<Playlist> = Vec::new();
    let mut i: usize = 0;
    while i < v.len()
        invariant
            i <= v@.len(),
            r@.len() == i,
            forall|j: int| 0 <= j < i ==> r@[j].model() == v@[j].model(),
        decreases v@.len() - i,
    {
        r.push(v[i].duplicate());
        i += 1;
    }
    proof {
        assert(playlist_models(r@) =~= playlist_models(v@));
    }
    r
}

/// Compute the plan for one run from the two snapshots: a create or
/// merge per source playlist (in source order, against the target state
/// the earlier actions will produce), and the liked additions and skips.
pub fn plan_transfer(source: &Library, target: &Library) -> (p: TransferPlan)
    ensures
        action_models(p.playlist_actions@) == plan_actions(
            target.model().playlists,
            source.model().playlists,
        ),
        p.playlist_actions@.len() == source.model().playlists.len(),
        p.liked_to_add@ == dedup_missing(source.model().liked, target.model().liked),
        p.liked_skipped@ == skipped_of(source.model().liked, target.model().liked),
{
    let ghost t0 = target.model().playlists;
    let ghost s = source.model().playlists;
    let mut projected = clone_playlists(&target.playlists);
    let mut actions: Vec<PlaylistAction> = Vec::new();
    let mut i: usize = 0;
    proof {
        assert(s.skip(0) =~= s);
        assert(action_models(actions@) + plan_actions(playlist_models(projected@), s) =~= plan_actions(
            playlist_models(projected@),
            s,
        ));
    }
    while i < source.playlists.len()
        invariant
            i <= source.playlists@.len(),
            t0 == target.model().playlists,
            s == source.model().playlists,
            s.len() == source.playlists@.len(),
            actions@.len() == i,
            sync_playlists(t0, s) == sync_playlists(playlist_models(projected@), s.skip(i as int)),
            plan_actions(t0, s) == action_models(actions@) + plan_actions(
                playlist_models(projected@),
                s.skip(i as int),
            ),
        decreases source.playlists@.len() - i,
    {
        let ghost cur = playlist_models(projected@);
        let ghost rest = s.skip(i as int);
        let ghost acts0 = action_models(actions@);
        proof {
            assert(rest[0] == s[i as int]);
            assert(rest.skip(1) =~= s.skip(i as int + 1));
            assert(s[i as int] == source.playlists@[i as int].model());
        }
        let src_pl = &source.playlists[i];
        match find_playlist_index(&projected, &src_pl.name) {
            None => {
                let act = PlaylistAction::Create {
                    name: src_pl.name.clone(),
                    description: src_pl.description.clone(),
                    is_public: src_pl.is_public,
                    collaborative: src_pl.collaborative,
                    tracks: clone_tracks(&src_pl.tracks),
                };
                proof {
                    assert(act.model() == ActionModel::Create(s[i as int]));
                    assert(act.model() == action_for(cur, s[i as int]));
                }
                actions.push(act);
                projected.push(src_pl.duplicate());
                proof {
                    assert(playlist_models(projected@) =~= cur.push(s[i as int]));
                    assert(playlist_models(projected@) == sync_playlist(cur, s[i as int]));
                    assert(action_models(actions@) =~= acts0.push(action_for(cur, s[i as int])));
                    assert(acts0 + (seq![action_for(cur, s[i as int])] + plan_actions(
                        sync_playlist(cur, s[i as int]),
                        s.skip(i as int + 1),
                    )) =~= action_models(actions@) + plan_actions(
                        sync_playlist(cur, s[i as int]),
                        s.skip(i as int + 1),
                    ));
                }
            }
            Some(j) => {
                proof {
                    assert(cur[j as int] == projected@[j as int].model());
                }
                let pair = split_missing(&src_pl.tracks, &projected[j].tracks);
                let missing = pair.0;
                let missing_copy = clone_tracks(&missing);
                let act = PlaylistAction::Merge {
                    name: src_pl.name.clone(),
                    to_add: missing,
                };
                proof {
                    assert(act.model() == ActionModel::Merge(
                        s[i as int].name,
                        dedup_missing(s[i as int].tracks, cur[j as int].tracks),
                    ));
                    assert(act.model() == action_for(cur, s[i as int]));
                }
                actions.push(act);
                let slot = &mut projected[j];
                append_tracks(&mut slot.tracks, &missing_copy);
                proof {
                    assert(playlist_models(projected@) =~= cur.update(
                        j as int,
                        PlaylistModel {
                            name: cur[j as int].name,
                            tracks: cur[j as int].tracks + dedup_missing(
                                s[i as int].tracks,
                                cur[j as int].tracks,
                            ),
                        },
                    ));
                    assert(playlist_models(projected@) == sync_playlist(cur, s[i as int]));
                    assert(action_models(actions@) =~= acts0.push(action_for(cur, s[i as int])));
                    assert(acts0 + (seq![action_for(cur, s[i as int])] + plan_actions(
                        sync_playlist(cur, s[i as int]),
                        s.skip(i as int + 1),
                    )) =~= action_models(actions@) + plan_actions(
                        sync_playlist(cur, s[i as int]),
                        s.skip(i as int + 1),
                    ));
                }
            }
        }
        i += 1;
    }
    let pair = split_missing(&source.liked, &target.liked);
    proof {
        assert(s.skip(s.len() as int) =~= Seq::<PlaylistModel>::empty());
        assert(action_models(actions@) + Seq::<ActionModel>::empty() =~= action_models(actions@));
    }
    TransferPlan { playlist_actions: actions, liked_to_add: pair.0, liked_skipped: pair.1 }
}

/// Per-item outcome recorded in the result log.
pub enum ItemOutcome {
    Created,
    Merged,
    SkippedDuplicate,
    Failed { reason: String },
}

/// What the engine sees of a recorded outcome.
pub enum OutcomeModel {
    Created,
    Merged,
    Skipped,
    Failed,
}

/// Whether a recorded outcome is the one the model expects.
pub open spec fn outcome_matches(o: ItemOutcome, m: OutcomeModel) -> bool {
    match m {
        OutcomeModel::Created => o is Created,
        OutcomeModel::Merged => o is Merged,
        OutcomeModel::Skipped => o is SkippedDuplicate,
        OutcomeModel::Failed => o is Failed,
    }
}

/// The target playlists after one action lands (a failed write leaves
/// the target as it was; a merge whose playlist has gone missing writes
/// nothing).
pub open spec fn apply_action(tgt: Seq<PlaylistModel>, a: ActionModel) -> Seq<PlaylistModel> {
    match a {
        ActionModel::Create(p) => tgt.push(p),
        ActionModel::Merge(name, to_add) => {
            let j = find_playlist(tgt, name);
            if j < 0 {
                tgt
            } else {
                tgt.update(
                    j,
                    PlaylistModel { name: tgt[j].name, tracks: tgt[j].tracks + to_add },
                )
            }
        },
    }
}

/// The target playlists after the actions run in order, each write
/// landing exactly when its success flag says so.
pub open spec fn apply_actions(
    tgt: Seq<PlaylistModel>,
    acts: Seq<ActionModel>,
    ok: Seq<bool>,
) -> Seq<PlaylistModel>
    decreases acts.len(),
{
    if acts.len() == 0 {
        tgt
    } else {
        let t1 = if ok[0] {
            apply_action(tgt, acts[0])
        } else {
            tgt
        };
        apply_actions(t1, acts.skip(1), ok.skip(1))
    }
}

/// The outcome recorded for one action under one success flag.
pub open spec fn outcome_one(tgt: Seq<PlaylistModel>, a: ActionModel, ok: bool) -> OutcomeModel {
    match a {
        ActionModel::Create(_) => if ok {
            OutcomeModel::Created
        } else {
            OutcomeModel::Failed
        },
        ActionModel::Merge(name, to_add) => if to_add.len() == 0 {
            OutcomeModel::Skipped
        } else if !ok {
            OutcomeModel::Failed
        } else if find_playlist(tgt, name) < 0 {
            OutcomeModel::Failed
        } else {
            OutcomeModel::Merged
        },
    }
}

/// The outcomes recorded for the actions in order.
pub open spec fn outcomes_of(
    tgt: Seq<PlaylistModel>,
    acts: Seq<ActionModel>,
    ok: Seq<bool>,
) -> Seq<OutcomeModel>
    decreases acts.len(),
{
    if acts.len() == 0 {
        Seq::empty()
    } else {
        let t1 = if ok[0] {
            apply_action(tgt, acts[0])
        } else {
            tgt
        };
        seq![outcome_one(tgt, acts[0], ok[0])] + outcomes_of(t1, acts.skip(1), ok.skip(1))
    }
}

/// How many tracks the next liked batch carries.
pub open spec fn batch_size(remaining: int) -> int {
    if remaining < LIKED_BATCH as int {
        remaining
    } else {
        LIKED_BATCH as int
    }
}

/// How many write calls `n` liked additions take.
pub open spec fn batch_count(n: int) -> int
    decreases n,
{
    if n <= 0 {
        0
    } else {
        1 + batch_count(n - batch_size(n))
    }
}

/// A batch count is never negative.
pub proof fn lemma_batch_count_nonneg(n: int)
    ensures
        batch_count(n) >= 0,
    decreases n,
{
    if n > 0 {
        lemma_batch_count_nonneg(n - batch_size(n));
    }
}

/// The liked collection after the batches run, each landing exactly
/// when its success flag says so.
pub open spec fn apply_liked(liked: Seq<Track>, to_add: Seq<Track>, ok: Seq<bool>) -> Seq<Track>
    decreases to_add.len(),
{
    if to_add.len() == 0 {
        liked
    } else {
        let b = batch_size(to_add.len() as int);
        let l1 = if ok[0] {
            liked + to_add.take(b)
        } else {
            liked
        };
        apply_liked(l1, to_add.skip(b), ok.skip(1))
    }
}

/// The liked additions whose batch landed.
pub open spec fn added_of(to_add: Seq<Track>, ok: Seq<bool>) -> Seq<Track>
    decreases to_add.len(),
{
    if to_add.len() == 0 {
        Seq::empty()
    } else {
        let b = batch_size(to_add.len() as int);
        let rest = added_of(to_add.skip(b), ok.skip(1));
        if ok[0] {
            to_add.take(b) + rest
        } else {
            rest
        }
    }
}

/// The liked additions whose batch failed.
pub open spec fn failed_of(to_add: Seq<Track>, ok: Seq<bool>) -> Seq<Track>
    decreases to_add.len(),
{
    if to_add.len() == 0 {
        Seq::empty()
    } else {
        let b = batch_size(to_add.len() as int);
        let rest = failed_of(to_add.skip(b), ok.skip(1));
        if ok[0] {
            rest
        } else {
            to_add.take(b) + rest
        }
    }
}

/// The result log of one run.
pub struct TransferResult {
    /// One entry per planned playlist action, in plan order.
    pub playlists: Vec<(String, ItemOutcome)>,
    /// Liked tracks whose batch landed.
    pub liked_added: Vec<Track>,
    /// Liked tracks skipped as already present (or repeated in the source).
    pub liked_skipped: Vec<Track>,
    /// Liked tracks whose batch failed.
    pub liked_failed: Vec<Track>,
}

fn fail_reason() -> (r: String)
    ensures
        r@ == "write call failed"@,
{
    "write call failed".to_owned()
}

fn missing_reason() -> (r: String)
    ensures
        r@ == "target playlist not found"@,
{
    "target playlist not found".to_owned()
}

/// How many write calls the liked additions will take.
pub fn batch_count_exec(n: usize) -> (r: usize)
    ensures
        r == batch_count(n as int),
{
    let mut m: usize = n;
    let mut r: usize = 0;
    while m > 0
        invariant
            m <= n,
            r <= n - m,
            batch_count(n as int) == r + batch_count(m as int),
        decreases m,
    {
        let step = if m < LIKED_BATCH {
            m
        } else {
            LIKED_BATCH
        };
        m = m - step;
        r = r + 1;
    }
    r
}

/// A vector of `n` success flags.
pub fn vec_true(n: usize) -> (r: Vec<bool>)
    ensures
        r@.len() == n,
        forall|i: int| 0 <= i < n ==> r@[i],
{
    let mut r: Vec<bool> = Vec::new();
    let mut i: usize = 0;
    while i < n
        invariant
            i <= n,
            r@.len() == i,
            forall|j: int| 0 <= j < i ==> r@[j],
        decreases n - i,
    {
        r.push(true);
        i += 1;
    }
    r
}

/// Execute a plan against the target. One success flag per playlist
/// action and one per liked batch drive which write calls land — the
/// application reports a real provider failure, a test injects one — and
/// a failed call is recorded for its own items alone: every other item
/// is still attempted exactly as planned.
pub fn execute_plan(
    target: &mut Library,
    plan: &TransferPlan,
    playlist_ok: &Vec<bool>,
    liked_ok: &Vec<bool>,
) -> (r: TransferResult)
    requires
        playlist_ok@.len() == plan.playlist_actions@.len(),
        liked_ok@.len() == batch_count(plan.liked_to_add@.len() as int),
    ensures
        final(target).model().playlists == apply_actions(
            old(target).model().playlists,
            action_models(plan.playlist_actions@),
            playlist_ok@,
        ),
        final(target).model().liked == apply_liked(
            old(target).model().liked,
            plan.liked_to_add@,
            liked_ok@,
        ),
        r.playlists@.len() == plan.playlist_actions@.len(),
        forall|i: int|
            0 <= i < r.playlists@.len() ==> r.playlists@[i].0@ == action_name(
                action_models(plan.playlist_actions@)[i],
            ) && outcome_matches(
                r.playlists@[i].1,
                outcomes_of(
                    old(target).model().playlists,
                    action_models(plan.playlist_actions@),
                    playlist_ok@,
                )[i],
            ),
        r.liked_added@ == added_of(plan.liked_to_add@, liked_ok@),
        r.liked_failed@ == failed_of(plan.liked_to_add@, liked_ok@),
        r.liked_skipped@ == plan.liked_skipped@,
{
    let ghost t0 = target.model().playlists;
    let ghost acts = action_models(plan.playlist_actions@);
    let ghost oks = playlist_ok@;
    let mut results: Vec<(String, ItemOutcome)> = Vec::new();
    let ghost mut oms = Seq::<OutcomeModel>::empty();
    let mut i: usize = 0;
    proof {
        assert(acts.skip(0) =~= acts);
        assert(oks.skip(0) =~= oks);
        assert(oms + outcomes_of(playlist_models(target.playlists@), acts, oks) =~= outcomes_of(
            playlist_models(target.playlists@),
            acts,
            oks,
        ));
    }
    while i < plan.playlist_actions.len()
        invariant
            i <= plan.playlist_actions@.len(),
            acts == action_models(plan.playlist_actions@),
            acts.len() == plan.playlist_actions@.len(),
            oks == playlist_ok@,
            oks.len() == acts.len(),
            target.liked@ == old(target).liked@,
            t0 == old(target).model().playlists,
            apply_actions(t0, acts, oks) == apply_actions(
                playlist_models(target.playlists@),
                acts.skip(i as int),
                oks.skip(i as int),
            ),
            outcomes_of(t0, acts, oks) == oms + outcomes_of(
                playlist_models(target.playlists@),
                acts.skip(i as int),
                oks.skip(i as int),
            ),
            results@.len() == i,
            oms.len() == i,
            forall|k: int|
                0 <= k < i ==> results@[k].0@ == action_name(acts[k]) && outcome_matches(
                    results@[k].1,
                    oms[k],
                ),
        decreases plan.playlist_actions@.len() - i,
    {
        let ghost cur = playlist_models(target.playlists@);
        let ghost oms0 = oms;
        proof {
            assert(acts.skip(i as int)[0] == acts[i as int]);
            assert(acts.skip(i as int).skip(1) =~= acts.skip(i as int + 1));
            assert(oks.skip(i as int)[0] == oks[i as int]);
            assert(oks.skip(i as int).skip(1) =~= oks.skip(i as int + 1));
            assert(acts[i as int] == plan.playlist_actions@[i as int].model());
        }
        let ok = playlist_ok[i];
        let act = &plan.playlist_actions[i];
        match act {
            PlaylistAction::Create { name, description, is_public, collaborative, tracks } => {
                if ok {
                    target.playlists.push(
                        Playlist {
                            id: String::new(),
                            name: name.clone(),
                            description: description.clone(),
                            is_public: *is_public,
                            collaborative: *collaborative,
                            tracks: clone_tracks(tracks),
                        },
                    );
                    results.push((name.clone(), ItemOutcome::Created));
                    proof {
                        let p = (match acts[i as int] {
                            ActionModel::Create(p) => p,
                            ActionModel::Merge(_, _) => arbitrary(),
                        });
                        assert(playlist_models(target.playlists@) =~= cur.push(p));
                        assert(playlist_models(target.playlists@) == apply_action(
                            cur,
                            acts[i as int],
                        ));
                    }
                } else {
                    results.push((name.clone(), ItemOutcome::Failed { reason: fail_reason() }));
                }
            },
            PlaylistAction::Merge { name, to_add } => {
                if to_add.len() == 0 {
                    results.push((name.clone(), ItemOutcome::SkippedDuplicate));
                    proof {
                        lemma_find_playlist_range(cur, name@);
                        let j = find_playlist(cur, name@);
                        if j >= 0 {
                            assert(cur[j].tracks + to_add@ =~= cur[j].tracks);
                            assert(PlaylistModel {
                                name: cur[j].name,
                                tracks: cur[j].tracks + to_add@,
                            } =~= cur[j]);
                            assert(cur.update(j, cur[j]) =~= cur);
                        }
                        assert(apply_action(cur, acts[i as int]) == cur);
                    }
                } else if ok {
                    match find_playlist_index(&target.playlists, name) {
                        Some(j) => {
                            proof {
                                assert(cur[j as int] == playlist_models(
                                    target.playlists@,
                                )[j as int]);
                            }
                            let slot = &mut target.playlists[j];
                            append_tracks(&mut slot.tracks, to_add);
                            results.push((name.clone(), ItemOutcome::Merged));
                            proof {
                                assert(playlist_models(target.playlists@) =~= cur.update(
                                    j as int,
                                    PlaylistModel {
                                        name: cur[j as int].name,
                                        tracks: cur[j as int].tracks + to_add@,
                                    },
                                ));
                                assert(playlist_models(target.playlists@) == apply_action(
                                    cur,
                                    acts[i as int],
                                ));
                            }
                        },
                        None => {
                            results.push(
                                (name.clone(), ItemOutcome::Failed { reason: missing_reason() }),
                            );
                            proof {
                                assert(apply_action(cur, acts[i as int]) == cur);
                            }
                        },
                    }
                } else {
                    results.push((name.clone(), ItemOutcome::Failed { reason: fail_reason() }));
                }
            },
        }
        proof {
            oms = oms.push(outcome_one(cur, acts[i as int], oks[i as int]));
            assert(oms0 + (seq![outcome_one(cur, acts[i as int], oks[i as int])] + outcomes_of(
                playlist_models(target.playlists@),
                acts.skip(i as int + 1),
                oks.skip(i as int + 1),
            )) =~= oms + outcomes_of(
                playlist_models(target.playlists@),
                acts.skip(i as int + 1),
                oks.skip(i as int + 1),
            ));
        }
        i += 1;
    }
    proof {
        assert(acts.skip(acts.len() as int) =~= Seq::<ActionModel>::empty());
        assert(oks.skip(oks.len() as int) =~= Seq::<bool>::empty());
        assert(oms + Seq::<OutcomeModel>::empty() =~= oms);
        assert(apply_actions(t0, acts, oks) == playlist_models(target.playlists@));
        assert(outcomes_of(t0, acts, oks) == oms);
    }
    let ghost pls_done = target.playlists@;
    let ghost l0 = target.liked@;
    let ghost ta = plan.liked_to_add@;
    let ghost lok = liked_ok@;
    let mut liked_added: Vec<Track> = Vec::new();
    let mut liked_failed: Vec<Track> = Vec::new();
    let mut o: usize = 0;
    let mut b: usize = 0;
    let nb = liked_ok.len();
    proof {
        assert(ta.skip(0) =~= ta);
        assert(lok.skip(0) =~= lok);
        assert(liked_added@ + added_of(ta, lok) =~= added_of(ta, lok));
        assert(liked_failed@ + failed_of(ta, lok) =~= failed_of(ta, lok));
    }
    while o < plan.liked_to_add.len()
        invariant
            ta == plan.liked_to_add@,
            lok == liked_ok@,
            o <= ta.len(),
            b <= lok.len(),
            nb == lok.len(),
            lok.len() - b == batch_count(ta.len() - o),
            target.playlists@ == pls_done,
            apply_liked(l0, ta, lok) == apply_liked(
                target.liked@,
                ta.skip(o as int),
                lok.skip(b as int),
            ),
            added_of(ta, lok) == liked_added@ + added_of(ta.skip(o as int), lok.skip(b as int)),
            failed_of(ta, lok) == liked_failed@ + failed_of(ta.skip(o as int), lok.skip(b as int)),
        decreases ta.len() - o,
    {
        let len = plan.liked_to_add.len();
        let cnt = if len - o < LIKED_BATCH {
            len - o
        } else {
            LIKED_BATCH
        };
        let ghost rest = ta.skip(o as int);
        let ghost lrest = lok.skip(b as int);
        let ghost liked0 = target.liked@;
        let ghost added0 = liked_added@;
        let ghost failed0 = liked_failed@;
        proof {
            assert(rest.len() == ta.len() - o);
            assert(batch_size(rest.len() as int) == cnt as int);
            lemma_batch_count_nonneg(ta.len() - o - cnt);
            assert(b < lok.len());
            assert(lrest[0] == lok[b as int]);
            assert(lrest.skip(1) =~= lok.skip(b as int + 1));
            assert(rest.skip(cnt as int) =~= ta.skip(o as int + cnt as int));
        }
        let mut chunk: Vec<Track> = Vec::new();
        let mut k: usize = 0;
        while k < cnt
            invariant
                k <= cnt,
                o + cnt <= len,
                len == plan.liked_to_add@.len(),
                ta == plan.liked_to_add@,
                chunk@ == ta.subrange(o as int, o as int + k as int),
            decreases cnt - k,
        {
            chunk.push(plan.liked_to_add[o + k].clone());
            proof {
                assert(chunk@ =~= ta.subrange(o as int, o as int + k as int + 1));
            }
            k += 1;
        }
        proof {
            assert(chunk@ =~= rest.take(cnt as int));
        }
        let ok = liked_ok[b];
        if ok {
            append_tracks(&mut target.liked, &chunk);
            append_tracks(&mut liked_added, &chunk);
            proof {
                assert(target.liked@ == liked0 + rest.take(cnt as int));
                assert(added0 + (rest.take(cnt as int) + added_of(
                    ta.skip(o as int + cnt as int),
                    lok.skip(b as int + 1),
                )) =~= liked_added@ + added_of(
                    ta.skip(o as int + cnt as int),
                    lok.skip(b as int + 1),
                ));
            }
        } else {
            append_tracks(&mut liked_failed, &chunk);
            proof {
                assert(failed0 + (rest.take(cnt as int) + failed_of(
                    ta.skip(o as int + cnt as int),
                    lok.skip(b as int + 1),
                )) =~= liked_failed@ + failed_of(
                    ta.skip(o as int + cnt as int),
                    lok.skip(b as int + 1),
                ));
            }
        }
        proof {
            assert(b < nb);
        }
        o += cnt;
        b += 1;
    }
    proof {
        assert(ta.skip(ta.len() as int) =~= Seq::<Track>::empty());
        assert(liked_added@ + Seq::<Track>::empty() =~= liked_added@);
        assert(liked_failed@ + Seq::<Track>::empty() =~= liked_failed@);
    }
    let liked_skipped = clone_tracks(&plan.liked_skipped);
    TransferResult { playlists: results, liked_added, liked_skipped, liked_failed }
}

/// One successfully planned action applies as the sync step says.
proof fn lemma_apply_matches_sync(tgt: Seq<PlaylistModel>, p: PlaylistModel)
    ensures
        apply_action(tgt, action_for(tgt, p)) == sync_playlist(tgt, p),
{
    lemma_find_playlist_range(tgt, p.name);
}

/// Running a freshly computed plan with every write succeeding lands the
/// target exactly on the synced state.
pub proof fn lemma_apply_plan_all_ok(
    tgt: Seq<PlaylistModel>,
    src: Seq<PlaylistModel>,
    ok: Seq<bool>,
)
    requires
        ok.len() == src.len(),
        forall|i: int| 0 <= i < ok.len() ==> ok[i],
    ensures
        apply_actions(tgt, plan_actions(tgt, src), ok) == sync_playlists(tgt, src),
    decreases src.len(),
{
    lemma_plan_actions_len(tgt, src);
    if src.len() > 0 {
        let acts = plan_actions(tgt, src);
        assert(acts[0] == action_for(tgt, src[0]));
        lemma_apply_matches_sync(tgt, src[0]);
        let t1 = sync_playlist(tgt, src[0]);
        assert(acts.skip(1) =~= plan_actions(t1, src.skip(1)));
        lemma_apply_plan_all_ok(t1, src.skip(1), ok.skip(1));
    }
}

/// A plan holds one action per source playlist.
pub proof fn lemma_plan_actions_len(tgt: Seq<PlaylistModel>, src: Seq<PlaylistModel>)
    ensures
        plan_actions(tgt, src).len() == src.len(),
    decreases src.len(),
{
    if src.len() > 0 {
        lemma_plan_actions_len(sync_playlist(tgt, src[0]), src.skip(1));
    }
}

/// Liked batches with every write succeeding append exactly the planned
/// additions.
pub proof fn lemma_apply_liked_all_ok(liked: Seq<Track>, to_add: Seq<Track>, ok: Seq<bool>)
    requires
        ok.len() == batch_count(to_add.len() as int),
        forall|i: int| 0 <= i < ok.len() ==> ok[i],
    ensures
        apply_liked(liked, to_add, ok) == liked + to_add,
    decreases to_add.len(),
{
    if to_add.len() == 0 {
        assert(liked + to_add =~= liked);
    } else {
        let bs = batch_size(to_add.len() as int);
        lemma_batch_count_nonneg(to_add.len() - bs);
        assert forall|i: int| 0 <= i < ok.skip(1).len() implies ok.skip(1)[i] by {
            assert(ok.skip(1)[i] == ok[i + 1]);
        }
        lemma_apply_liked_all_ok(liked + to_add.take(bs), to_add.skip(bs), ok.skip(1));
        assert(liked + to_add.take(bs) + to_add.skip(bs) =~= liked + to_add);
    }
}

/// With every batch landing, everything planned is added.
pub proof fn lemma_added_of_all_ok(to_add: Seq<Track>, ok: Seq<bool>)
    requires
        ok.len() == batch_count(to_add.len() as int),
        forall|i: int| 0 <= i < ok.len() ==> ok[i],
    ensures
        added_of(to_add, ok) == to_add,
    decreases to_add.len(),
{
    if to_add.len() > 0 {
        let bs = batch_size(to_add.len() as int);
        lemma_batch_count_nonneg(to_add.len() - bs);
        assert forall|i: int| 0 <= i < ok.skip(1).len() implies ok.skip(1)[i] by {
            assert(ok.skip(1)[i] == ok[i + 1]);
        }
        lemma_added_of_all_ok(to_add.skip(bs), ok.skip(1));
        assert(to_add.take(bs) + to_add.skip(bs) =~= to_add);
    }
}

/// With every batch landing, nothing is recorded as failed.
pub proof fn lemma_failed_of_all_ok(to_add: Seq<Track>, ok: Seq<bool>)
    requires
        ok.len() == batch_count(to_add.len() as int),
        forall|i: int| 0 <= i < ok.len() ==> ok[i],
    ensures
        failed_of(to_add, ok) == Seq::<Track>::empty(),
    decreases to_add.len(),
{
    if to_add.len() > 0 {
        let bs = batch_size(to_add.len() as int);
        lemma_batch_count_nonneg(to_add.len() - bs);
        assert forall|i: int| 0 <= i < ok.skip(1).len() implies ok.skip(1)[i] by {
            assert(ok.skip(1)[i] == ok[i + 1]);
        }
        lemma_failed_of_all_ok(to_add.skip(bs), ok.skip(1));
    }
}

/// A full run: compute the plan from the snapshots and execute it with
/// every write call succeeding. The target becomes exactly the synced
/// library; the result lists what was added and what was skipped.
pub fn transfer(source: &Library, target: &mut Library) -> (r: TransferResult)
    ensures
        final(target).model() == transfer_model(source.model(), old(target).model()),
        r.playlists@.len() == source.model().playlists.len(),
        r.liked_added@ == liked_additions(source.model(), old(target).model()),
        r.liked_skipped@ == skipped_of(source.model().liked, old(target).model().liked),
        r.liked_failed@ == Seq::<Track>::empty(),
{
    let plan = plan_transfer(source, &*target);
    let playlist_ok = vec_true(plan.playlist_actions.len());
    let liked_ok = vec_true(batch_count_exec(plan.liked_to_add.len()));
    let result = execute_plan(target, &plan, &playlist_ok, &liked_ok);
    proof {
        lemma_apply_plan_all_ok(
            old(target).model().playlists,
            source.model().playlists,
            playlist_ok@,
        );
        lemma_apply_liked_all_ok(old(target).model().liked, plan.liked_to_add@, liked_ok@);
        lemma_added_of_all_ok(plan.liked_to_add@, liked_ok@);
        lemma_failed_of_all_ok(plan.liked_to_add@, liked_ok@);
        assert(target.model() =~= transfer_model(source.model(), old(target).model()));
    }
    result
}

} // verus!
