//! The engine's guarantees, proved once and for all libraries.
//!
//! Each public proof function here states one promise of the sync
//! engine over the same spec functions its executable contracts use:
//! re-running a transfer changes nothing, liked collections never gain
//! duplicates, a created playlist carries the source order exactly, and
//! a merge only appends what was missing.

use vstd::prelude::*;
use crate::library::{Track, TrackKey, PlaylistModel, LibraryModel, has_key, distinct_keys};
use crate::sync::{
    dedup_missing, find_playlist, sync_playlist, sync_playlists, action_for, plan_actions,
    transfer_model, liked_additions, ActionModel, lemma_has_key_append,
    lemma_find_playlist_range,
};

verus! {

/// Splitting off the head of a track list splits membership.
proof fn lemma_has_key_cons(s: Seq<Track>, k: TrackKey)
    requires
        s.len() > 0,
    ensures
        has_key(s, k) == (s[0].key() == k || has_key(s.skip(1), k)),
{
    if has_key(s, k) {
        let i = choose|i: int| 0 <= i < s.len() && s[i].key() == k;
        if i > 0 {
            assert(s.skip(1)[i - 1].key() == k);
        }
    }
    if has_key(s.skip(1), k) {
        let i = choose|i: int| 0 <= i < s.skip(1).len() && s.skip(1)[i].key() == k;
        assert(s[i + 1].key() == k);
    }
}

/// After the missing tracks are appended, a key is present exactly when
/// it was present on either side.
pub proof fn lemma_dedup_membership(s: Seq<Track>, h: Seq<Track>)
    ensures
        forall|k: TrackKey|
            has_key(h + dedup_missing(s, h), k) == (has_key(h, k) || has_key(s, k)),
    decreases s.len(),
{
    if s.len() == 0 {
        assert forall|k: TrackKey|
            has_key(h + dedup_missing(s, h), k) == (has_key(h, k) || has_key(s, k)) by {
            assert(h + dedup_missing(s, h) =~= h);
            if has_key(s, k) {
                let i = choose|i: int| 0 <= i < s.len() && s[i].key() == k;
            }
        }
    } else if has_key(h, s[0].key()) {
        lemma_dedup_membership(s.skip(1), h);
        assert forall|k: TrackKey|
            has_key(h + dedup_missing(s, h), k) == (has_key(h, k) || has_key(s, k)) by {
            lemma_has_key_cons(s, k);
        }
    } else {
        lemma_dedup_membership(s.skip(1), h.push(s[0]));
        assert forall|k: TrackKey|
            has_key(h + dedup_missing(s, h), k) == (has_key(h, k) || has_key(s, k)) by {
            lemma_has_key_cons(s, k);
            assert(h + dedup_missing(s, h) =~= h.push(s[0]) + dedup_missing(
                s.skip(1),
                h.push(s[0]),
            ));
            assert(h.push(s[0]) =~= h + seq![s[0]]);
            lemma_has_key_append(h, seq![s[0]], k);
            if has_key(seq![s[0]], k) {
                let i = choose|i: int| 0 <= i < seq![s[0]].len() && seq![s[0]][i].key() == k;
                assert(seq![s[0]][0].key() == k);
            }
            if s[0].key() == k {
                assert(seq![s[0]][0].key() == k);
            }
        }
    }
}

/// When every source key is already present, nothing is missing.
pub proof fn lemma_dedup_covered(s: Seq<Track>, h: Seq<Track>)
    requires
        forall|i: int| 0 <= i < s.len() ==> has_key(h, #[trigger] s[i].key()),
    ensures
        dedup_missing(s, h) == Seq::<Track>::empty(),
    decreases s.len(),
{
    if s.len() > 0 {
        assert(has_key(h, s[0].key()));
        assert forall|i: int| 0 <= i < s.skip(1).len() implies has_key(
            h,
            #[trigger] s.skip(1)[i].key(),
        ) by {
            assert(s.skip(1)[i] == s[i + 1]);
        }
        lemma_dedup_covered(s.skip(1), h);
    }
}

/// What `dedup_missing` returns is free of duplicates, absent from the
/// target, and drawn from the source.
pub proof fn lemma_dedup_fresh(s: Seq<Track>, h: Seq<Track>)
    ensures
        distinct_keys(dedup_missing(s, h)),
        forall|i: int|
            0 <= i < dedup_missing(s, h).len() ==> !has_key(
                h,
                #[trigger] dedup_missing(s, h)[i].key(),
            ) && has_key(s, dedup_missing(s, h)[i].key()),
    decreases s.len(),
{
    if s.len() == 0 {
    } else if has_key(h, s[0].key()) {
        lemma_dedup_fresh(s.skip(1), h);
        assert forall|i: int| 0 <= i < dedup_missing(s, h).len() implies !has_key(
            h,
            #[trigger] dedup_missing(s, h)[i].key(),
        ) && has_key(s, dedup_missing(s, h)[i].key()) by {
            lemma_has_key_cons(s, dedup_missing(s, h)[i].key());
        }
    } else {
        let d = dedup_missing(s, h);
        let d1 = dedup_missing(s.skip(1), h.push(s[0]));
        lemma_dedup_fresh(s.skip(1), h.push(s[0]));
        assert(d == seq![s[0]] + d1);
        assert(d[0] == s[0]);
        assert forall|i: int| 0 <= i < d.len() implies !has_key(h, #[trigger] d[i].key())
            && has_key(s, d[i].key()) by {
            if i == 0 {
                assert(s[0].key() == d[0].key());
            } else {
                assert(d[i] == d1[i - 1]);
                assert(!has_key(h.push(s[0]), d1[i - 1].key()));
                assert(h.push(s[0]) =~= h + seq![s[0]]);
                lemma_has_key_append(h, seq![s[0]], d1[i - 1].key());
                lemma_has_key_cons(s, d[i].key());
            }
        }
        assert forall|i: int, j: int| 0 <= i < j < d.len() implies d[i].key() != d[j].key() by {
            if i == 0 {
                assert(d[j] == d1[j - 1]);
                assert(!has_key(h.push(s[0]), d1[j - 1].key()));
                assert(h.push(s[0])[h.len() as int].key() == s[0].key());
            } else {
                assert(d[i] == d1[i - 1]);
                assert(d[j] == d1[j - 1]);
            }
        }
    }
}

/// Liked collections never gain duplicates: after a run against a
/// duplicate-free target, every source key is present, and no key is
/// present twice.
pub proof fn lemma_no_duplicate_likes(src: LibraryModel, tgt: LibraryModel)
    requires
        distinct_keys(tgt.liked),
    ensures
        distinct_keys(transfer_model(src, tgt).liked),
        forall|i: int|
            0 <= i < src.liked.len() ==> has_key(
                transfer_model(src, tgt).liked,
                #[trigger] src.liked[i].key(),
            ),
{
    let d = dedup_missing(src.liked, tgt.liked);
    let r = transfer_model(src, tgt).liked;
    lemma_dedup_fresh(src.liked, tgt.liked);
    lemma_dedup_membership(src.liked, tgt.liked);
    assert forall|i: int, j: int| 0 <= i < j < r.len() implies r[i].key() != r[j].key() by {
        if i < tgt.liked.len() && j >= tgt.liked.len() {
            assert(r[j] == d[j - tgt.liked.len()]);
            assert(!has_key(tgt.liked, d[j - tgt.liked.len()].key()));
            assert(r[i] == tgt.liked[i]);
        } else if i >= tgt.liked.len() {
            assert(r[i] == d[i - tgt.liked.len()]);
            assert(r[j] == d[j - tgt.liked.len()]);
        }
    }
    assert forall|i: int| 0 <= i < src.liked.len() implies has_key(
        r,
        #[trigger] src.liked[i].key(),
    ) by {
        assert(src.liked[i].key() == src.liked[i].key() && has_key(src.liked, src.liked[i].key()));
    }
}

/// A target state covers a source playlist when a playlist of that name
/// exists and already holds every source track's key.
pub open spec fn covers(pls: Seq<PlaylistModel>, p: PlaylistModel) -> bool {
    let j = find_playlist(pls, p.name);
    j >= 0 && (forall|i: int|
        0 <= i < p.tracks.len() ==> has_key(pls[j].tracks, #[trigger] p.tracks[i].key()))
}

/// How appending a playlist moves the name search.
pub proof fn lemma_find_playlist_push(pls: Seq<PlaylistModel>, x: PlaylistModel, name: Seq<char>)
    ensures
        find_playlist(pls.push(x), name) == (if find_playlist(pls, name) >= 0 {
            find_playlist(pls, name)
        } else if x.name == name {
            pls.len() as int
        } else {
            -1
        }),
    decreases pls.len(),
{
    let pushed = pls.push(x);
    assert(pushed.len() == pls.len() + 1);
    if pls.len() == 0 {
        assert(pushed[0] == x);
        assert(pushed.skip(1) =~= Seq::<PlaylistModel>::empty());
        assert(find_playlist(pushed.skip(1), name) == -1);
    } else {
        assert(pushed[0] == pls[0]);
        assert(pushed.skip(1) =~= pls.skip(1).push(x));
        lemma_find_playlist_push(pls.skip(1), x, name);
        assert(find_playlist(pushed.skip(1), name) == find_playlist(pls.skip(1).push(x), name));
    }
}

/// Name search only reads the names: equal names, equal result.
pub proof fn lemma_find_playlist_same_names(
    e1: Seq<PlaylistModel>,
    e2: Seq<PlaylistModel>,
    name: Seq<char>,
)
    requires
        e1.len() == e2.len(),
        forall|i: int| 0 <= i < e1.len() ==> e1[i].name == e2[i].name,
    ensures
        find_playlist(e1, name) == find_playlist(e2, name),
    decreases e1.len(),
{
    if e1.len() > 0 {
        lemma_find_playlist_same_names(e1.skip(1), e2.skip(1), name);
    }
}

/// One sync step leaves the processed source playlist covered.
proof fn lemma_sync_playlist_covers_self(tgt: Seq<PlaylistModel>, p: PlaylistModel)
    ensures
        covers(sync_playlist(tgt, p), p),
{
    let j = find_playlist(tgt, p.name);
    lemma_find_playlist_range(tgt, p.name);
    let r = sync_playlist(tgt, p);
    if j < 0 {
        lemma_find_playlist_push(tgt, p, p.name);
        assert(r[tgt.len() as int] == p);
        assert forall|i: int| 0 <= i < p.tracks.len() implies has_key(
            r[find_playlist(r, p.name)].tracks,
            #[trigger] p.tracks[i].key(),
        ) by {
            assert(p.tracks[i].key() == p.tracks[i].key());
        }
    } else {
        lemma_find_playlist_same_names(r, tgt, p.name);
        lemma_dedup_membership(p.tracks, tgt[j].tracks);
        assert(r[j].tracks == tgt[j].tracks + dedup_missing(p.tracks, tgt[j].tracks));
        assert forall|i: int| 0 <= i < p.tracks.len() implies has_key(
            r[find_playlist(r, p.name)].tracks,
            #[trigger] p.tracks[i].key(),
        ) by {
            assert(has_key(p.tracks, p.tracks[i].key()));
        }
    }
}

/// One sync step never uncovers a playlist that was covered.
proof fn lemma_sync_playlist_monotone(tgt: Seq<PlaylistModel>, q: PlaylistModel, p: PlaylistModel)
    requires
        covers(tgt, p),
    ensures
        covers(sync_playlist(tgt, q), p),
{
    let j = find_playlist(tgt, p.name);
    let jq = find_playlist(tgt, q.name);
    lemma_find_playlist_range(tgt, p.name);
    lemma_find_playlist_range(tgt, q.name);
    let r = sync_playlist(tgt, q);
    if jq < 0 {
        lemma_find_playlist_push(tgt, q, p.name);
        assert(r[j] == tgt[j]);
    } else {
        lemma_find_playlist_same_names(r, tgt, p.name);
        if j == jq {
            assert(r[j].tracks == tgt[j].tracks + dedup_missing(q.tracks, tgt[jq].tracks));
            assert forall|i: int| 0 <= i < p.tracks.len() implies has_key(
                r[j].tracks,
                #[trigger] p.tracks[i].key(),
            ) by {
                lemma_has_key_append(
                    tgt[j].tracks,
                    dedup_missing(q.tracks, tgt[jq].tracks),
                    p.tracks[i].key(),
                );
            }
        } else {
            assert(r[j] == tgt[j]);
        }
    }
}

/// A whole run never uncovers a playlist that was covered.
proof fn lemma_sync_playlists_monotone(
    tgt: Seq<PlaylistModel>,
    src: Seq<PlaylistModel>,
    p: PlaylistModel,
)
    requires
        covers(tgt, p),
    ensures
        covers(sync_playlists(tgt, src), p),
    decreases src.len(),
{
    if src.len() > 0 {
        lemma_sync_playlist_monotone(tgt, src[0], p);
        lemma_sync_playlists_monotone(sync_playlist(tgt, src[0]), src.skip(1), p);
    }
}

/// After a run, every source playlist is covered.
proof fn lemma_sync_all_covered(tgt: Seq<PlaylistModel>, src: Seq<PlaylistModel>)
    ensures
        forall|i: int| 0 <= i < src.len() ==> covers(sync_playlists(tgt, src), #[trigger] src[i]),
    decreases src.len(),
{
    if src.len() > 0 {
        let t1 = sync_playlist(tgt, src[0]);
        lemma_sync_all_covered(t1, src.skip(1));
        lemma_sync_playlist_covers_self(tgt, src[0]);
        lemma_sync_playlists_monotone(t1, src.skip(1), src[0]);
        assert forall|i: int| 0 <= i < src.len() implies covers(
            sync_playlists(tgt, src),
            #[trigger] src[i],
        ) by {
            if i > 0 {
                assert(src.skip(1)[i - 1] == src[i]);
            }
        }
    }
}

/// Every planned action is a merge with nothing to add.
pub open spec fn plan_is_noop(acts: Seq<ActionModel>) -> bool {
    forall|i: int|
        0 <= i < acts.len() ==> ((#[trigger] acts[i]) matches ActionModel::Merge(_, to_add)
            && to_add.len() == 0)
}

/// Against a target that covers every source playlist, a run plans only
/// empty merges and changes nothing.
proof fn lemma_noop_when_covered(tgt: Seq<PlaylistModel>, src: Seq<PlaylistModel>)
    requires
        forall|i: int| 0 <= i < src.len() ==> covers(tgt, #[trigger] src[i]),
    ensures
        sync_playlists(tgt, src) == tgt,
        plan_is_noop(plan_actions(tgt, src)),
    decreases src.len(),
{
    if src.len() > 0 {
        let p = src[0];
        assert(covers(tgt, p));
        let j = find_playlist(tgt, p.name);
        lemma_find_playlist_range(tgt, p.name);
        lemma_dedup_covered(p.tracks, tgt[j].tracks);
        assert(tgt[j].tracks + dedup_missing(p.tracks, tgt[j].tracks) =~= tgt[j].tracks);
        assert(PlaylistModel {
            name: tgt[j].name,
            tracks: tgt[j].tracks + dedup_missing(p.tracks, tgt[j].tracks),
        } =~= tgt[j]);
        assert(sync_playlist(tgt, p) =~= tgt);
        assert forall|i: int| 0 <= i < src.skip(1).len() implies covers(
            tgt,
            #[trigger] src.skip(1)[i],
        ) by {
            assert(src.skip(1)[i] == src[i + 1]);
        }
        lemma_noop_when_covered(tgt, src.skip(1));
        assert(action_for(tgt, p) == ActionModel::Merge(
            p.name,
            dedup_missing(p.tracks, tgt[j].tracks),
        ));
        let acts = plan_actions(tgt, src);
        assert forall|i: int|
            0 <= i < acts.len() implies ((#[trigger] acts[i]) matches ActionModel::Merge(
            _,
            to_add,
        ) && to_add.len() == 0) by {
            if i > 0 {
                assert(acts[i] == plan_actions(tgt, src.skip(1))[i - 1]);
            } else {
                assert(acts[0] == action_for(tgt, p));
            }
        }
    }
}

/// Idempotence: a second run against the state the first one produced
/// plans no create, no merge with anything to add, no liked addition,
/// and leaves the target exactly as it was.
pub proof fn lemma_transfer_idempotent(src: LibraryModel, tgt: LibraryModel)
    ensures
        transfer_model(src, transfer_model(src, tgt)) == transfer_model(src, tgt),
        liked_additions(src, transfer_model(src, tgt)) == Seq::<Track>::empty(),
        plan_is_noop(plan_actions(transfer_model(src, tgt).playlists, src.playlists)),
{
    let t1 = transfer_model(src, tgt);
    lemma_sync_all_covered(tgt.playlists, src.playlists);
    lemma_noop_when_covered(t1.playlists, src.playlists);
    lemma_dedup_membership(src.liked, tgt.liked);
    assert forall|i: int| 0 <= i < src.liked.len() implies has_key(
        t1.liked,
        #[trigger] src.liked[i].key(),
    ) by {
        assert(has_key(src.liked, src.liked[i].key()));
    }
    lemma_dedup_covered(src.liked, t1.liked);
    assert(t1.liked + dedup_missing(src.liked, t1.liked) =~= t1.liked);
    assert(transfer_model(src, t1) =~= t1);
}

/// Order preservation on create: when no target playlist bears the
/// source name, the run appends a new playlist whose track order is
/// exactly the source order, and later finds it under that name.
pub proof fn lemma_order_preserved_on_create(tgt: Seq<PlaylistModel>, p: PlaylistModel)
    requires
        find_playlist(tgt, p.name) == -1,
    ensures
        sync_playlist(tgt, p).len() == tgt.len() + 1,
        sync_playlist(tgt, p)[tgt.len() as int] == p,
        find_playlist(sync_playlist(tgt, p), p.name) == tgt.len() as int,
        forall|i: int| 0 <= i < tgt.len() ==> sync_playlist(tgt, p)[i] == tgt[i],
{
    lemma_find_playlist_push(tgt, p, p.name);
}

/// Merge is additive only: the merged playlist keeps every track it had,
/// in place and in order, and gains exactly the missing source tracks,
/// in source order, none of them a duplicate; every other playlist is
/// untouched.
pub proof fn lemma_merge_additive(tgt: Seq<PlaylistModel>, p: PlaylistModel)
    requires
        find_playlist(tgt, p.name) >= 0,
    ensures
        ({
            let j = find_playlist(tgt, p.name);
            let r = sync_playlist(tgt, p);
            let added = dedup_missing(p.tracks, tgt[j].tracks);
            &&& r.len() == tgt.len()
            &&& r[j].name == tgt[j].name
            &&& r[j].tracks.take(tgt[j].tracks.len() as int) == tgt[j].tracks
            &&& r[j].tracks.skip(tgt[j].tracks.len() as int) == added
            &&& distinct_keys(added)
            &&& (forall|i: int|
                0 <= i < added.len() ==> !has_key(tgt[j].tracks, #[trigger] added[i].key())
                    && has_key(p.tracks, added[i].key()))
            &&& (forall|i: int| 0 <= i < tgt.len() && i != j ==> r[i] == tgt[i])
        }),
{
    let j = find_playlist(tgt, p.name);
    lemma_find_playlist_range(tgt, p.name);
    let added = dedup_missing(p.tracks, tgt[j].tracks);
    lemma_dedup_fresh(p.tracks, tgt[j].tracks);
    assert((tgt[j].tracks + added).take(tgt[j].tracks.len() as int) =~= tgt[j].tracks);
    assert((tgt[j].tracks + added).skip(tgt[j].tracks.len() as int) =~= added);
}

} // verus!
