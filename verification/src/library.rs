//! The data model of one account's music collection.
//!
//! A `Library` is a point-in-time snapshot: an ordered list of playlists
//! and the set of liked tracks. Tracks are matched across accounts by
//! their content identifier; title and artist stand in when the
//! identifier is absent.

use vstd::prelude::*;

verus! {

/// The cross-account identity of a track: the stable content identifier
/// when the service provides one, else title and artist together.
#[verifier::ext_equal]
pub enum TrackKey {
    Id(Seq<char>),
    TitleArtist(Seq<char>, Seq<char>),
}

/// One track as the snapshot read it.
pub struct Track {
    /// The content identifier; empty when the service gave none.
    pub id: String,
    pub title: String,
    pub artist: String,
    pub album: String,
    pub duration_ms: u64,
}

impl Track {
    /// The key used for deduplication and cross-account matching.
    pub open spec fn key(self) -> TrackKey {
        if self.id@.len() > 0 {
            TrackKey::Id(self.id@)
        } else {
            TrackKey::TitleArtist(self.title@, self.artist@)
        }
    }
}

impl Clone for Track {
    /// A copy that is, field for field, the same track.
    fn clone(&self) -> (r: Track)
        ensures
            r == *self,
    {
        let r = Track {
            id: self.id.clone(),
            title: self.title.clone(),
            artist: self.artist.clone(),
            album: self.album.clone(),
            duration_ms: self.duration_ms,
        };
        r
    }
}

/// Whether two tracks count as the same across accounts.
pub fn same_key(a: &Track, b: &Track) -> (r: bool)
    ensures
        r == (a.key() == b.key()),
{
    let a_has_id = !a.id.as_str().is_empty();
    let b_has_id = !b.id.as_str().is_empty();
    if a_has_id && b_has_id {
        let r = a.id == b.id;
        proof {
            if r {
                assert(a.id@ == b.id@);
                assert(a.key() == TrackKey::Id(a.id@));
                assert(b.key() == TrackKey::Id(b.id@));
                assert(a.key() == b.key());
            }
        }
        r
    } else if !a_has_id && !b_has_id {
        let r = a.title == b.title && a.artist == b.artist;
        proof {
            if r {
                assert(a.key() == TrackKey::TitleArtist(a.title@, a.artist@));
                assert(b.key() == TrackKey::TitleArtist(b.title@, b.artist@));
                assert(a.key() == b.key());
            }
        }
        r
    } else {
        false
    }
}

/// Some track in `tracks` carries the key `k`.
pub open spec fn has_key(tracks: Seq<Track>, k: TrackKey) -> bool {
    exists|i: int| 0 <= i < tracks.len() && tracks[i].key() == k
}

/// No two tracks in `tracks` share a key.
pub open spec fn distinct_keys(tracks: Seq<Track>) -> bool {
    forall|i: int, j: int| 0 <= i < j < tracks.len() ==> tracks[i].key() != tracks[j].key()
}

/// Whether `tracks` already holds a track with `t`'s key.
pub fn tracks_contain(tracks: &Vec<Track>, t: &Track) -> (r: bool)
    ensures
        r == has_key(tracks@, t.key()),
{
    let mut i: usize = 0;
    let n = tracks.len();
    while i < n
        invariant
            n == tracks@.len(),
            i <= n,
            forall|j: int| 0 <= j < i ==> tracks@[j].key() != t.key(),
        decreases n - i,
    {
        if same_key(&tracks[i], t) {
            return true;
        }
        i += 1;
    }
    false
}

/// Copy a vector of tracks element by element.
pub fn clone_tracks(v: &Vec<Track>) -> (r: Vec<Track>)
    ensures
        r@ == v@,
{
    let mut r: Vec<Track> = Vec::new();
    let mut i: usize = 0;
    while i < v.len()
        invariant
            i <= v@.len(),
            r@ == v@.take(i as int),
        decreases v@.len() - i,
    {
        r.push(v[i].clone());
        proof {
            assert(r@ =~= v@.take(i + 1));
        }
        i += 1;
    }
    proof {
        assert(r@ =~= v@);
    }
    r
}

/// Append copies of every track in `src` to `dst`.
pub fn append_tracks(dst: &mut Vec<Track>, src: &Vec<Track>)
    ensures
        final(dst)@ == old(dst)@ + src@,
{
    let mut i: usize = 0;
    proof {
        assert(dst@ =~= old(dst)@ + src@.take(0));
    }
    while i < src.len()
        invariant
            i <= src@.len(),
            dst@ == old(dst)@ + src@.take(i as int),
        decreases src@.len() - i,
    {
        dst.push(src[i].clone());
        proof {
            assert(old(dst)@ + src@.take(i as int) + seq![src@[i as int]] =~= old(dst)@
                + src@.take(i + 1));
        }
        i += 1;
    }
    proof {
        assert(old(dst)@ + src@.take(src@.len() as int) =~= old(dst)@ + src@);
    }
}

/// One playlist as the snapshot read it: identity, display data and the
/// ordered tracks.
pub struct Playlist {
    pub id: String,
    pub name: String,
    pub description: String,
    pub is_public: bool,
    pub collaborative: bool,
    pub tracks: Vec<Track>,
}

/// What the sync engine sees of a playlist: its name and its ordered
/// tracks.
#[verifier::ext_equal]
pub struct PlaylistModel {
    pub name: Seq<char>,
    pub tracks: Seq<Track>,
}

impl Playlist {
    pub open spec fn model(self) -> PlaylistModel {
        PlaylistModel { name: self.name@, tracks: self.tracks@ }
    }

    /// A copy whose name and tracks are the same.
    pub fn duplicate(&self) -> (r: Playlist)
        ensures
            r.model() == self.model(),
    {
        Playlist {
            id: self.id.clone(),
            name: self.name.clone(),
            description: self.description.clone(),
            is_public: self.is_public,
            collaborative: self.collaborative,
            tracks: clone_tracks(&self.tracks),
        }
    }
}

/// One account's whole collection at the moment of reading.
pub struct Library {
    pub playlists: Vec<Playlist>,
    pub liked: Vec<Track>,
}

/// What the sync engine sees of a library.
#[verifier::ext_equal]
pub struct LibraryModel {
    pub playlists: Seq<PlaylistModel>,
    pub liked: Seq<Track>,
}

/// The playlists of a snapshot as the engine sees them.
pub open spec fn playlist_models(s: Seq<Playlist>) -> Seq<PlaylistModel> {
    s.map_values(|p: Playlist| p.model())
}

impl Library {
    pub open spec fn model(self) -> LibraryModel {
        LibraryModel { playlists: playlist_models(self.playlists@), liked: self.liked@ }
    }

    /// A liked collection is a set: no two entries share a key.
    pub open spec fn wf(self) -> bool {
        distinct_keys(self.liked@)
    }
}

/// The preview numbers the presentation shell shows for one account.
pub struct LibraryStats {
    pub liked_songs: u64,
    pub playlists: u64,
    pub total_songs: u64,
}

/// Total number of tracks across all playlists.
pub open spec fn spec_sum_tracks(pls: Seq<PlaylistModel>) -> int
    decreases pls.len(),
{
    if pls.len() == 0 {
        0
    } else {
        pls[0].tracks.len() + spec_sum_tracks(pls.skip(1))
    }
}

/// A count clipped to what a 64-bit field can show.
pub open spec fn capped_u64(x: int) -> u64 {
    if x > u64::MAX {
        u64::MAX
    } else {
        x as u64
    }
}

proof fn lemma_sum_tracks_take(pls: Seq<PlaylistModel>, i: int)
    requires
        0 <= i < pls.len(),
    ensures
        spec_sum_tracks(pls.take(i + 1)) == spec_sum_tracks(pls.take(i)) + pls[i].tracks.len(),
    decreases i,
{
    if i == 0 {
        assert(pls.take(1) =~= seq![pls[0]]);
        assert(pls.take(1).skip(1) =~= Seq::<PlaylistModel>::empty());
        assert(pls.take(0) =~= Seq::<PlaylistModel>::empty());
    } else {
        lemma_sum_tracks_take(pls.skip(1), i - 1);
        assert(pls.take(i + 1).skip(1) =~= pls.skip(1).take(i));
        assert(pls.take(i).skip(1) =~= pls.skip(1).take(i - 1));
        assert(pls.take(i + 1)[0] == pls[0]);
        assert(pls.take(i)[0] == pls[0]);
        assert(pls.skip(1)[i - 1] == pls[i]);
    }
}

proof fn lemma_sum_tracks_nonneg(pls: Seq<PlaylistModel>)
    ensures
        spec_sum_tracks(pls) >= 0,
    decreases pls.len(),
{
    if pls.len() > 0 {
        lemma_sum_tracks_nonneg(pls.skip(1));
    }
}

/// Add with saturation at the top of the `u64` range.
fn sat_add(a: u64, b: u64) -> (r: u64)
    ensures
        r == capped_u64(a + b),
{
    if a > u64::MAX - b {
        u64::MAX
    } else {
        a + b
    }
}

/// The preview numbers for one library: liked count, playlist count and
/// the total track count over playlists and likes, clipped at the `u64`
/// range.
pub fn get_library_stats(lib: &Library) -> (r: LibraryStats)
    ensures
        r.liked_songs == lib.model().liked.len(),
        r.playlists == lib.model().playlists.len(),
        r.total_songs == capped_u64(
            lib.model().liked.len() + spec_sum_tracks(lib.model().playlists),
        ),
{
    let ghost pls = lib.model().playlists;
    let mut total: u64 = lib.liked.len() as u64;
    let mut i: usize = 0;
    let n = lib.playlists.len();
    proof {
        assert(pls.take(0) =~= Seq::<PlaylistModel>::empty());
    }
    while i < n
        invariant
            n == lib.playlists@.len(),
            pls == lib.model().playlists,
            pls.len() == n,
            i <= n,
            total == capped_u64(lib.model().liked.len() + spec_sum_tracks(pls.take(i as int))),
        decreases n - i,
    {
        proof {
            lemma_sum_tracks_take(pls, i as int);
            lemma_sum_tracks_nonneg(pls.take(i as int));
        }
        total = sat_add(total, lib.playlists[i].tracks.len() as u64);
        i += 1;
    }
    proof {
        assert(pls.take(n as int) =~= pls);
    }
    LibraryStats { liked_songs: lib.liked.len() as u64, playlists: n as u64, total_songs: total }
}

} // verus!
