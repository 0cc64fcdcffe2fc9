use crate::seqs::is_permutation;
use crate::text::{same_text, starts_with};
use vstd::prelude::*;

verus! {

broadcast use vstd::seq::Seq::lemma_push_map_commute;

/// What the playlist logic reads of a track that the music service describes.
pub struct TrackInfoView {
    pub id: Option<Seq<char>>,
    pub name: Seq<char>,
    pub artists: Seq<Seq<char>>,
    pub is_playable: Option<bool>,
}

/// A track as the music service describes it: its identifier (absent for local files),
/// its name, the names of its artists, and whether it can be played in the market asked for
/// (absent when the service does not say).
#[derive(Clone, Debug)]
pub struct TrackInfo {
    pub id: Option<String>,
    pub name: String,
    pub artists: Vec<String>,
    pub is_playable: Option<bool>,
}

/// The mathematical form of an optional piece of text.
pub open spec fn opt_text(s: Option<String>) -> Option<Seq<char>> {
    match s {
        Some(t) => Some(t@),
        None => None,
    }
}

/// The mathematical form of a list of texts.
pub open spec fn texts_view(s: Seq<String>) -> Seq<Seq<char>> {
    s.map_values(|t: String| t@)
}

impl View for TrackInfo {
    type V = TrackInfoView;

    open spec fn view(&self) -> TrackInfoView {
        TrackInfoView {
            id: opt_text(self.id),
            name: self.name@,
            artists: texts_view(self.artists@),
            is_playable: self.is_playable,
        }
    }
}

/// The mathematical form of a list of tracks.
pub open spec fn infos_view(s: Seq<TrackInfo>) -> Seq<TrackInfoView> {
    s.map_values(|t: TrackInfo| t@)
}

/// What a playlist entry holds: a track, an episode, or nothing (a removed item).
pub enum PlayableEntry {
    Track(TrackInfo),
    Episode,
}

/// One entry of a playlist.
pub struct PlaylistEntry {
    pub track: Option<PlayableEntry>,
}

/// The track of an entry, if it holds one.
pub open spec fn entry_track(e: PlaylistEntry) -> Option<TrackInfoView> {
    match e.track {
        Some(PlayableEntry::Track(t)) => Some(t@),
        _ => None,
    }
}

/// The identifier of an entry's track, if it holds a track that has one.
pub open spec fn entry_track_id(e: PlaylistEntry) -> Option<Seq<char>> {
    match e.track {
        Some(PlayableEntry::Track(t)) => opt_text(t.id),
        _ => None,
    }
}

/// An owned copy of an optional text.
pub(crate) fn copy_opt_text(s: &Option<String>) -> (r: Option<String>)
    ensures
        opt_text(r) == opt_text(*s),
{
    match s {
        Some(t) => Some(t.clone()),
        None => None,
    }
}

/// An owned copy of a list of texts.
pub(crate) fn copy_texts(s: &Vec<String>) -> (r: Vec<String>)
    ensures
        texts_view(r@) == texts_view(s@),
{
    let mut r: Vec<String> = Vec::new();
    let mut i: usize = 0;
    while i < s.len()
        invariant
            i <= s.len(),
            texts_view(r@) == texts_view(s@.take(i as int)),
        decreases s.len() - i,
    {
        let ghost prev = r@;
        r.push(s[i].clone());
        assert(r@ == prev.push(s@[i as int]));
        assert(s@.take(i + 1) == s@.take(i as int).push(s@[i as int]));
        i = i + 1;
    }
    assert(s@.take(i as int) =~= s@);
    r
}

impl TrackInfo {
    /// An owned copy of the track.
    pub fn duplicate(&self) -> (r: TrackInfo)
        ensures
            r@ == self@,
    {
        TrackInfo {
            id: copy_opt_text(&self.id),
            name: self.name.clone(),
            artists: copy_texts(&self.artists),
            is_playable: self.is_playable,
        }
    }
}

/// The tracks of a playlist, in order, leaving out episodes and removed entries.
pub fn get_playable_tracks(tracks: Vec<PlaylistEntry>) -> (r: Vec<TrackInfo>)
    ensures
        infos_view(r@) == tracks@.filter_map(|e: PlaylistEntry| entry_track(e)),
{
    let ghost f = |e: PlaylistEntry| entry_track(e);
    let mut out: Vec<TrackInfo> = Vec::new();
    let mut i: usize = 0;
    while i < tracks.len()
        invariant
            i <= tracks.len(),
            f == (|e: PlaylistEntry| entry_track(e)),
            infos_view(out@) == tracks@.take(i as int).filter_map(f),
        decreases tracks.len() - i,
    {
        proof {
            tracks@.lemma_filter_map_take_succ(f, i as int);
        }
        match &tracks[i].track {
            Some(PlayableEntry::Track(t)) => {
                let ghost prev = out@;
                out.push(t.duplicate());
                assert(infos_view(out@) =~= infos_view(prev) + seq![t@]);
            },
            _ => {
                assert(tracks@.take(i + 1).filter_map(f) =~= tracks@.take(i as int).filter_map(f));
            },
        }
        i = i + 1;
    }
    assert(tracks@.take(i as int) =~= tracks@);
    out
}

/// The identifiers of a playlist's tracks, in order, leaving out episodes, removed entries
/// and tracks without an identifier.
pub fn playlist_track_ids(items: &Vec<PlaylistEntry>) -> (r: Vec<String>)
    ensures
        texts_view(r@) == items@.filter_map(|e: PlaylistEntry| entry_track_id(e)),
{
    let ghost f = |e: PlaylistEntry| entry_track_id(e);
    let mut out: Vec<String> = Vec::new();
    let mut i: usize = 0;
    while i < items.len()
        invariant
            i <= items.len(),
            f == (|e: PlaylistEntry| entry_track_id(e)),
            texts_view(out@) == items@.take(i as int).filter_map(f),
        decreases items.len() - i,
    {
        proof {
            items@.lemma_filter_map_take_succ(f, i as int);
        }
        let mut pushed = false;
        match &items[i].track {
            Some(PlayableEntry::Track(t)) => {
                match &t.id {
                    Some(id) => {
                        let ghost prev = out@;
                        out.push(id.clone());
                        assert(texts_view(out@) =~= texts_view(prev) + seq![id@]);
                        pushed = true;
                    },
                    None => {},
                }
            },
            _ => {},
        }
        if !pushed {
            assert(items@.take(i + 1).filter_map(f) =~= items@.take(i as int).filter_map(f));
        }
        i = i + 1;
    }
    assert(items@.take(i as int) =~= items@);
    out
}

/// Whether a track passes an album's name filters: with no filter every track passes;
/// otherwise a track passes when some filter is a prefix of its name (an exact match included).
pub open spec fn passes_filters(filters: Seq<Seq<char>>, name: Seq<char>) -> bool {
    filters.len() == 0 || exists|i: int| 0 <= i < filters.len() && #[trigger] filters[i].is_prefix_of(name)
}

/// How name filters select a track: with no filter every name passes; otherwise a name
/// passes exactly when some filter equals it or is a prefix of it. A name that is only a
/// proper prefix of a filter, or shares no prefix with any filter, does not pass.
pub proof fn lemma_filters_select_by_prefix(filters: Seq<Seq<char>>, name: Seq<char>)
    ensures
        filters.len() == 0 ==> passes_filters(filters, name),
        filters.contains(name) ==> passes_filters(filters, name),
        forall|i: int| 0 <= i < filters.len() && #[trigger] filters[i].is_prefix_of(name)
            ==> passes_filters(filters, name),
        filters.len() > 0 && (forall|i: int| 0 <= i < filters.len() ==> !(#[trigger] filters[i].is_prefix_of(name)))
            ==> !passes_filters(filters, name),
{
    if filters.contains(name) {
        let i = choose|i: int| 0 <= i < filters.len() && filters[i] == name;
        assert(filters[i].is_prefix_of(name));
    }
}

/// The tracks of an album that its filters let through, in album order.
pub open spec fn filtered_tracks(filters: Seq<Seq<char>>, tracks: Seq<TrackInfoView>) -> Seq<TrackInfoView> {
    tracks.filter(|t: TrackInfoView| passes_filters(filters, t.name))
}

/// Filtering with a predicate that every item meets keeps the whole sequence.
proof fn lemma_filter_keeps_all<A>(s: Seq<A>, p: spec_fn(A) -> bool)
    requires
        forall|x: A| #[trigger] p(x),
    ensures
        s.filter(p) == s,
    decreases s.len(),
{
    reveal(Seq::filter);
    if s.len() > 0 {
        lemma_filter_keeps_all(s.drop_last(), p);
        assert(s.drop_last().push(s.last()) =~= s);
    }
}

/// An album's selected tracks, in album order: all of them when it has no filter, and
/// otherwise exactly those whose name some filter equals or is a prefix of.
pub proof fn lemma_filtered_tracks_are_prefix_matches(
    filters: Seq<Seq<char>>,
    tracks: Seq<TrackInfoView>,
)
    ensures
        filters.len() == 0 ==> filtered_tracks(filters, tracks) == tracks,
        filters.len() > 0 ==> filtered_tracks(filters, tracks) == tracks.filter(
            |t: TrackInfoView|
                exists|i: int| 0 <= i < filters.len() && #[trigger] filters[i].is_prefix_of(t.name),
        ),
{
    let p = |t: TrackInfoView| passes_filters(filters, t.name);
    if filters.len() == 0 {
        lemma_filter_keeps_all(tracks, p);
    } else {
        let q = |t: TrackInfoView|
            exists|i: int| 0 <= i < filters.len() && #[trigger] filters[i].is_prefix_of(t.name);
        assert(p =~= q);
    }
}

/// The identifiers of a list of tracks, or `None` if one has none.
pub open spec fn ids_of(tracks: Seq<TrackInfoView>) -> Option<Seq<Seq<char>>> {
    if forall|i: int| 0 <= i < tracks.len() ==> (#[trigger] tracks[i]).id is Some {
        Some(tracks.map_values(|t: TrackInfoView| t.id.unwrap()))
    } else {
        None
    }
}

/// The mathematical form of an optional list of texts.
pub open spec fn opt_texts(r: Option<Vec<String>>) -> Option<Seq<Seq<char>>> {
    match r {
        Some(v) => Some(texts_view(v@)),
        None => None,
    }
}

/// Whether `name` passes `filters`.
fn name_passes(filters: &Vec<String>, name: &String) -> (r: bool)
    ensures
        r == passes_filters(texts_view(filters@), name@),
        r == (filters@.len() == 0 || exists|i: int|
            0 <= i < filters@.len() && #[trigger] filters@[i]@.is_prefix_of(name@)),
{
    let ghost fs = texts_view(filters@);
    if filters.len() == 0 {
        return true;
    }
    let mut i: usize = 0;
    while i < filters.len()
        invariant
            i <= filters.len(),
            fs == texts_view(filters@),
            fs.len() == filters@.len(),
            forall|j: int| 0 <= j < i ==> !(#[trigger] fs[j]).is_prefix_of(name@),
        decreases filters.len() - i,
    {
        if same_text(filters[i].as_str(), name.as_str()) || starts_with(
            name.as_str(),
            filters[i].as_str(),
        ) {
            assert(fs[i as int].is_prefix_of(name@));
            return true;
        }
        i = i + 1;
    }
    assert forall|j: int| 0 <= j < filters@.len() implies !(#[trigger] filters@[j]@.is_prefix_of(
        name@,
    )) by {
        assert(fs[j] == filters@[j]@);
    }
    false
}

/// The identifiers of an album's tracks that its filters select, in album order; `None`
/// when a selected track has no identifier.
pub fn select_album_tracks(filters: &Vec<String>, tracks: &Vec<TrackInfo>) -> (r: Option<Vec<String>>)
    ensures
        opt_texts(r) == ids_of(filtered_tracks(texts_view(filters@), infos_view(tracks@))),
{
    let ghost fs = texts_view(filters@);
    let ghost tv = infos_view(tracks@);
    let ghost pred = |t: TrackInfoView| passes_filters(fs, t.name);
    let mut out: Vec<String> = Vec::new();
    let mut i: usize = 0;
    while i < tracks.len()
        invariant
            i <= tracks.len(),
            fs == texts_view(filters@),
            tv == infos_view(tracks@),
            pred == (|t: TrackInfoView| passes_filters(fs, t.name)),
            forall|j: int| 0 <= j < tv.take(i as int).filter(pred).len() ==> (#[trigger] tv.take(
                i as int,
            ).filter(pred)[j]).id is Some,
            texts_view(out@) == tv.take(i as int).filter(pred).map_values(
                |t: TrackInfoView| t.id.unwrap(),
            ),
        decreases tracks.len() - i,
    {
        proof {
            assert(tv.take(i + 1) =~= tv.take(i as int).push(tv[i as int]));
            tv.take(i as int).lemma_filter_push(tv[i as int], pred);
        }
        if name_passes(filters, &tracks[i].name) {
            match &tracks[i].id {
                Some(id) => {
                    let ghost prev = out@;
                    out.push(id.clone());
                    assert(texts_view(out@) =~= texts_view(prev).push(id@));
                },
                None => {
                    let ghost sel = tv.filter(pred);
                    proof {
                        let k = tv.take(i as int).filter(pred).len() as int;
                        assert(tv.take(i + 1).filter(pred)[k] == tv[i as int]);
                        tv.lemma_filter_take_len(pred, i + 1);
                        lemma_filter_prefix(tv, pred, i + 1);
                        assert(sel[k] == tv[i as int]);
                    }
                    return None;
                },
            }
        }
        i = i + 1;
    }
    assert(tv.take(i as int) =~= tv);
    Some(out)
}

/// Filtering a prefix gives a prefix of the filtered whole.
proof fn lemma_filter_prefix<A>(s: Seq<A>, p: spec_fn(A) -> bool, n: int)
    requires
        0 <= n <= s.len(),
    ensures
        s.take(n).filter(p).len() <= s.filter(p).len(),
        forall|j: int| 0 <= j < s.take(n).filter(p).len() ==> #[trigger] s.take(n).filter(p)[j] == s.filter(p)[j],
{
    broadcast use vstd::seq::Seq::filter_distributes_over_add;

    assert(s =~= s.take(n) + s.skip(n));
    assert((s.take(n) + s.skip(n)).filter(p) == s.take(n).filter(p) + s.skip(n).filter(p));
}

/// What the playlist logic reads of a full album: its identifier, name, popularity
/// (0 to 100) and tracks.
pub struct AlbumInfoView {
    pub id: Seq<char>,
    pub name: Seq<char>,
    pub popularity: u32,
    pub tracks: Seq<TrackInfoView>,
}

/// A full album as the music service describes it.
#[derive(Clone, Debug)]
pub struct AlbumInfo {
    pub id: String,
    pub name: String,
    pub popularity: u32,
    pub tracks: Vec<TrackInfo>,
}

impl AlbumInfo {
    /// An owned copy of the album.
    pub fn duplicate(&self) -> (r: AlbumInfo)
        ensures
            r@ == self@,
    {
        let mut tracks: Vec<TrackInfo> = Vec::new();
        let mut i: usize = 0;
        while i < self.tracks.len()
            invariant
                i <= self.tracks.len(),
                infos_view(tracks@) == infos_view(self.tracks@.take(i as int)),
            decreases self.tracks.len() - i,
        {
            let ghost prev = tracks@;
            tracks.push(self.tracks[i].duplicate());
            assert(self.tracks@.take(i + 1) == self.tracks@.take(i as int).push(self.tracks@[i as int]));
            assert(infos_view(tracks@) =~= infos_view(self.tracks@.take(i + 1)));
            i = i + 1;
        }
        assert(self.tracks@.take(i as int) =~= self.tracks@);
        AlbumInfo {
            id: self.id.clone(),
            name: self.name.clone(),
            popularity: self.popularity,
            tracks,
        }
    }
}

impl View for AlbumInfo {
    type V = AlbumInfoView;

    open spec fn view(&self) -> AlbumInfoView {
        AlbumInfoView {
            id: self.id@,
            name: self.name@,
            popularity: self.popularity,
            tracks: infos_view(self.tracks@),
        }
    }
}

/// The mathematical form of a list of albums.
pub open spec fn albums_view(s: Seq<AlbumInfo>) -> Seq<AlbumInfoView> {
    s.map_values(|a: AlbumInfo| a@)
}

/// Albums ordered from most to least popular.
pub open spec fn popularity_descending(s: Seq<AlbumInfoView>) -> bool {
    forall|i: int, j: int| 0 <= i < j < s.len() ==> s[i].popularity >= s[j].popularity
}

/// The albums of `s` whose popularity is `p`, in the order of `s`.
pub open spec fn with_popularity(s: Seq<AlbumInfoView>, p: u32) -> Seq<AlbumInfoView> {
    s.filter(|a: AlbumInfoView| a.popularity == p)
}

/// How many albums at the front of `r` are strictly more popular than `q`.
pub open spec fn lead_more_popular(r: Seq<AlbumInfoView>, q: u32) -> nat
    decreases r.len(),
{
    if r.len() == 0 || r[0].popularity <= q {
        0
    } else {
        1 + lead_more_popular(r.drop_first(), q)
    }
}

/// The albums ranked by popularity, built from the back: each album goes in front of the
/// already-ranked ones that are no more popular than it.
pub open spec fn ranked(s: Seq<AlbumInfoView>) -> Seq<AlbumInfoView>
    decreases s.len(),
{
    if s.len() == 0 {
        s
    } else {
        let r = ranked(s.drop_first());
        r.insert(lead_more_popular(r, s[0].popularity) as int, s[0])
    }
}

/// The front run of albums more popular than `q` ends at the first album that is not.
proof fn lemma_lead_more_popular(r: Seq<AlbumInfoView>, q: u32, k: int)
    requires
        0 <= k <= r.len(),
        forall|j: int| 0 <= j < k ==> r[j].popularity > q,
        k == r.len() || r[k].popularity <= q,
    ensures
        lead_more_popular(r, q) == k,
    decreases r.len(),
{
    if k > 0 {
        lemma_lead_more_popular(r.drop_first(), q, k - 1);
    }
}

/// Inserting `x` at `k`, where everything before `k` is more popular than `x`, puts `x` first
/// among the albums of its popularity and changes no other popularity's list.
proof fn lemma_insert_keeps_ties(s: Seq<AlbumInfoView>, k: int, x: AlbumInfoView, p: u32)
    requires
        0 <= k <= s.len(),
        forall|j: int| 0 <= j < k ==> s[j].popularity > x.popularity,
    ensures
        with_popularity(s.insert(k, x), p) == if x.popularity == p {
            seq![x] + with_popularity(s, p)
        } else {
            with_popularity(s, p)
        },
{
    broadcast use vstd::seq::Seq::filter_distributes_over_add;

    let f = |a: AlbumInfoView| a.popularity == p;
    let a = s.take(k);
    let b = s.skip(k);
    assert(s =~= a + b);
    assert(s.insert(k, x) =~= a + (seq![x] + b));
    if x.popularity == p {
        assert(a.all(|y: AlbumInfoView| !f(y)));
        a.lemma_all_neg_filter_empty(f);
        assert(a.filter(f) =~= Seq::<AlbumInfoView>::empty());
        b.lemma_filter_prepend(x, f);
        assert(with_popularity(s, p) == a.filter(f) + b.filter(f));
        assert(with_popularity(s.insert(k, x), p) == a.filter(f) + (seq![x] + b).filter(f));
        assert(with_popularity(s.insert(k, x), p) =~= seq![x] + with_popularity(s, p));
    } else {
        b.lemma_filter_prepend(x, f);
        assert((seq![x] + b).filter(f) =~= b.filter(f));
    }
}

/// The albums ordered from most to least popular; albums of equal popularity keep their
/// relative order (a stable sort).
pub fn rank_full_albums_by_popularity(albums: Vec<AlbumInfo>) -> (r: Vec<AlbumInfo>)
    ensures
        albums_view(r@) == ranked(albums_view(albums@)),
        is_permutation(albums_view(r@), albums_view(albums@)),
        popularity_descending(albums_view(r@)),
        forall|p: u32|
            #[trigger] with_popularity(albums_view(r@), p) == with_popularity(
                albums_view(albums@),
                p,
            ),
{
    broadcast use vstd::seq_lib::group_to_multiset_ensures;

    let ghost all = albums_view(albums@);
    let ghost n = albums@.len();
    let mut rest = albums;
    let mut out: Vec<AlbumInfo> = Vec::new();
    assert(all.subrange(n as int, n as int) =~= Seq::<AlbumInfoView>::empty());
    assert(albums_view(out@) =~= Seq::<AlbumInfoView>::empty());
    while rest.len() > 0
        invariant
            rest@.len() <= n,
            n == all.len(),
            albums_view(rest@) == all.subrange(0, rest@.len() as int),
            albums_view(out@) == ranked(all.subrange(rest@.len() as int, n as int)),
            is_permutation(albums_view(out@), all.subrange(rest@.len() as int, n as int)),
            popularity_descending(albums_view(out@)),
            forall|p: u32|
                #[trigger] with_popularity(albums_view(out@), p) == with_popularity(
                    all.subrange(rest@.len() as int, n as int),
                    p,
                ),
        decreases rest@.len(),
    {
        let ghost old_rest = rest@;
        let ghost ov = albums_view(out@);
        let x = match rest.pop() {
            Some(x) => x,
            None => {
                return out;
            },
        };
        let ghost i = rest@.len();
        assert(albums_view(rest@) =~= all.subrange(0, i as int));
        assert(albums_view(old_rest)[i as int] == old_rest[i as int]@);
        assert(x@ == all[i as int]);
        let q = x.popularity;
        let mut k: usize = 0;
        while k < out.len() && out[k].popularity > q
            invariant
                k <= out@.len(),
                ov == albums_view(out@),
                forall|j: int| 0 <= j < k ==> ov[j].popularity > q,
            decreases out@.len() - k,
        {
            k = k + 1;
        }
        let ghost xv = x@;
        out.insert(k, x);
        proof {
            let nv = albums_view(out@);
            assert(nv =~= ov.insert(k as int, xv));
            let suffix = all.subrange(i as int, n as int);
            let old_suffix = all.subrange((i + 1) as int, n as int);
            assert(suffix =~= seq![xv] + old_suffix);
            assert(suffix.drop_first() =~= old_suffix);
            lemma_lead_more_popular(ov, q, k as int);
            assert(nv == ranked(suffix));
            assert(suffix =~= old_suffix.insert(0, xv));
            vstd::seq_lib::to_multiset_insert(ov, k as int, xv);
            assert(nv.to_multiset() =~= ov.to_multiset().insert(xv));
            vstd::seq_lib::to_multiset_insert(old_suffix, 0, xv);
            assert(suffix.to_multiset() =~= old_suffix.to_multiset().insert(xv));
            assert forall|a: int, b: int| 0 <= a < b < nv.len() implies nv[a].popularity
                >= nv[b].popularity by {
                if k < ov.len() {
                    assert(ov[k as int].popularity <= q);
                }
            }
            assert forall|p: u32| #[trigger]
                with_popularity(nv, p) == with_popularity(suffix, p) by {
                lemma_insert_keeps_ties(ov, k as int, xv, p);
                old_suffix.lemma_filter_prepend(xv, |a: AlbumInfoView| a.popularity == p);
            }
        }
    }
    assert(all.subrange(0, n as int) =~= all);
    out
}

/// The identifiers of all the tracks, in order; `None` when a track has none.
pub fn all_track_ids(tracks: &Vec<TrackInfo>) -> (r: Option<Vec<String>>)
    ensures
        opt_texts(r) == ids_of(infos_view(tracks@)),
{
    let ghost tv = infos_view(tracks@);
    let mut out: Vec<String> = Vec::new();
    let mut i: usize = 0;
    while i < tracks.len()
        invariant
            i <= tracks.len(),
            tv == infos_view(tracks@),
            forall|j: int| 0 <= j < i ==> (#[trigger] tv[j]).id is Some,
            texts_view(out@) == tv.take(i as int).map_values(|t: TrackInfoView| t.id.unwrap()),
        decreases tracks.len() - i,
    {
        match &tracks[i].id {
            Some(id) => {
                let ghost prev = out@;
                out.push(id.clone());
                assert(tv.take(i + 1) == tv.take(i as int).push(tv[i as int]));
                assert(texts_view(out@) =~= tv.take(i + 1).map_values(
                    |t: TrackInfoView| t.id.unwrap(),
                ));
            },
            None => {
                assert(tv[i as int].id is None);
                return None;
            },
        }
        i = i + 1;
    }
    assert(tv.take(i as int) =~= tv);
    Some(out)
}

/// An album together with those of its tracks that credit a given artist.
pub struct SimplifiedAlbumByArtistWithTracks {
    pub artist: String,
    pub album: AlbumInfo,
    pub filtered_tracks: Vec<TrackInfo>,
}

/// The tracks of `tracks` that list `artist` among their artists, in order.
pub open spec fn tracks_by_artist(artist: Seq<char>, tracks: Seq<TrackInfoView>) -> Seq<TrackInfoView> {
    tracks.filter(|t: TrackInfoView| t.artists.contains(artist))
}

/// Whether `artists` holds `artist`.
fn credits(artists: &Vec<String>, artist: &String) -> (r: bool)
    ensures
        r == texts_view(artists@).contains(artist@),
{
    let ghost v = texts_view(artists@);
    let mut i: usize = 0;
    while i < artists.len()
        invariant
            i <= artists.len(),
            v == texts_view(artists@),
            forall|j: int| 0 <= j < i ==> v[j] != artist@,
        decreases artists.len() - i,
    {
        if *artist == artists[i] {
            assert(v[i as int] == artist@);
            return true;
        }
        i = i + 1;
    }
    false
}

/// Pairs an album with those of its tracks that credit `artist` among their artists.
pub fn filter_to_just_tracks_that_contain_artist(artist: String, album: AlbumInfo) -> (r:
    SimplifiedAlbumByArtistWithTracks)
    ensures
        r.artist@ == artist@,
        r.album@ == album@,
        infos_view(r.filtered_tracks@) == tracks_by_artist(artist@, album@.tracks),
{
    let ghost tv = infos_view(album.tracks@);
    let ghost pred = |t: TrackInfoView| t.artists.contains(artist@);
    let mut out: Vec<TrackInfo> = Vec::new();
    let mut i: usize = 0;
    while i < album.tracks.len()
        invariant
            i <= album.tracks.len(),
            tv == infos_view(album.tracks@),
            pred == (|t: TrackInfoView| t.artists.contains(artist@)),
            infos_view(out@) == tv.take(i as int).filter(pred),
        decreases album.tracks.len() - i,
    {
        proof {
            assert(tv.take(i + 1) =~= tv.take(i as int).push(tv[i as int]));
            tv.take(i as int).lemma_filter_push(tv[i as int], pred);
        }
        if credits(&album.tracks[i].artists, &artist) {
            let ghost prev = out@;
            let t = album.tracks[i].duplicate();
            out.push(t);
            assert(infos_view(out@) =~= infos_view(prev).push(tv[i as int]));
        }
        i = i + 1;
    }
    assert(tv.take(i as int) =~= tv);
    SimplifiedAlbumByArtistWithTracks { artist, album, filtered_tracks: out }
}

/// The identifier of a track that the service marks playable and that has one.
pub open spec fn playable_id(t: TrackInfoView) -> Option<Seq<char>> {
    if t.is_playable == Some(true) {
        t.id
    } else {
        None
    }
}

/// The identifiers of the tracks that the service marks playable, in order; tracks with no
/// playability mark or without an identifier are left out.
pub fn playable_ids(tracks: &Vec<TrackInfo>) -> (r: Vec<String>)
    ensures
        texts_view(r@) == infos_view(tracks@).filter_map(|t: TrackInfoView| playable_id(t)),
{
    let ghost tv = infos_view(tracks@);
    let ghost f = |t: TrackInfoView| playable_id(t);
    let mut out: Vec<String> = Vec::new();
    let mut i: usize = 0;
    while i < tracks.len()
        invariant
            i <= tracks.len(),
            tv == infos_view(tracks@),
            f == (|t: TrackInfoView| playable_id(t)),
            texts_view(out@) == tv.take(i as int).filter_map(f),
        decreases tracks.len() - i,
    {
        proof {
            tv.lemma_filter_map_take_succ(f, i as int);
        }
        let mut pushed = false;
        if tracks[i].is_playable == Some(true) {
            match &tracks[i].id {
                Some(id) => {
                    let ghost prev = out@;
                    out.push(id.clone());
                    assert(texts_view(out@) =~= texts_view(prev) + seq![id@]);
                    pushed = true;
                },
                None => {},
            }
        }
        if !pushed {
            assert(tv.take(i + 1).filter_map(f) =~= tv.take(i as int).filter_map(f));
        }
        i = i + 1;
    }
    assert(tv.take(i as int) =~= tv);
    out
}

} // verus!
