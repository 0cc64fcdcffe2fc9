use crate::catalog::{copy_opt_text, copy_texts, opt_text, texts_view};
use crate::random::shuffle_in_place;
use crate::seqs::is_permutation;
use rspotify::model::AlbumId;
use rspotify::prelude::Id;
use vstd::prelude::*;

verus! {

/// What an album search asks for.
pub struct AlbumCriteriaView {
    pub album_name: Seq<char>,
    pub artist: Option<Seq<char>>,
    pub uri: Option<Seq<char>>,
    pub filters: Seq<Seq<char>>,
}

/// An album to look up: by its service URI when one is given, otherwise by name; `filters`
/// name the album's tracks to keep (by name or name prefix), all of them when empty.
#[derive(Clone, Debug)]
pub struct AlbumSearchCriteria {
    album_name: String,
    artist: Option<String>,
    uri: Option<String>,
    filters: Vec<String>,
}

impl View for AlbumSearchCriteria {
    type V = AlbumCriteriaView;

    closed spec fn view(&self) -> AlbumCriteriaView {
        AlbumCriteriaView {
            album_name: self.album_name@,
            artist: opt_text(self.artist),
            uri: opt_text(self.uri),
            filters: texts_view(self.filters@),
        }
    }
}

impl AlbumSearchCriteria {
    /// An album to look up by name, with no artist, no URI and no filter.
    pub fn new(album_name: String) -> (r: Self)
        ensures
            r@ == (AlbumCriteriaView {
                album_name: album_name@,
                artist: None,
                uri: None,
                filters: Seq::empty(),
            }),
    {
        let r = AlbumSearchCriteria { album_name, artist: None, uri: None, filters: Vec::new() };
        assert(texts_view(r.filters@) =~= Seq::<Seq<char>>::empty());
        r
    }

    /// An album expression with every part given.
    pub fn raw(
        album_name: String,
        artist: Option<String>,
        uri: Option<String>,
        filters: Vec<String>,
    ) -> (r: SpotifyExpr)
        ensures
            r matches SpotifyExpr::Album(c) && c@ == (AlbumCriteriaView {
                album_name: album_name@,
                artist: opt_text(artist),
                uri: opt_text(uri),
                filters: texts_view(filters@),
            }),
    {
        SpotifyExpr::Album(AlbumSearchCriteria { album_name, artist, uri, filters })
    }

    /// The same search, narrowed to an artist.
    pub fn with_artist(self, artist: String) -> (r: Self)
        ensures
            r@ == (AlbumCriteriaView { artist: Some(artist@), ..self@ }),
    {
        let mut s = self;
        s.artist = Some(artist);
        s
    }

    /// An owned copy of the criteria.
    pub fn duplicate(&self) -> (r: Self)
        ensures
            r@ == self@,
    {
        AlbumSearchCriteria {
            album_name: self.album_name.clone(),
            artist: copy_opt_text(&self.artist),
            uri: copy_opt_text(&self.uri),
            filters: copy_texts(&self.filters),
        }
    }

    /// The album's name.
    pub fn album_name(&self) -> (r: &String)
        ensures
            r@ == self@.album_name,
    {
        &self.album_name
    }

    /// The artist the search is narrowed to, if any.
    pub fn artist(&self) -> (r: &Option<String>)
        ensures
            opt_text(*r) == self@.artist,
    {
        &self.artist
    }

    /// The album's service URI, if one is given.
    pub fn uri(&self) -> (r: &Option<String>)
        ensures
            opt_text(*r) == self@.uri,
    {
        &self.uri
    }

    /// The track filters.
    pub fn filters(&self) -> (r: &Vec<String>)
        ensures
            texts_view(r@) == self@.filters,
    {
        &self.filters
    }
}

/// An ASCII letter or digit.
pub open spec fn is_ascii_alphanumeric(c: char) -> bool {
    ('0' <= c && c <= '9') || ('a' <= c && c <= 'z') || ('A' <= c && c <= 'Z')
}

/// The album identifier that a service URI names: the URI must read `spotify`, a
/// separator (`:` or `/`), `album`, the same separator, and then the identifier, made of
/// ASCII letters and digits only.
pub open spec fn album_uri_id(uri: Seq<char>) -> Option<Seq<char>> {
    if uri.len() >= 14 && uri.take(7) == seq!['s', 'p', 'o', 't', 'i', 'f', 'y'] && (uri[7] == ':'
        || uri[7] == '/') && uri.subrange(8, 13) == seq!['a', 'l', 'b', 'u', 'm'] && uri[13]
        == uri[7] && (forall|k: int| 14 <= k < uri.len() ==> is_ascii_alphanumeric(
        #[trigger] uri[k],
    )) {
        Some(uri.skip(14))
    } else {
        None
    }
}

/// Parses an album URI with rspotify's `AlbumId::from_uri` and gives back the identifier
/// (`Id::id`). Its source strips the prefix `spotify`, takes `:` or `/` as the separator,
/// splits the rest at the separator's last occurrence, accepts the type only if it parses
/// to `album`, and accepts the identifier only if all its characters are ASCII letters or
/// digits (an empty identifier passes that test); this is what `album_uri_id` states.
#[verifier::external_body]
fn album_id_from_uri(uri: &str) -> (r: Option<String>)
    ensures
        opt_text(r) == album_uri_id(uri@),
{
    match AlbumId::from_uri(uri) {
        Ok(id) => Some(id.id().to_owned()),
        Err(_) => None,
    }
}

/// How an album is to be found.
pub enum AlbumLookup {
    /// By its service identifier, taken from the URI.
    ById(String),
    /// By searching for this name and taking the first album found.
    ByName(String),
    /// The URI given is not an album URI.
    BadUri,
}

impl AlbumSearchCriteria {
    /// How to find the album: a URI, when given, is preferred over the name; the search by
    /// name sends the album's name alone.
    pub fn lookup(&self) -> (r: AlbumLookup)
        ensures
            self@.uri is None ==> (r matches AlbumLookup::ByName(n) && n@ == self@.album_name),
            self@.uri matches Some(u) ==> match album_uri_id(u) {
                Some(id) => (r matches AlbumLookup::ById(i) && i@ == id),
                None => r is BadUri,
            },
    {
        match &self.uri {
            Some(u) => match album_id_from_uri(u.as_str()) {
                Some(id) => AlbumLookup::ById(id),
                None => AlbumLookup::BadUri,
            },
            None => AlbumLookup::ByName(self.album_name.clone()),
        }
    }
}

/// What a track search asks for.
pub struct TrackCriteriaView {
    pub name: Seq<char>,
    pub album: Option<Seq<char>>,
    pub artist: Option<Seq<char>>,
}

/// A track to look up by name, optionally with its album and artist.
#[derive(Clone, Debug)]
pub struct TrackSearchCriteria {
    name: String,
    album: Option<String>,
    artist: Option<String>,
}

impl View for TrackSearchCriteria {
    type V = TrackCriteriaView;

    closed spec fn view(&self) -> TrackCriteriaView {
        TrackCriteriaView {
            name: self.name@,
            album: opt_text(self.album),
            artist: opt_text(self.artist),
        }
    }
}

impl TrackSearchCriteria {
    /// A track expression.
    pub fn new(name: String, album: Option<String>, artist: Option<String>) -> (r: SpotifyExpr)
        ensures
            r matches SpotifyExpr::Track(c) && c@ == (TrackCriteriaView {
                name: name@,
                album: opt_text(album),
                artist: opt_text(artist),
            }),
    {
        SpotifyExpr::Track(TrackSearchCriteria { name, album, artist })
    }

    /// An owned copy of the criteria.
    pub fn duplicate(&self) -> (r: Self)
        ensures
            r@ == self@,
    {
        TrackSearchCriteria {
            name: self.name.clone(),
            album: copy_opt_text(&self.album),
            artist: copy_opt_text(&self.artist),
        }
    }

    /// The track's name; it is also the text that the search sends.
    pub fn name(&self) -> (r: &String)
        ensures
            r@ == self@.name,
    {
        &self.name
    }

    /// The album the track is on, if given.
    pub fn album(&self) -> (r: &Option<String>)
        ensures
            opt_text(*r) == self@.album,
    {
        &self.album
    }

    /// The track's artist, if given.
    pub fn artist(&self) -> (r: &Option<String>)
        ensures
            opt_text(*r) == self@.artist,
    {
        &self.artist
    }
}

/// One expression of a playlist description: a track or an album.
#[derive(Clone, Debug)]
pub enum SpotifyExpr {
    Track(TrackSearchCriteria),
    Album(AlbumSearchCriteria),
}

/// What an expression is.
pub enum SpotifyExprView {
    Track(TrackCriteriaView),
    Album(AlbumCriteriaView),
}

impl View for SpotifyExpr {
    type V = SpotifyExprView;

    open spec fn view(&self) -> SpotifyExprView {
        match self {
            SpotifyExpr::Track(t) => SpotifyExprView::Track(t@),
            SpotifyExpr::Album(a) => SpotifyExprView::Album(a@),
        }
    }
}

/// The mathematical form of a list of expressions.
pub open spec fn exprs_view(s: Seq<SpotifyExpr>) -> Seq<SpotifyExprView> {
    s.map_values(|e: SpotifyExpr| e@)
}

/// What a playlist description is.
pub struct PlaylistCreationView {
    pub name: Seq<char>,
    pub description: Option<Seq<char>>,
    pub archive_to: Option<Seq<char>>,
    pub values: Seq<SpotifyExprView>,
}

/// A playlist to fill: its name and description, the expressions that give its tracks in
/// order, and optionally a second playlist that receives a copy of the same tracks.
pub struct PlaylistCreation {
    name: String,
    description: Option<String>,
    archive_to: Option<String>,
    values: Vec<SpotifyExpr>,
}

impl View for PlaylistCreation {
    type V = PlaylistCreationView;

    closed spec fn view(&self) -> PlaylistCreationView {
        PlaylistCreationView {
            name: self.name@,
            description: opt_text(self.description),
            archive_to: opt_text(self.archive_to),
            values: exprs_view(self.values@),
        }
    }
}

impl PlaylistCreation {
    /// A playlist description.
    pub fn new(
        name: String,
        description: Option<String>,
        archive_to: Option<String>,
        values: Vec<SpotifyExpr>,
    ) -> (r: Self)
        ensures
            r@ == (PlaylistCreationView {
                name: name@,
                description: opt_text(description),
                archive_to: opt_text(archive_to),
                values: exprs_view(values@),
            }),
    {
        PlaylistCreation { name, description, archive_to, values }
    }

    /// The playlist's name.
    pub fn name(&self) -> (r: &String)
        ensures
            r@ == self@.name,
    {
        &self.name
    }

    /// The playlist's description, if any.
    pub fn description(&self) -> (r: &Option<String>)
        ensures
            opt_text(*r) == self@.description,
    {
        &self.description
    }

    /// The playlist that receives a copy, if any.
    pub fn archive_to(&self) -> (r: &Option<String>)
        ensures
            opt_text(*r) == self@.archive_to,
    {
        &self.archive_to
    }

    /// The expressions, in order.
    pub fn values(&self) -> (r: &Vec<SpotifyExpr>)
        ensures
            exprs_view(r@) == self@.values,
    {
        &self.values
    }
}

/// What a playlist builder holds.
pub struct PlaylistBuilderView {
    pub name: Seq<char>,
    pub albums: Seq<AlbumCriteriaView>,
    pub tracks: Seq<Seq<char>>,
    pub all_discography: Seq<Seq<char>>,
}

/// The mathematical form of a list of album searches.
pub open spec fn criteria_view(s: Seq<AlbumSearchCriteria>) -> Seq<AlbumCriteriaView> {
    s.map_values(|c: AlbumSearchCriteria| c@)
}

/// A playlist assembled step by step: whole albums, track names, and artists whose
/// discography is to be included.
pub struct PlaylistBuilder {
    name: String,
    albums: Vec<AlbumSearchCriteria>,
    tracks: Vec<String>,
    all_discography: Vec<String>,
}

impl View for PlaylistBuilder {
    type V = PlaylistBuilderView;

    closed spec fn view(&self) -> PlaylistBuilderView {
        PlaylistBuilderView {
            name: self.name@,
            albums: criteria_view(self.albums@),
            tracks: texts_view(self.tracks@),
            all_discography: texts_view(self.all_discography@),
        }
    }
}

impl PlaylistBuilder {
    /// An empty builder for the playlist `name`.
    pub fn new(name: String) -> (r: Self)
        ensures
            r@ == (PlaylistBuilderView {
                name: name@,
                albums: Seq::empty(),
                tracks: Seq::empty(),
                all_discography: Seq::empty(),
            }),
    {
        let r = PlaylistBuilder {
            name,
            albums: Vec::new(),
            tracks: Vec::new(),
            all_discography: Vec::new(),
        };
        assert(criteria_view(r.albums@) =~= Seq::<AlbumCriteriaView>::empty());
        assert(texts_view(r.tracks@) =~= Seq::<Seq<char>>::empty());
        assert(texts_view(r.all_discography@) =~= Seq::<Seq<char>>::empty());
        r
    }

    /// Adds an album after those already added.
    pub fn with_album(self, album: AlbumSearchCriteria) -> (r: Self)
        ensures
            r@ == (PlaylistBuilderView { albums: self@.albums.push(album@), ..self@ }),
    {
        let mut s = self;
        let ghost a = album@;
        s.albums.push(album);
        assert(criteria_view(s.albums@) =~= criteria_view(self.albums@).push(a));
        s
    }

    /// Adds a track name after those already added.
    pub fn with_track(self, name: String) -> (r: Self)
        ensures
            r@ == (PlaylistBuilderView { tracks: self@.tracks.push(name@), ..self@ }),
    {
        let mut s = self;
        let ghost n = name@;
        s.tracks.push(name);
        assert(texts_view(s.tracks@) =~= texts_view(self.tracks@).push(n));
        s
    }

    /// Puts the albums in a random order; they stay the same albums.
    pub fn shuffle_by_album(self) -> (r: Self)
        ensures
            is_permutation(r@.albums, self@.albums),
            r@.name == self@.name,
            r@.tracks == self@.tracks,
            r@.all_discography == self@.all_discography,
    {
        let mut s = self;
        shuffle_in_place(&mut s.albums);
        proof {
            crate::seqs::lemma_permutation_map(
                s.albums@,
                self.albums@,
                |c: AlbumSearchCriteria| c@,
            );
        }
        s
    }

    /// Adds an artist whose whole discography is to be included.
    pub fn with_all_discography(self, name: String) -> (r: Self)
        ensures
            r@ == (PlaylistBuilderView {
                all_discography: self@.all_discography.push(name@),
                ..self@
            }),
    {
        let mut s = self;
        let ghost n = name@;
        s.all_discography.push(name);
        assert(texts_view(s.all_discography@) =~= texts_view(self.all_discography@).push(n));
        s
    }

    /// The playlist's name.
    pub fn name(&self) -> (r: &String)
        ensures
            r@ == self@.name,
    {
        &self.name
    }

    /// The albums, in order.
    pub fn albums(&self) -> (r: &Vec<AlbumSearchCriteria>)
        ensures
            criteria_view(r@) == self@.albums,
    {
        &self.albums
    }

    /// The artists whose discography is included, in order.
    pub fn all_discography(&self) -> (r: &Vec<String>)
        ensures
            texts_view(r@) == self@.all_discography,
    {
        &self.all_discography
    }
}

} // verus!
