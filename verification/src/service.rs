//! The playlist service: search criteria and playlist descriptions, the service's data as
//! the playlist logic reads it, paging and batching, and the runs that fill playlists.

pub use crate::catalog::{
    all_track_ids, filter_to_just_tracks_that_contain_artist, get_playable_tracks,
    playable_ids, playlist_track_ids, rank_full_albums_by_popularity, select_album_tracks,
    AlbumInfo, PlayableEntry, PlaylistEntry, SimplifiedAlbumByArtistWithTracks, TrackInfo,
};
pub use crate::criteria::{
    AlbumLookup, AlbumSearchCriteria, PlaylistBuilder, PlaylistCreation, SpotifyExpr,
    TrackSearchCriteria,
};
pub use crate::paging::{
    album_lookup_batches, batches, first_named, replace_plan, Pager, ReplacePlan,
    ALBUM_LOOKUP_LIMIT, PAGE_LIMIT, PLAYLIST_EDIT_LIMIT,
};
pub use crate::run::{PlaylistRun, RunAction, RunError, RunEvent, RunStep, RunTarget, Stage};
