use crate::catalog::{
    albums_view, all_track_ids, ids_of, opt_texts, filter_to_just_tracks_that_contain_artist, filtered_tracks,
    infos_view, opt_text, playable_id, playable_ids, rank_full_albums_by_popularity, ranked,
    select_album_tracks, texts_view, tracks_by_artist, AlbumInfo, AlbumInfoView, TrackInfo,
    TrackInfoView,
};
use crate::catalog::copy_opt_text;
use crate::criteria::{
    exprs_view, AlbumCriteriaView, AlbumSearchCriteria, PlaylistBuilder, PlaylistCreation,
    SpotifyExpr, SpotifyExprView, TrackCriteriaView, TrackSearchCriteria,
};
use vstd::prelude::*;

verus! {

broadcast use vstd::seq::Seq::lemma_push_map_commute;

/// One source of tracks for a playlist.
pub enum RunStep {
    /// One track, found by search.
    Track(TrackSearchCriteria),
    /// An album's tracks; with `true`, only those that the album's filters select.
    Album(AlbumSearchCriteria, bool),
    /// The tracks of an artist's whole discography.
    Discography(String),
}

/// What a source of tracks is.
pub enum RunStepView {
    Track(TrackCriteriaView),
    Album(AlbumCriteriaView, bool),
    Discography(Seq<char>),
}

impl View for RunStep {
    type V = RunStepView;

    open spec fn view(&self) -> RunStepView {
        match self {
            RunStep::Track(c) => RunStepView::Track(c@),
            RunStep::Album(c, f) => RunStepView::Album(c@, *f),
            RunStep::Discography(a) => RunStepView::Discography(a@),
        }
    }
}

/// A playlist that receives the collected tracks.
pub struct RunTarget {
    pub name: String,
    pub description: Option<String>,
}

/// What a target playlist is.
pub struct RunTargetView {
    pub name: Seq<char>,
    pub description: Option<Seq<char>>,
}

impl View for RunTarget {
    type V = RunTargetView;

    open spec fn view(&self) -> RunTargetView {
        RunTargetView { name: self.name@, description: opt_text(self.description) }
    }
}

/// Where a run stands.
#[derive(Clone, Copy, Debug)]
pub enum Stage {
    /// Waiting for target playlist `t` to be found or created.
    Opening(usize),
    /// Waiting for what source `k` yields.
    Collecting(usize),
    /// Waiting for target playlist `t` to have its contents replaced.
    Replacing(usize),
    /// Every target holds the collected tracks.
    Finished,
    /// A selected track had no identifier; nothing more is done.
    Failed,
}

/// What the service is to be asked next.
pub enum RunAction {
    /// Find the user's playlist with this name, or create it empty with this description.
    OpenPlaylist { name: String, description: Option<String> },
    /// Search for a track and report the first one found.
    SearchTrack(TrackSearchCriteria),
    /// Fetch an album's tracks.
    FetchAlbum(AlbumSearchCriteria),
    /// Fetch every album of an artist, with its tracks.
    FetchDiscography(String),
    /// Replace the playlist's contents with these tracks, in order.
    ReplaceContents { playlist_id: String, track_ids: Vec<String> },
    /// Nothing is left to ask.
    Done,
}

/// What the service answered.
pub enum RunEvent {
    Opened(String),
    TrackFound(TrackInfo),
    AlbumFetched(Vec<TrackInfo>),
    DiscographyFetched(Vec<AlbumInfo>),
    Replaced,
}

/// What an answer is.
pub enum RunEventView {
    Opened(Seq<char>),
    TrackFound(TrackInfoView),
    AlbumFetched(Seq<TrackInfoView>),
    DiscographyFetched(Seq<AlbumInfoView>),
    Replaced,
}

impl View for RunEvent {
    type V = RunEventView;

    open spec fn view(&self) -> RunEventView {
        match self {
            RunEvent::Opened(p) => RunEventView::Opened(p@),
            RunEvent::TrackFound(t) => RunEventView::TrackFound(t@),
            RunEvent::AlbumFetched(ts) => RunEventView::AlbumFetched(infos_view(ts@)),
            RunEvent::DiscographyFetched(a) => RunEventView::DiscographyFetched(albums_view(a@)),
            RunEvent::Replaced => RunEventView::Replaced,
        }
    }
}

/// Why a run refused an answer.
#[derive(Clone, Copy, Debug, PartialEq, Eq)]
pub enum RunError {
    /// A track that was to go in the playlist has no identifier.
    MissingTrackId,
    /// The answer does not fit the question asked (or the run is over).
    UnexpectedEvent,
}

/// The identifiers of an artist's tracks across a discography: the albums ranked by
/// popularity, and from each, in order, the tracks that credit the artist and that the
/// service marks playable and that have an identifier.
pub open spec fn discography_ids(artist: Seq<char>, albums: Seq<AlbumInfoView>) -> Seq<Seq<char>> {
    ranked(albums).map_values(|a: AlbumInfoView| album_playable_ids(artist, a)).flatten()
}

/// The identifiers of an album's playable tracks that credit `artist`, in album order.
pub open spec fn album_playable_ids(artist: Seq<char>, a: AlbumInfoView) -> Seq<Seq<char>> {
    tracks_by_artist(artist, a.tracks).filter_map(|t: TrackInfoView| playable_id(t))
}

/// The identifiers that an artist's discography contributes: the albums ranked by
/// popularity, each narrowed to the tracks that credit the artist, then the playable ones.
fn discography_track_ids(artist: &String, albums: Vec<AlbumInfo>) -> (r: Vec<String>)
    ensures
        texts_view(r@) == discography_ids(artist@, albums_view(albums@)),
{
    let ghost all = ranked(albums_view(albums@));
    let ghost g = |a: AlbumInfoView| album_playable_ids(artist@, a);
    let mut rest = rank_full_albums_by_popularity(albums);
    let ghost n = rest@.len();
    let mut out: Vec<String> = Vec::new();
    assert(all.take(0).map_values(g) =~= Seq::<Seq<Seq<char>>>::empty());
    assert(texts_view(out@) =~= all.take(0).map_values(g).flatten());
    assert(albums_view(rest@) =~= all.skip(0));
    while rest.len() > 0
        invariant
            n == all.len(),
            rest@.len() <= n,
            g == (|a: AlbumInfoView| album_playable_ids(artist@, a)),
            albums_view(rest@) == all.skip(n - rest@.len()),
            texts_view(out@) == all.take(n - rest@.len()).map_values(g).flatten(),
        decreases rest@.len(),
    {
        let ghost i = n - rest@.len();
        let ghost before = rest@;
        let album = rest.remove(0);
        assert(album@ == albums_view(before)[0]);
        assert(album@ == all[i]);
        assert(rest@ =~= before.subrange(1, before.len() as int));
        assert(albums_view(rest@) =~= albums_view(before).subrange(1, before.len() as int));
        assert(albums_view(rest@) =~= all.skip(i + 1));
        let filtered = filter_to_just_tracks_that_contain_artist(artist.clone(), album);
        let mut ids = playable_ids(&filtered.filtered_tracks);
        let ghost prev = texts_view(out@);
        let ghost add = texts_view(ids@);
        out.append(&mut ids);
        proof {
            assert(add == g(all[i]));
            assert(texts_view(out@) =~= prev + add);
            assert(all.take(i + 1) =~= all.take(i).push(all[i]));
            all.take(i).map_values(g).lemma_flatten_push(g(all[i]));
        }
    }
    assert(all.take(n as int) =~= all);
    out
}

/// The tracks that a source contributes given the service's answer: the track found, the
/// album's (selected) tracks, or the discography's playable tracks by the artist. `None`
/// when a contributed track has no identifier.
pub open spec fn selection(step: RunStepView, ev: RunEventView) -> Option<Seq<Seq<char>>> {
    match (step, ev) {
        (RunStepView::Track(_), RunEventView::TrackFound(t)) => match t.id {
            Some(id) => Some(seq![id]),
            None => None,
        },
        (RunStepView::Album(c, use_filters), RunEventView::AlbumFetched(ts)) => if use_filters {
            ids_of(filtered_tracks(c.filters, ts))
        } else {
            ids_of(ts)
        },
        (RunStepView::Discography(a), RunEventView::DiscographyFetched(albums)) => Some(
            discography_ids(a, albums),
        ),
        _ => None,
    }
}

/// Whether an answer is of the kind that a source asks for.
pub open spec fn answers_step(step: RunStepView, ev: RunEventView) -> bool {
    match (step, ev) {
        (RunStepView::Track(_), RunEventView::TrackFound(_)) => true,
        (RunStepView::Album(_, _), RunEventView::AlbumFetched(_)) => true,
        (RunStepView::Discography(_), RunEventView::DiscographyFetched(_)) => true,
        _ => false,
    }
}

/// The tracks that the first `answers.len()` sources contribute, in source order;
/// `None` if one of them fails.
pub open spec fn collect(steps: Seq<RunStepView>, answers: Seq<RunEventView>) -> Option<
    Seq<Seq<char>>,
>
    decreases answers.len(),
{
    if answers.len() == 0 {
        Some(Seq::empty())
    } else {
        match collect(steps, answers.drop_last()) {
            Some(c) => match selection(steps[answers.len() - 1], answers.last()) {
                Some(s) => Some(c + s),
                None => None,
            },
            None => None,
        }
    }
}

/// One more answer appends its source's contribution to what was collected.
proof fn lemma_collect_push(
    steps: Seq<RunStepView>,
    answers: Seq<RunEventView>,
    ev: RunEventView,
    c: Seq<Seq<char>>,
    s: Seq<Seq<char>>,
)
    requires
        collect(steps, answers) == Some(c),
        selection(steps[answers.len() as int], ev) == Some(s),
    ensures
        collect(steps, answers.push(ev)) == Some(c + s),
{
    let a2 = answers.push(ev);
    assert(a2.drop_last() =~= answers);
    assert(a2.last() == ev);
    assert(a2.len() - 1 == answers.len());
}

/// What a run is: its sources and targets, where it stands, the playlist opened last,
/// the tracks collected so far, and the answers the sources gave.
pub struct PlaylistRunView {
    pub steps: Seq<RunStepView>,
    pub targets: Seq<RunTargetView>,
    pub stage: Stage,
    pub playlist_id: Seq<char>,
    pub collected: Seq<Seq<char>>,
    pub answers: Seq<RunEventView>,
}

impl PlaylistRunView {
    /// The run's bookkeeping is consistent: the collected tracks are exactly what the
    /// sources answered so far contribute, and once collection is over every source has
    /// answered.
    pub open spec fn well_formed(self) -> bool {
        &&& self.targets.len() >= 1
        &&& self.targets.len() <= usize::MAX
        &&& self.steps.len() <= usize::MAX
        &&& match self.stage {
            Stage::Opening(t) => t < self.targets.len() && (if t == 0 {
                self.answers.len() == 0 && self.collected.len() == 0
            } else {
                self.answers.len() == self.steps.len() && collect(self.steps, self.answers)
                    == Some(self.collected)
            }),
            Stage::Collecting(k) => k < self.steps.len() && self.answers.len() == k && collect(
                self.steps,
                self.answers,
            ) == Some(self.collected),
            Stage::Replacing(t) => t < self.targets.len() && self.answers.len()
                == self.steps.len() && collect(self.steps, self.answers) == Some(self.collected),
            Stage::Finished => self.answers.len() == self.steps.len() && collect(
                self.steps,
                self.answers,
            ) == Some(self.collected),
            Stage::Failed => true,
        }
    }

    /// The run after an answer that fits the stage; an answer that does not fit leaves it
    /// unchanged.
    pub open spec fn after(self, ev: RunEventView) -> PlaylistRunView {
        match (self.stage, ev) {
            (Stage::Opening(t), RunEventView::Opened(pid)) => PlaylistRunView {
                stage: if t > 0 {
                    Stage::Replacing(t)
                } else if self.steps.len() == 0 {
                    Stage::Replacing(0)
                } else {
                    Stage::Collecting(0)
                },
                playlist_id: pid,
                ..self
            },
            (Stage::Collecting(k), _) => if answers_step(self.steps[k as int], ev) {
                match selection(self.steps[k as int], ev) {
                    Some(s) => PlaylistRunView {
                        stage: if k + 1 == self.steps.len() {
                            Stage::Replacing(0)
                        } else {
                            Stage::Collecting((k + 1) as usize)
                        },
                        collected: self.collected + s,
                        answers: self.answers.push(ev),
                        ..self
                    },
                    None => PlaylistRunView { stage: Stage::Failed, ..self },
                }
            } else {
                self
            },
            (Stage::Replacing(t), RunEventView::Replaced) => PlaylistRunView {
                stage: if t + 1 < self.targets.len() {
                    Stage::Opening((t + 1) as usize)
                } else {
                    Stage::Finished
                },
                ..self
            },
            _ => self,
        }
    }

    /// Whether an answer fits the stage.
    pub open spec fn fits(self, ev: RunEventView) -> bool {
        match (self.stage, ev) {
            (Stage::Opening(_), RunEventView::Opened(_)) => true,
            (Stage::Collecting(k), _) => answers_step(self.steps[k as int], ev),
            (Stage::Replacing(_), RunEventView::Replaced) => true,
            _ => false,
        }
    }
}

/// What the service is to be asked next.
pub enum RunActionView {
    OpenPlaylist { name: Seq<char>, description: Option<Seq<char>> },
    SearchTrack(TrackCriteriaView),
    FetchAlbum(AlbumCriteriaView),
    FetchDiscography(Seq<char>),
    ReplaceContents { playlist_id: Seq<char>, track_ids: Seq<Seq<char>> },
    Done,
}

impl View for RunAction {
    type V = RunActionView;

    open spec fn view(&self) -> RunActionView {
        match self {
            RunAction::OpenPlaylist { name, description } => RunActionView::OpenPlaylist {
                name: name@,
                description: opt_text(*description),
            },
            RunAction::SearchTrack(c) => RunActionView::SearchTrack(c@),
            RunAction::FetchAlbum(c) => RunActionView::FetchAlbum(c@),
            RunAction::FetchDiscography(a) => RunActionView::FetchDiscography(a@),
            RunAction::ReplaceContents { playlist_id, track_ids } =>
                RunActionView::ReplaceContents {
                playlist_id: playlist_id@,
                track_ids: texts_view(track_ids@),
            },
            RunAction::Done => RunActionView::Done,
        }
    }
}

impl PlaylistRunView {
    /// The question for the stage: open the target, ask the source, replace the target's
    /// contents with the collected tracks, or nothing once the run is over.
    pub open spec fn action(self) -> RunActionView {
        match self.stage {
            Stage::Opening(t) => RunActionView::OpenPlaylist {
                name: self.targets[t as int].name,
                description: self.targets[t as int].description,
            },
            Stage::Collecting(k) => match self.steps[k as int] {
                RunStepView::Track(c) => RunActionView::SearchTrack(c),
                RunStepView::Album(c, _) => RunActionView::FetchAlbum(c),
                RunStepView::Discography(a) => RunActionView::FetchDiscography(a),
            },
            Stage::Replacing(_) => RunActionView::ReplaceContents {
                playlist_id: self.playlist_id,
                track_ids: self.collected,
            },
            _ => RunActionView::Done,
        }
    }
}

/// The mathematical form of a list of sources.
pub open spec fn steps_view(s: Seq<RunStep>) -> Seq<RunStepView> {
    s.map_values(|x: RunStep| x@)
}

/// The mathematical form of a list of targets.
pub open spec fn targets_view(s: Seq<RunTarget>) -> Seq<RunTargetView> {
    s.map_values(|x: RunTarget| x@)
}

/// The filling of one or more playlists: tracks are collected from the sources in order,
/// then every target playlist, in order, is found or created and gets exactly the
/// collected tracks. The caller performs each action against the service and hands back
/// the answer.
pub struct PlaylistRun {
    steps: Vec<RunStep>,
    targets: Vec<RunTarget>,
    stage: Stage,
    playlist_id: String,
    collected: Vec<String>,
    answers: Ghost<Seq<RunEventView>>,
}

impl View for PlaylistRun {
    type V = PlaylistRunView;

    closed spec fn view(&self) -> PlaylistRunView {
        PlaylistRunView {
            steps: steps_view(self.steps@),
            targets: targets_view(self.targets@),
            stage: self.stage,
            playlist_id: self.playlist_id@,
            collected: texts_view(self.collected@),
            answers: self.answers@,
        }
    }
}

/// The sources of a playlist description: each track expression, and each album
/// expression with its filters applied.
pub open spec fn creation_steps(values: Seq<SpotifyExprView>) -> Seq<RunStepView> {
    values.map_values(
        |e: SpotifyExprView|
            match e {
                SpotifyExprView::Track(c) => RunStepView::Track(c),
                SpotifyExprView::Album(c) => RunStepView::Album(c, true),
            },
    )
}

/// The targets of a playlist description: the playlist itself, then the archive copy if
/// one is asked for, both with the description.
pub open spec fn creation_targets(
    name: Seq<char>,
    description: Option<Seq<char>>,
    archive_to: Option<Seq<char>>,
) -> Seq<RunTargetView> {
    let first = seq![RunTargetView { name, description }];
    match archive_to {
        Some(a) => first.push(RunTargetView { name: a, description }),
        None => first,
    }
}

/// The sources of a builder: each album whole (its filters are not applied), then each
/// artist's discography. Track names added to the builder are not sources.
pub open spec fn builder_steps(
    albums: Seq<AlbumCriteriaView>,
    artists: Seq<Seq<char>>,
) -> Seq<RunStepView> {
    albums.map_values(|c: AlbumCriteriaView| RunStepView::Album(c, false)) + artists.map_values(
        |a: Seq<char>| RunStepView::Discography(a),
    )
}

impl PlaylistRun {
    /// The question to put to the service next.
    pub fn next_action(&self) -> (r: RunAction)
        requires
            self@.well_formed(),
        ensures
            r@ == self@.action(),
            self@.stage matches Stage::Collecting(k) ==> match self@.steps[k as int] {
                RunStepView::Track(c) => r@ == RunActionView::SearchTrack(c),
                RunStepView::Album(c, _) => r@ == RunActionView::FetchAlbum(c),
                RunStepView::Discography(a) => r@ == RunActionView::FetchDiscography(a),
            },
            self@.stage matches Stage::Replacing(_) ==> r@ == (RunActionView::ReplaceContents {
                playlist_id: self@.playlist_id,
                track_ids: self@.collected,
            }),
    {
        match self.stage {
            Stage::Opening(t) => RunAction::OpenPlaylist {
                name: self.targets[t].name.clone(),
                description: copy_opt_text(&self.targets[t].description),
            },
            Stage::Collecting(k) => match &self.steps[k] {
                RunStep::Track(c) => RunAction::SearchTrack(c.duplicate()),
                RunStep::Album(c, _) => RunAction::FetchAlbum(c.duplicate()),
                RunStep::Discography(a) => RunAction::FetchDiscography(a.clone()),
            },
            Stage::Replacing(_) => RunAction::ReplaceContents {
                playlist_id: self.playlist_id.clone(),
                track_ids: crate::catalog::copy_texts(&self.collected),
            },
            _ => RunAction::Done,
        }
    }

    /// Where the run stands.
    pub fn stage(&self) -> (r: Stage)
        ensures
            r == self@.stage,
    {
        self.stage
    }

    /// Takes the service's answer to the last question. An answer that does not fit is
    /// refused and changes nothing; a source whose contributed track has no identifier
    /// fails the run.
    pub fn handle(&mut self, ev: RunEvent) -> (r: Result<(), RunError>)
        requires
            old(self)@.well_formed(),
        ensures
            final(self)@.well_formed(),
            final(self)@ == old(self)@.after(ev@),
            !old(self)@.fits(ev@) ==> r == Err::<(), RunError>(RunError::UnexpectedEvent),
            old(self)@.fits(ev@) && final(self)@.stage is Failed ==> r == Err::<(), RunError>(
                RunError::MissingTrackId,
            ),
            old(self)@.fits(ev@) && !(final(self)@.stage is Failed) ==> r is Ok,
    {
        let ghost ev_view = ev@;
        let n_steps = self.steps.len();
        let n_targets = self.targets.len();
        proof {
            match self.stage {
                Stage::Collecting(k) => {
                    assert(k < n_steps);
                },
                Stage::Replacing(t) => {
                    assert(t < n_targets);
                },
                _ => {},
            }
        }
        match self.stage {
            Stage::Opening(t) => match ev {
                RunEvent::Opened(pid) => {
                    self.playlist_id = pid;
                    if t > 0 {
                        self.stage = Stage::Replacing(t);
                    } else if self.steps.len() == 0 {
                        assert(texts_view(self.collected@) =~= Seq::<Seq<char>>::empty());
                        self.stage = Stage::Replacing(0);
                    } else {
                        assert(texts_view(self.collected@) =~= Seq::<Seq<char>>::empty());
                        self.stage = Stage::Collecting(0);
                    }
                    Ok(())
                },
                _ => Err(RunError::UnexpectedEvent),
            },
            Stage::Collecting(k) => {
                let ghost step = self@.steps[k as int];
                let ghost answers = self.answers@;
                let ghost old_collected = texts_view(self.collected@);
                let picked: Result<Vec<String>, RunError> = match (&self.steps[k], ev) {
                    (RunStep::Track(_), RunEvent::TrackFound(t)) => match t.id {
                        Some(id) => {
                            let mut v: Vec<String> = Vec::new();
                            v.push(id);
                            assert(texts_view(v@) =~= seq![ev_view->TrackFound_0.id.unwrap()]);
                            Ok(v)
                        },
                        None => Err(RunError::MissingTrackId),
                    },
                    (RunStep::Album(c, use_filters), RunEvent::AlbumFetched(ts)) => {
                        let sel = if *use_filters {
                            select_album_tracks(c.filters(), &ts)
                        } else {
                            all_track_ids(&ts)
                        };
                        assert(opt_texts(sel) == selection(step, ev_view));
                        match sel {
                            Some(v) => Ok(v),
                            None => Err(RunError::MissingTrackId),
                        }
                    },
                    (RunStep::Discography(a), RunEvent::DiscographyFetched(albums)) => {
                        Ok(discography_track_ids(a, albums))
                    },
                    _ => {
                        return Err(RunError::UnexpectedEvent);
                    },
                };
                match picked {
                    Ok(mut v) => {
                        let ghost add = texts_view(v@);
                        assert(selection(step, ev_view) == Some(add));
                        self.collected.append(&mut v);
                        assert(texts_view(self.collected@) =~= old_collected + add);
                        self.answers = Ghost(answers.push(ev_view));
                        proof {
                            lemma_collect_push(self@.steps, answers, ev_view, old_collected, add);
                        }
                        if k + 1 == n_steps {
                            self.stage = Stage::Replacing(0);
                        } else {
                            self.stage = Stage::Collecting(k + 1);
                        }
                        Ok(())
                    },
                    Err(e) => {
                        assert(selection(step, ev_view) is None);
                        self.stage = Stage::Failed;
                        Err(e)
                    },
                }
            },
            Stage::Replacing(t) => match ev {
                RunEvent::Replaced => {
                    if t + 1 < n_targets {
                        self.stage = Stage::Opening(t + 1);
                    } else {
                        self.stage = Stage::Finished;
                    }
                    Ok(())
                },
                _ => Err(RunError::UnexpectedEvent),
            },
            _ => Err(RunError::UnexpectedEvent),
        }
    }
}

/// Whenever a run asks for a playlist's contents to be replaced, the list it sends is
/// exactly what all the sources contributed, source after source, each in its own order.
pub proof fn lemma_replacement_is_collection(run: PlaylistRunView)
    requires
        run.well_formed(),
        run.stage is Replacing,
    ensures
        run.answers.len() == run.steps.len(),
        run.action() matches RunActionView::ReplaceContents { track_ids, .. } && collect(
            run.steps,
            run.answers,
        ) == Some(track_ids),
{
}

/// Once collection is over, no answer changes the collected list: the playlist and its
/// archive copy receive the same tracks.
pub proof fn lemma_collection_fixed_after_collecting(run: PlaylistRunView, ev: RunEventView)
    requires
        run.well_formed(),
        !(run.stage is Collecting),
        !(run.stage matches Stage::Opening(t) && t == 0),
    ensures
        run.after(ev).collected == run.collected,
        run.after(ev).answers == run.answers,
        run.after(ev).well_formed(),
{
    match run.stage {
        Stage::Opening(t) => {
            assert(t > 0);
        },
        Stage::Replacing(t) => {
            if t + 1 < run.targets.len() {
                assert(ev is Replaced ==> run.after(ev).stage == Stage::Opening((t + 1) as usize));
            }
        },
        _ => {},
    }
}

/// Each answer that fits moves the run forward and keeps its bookkeeping consistent; a
/// source adds exactly what it contributes to the end of the collected list.
pub proof fn lemma_answer_extends_collection(run: PlaylistRunView, ev: RunEventView)
    requires
        run.well_formed(),
        run.stage is Collecting,
        run.fits(ev),
    ensures
        run.after(ev).well_formed(),
        run.after(ev).stage is Failed <==> selection(run.steps[run.answers.len() as int], ev) is None,
        selection(run.steps[run.answers.len() as int], ev) matches Some(s) ==> run.after(
            ev,
        ).collected == run.collected + s,
{
    let k = run.answers.len();
    assert(run.answers.push(ev).drop_last() =~= run.answers);
    let next = run.after(ev);
    match selection(run.steps[k as int], ev) {
        Some(s) => {
            assert(next.answers == run.answers.push(ev));
            lemma_collect_push(run.steps, run.answers, ev, run.collected, s);
            assert(collect(run.steps, next.answers) == Some(run.collected + s));
            if k + 1 == run.steps.len() {
                assert(next.stage == Stage::Replacing(0));
            } else {
                assert(next.stage == Stage::Collecting((k + 1) as usize));
            }
        },
        None => {},
    }
}

/// While a run collects from a source, its request is for exactly that source: the track
/// search or the album with its criteria as given (name, artist, URI and filters), or the
/// artist's discography; once collection is over it asks to replace the contents with the
/// collected tracks.
pub proof fn lemma_request_is_the_source(run: PlaylistRunView)
    requires
        run.well_formed(),
    ensures
        run.stage matches Stage::Collecting(k) ==> match run.steps[k as int] {
            RunStepView::Track(c) => run.action() == RunActionView::SearchTrack(c),
            RunStepView::Album(c, _) => run.action() matches RunActionView::FetchAlbum(d) && d
                == c && d.album_name == c.album_name && d.artist == c.artist && d.uri == c.uri
                && d.filters == c.filters,
            RunStepView::Discography(a) => run.action() == RunActionView::FetchDiscography(a),
        },
        run.stage matches Stage::Replacing(_) ==> run.action() == (RunActionView::ReplaceContents {
            playlist_id: run.playlist_id,
            track_ids: run.collected,
        }),
{
}

/// A builder's sources are its albums, whole and in the order they were added, followed by
/// its artists' discographies in the order they were added.
pub proof fn lemma_builder_sources_in_order(
    albums: Seq<AlbumCriteriaView>,
    artists: Seq<Seq<char>>,
)
    ensures
        builder_steps(albums, artists).len() == albums.len() + artists.len(),
        forall|k: int|
            0 <= k < albums.len() ==> builder_steps(albums, artists)[k] == RunStepView::Album(
                #[trigger] albums[k],
                false,
            ),
        forall|j: int|
            0 <= j < artists.len() ==> builder_steps(albums, artists)[albums.len() + j]
                == RunStepView::Discography(#[trigger] artists[j]),
{
}

/// A description's sources are its expressions in order: each track as a track search, each
/// album with its filters applied.
pub proof fn lemma_creation_sources_in_order(values: Seq<SpotifyExprView>)
    ensures
        creation_steps(values).len() == values.len(),
        forall|k: int|
            0 <= k < values.len() ==> match #[trigger] values[k] {
                SpotifyExprView::Track(c) => creation_steps(values)[k] == RunStepView::Track(c),
                SpotifyExprView::Album(c) => creation_steps(values)[k] == RunStepView::Album(
                    c,
                    true,
                ),
            },
{
}

/// What an album source contributes when every track has an identifier: without filters
/// (or with filtering off) the identifiers of all its tracks, in album order; with filters,
/// the identifiers of exactly those tracks whose name some filter equals or is a prefix of,
/// in album order.
pub proof fn lemma_album_contribution(
    c: AlbumCriteriaView,
    use_filters: bool,
    ts: Seq<TrackInfoView>,
)
    requires
        forall|i: int| 0 <= i < ts.len() ==> (#[trigger] ts[i]).id is Some,
    ensures
        !use_filters || c.filters.len() == 0 ==> selection(
            RunStepView::Album(c, use_filters),
            RunEventView::AlbumFetched(ts),
        ) == Some(ts.map_values(|t: TrackInfoView| t.id.unwrap())),
        use_filters && c.filters.len() > 0 ==> selection(
            RunStepView::Album(c, use_filters),
            RunEventView::AlbumFetched(ts),
        ) == Some(
            ts.filter(
                |t: TrackInfoView|
                    exists|i: int|
                        0 <= i < c.filters.len() && #[trigger] c.filters[i].is_prefix_of(t.name),
            ).map_values(|t: TrackInfoView| t.id.unwrap()),
        ),
{
    crate::catalog::lemma_filtered_tracks_are_prefix_matches(c.filters, ts);
    if use_filters {
        let p = |t: TrackInfoView| crate::catalog::passes_filters(c.filters, t.name);
        let f = filtered_tracks(c.filters, ts);
        assert forall|j: int| 0 <= j < f.len() implies (#[trigger] f[j]).id is Some by {
            assert(f.contains(f[j]));
            ts.lemma_filter_contains_rev(p, f[j]);
        }
    }
}

/// When a run collects from an album source whose tracks all have identifiers, the answer
/// appends to the collected list the identifiers of the album's tracks in album order: all
/// of them when the album has no filter (or filtering is off), otherwise those whose name
/// some filter equals or is a prefix of.
pub proof fn lemma_album_answer_appends_tracks(run: PlaylistRunView, ts: Seq<TrackInfoView>)
    requires
        run.well_formed(),
        run.stage is Collecting,
        run.steps[run.stage->Collecting_0 as int] is Album,
        forall|i: int| 0 <= i < ts.len() ==> (#[trigger] ts[i]).id is Some,
    ensures
        ({
            let c = run.steps[run.stage->Collecting_0 as int]->Album_0;
            let use_filters = run.steps[run.stage->Collecting_0 as int]->Album_1;
            let next = run.after(RunEventView::AlbumFetched(ts));
            &&& !use_filters || c.filters.len() == 0 ==> next.collected == run.collected
                + ts.map_values(|t: TrackInfoView| t.id.unwrap())
                && next.collected.len() == run.collected.len() + ts.len()
            &&& use_filters && c.filters.len() > 0 ==> next.collected == run.collected + ts.filter(
                |t: TrackInfoView|
                    exists|i: int|
                        0 <= i < c.filters.len() && #[trigger] c.filters[i].is_prefix_of(t.name),
            ).map_values(|t: TrackInfoView| t.id.unwrap())
            &&& !(next.stage is Failed)
        }),
{
    let k = run.stage->Collecting_0;
    let c = run.steps[k as int]->Album_0;
    let use_filters = run.steps[k as int]->Album_1;
    lemma_album_contribution(c, use_filters, ts);
}

impl PlaylistCreation {
    /// The run that fills this playlist (and its archive copy, if asked for).
    pub fn start(&self) -> (r: PlaylistRun)
        ensures
            r@ == (PlaylistRunView {
                steps: creation_steps(self@.values),
                targets: creation_targets(self@.name, self@.description, self@.archive_to),
                stage: Stage::Opening(0),
                playlist_id: Seq::empty(),
                collected: Seq::empty(),
                answers: Seq::empty(),
            }),
            r@.well_formed(),
            r@.steps.len() == self@.values.len(),
            forall|k: int|
                0 <= k < self@.values.len() ==> match #[trigger] self@.values[k] {
                    SpotifyExprView::Track(c) => r@.steps[k] == RunStepView::Track(c),
                    SpotifyExprView::Album(c) => r@.steps[k] == RunStepView::Album(c, true),
                },
    {
        let values = self.values();
        let mut steps: Vec<RunStep> = Vec::new();
        let mut i: usize = 0;
        while i < values.len()
            invariant
                i <= values.len(),
                exprs_view(values@) == self@.values,
                steps_view(steps@) == creation_steps(self@.values).take(i as int),
            decreases values.len() - i,
        {
            let step = match &values[i] {
                SpotifyExpr::Track(c) => RunStep::Track(c.duplicate()),
                SpotifyExpr::Album(c) => RunStep::Album(c.duplicate(), true),
            };
            assert(step@ == creation_steps(self@.values)[i as int]);
            steps.push(step);
            assert(steps_view(steps@) =~= creation_steps(self@.values).take(i + 1));
            i = i + 1;
        }
        assert(creation_steps(self@.values).take(i as int) =~= creation_steps(self@.values));
        let mut targets: Vec<RunTarget> = Vec::new();
        targets.push(
            RunTarget { name: self.name().clone(), description: copy_opt_text(self.description()) },
        );
        match self.archive_to() {
            Some(a) => {
                targets.push(
                    RunTarget { name: a.clone(), description: copy_opt_text(self.description()) },
                );
            },
            None => {},
        }
        assert(targets_view(targets@) =~= creation_targets(
            self@.name,
            self@.description,
            self@.archive_to,
        ));
        proof {
            // Both lists fit in memory, so their lengths fit in a `usize`.
            assert(steps@.len() == steps.len() && targets@.len() == targets.len());
        }
        let r = PlaylistRun {
            steps,
            targets,
            stage: Stage::Opening(0),
            playlist_id: String::new(),
            collected: Vec::new(),
            answers: Ghost(Seq::empty()),
        };
        assert(texts_view(r.collected@) =~= Seq::<Seq<char>>::empty());
        r
    }
}

impl PlaylistBuilder {
    /// The run that fills the builder's playlist.
    pub fn start(&self) -> (r: PlaylistRun)
        ensures
            r@ == (PlaylistRunView {
                steps: builder_steps(self@.albums, self@.all_discography),
                targets: seq![RunTargetView { name: self@.name, description: None }],
                stage: Stage::Opening(0),
                playlist_id: Seq::empty(),
                collected: Seq::empty(),
                answers: Seq::empty(),
            }),
            r@.well_formed(),
            r@.steps.len() == self@.albums.len() + self@.all_discography.len(),
            forall|k: int|
                0 <= k < self@.albums.len() ==> r@.steps[k] == RunStepView::Album(
                    #[trigger] self@.albums[k],
                    false,
                ),
            forall|j: int|
                0 <= j < self@.all_discography.len() ==> r@.steps[self@.albums.len() + j]
                    == RunStepView::Discography(#[trigger] self@.all_discography[j]),
    {
        let albums = self.albums();
        let artists = self.all_discography();
        let ghost want = builder_steps(self@.albums, self@.all_discography);
        let mut steps: Vec<RunStep> = Vec::new();
        let mut i: usize = 0;
        while i < albums.len()
            invariant
                i <= albums.len(),
                crate::criteria::criteria_view(albums@) == self@.albums,
                want == builder_steps(self@.albums, self@.all_discography),
                steps_view(steps@) == want.take(i as int),
            decreases albums.len() - i,
        {
            let step = RunStep::Album(albums[i].duplicate(), false);
            assert(step@ == want[i as int]);
            steps.push(step);
            assert(steps_view(steps@) =~= want.take(i + 1));
            i = i + 1;
        }
        let n = albums.len();
        let mut j: usize = 0;
        while j < artists.len()
            invariant
                j <= artists.len(),
                n == albums@.len(),
                n == self@.albums.len(),
                texts_view(artists@) == self@.all_discography,
                want == builder_steps(self@.albums, self@.all_discography),
                steps_view(steps@) == want.take(n + j),
            decreases artists.len() - j,
        {
            let step = RunStep::Discography(artists[j].clone());
            assert(step@ == want[n + j]);
            steps.push(step);
            assert(steps_view(steps@) =~= want.take(n + j + 1));
            j = j + 1;
        }
        assert(want.take(n + j) =~= want);
        let mut targets: Vec<RunTarget> = Vec::new();
        targets.push(RunTarget { name: self.name().clone(), description: None });
        assert(targets_view(targets@) =~= seq![
            RunTargetView { name: self@.name, description: None },
        ]);
        proof {
            // Both lists fit in memory, so their lengths fit in a `usize`.
            assert(steps@.len() == steps.len() && targets@.len() == targets.len());
        }
        let r = PlaylistRun {
            steps,
            targets,
            stage: Stage::Opening(0),
            playlist_id: String::new(),
            collected: Vec::new(),
            answers: Ghost(Seq::empty()),
        };
        assert(texts_view(r.collected@) =~= Seq::<Seq<char>>::empty());
        r
    }
}

} // verus!
