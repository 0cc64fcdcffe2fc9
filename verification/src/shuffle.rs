use crate::random::shuffle_in_place;
use crate::seqs::{is_permutation, lemma_flatten_piece, lemma_permutation_flatten, lemma_permutation_map};
use vstd::seq_lib::lemma_flatten_concat;
use crate::text::same_text;
use vstd::prelude::*;

verus! {

broadcast use vstd::seq::Seq::lemma_push_map_commute;


/// What a track is, mathematically: its service identifier and its display name.
pub struct SpotifyTrackView {
    pub track_id: Seq<char>,
    pub name: Seq<char>,
}

/// A track known by its service identifier and its name.
#[derive(Clone, PartialEq, Eq, PartialOrd, Hash, Debug)]
pub struct SpotifyTrack {
    pub track_id: String,
    pub name: String,
}

impl View for SpotifyTrack {
    type V = SpotifyTrackView;

    open spec fn view(&self) -> SpotifyTrackView {
        SpotifyTrackView { track_id: self.track_id@, name: self.name@ }
    }
}

impl SpotifyTrack {
    /// Builds a track from its identifier and its name.
    pub fn new(track_id: &str, name: &str) -> (r: SpotifyTrack)
        ensures
            r@.track_id == track_id@,
            r@.name == name@,
    {
        SpotifyTrack { track_id: track_id.to_owned(), name: name.to_owned() }
    }

    /// Consumes the track and gives back its identifier.
    pub fn get_track_id(self) -> (r: String)
        ensures
            r@ == self@.track_id,
    {
        self.track_id
    }

    /// Consumes the track and gives back its name.
    pub fn get_name(self) -> (r: String)
        ensures
            r@ == self@.name,
    {
        self.name
    }

    /// A copy of the track with the same identifier and name.
    pub fn duplicate(&self) -> (r: SpotifyTrack)
        ensures
            r@ == self@,
    {
        SpotifyTrack { track_id: self.track_id.clone(), name: self.name.clone() }
    }
}


/// The mathematical form of a list of tracks.
pub open spec fn tracks_view(s: Seq<SpotifyTrack>) -> Seq<SpotifyTrackView> {
    s.map_values(|t: SpotifyTrack| t@)
}

/// The mathematical form of a list of groups of tracks.
pub open spec fn groups_view(s: Seq<Vec<SpotifyTrack>>) -> Seq<Seq<SpotifyTrackView>> {
    s.map_values(|g: Vec<SpotifyTrack>| tracks_view(g@))
}

/// The identifiers of a group of tracks, in order.
pub open spec fn group_ids(group: Seq<SpotifyTrackView>) -> Seq<Seq<char>> {
    group.map_values(|t: SpotifyTrackView| t.track_id)
}

/// The name-to-identifier map that a list of (name, identifier) pairs describes when the
/// pairs are entered in order, a later pair replacing an earlier one with the same name.
pub open spec fn names_map(pairs: Seq<(Seq<char>, Seq<char>)>) -> Map<Seq<char>, Seq<char>>
    decreases pairs.len(),
{
    if pairs.len() == 0 {
        Map::empty()
    } else {
        names_map(pairs.drop_last()).insert(pairs.last().0, pairs.last().1)
    }
}

/// What a recipe is: the loose tracks, the groups that must stay together, and the
/// name-to-identifier map that named groups are resolved through.
pub struct RecipeView {
    pub track_list: Seq<SpotifyTrackView>,
    pub groups: Seq<Seq<SpotifyTrackView>>,
    pub names: Map<Seq<char>, Seq<char>>,
}

impl RecipeView {
    /// The units that a shuffle moves around: each loose track on its own, then each group.
    pub open spec fn units(self) -> Seq<Seq<SpotifyTrackView>> {
        self.track_list.map_values(|t: SpotifyTrackView| seq![t]) + self.groups
    }

    /// Every track of the recipe: the loose ones, then those of each group in turn.
    pub open spec fn all_tracks(self) -> Seq<SpotifyTrackView> {
        self.track_list + self.groups.flatten()
    }

    /// `out` is one of the orders that a shuffle of this recipe can produce: the units
    /// laid end to end in some order.
    pub open spec fn is_shuffle(self, out: Seq<SpotifyTrackView>) -> bool {
        exists|order: Seq<Seq<SpotifyTrackView>>|
            #![trigger order.flatten()]
            is_permutation(order, self.units()) && out == order.flatten()
    }

    /// The recipe after `group` is added: loose tracks that the group holds (by identifier)
    /// leave the loose list, and the group is appended to the groups.
    pub open spec fn with_group(self, group: Seq<SpotifyTrackView>) -> RecipeView {
        RecipeView {
            track_list: self.track_list.filter(
                |t: SpotifyTrackView| !group_ids(group).contains(t.track_id),
            ),
            groups: self.groups.push(group),
            names: self.names,
        }
    }
}

/// One unit of a shuffle: a loose track, or a whole group that moves as one block.
#[derive(Clone, Copy)]
pub enum Unit<'a> {
    Track(&'a SpotifyTrack),
    Group(&'a [SpotifyTrack]),
}

impl<'a> Unit<'a> {
    /// The tracks that this unit contributes, in order.
    pub open spec fn tracks(self) -> Seq<SpotifyTrackView> {
        match self {
            Unit::Track(t) => seq![t@],
            Unit::Group(g) => tracks_view(g@),
        }
    }
}

/// A set of tracks to be shuffled, some of which are grouped so that they always play
/// together and in their given order.
#[derive(Clone, Debug)]
pub struct Recipe {
    track_list: Vec<SpotifyTrack>,
    groups: Vec<Vec<SpotifyTrack>>,
    map: Vec<(String, String)>,
}

impl View for Recipe {
    type V = RecipeView;

    closed spec fn view(&self) -> RecipeView {
        RecipeView {
            track_list: tracks_view(self.track_list@),
            groups: groups_view(self.groups@),
            names: names_map(self.map@.map_values(|p: (String, String)| p@)),
        }
    }
}

/// If the pair at `i` is the last one with name `k`, the map sends `k` to its identifier.
proof fn lemma_names_map_last(pairs: Seq<(Seq<char>, Seq<char>)>, i: int, k: Seq<char>)
    requires
        0 <= i < pairs.len(),
        pairs[i].0 == k,
        forall|j: int| i < j < pairs.len() ==> pairs[j].0 != k,
    ensures
        names_map(pairs).contains_key(k),
        names_map(pairs)[k] == pairs[i].1,
    decreases pairs.len(),
{
    if i < pairs.len() - 1 {
        lemma_names_map_last(pairs.drop_last(), i, k);
    }
}

/// A name that no pair carries is not in the map.
proof fn lemma_names_map_absent(pairs: Seq<(Seq<char>, Seq<char>)>, k: Seq<char>)
    requires
        forall|j: int| 0 <= j < pairs.len() ==> pairs[j].0 != k,
    ensures
        !names_map(pairs).contains_key(k),
    decreases pairs.len(),
{
    if pairs.len() > 0 {
        lemma_names_map_absent(pairs.drop_last(), k);
    }
}

/// Whether a group holds a track with identifier `id`.
fn group_has_id(group: &Vec<SpotifyTrack>, id: &String) -> (r: bool)
    ensures
        r == group_ids(tracks_view(group@)).contains(id@),
{
    let ghost ids = group_ids(tracks_view(group@));
    let mut i: usize = 0;
    while i < group.len()
        invariant
            i <= group.len(),
            ids == group_ids(tracks_view(group@)),
            ids.len() == group.len(),
            forall|j: int| 0 <= j < i ==> ids[j] != id@,
        decreases group.len() - i,
    {
        if group[i].track_id == *id {
            assert(ids[i as int] == id@);
            return true;
        }
        i = i + 1;
    }
    false
}

impl Recipe {
    /// A recipe over `track_list`, with no groups yet; `map` lists (name, identifier) pairs,
    /// a later pair replacing an earlier one with the same name.
    pub fn new(track_list: Vec<SpotifyTrack>, map: Vec<(String, String)>) -> (r: Recipe)
        ensures
            r@.track_list == tracks_view(track_list@),
            r@.groups == Seq::<Seq<SpotifyTrackView>>::empty(),
            r@.names == names_map(map@.map_values(|p: (String, String)| p@)),
    {
        let r = Recipe { track_list, groups: Vec::new(), map };
        assert(groups_view(r.groups@) =~= Seq::<Seq<SpotifyTrackView>>::empty());
        r
    }

    /// Where the identifier for `name` sits in the pair list: the last pair with that name.
    fn find_name(&self, name: &str) -> (r: Option<usize>)
        ensures
            r is None <==> !self@.names.contains_key(name@),
            r matches Some(i) ==> i < self.map@.len() && self@.names[name@] == self.map@[i as int].1@,
    {
        let ghost pairs = self.map@.map_values(|p: (String, String)| p@);
        let mut i: usize = self.map.len();
        while i > 0
            invariant
                i <= self.map@.len(),
                pairs == self.map@.map_values(|p: (String, String)| p@),
                forall|j: int| i <= j < self.map@.len() ==> pairs[j].0 != name@,
            decreases i,
        {
            i = i - 1;
            if same_text(self.map[i].0.as_str(), name) {
                proof {
                    lemma_names_map_last(pairs, i as int, name@);
                }
                return Some(i);
            }
        }
        proof {
            lemma_names_map_absent(pairs, name@);
        }
        None
    }

    /// Adds `group` to the groups and drops from the loose tracks every track whose
    /// identifier the group holds, keeping the others in order.
    fn insert_group(&mut self, group: Vec<SpotifyTrack>)
        ensures
            final(self)@ == old(self)@.with_group(tracks_view(group@)),
    {
        let ghost gv = tracks_view(group@);
        let ghost pred = |t: SpotifyTrackView| !group_ids(gv).contains(t.track_id);
        let ghost old_list = tracks_view(self.track_list@);
        let mut kept: Vec<SpotifyTrack> = Vec::new();
        let mut i: usize = 0;
        while i < self.track_list.len()
            invariant
                i <= self.track_list.len(),
                old_list == tracks_view(self.track_list@),
                gv == tracks_view(group@),
                pred == (|t: SpotifyTrackView| !group_ids(gv).contains(t.track_id)),
                tracks_view(kept@) == old_list.take(i as int).filter(pred),
            decreases self.track_list.len() - i,
        {
            let t = &self.track_list[i];
            let present = group_has_id(&group, &t.track_id);
            proof {
                assert(old_list.take(i + 1) =~= old_list.take(i as int).push(old_list[i as int]));
                old_list.take(i as int).lemma_filter_push(old_list[i as int], pred);
            }
            if !present {
                let d = t.duplicate();
                kept.push(d);
                assert(tracks_view(kept@) =~= old_list.take(i as int).filter(pred).push(d@));
            } else {
                assert(tracks_view(kept@) =~= old_list.take(i as int).filter(pred));
            }
            i = i + 1;
        }
        assert(old_list.take(i as int) =~= old_list);
        self.track_list = kept;
        self.groups.push(group);
        assert(groups_view(self.groups@) =~= groups_view(old(self).groups@).push(gv));
    }

    /// Adds a group of tracks that must play together: loose tracks with an identifier
    /// that the group holds are removed, and the group is appended.
    pub fn add_group(&mut self, group: Vec<SpotifyTrack>) -> (r: &mut Self)
        ensures
            (*r)@ == old(self)@.with_group(tracks_view(group@)),
            *final(self) == *final(r),
    {
        self.insert_group(group);
        self
    }

    /// Adds a group given by track names, each resolved to its identifier through the
    /// recipe's name map; otherwise as [`Recipe::add_group`].
    pub fn add_group_by_name(&mut self, group: Vec<&str>) -> (r: &mut Self)
        requires
            forall|i: int| 0 <= i < group@.len() ==> old(self)@.names.contains_key(#[trigger] group@[i]@),
        ensures
            (*r)@ == old(self)@.with_group(
                group@.map_values(
                    |name: &str| SpotifyTrackView { track_id: old(self)@.names[name@], name: name@ },
                ),
            ),
            *final(self) == *final(r),
    {
        let ghost names = self@.names;
        let ghost want = group@.map_values(
            |name: &str| SpotifyTrackView { track_id: names[name@], name: name@ },
        );
        let mut tracks: Vec<SpotifyTrack> = Vec::new();
        let mut i: usize = 0;
        while i < group.len()
            invariant
                i <= group.len(),
                names == self@.names,
                want == group@.map_values(
                    |name: &str| SpotifyTrackView { track_id: names[name@], name: name@ },
                ),
                forall|j: int| 0 <= j < group@.len() ==> names.contains_key(#[trigger] group@[j]@),
                tracks_view(tracks@) == want.take(i as int),
            decreases group.len() - i,
        {
            let name: &str = group[i];
            assert(names.contains_key(group@[i as int]@));
            match self.find_name(name) {
                Some(k) => {
                    let t = SpotifyTrack::new(self.map[k].1.as_str(), name);
                    assert(t@ == want[i as int]);
                    let ghost prev = tracks@;
                    tracks.push(t);
                    assert(tracks@ == prev.push(t));
                    assert(tracks_view(tracks@) =~= want.take(i + 1));
                },
                None => {
                    assert(false);
                },
            }
            i = i + 1;
        }
        assert(want.take(i as int) =~= want);
        self.insert_group(tracks);
        self
    }

    /// The tracks in a random order in which each loose track and each group is one unit:
    /// the units are put in some order, and each group's tracks come out together and in
    /// their own order.
    pub fn shuffle(&self) -> (r: Vec<SpotifyTrack>)
        ensures
            self@.is_shuffle(tracks_view(r@)),
    {
        let ghost units = self@.units();
        let ghost n = self.track_list@.len();
        let mut unit_list: Vec<Unit> = Vec::new();
        let mut i: usize = 0;
        while i < self.track_list.len()
            invariant
                i <= self.track_list.len(),
                units == self@.units(),
                n == self.track_list@.len(),
                unit_list@.map_values(|u: Unit| u.tracks()) == units.take(i as int),
            decreases self.track_list.len() - i,
        {
            let u = Unit::Track(&self.track_list[i]);
            let ghost prev = unit_list@;
            unit_list.push(u);
            assert(unit_list@ == prev.push(u));
            assert(units[i as int] == seq![self.track_list@[i as int]@]);
            assert(u.tracks() == units[i as int]);
            assert(unit_list@.map_values(|u: Unit| u.tracks()) =~= units.take(i + 1));
            i = i + 1;
        }
        let mut j: usize = 0;
        while j < self.groups.len()
            invariant
                j <= self.groups.len(),
                units == self@.units(),
                n == self.track_list@.len(),
                units.len() == n + self.groups@.len(),
                unit_list@.map_values(|u: Unit| u.tracks()) == units.take(n + j),
            decreases self.groups.len() - j,
        {
            let u = Unit::Group(self.groups[j].as_slice());
            let ghost prev = unit_list@;
            unit_list.push(u);
            assert(unit_list@ == prev.push(u));
            assert(units[n + j] == tracks_view(self.groups@[j as int]@));
            assert(u.tracks() == units[n + j]);
            assert(unit_list@.map_values(|u: Unit| u.tracks()) =~= units.take(n + j + 1));
            j = j + 1;
        }
        assert(units.take(n + j) =~= units);
        let ghost before = unit_list@;
        shuffle_in_place(&mut unit_list);
        let ghost order = unit_list@.map_values(|u: Unit| u.tracks());
        proof {
            lemma_permutation_map(unit_list@, before, |u: Unit| u.tracks());
        }
        let mut out: Vec<SpotifyTrack> = Vec::new();
        let mut k: usize = 0;
        while k < unit_list.len()
            invariant
                k <= unit_list.len(),
                order == unit_list@.map_values(|u: Unit| u.tracks()),
                tracks_view(out@) == order.take(k as int).flatten(),
            decreases unit_list.len() - k,
        {
            let u = unit_list[k];
            let ghost start = tracks_view(out@);
            match u {
                Unit::Track(t) => {
                    out.push(t.duplicate());
                    assert(tracks_view(out@) =~= start + u.tracks());
                },
                Unit::Group(g) => {
                    let mut m: usize = 0;
                    while m < g.len()
                        invariant
                            m <= g@.len(),
                            u == Unit::Group(g),
                            tracks_view(out@) == start + tracks_view(g@.take(m as int)),
                        decreases g@.len() - m,
                    {
                        let d = g[m].duplicate();
                        let ghost prev = out@;
                        out.push(d);
                        assert(out@ == prev.push(d));
                        assert(d@ == g@[m as int]@);
                        assert(g@.take(m + 1) == g@.take(m as int).push(g@[m as int]));
                        assert(tracks_view(g@.take(m + 1)) =~= tracks_view(g@.take(m as int)).push(
                            d@,
                        ));
                        assert(tracks_view(out@) =~= start + tracks_view(g@.take(m + 1)));
                        m = m + 1;
                    }
                    assert(g@.take(m as int) =~= g@);
                },
            }
            proof {
                assert(order.take(k + 1) =~= order.take(k as int).push(order[k as int]));
                order.take(k as int).lemma_flatten_push(order[k as int]);
            }
            k = k + 1;
        }
        assert(order.take(k as int) =~= order);
        assert(is_permutation(order, units) && tracks_view(out@) == order.flatten());
        out
    }
}

/// Laying single tracks end to end gives the tracks back.
proof fn lemma_flatten_singletons(s: Seq<SpotifyTrackView>)
    ensures
        s.map_values(|t: SpotifyTrackView| seq![t]).flatten() == s,
    decreases s.len(),
{
    let m = s.map_values(|t: SpotifyTrackView| seq![t]);
    if s.len() > 0 {
        lemma_flatten_singletons(s.drop_last());
        assert(m =~= s.drop_last().map_values(|t: SpotifyTrackView| seq![t]).push(seq![s.last()]));
        s.drop_last().map_values(|t: SpotifyTrackView| seq![t]).lemma_flatten_push(seq![s.last()]);
        assert(s =~= s.drop_last().push(s.last()));
    } else {
        assert(m =~= Seq::<Seq<SpotifyTrackView>>::empty());
    }
}

/// A shuffle loses no track and adds none: its result holds exactly the recipe's loose
/// tracks and grouped tracks, each as often as the recipe does.
pub proof fn lemma_shuffle_keeps_every_track(recipe: RecipeView, out: Seq<SpotifyTrackView>)
    requires
        recipe.is_shuffle(out),
    ensures
        is_permutation(out, recipe.all_tracks()),
        out.len() == recipe.track_list.len() + recipe.groups.flatten().len(),
{
    let order = choose|order: Seq<Seq<SpotifyTrackView>>|
        #![trigger order.flatten()]
        is_permutation(order, recipe.units()) && out == order.flatten();
    lemma_permutation_flatten(order, recipe.units());
    let singles = recipe.track_list.map_values(|t: SpotifyTrackView| seq![t]);
    lemma_flatten_concat(singles, recipe.groups);
    lemma_flatten_singletons(recipe.track_list);
    assert(recipe.units().flatten() == recipe.all_tracks());
    vstd::seq_lib::to_multiset_len(out);
    vstd::seq_lib::to_multiset_len(recipe.all_tracks());
}

/// A shuffle never splits a group: each group's tracks come out next to each other and in
/// the group's own order.
pub proof fn lemma_shuffle_keeps_groups_together(
    recipe: RecipeView,
    out: Seq<SpotifyTrackView>,
    k: int,
)
    requires
        recipe.is_shuffle(out),
        0 <= k < recipe.groups.len(),
    ensures
        exists|start: int|
            0 <= start && start + recipe.groups[k].len() <= out.len() && #[trigger] out.subrange(
                start,
                start + recipe.groups[k].len(),
            ) == recipe.groups[k],
{
    broadcast use vstd::seq_lib::group_to_multiset_ensures;

    let order = choose|order: Seq<Seq<SpotifyTrackView>>|
        #![trigger order.flatten()]
        is_permutation(order, recipe.units()) && out == order.flatten();
    let g = recipe.groups[k];
    let n = recipe.track_list.len();
    assert(recipe.units()[n + k] == g);
    assert(recipe.units().contains(g));
    assert(recipe.units().to_multiset().count(g) > 0);
    assert(order.contains(g));
    let j = choose|j: int| 0 <= j < order.len() && order[j] == g;
    lemma_flatten_piece(order, j);
    let start = order.take(j).flatten().len() as int;
    let a = order.take(j);
    let b = order.skip(j + 1);
    assert(order =~= a + seq![g] + b);
    lemma_flatten_concat(a + seq![g], b);
    lemma_flatten_concat(a, seq![g]);
    seq![g].lemma_flatten_one_element();
    assert(out.subrange(start, start + g.len()) == g);
}

/// After a group is added, no loose track shares an identifier with the group, and every
/// loose track that the group does not name stays loose, in its old order.
pub proof fn lemma_add_group_separates(recipe: RecipeView, group: Seq<SpotifyTrackView>)
    ensures
        forall|i: int|
            0 <= i < recipe.with_group(group).track_list.len() ==> !group_ids(group).contains(
                #[trigger] recipe.with_group(group).track_list[i].track_id,
            ),
        forall|t: SpotifyTrackView|
            recipe.track_list.contains(t) && !group_ids(group).contains(t.track_id)
                ==> #[trigger] recipe.with_group(group).track_list.contains(t),
        recipe.with_group(group).groups.last() == group,
{
    broadcast use vstd::seq_lib::group_filter_ensures;

    let pred = |t: SpotifyTrackView| !group_ids(group).contains(t.track_id);
    assert forall|i: int|
        0 <= i < recipe.with_group(group).track_list.len() implies !group_ids(group).contains(
        #[trigger] recipe.with_group(group).track_list[i].track_id,
    ) by {
        recipe.track_list.lemma_filter_pred(pred, i);
    }
    assert forall|t: SpotifyTrackView|
        recipe.track_list.contains(t) && !group_ids(group).contains(
            t.track_id,
        ) implies #[trigger] recipe.with_group(group).track_list.contains(t) by {
        let i = choose|i: int| 0 <= i < recipe.track_list.len() && recipe.track_list[i] == t;
        recipe.track_list.lemma_filter_contains(pred, i);
    }
}

} // verus!
