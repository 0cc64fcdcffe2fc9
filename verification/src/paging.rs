use vstd::prelude::*;

verus! {

/// How many items one page request asks the service for.
pub const PAGE_LIMIT: u32 = 50;

/// How many tracks one playlist edit may carry.
pub const PLAYLIST_EDIT_LIMIT: usize = 100;

/// How many albums one album lookup may name.
pub const ALBUM_LOOKUP_LIMIT: usize = 20;

/// The state of a walk through a paged listing: the window asked for next, how many
/// full pages lie behind it, and whether the listing has been read to its end.
pub struct PagerView {
    pub limit: u32,
    pub offset: u32,
    pub pages_read: nat,
    pub finished: bool,
}

/// Walks a paged listing window by window, `PAGE_LIMIT` items at a time, until the service
/// reports that no page follows.
pub struct Pager {
    limit: u32,
    offset: u32,
    pages_read: Ghost<nat>,
    finished: bool,
}

impl View for Pager {
    type V = PagerView;

    closed spec fn view(&self) -> PagerView {
        PagerView {
            limit: self.limit,
            offset: self.offset,
            pages_read: self.pages_read@,
            finished: self.finished,
        }
    }
}

impl Pager {
    /// The pager's windows never overlap nor leave a gap: the next one starts right after
    /// the pages already read.
    pub closed spec fn well_formed(&self) -> bool {
        &&& self.limit == PAGE_LIMIT
        &&& self.offset == self.pages_read@ * (PAGE_LIMIT as int)
    }

    /// A walk from the start of the listing.
    pub fn new() -> (r: Pager)
        ensures
            r.well_formed(),
            r@ == (PagerView { limit: PAGE_LIMIT, offset: 0, pages_read: 0, finished: false }),
    {
        Pager { limit: PAGE_LIMIT, offset: 0, pages_read: Ghost(0), finished: false }
    }

    /// The window to ask for next: (limit, offset).
    pub fn request(&self) -> (r: (u32, u32))
        requires
            self.well_formed(),
        ensures
            r == (self@.limit, self@.offset),
            r.1 == self@.pages_read * (PAGE_LIMIT as int),
    {
        (self.limit, self.offset)
    }

    /// Whether the listing has been read to its end.
    pub fn is_finished(&self) -> (r: bool)
        ensures
            r == self@.finished,
    {
        self.finished
    }

    /// Whether another window fits in the offsets that the service takes.
    pub fn can_advance(&self) -> (r: bool)
        ensures
            r == (self@.offset + self@.limit <= u32::MAX),
    {
        self.offset <= u32::MAX - self.limit
    }

    /// Records that the window asked for has been read; `has_next` says whether the
    /// service reported a page after it. Without one the walk is over; with one, the next
    /// window starts where this one ended.
    pub fn record_page(&mut self, has_next: bool)
        requires
            old(self).well_formed(),
            !old(self)@.finished,
            has_next ==> old(self)@.offset + old(self)@.limit <= u32::MAX,
        ensures
            final(self).well_formed(),
            final(self)@.limit == old(self)@.limit,
            has_next ==> final(self)@ == (PagerView {
                offset: (old(self)@.offset + old(self)@.limit) as u32,
                pages_read: old(self)@.pages_read + 1,
                ..old(self)@
            }),
            !has_next ==> final(self)@ == (PagerView { finished: true, ..old(self)@ }),
    {
        if has_next {
            self.offset = self.offset + self.limit;
            self.pages_read = Ghost(self.pages_read@ + 1);
        } else {
            self.finished = true;
        }
    }
}

/// Where `wanted` first appears in `names`, if it does.
pub fn first_named(names: &Vec<String>, wanted: &String) -> (r: Option<usize>)
    ensures
        r is None ==> forall|j: int| 0 <= j < names@.len() ==> names@[j]@ != wanted@,
        r matches Some(i) ==> i < names@.len() && names@[i as int]@ == wanted@ && forall|j: int|
            0 <= j < i ==> names@[j]@ != wanted@,
{
    let mut i: usize = 0;
    while i < names.len()
        invariant
            i <= names.len(),
            forall|j: int| 0 <= j < i ==> names@[j]@ != wanted@,
        decreases names.len() - i,
    {
        if names[i] == *wanted {
            return Some(i);
        }
        i = i + 1;
    }
    None
}

/// `r` cuts the positions `0..len` into consecutive, non-empty windows of `size`
/// positions, the last of which may be shorter: each window is a (start, end) pair.
pub open spec fn is_batching(r: Seq<(usize, usize)>, len: nat, size: nat) -> bool {
    &&& (r.len() == 0 <==> len == 0)
    &&& r.len() > 0 ==> r[0].0 == 0 && r.last().1 == len
    &&& forall|k: int| 0 <= k < r.len() - 1 ==> #[trigger] r[k].1 == r[k + 1].0
    &&& forall|k: int| 0 <= k < r.len() - 1 ==> #[trigger] r[k].1 - r[k].0 == size
    &&& forall|k: int| 0 <= k < r.len() ==> 0 < #[trigger] r[k].1 - r[k].0 <= size
}

/// Cuts the positions `0..len` into consecutive windows of `size` positions (the last one
/// possibly shorter), as the chunks of a slice are cut.
pub fn batches(len: usize, size: usize) -> (r: Vec<(usize, usize)>)
    requires
        size > 0,
    ensures
        is_batching(r@, len as nat, size as nat),
{
    let mut r: Vec<(usize, usize)> = Vec::new();
    let mut start: usize = 0;
    while start < len
        invariant
            start <= len,
            size > 0,
            r@.len() == 0 ==> start == 0,
            r@.len() > 0 ==> r@[0].0 == 0 && r@.last().1 == start,
            forall|k: int| 0 <= k < r@.len() - 1 ==> #[trigger] r@[k].1 == r@[k + 1].0,
            forall|k: int| 0 <= k < r@.len() - 1 ==> #[trigger] r@[k].1 - r@[k].0 == size,
            forall|k: int| 0 <= k < r@.len() ==> 0 < #[trigger] r@[k].1 - r@[k].0 <= size,
            forall|k: int| 0 <= k < r@.len() - 1 ==> #[trigger] r@[k].1 - r@[k].0 == size,
            r@.len() > 0 && start < len ==> r@.last().1 - r@.last().0 == size,
        decreases len - start,
    {
        let end = if len - start > size {
            start + size
        } else {
            len
        };
        r.push((start, end));
        start = end;
    }
    r
}

/// The texts present in a list of optional texts, in order.
pub open spec fn present(s: Seq<Option<String>>) -> Seq<Seq<char>> {
    s.filter_map(|o: Option<String>| match o {
        Some(t) => Some(t@),
        None => None,
    })
}

/// The album identifiers to look up, batch by batch: the list of albums is cut into windows
/// of `ALBUM_LOOKUP_LIMIT`, and each batch holds the identifiers present in its window.
pub fn album_lookup_batches(ids: &Vec<Option<String>>) -> (r: Vec<Vec<String>>)
    ensures
        exists|w: Seq<(usize, usize)>|
            #![trigger is_batching(w, ids@.len(), ALBUM_LOOKUP_LIMIT as nat)]
            is_batching(w, ids@.len(), ALBUM_LOOKUP_LIMIT as nat) && r@.len() == w.len() && forall|
                k: int,
            |
                0 <= k < w.len() ==> (#[trigger] r@[k])@.map_values(|t: String| t@) == present(
                    ids@.subrange(w[k].0 as int, w[k].1 as int),
                ),
{
    let w = batches(ids.len(), ALBUM_LOOKUP_LIMIT);
    let mut r: Vec<Vec<String>> = Vec::new();
    let mut k: usize = 0;
    while k < w.len()
        invariant
            k <= w@.len(),
            is_batching(w@, ids@.len(), ALBUM_LOOKUP_LIMIT as nat),
            r@.len() == k,
            forall|m: int|
                0 <= m < k ==> (#[trigger] r@[m])@.map_values(|t: String| t@) == present(
                    ids@.subrange(w@[m].0 as int, w@[m].1 as int),
                ),
        decreases w@.len() - k,
    {
        let (start, end) = w[k];
        proof {
            if k < w@.len() - 1 {
                crate::paging::lemma_batching_ordered(w@, ids@.len(), ALBUM_LOOKUP_LIMIT as nat, k as int, w@.len() - 1);
            }
            assert(end <= ids@.len());
        }
        let ghost window = ids@.subrange(start as int, end as int);
        let ghost f = |o: Option<String>| match o {
            Some(t) => Some(t@),
            None => None,
        };
        let mut batch: Vec<String> = Vec::new();
        let mut i: usize = start;
        while i < end
            invariant
                start <= i <= end,
                end <= ids@.len(),
                window == ids@.subrange(start as int, end as int),
                f == (|o: Option<String>| match o {
                    Some(t) => Some(t@),
                    None => None,
                }),
                batch@.map_values(|t: String| t@) == window.take(i - start).filter_map(f),
            decreases end - i,
        {
            proof {
                window.lemma_filter_map_take_succ(f, i - start);
                assert(window[i - start] == ids@[i as int]);
            }
            match &ids[i] {
                Some(t) => {
                    let ghost prev = batch@;
                    batch.push(t.clone());
                    assert(batch@.map_values(|t: String| t@) =~= prev.map_values(|t: String| t@)
                        + seq![t@]);
                },
                None => {
                    assert(window.take(i + 1 - start).filter_map(f) =~= window.take(
                        i - start,
                    ).filter_map(f));
                },
            }
            i = i + 1;
        }
        assert(window.take(end - start) =~= window);
        r.push(batch);
        k = k + 1;
    }
    r
}

/// How a playlist's contents are replaced: in one edit when the new list fits in one,
/// otherwise by emptying the playlist and adding the list window by window.
pub enum ReplacePlan {
    Whole,
    Chunks(Vec<(usize, usize)>),
}

/// The edits that replace a playlist's contents with a list of `len` tracks.
pub fn replace_plan(len: usize) -> (r: ReplacePlan)
    ensures
        len <= PLAYLIST_EDIT_LIMIT ==> r is Whole,
        len > PLAYLIST_EDIT_LIMIT ==> (r matches ReplacePlan::Chunks(c) && is_batching(
            c@,
            len as nat,
            PLAYLIST_EDIT_LIMIT as nat,
        )),
{
    if len <= PLAYLIST_EDIT_LIMIT {
        ReplacePlan::Whole
    } else {
        ReplacePlan::Chunks(batches(len, PLAYLIST_EDIT_LIMIT))
    }
}

/// Windows of a batching lie in order, end to end, inside `0..len`; together they cover
/// every position exactly once.
pub proof fn lemma_batching_covers(r: Seq<(usize, usize)>, len: nat, size: nat, p: int)
    requires
        is_batching(r, len, size),
        0 <= p < len,
    ensures
        exists|k: int| 0 <= k < r.len() && #[trigger] r[k].0 <= p < r[k].1,
        forall|k: int, m: int|
            0 <= k < m < r.len() ==> #[trigger] r[k].1 <= #[trigger] r[m].0,
{
    assert forall|k: int, m: int| 0 <= k < m < r.len() implies #[trigger] r[k].1
        <= #[trigger] r[m].0 by {
        lemma_batching_ordered(r, len, size, k, m);
    }
    lemma_batching_find(r, len, size, p, r.len() - 1);
}

/// Later windows start no earlier than earlier ones end.
proof fn lemma_batching_ordered(r: Seq<(usize, usize)>, len: nat, size: nat, k: int, m: int)
    requires
        is_batching(r, len, size),
        0 <= k < m < r.len(),
    ensures
        r[k].1 <= r[m].0,
    decreases m - k,
{
    if m > k + 1 {
        lemma_batching_ordered(r, len, size, k, m - 1);
        assert(r[m - 1].1 == r[m].0);
    }
}

/// A position before the end of window `k` lies in one of the windows `0..=k`.
proof fn lemma_batching_find(r: Seq<(usize, usize)>, len: nat, size: nat, p: int, k: int)
    requires
        is_batching(r, len, size),
        0 <= k < r.len(),
        0 <= p < r[k].1,
    ensures
        exists|j: int| 0 <= j <= k && #[trigger] r[j].0 <= p < r[j].1,
    decreases k,
{
    if p >= r[k].0 {
        assert(r[k].0 <= p < r[k].1);
    } else {
        assert(k > 0);
        assert(r[k - 1].1 == r[k].0);
        lemma_batching_find(r, len, size, p, k - 1);
    }
}

} // verus!
