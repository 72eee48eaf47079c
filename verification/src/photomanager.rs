//! The pool of candidate wallpapers: which photo is shown, when the next one
//! is due, and how the pool is filled again from the feeds.

use crate::calendar::{day_before, day_text, local_today, Date};
use crate::clock::{due, is_due, moment, nanos_since};
use crate::endpoints::{
    catalogue_query, catalogue_url, daily_query, daily_url, rover_query, rover_url,
};
use crate::feeds::{
    catalogue_hrefs, catalogue_links, catalogue_photo, daily_gallery, daily_photos,
    manifest_address, manifest_photo, manifest_url, rover_gallery, rover_photos, texts,
};
use crate::json::Json;
use crate::photo::{gallery, lemma_gallery_add, lemma_gallery_push, Photo, PhotoView};
use crate::rotation::{
    lemma_stepped_in_range, lemma_stepped_moves, step_back, step_forward, stepped, stepped_back,
    wrapped,
};
use std::time::Instant;
use vstd::arithmetic::div_mod::{lemma_mod_bound, lemma_mod_twice, lemma_small_mod};
use vstd::prelude::*;
use vstd::string::StringExecFns;

verus! {

/// How the desktop lays a wallpaper out.
#[derive(Debug, Clone, Copy, PartialEq, Eq, Structural)]
pub enum WallpaperMode {
    Center,
    Crop,
    Fit,
    Span,
    Stretch,
    Tile,
}

/// A wallpaper for the desktop to take: the image at `url`, laid out as
/// `mode` says.
#[derive(Debug, PartialEq, Eq)]
pub struct WallpaperChange {
    pub url: String,
    pub mode: WallpaperMode,
}

/// What a refresh of the pool is waiting for.
#[derive(Debug, Clone, Copy, PartialEq, Eq, Structural)]
pub enum Stage {
    /// No refresh is under way.
    Idle,
    /// The reply of the rover feed.
    Rover,
    /// The reply of the picture-of-the-day feed.
    Daily,
    /// The reply of the image catalogue.
    Catalogue,
    /// The manifest of one of the catalogue's items.
    Manifest,
}

/// How a refresh goes on after a reply.
#[derive(Debug, PartialEq, Eq)]
pub enum Progress {
    /// The reply of this address is wanted next.
    Fetch(String),
    /// The pool is filled; the refresh is over.
    Done,
    /// The reply could not be used, or none was awaited; the refresh is
    /// given up.
    Failed,
}

/// A refresh's progress, the address by its characters.
pub enum ProgressView {
    Fetch(Seq<char>),
    Done,
    Failed,
}

impl View for Progress {
    type V = ProgressView;

    open spec fn view(&self) -> ProgressView {
        match self {
            Progress::Fetch(url) => ProgressView::Fetch(url@),
            Progress::Done => ProgressView::Done,
            Progress::Failed => ProgressView::Failed,
        }
    }
}

/// An address that may be there, by its characters.
pub open spec fn address(url: Option<String>) -> Option<Seq<char>> {
    match url {
        Some(url) => Some(url@),
        None => None,
    }
}

/// The photo manager as plain values. Times are in nanoseconds since the
/// manager was made.
pub struct ManagerView {
    /// The pool, in order.
    pub photos: Seq<PhotoView>,
    /// The index of the photo on show.
    pub current: int,
    /// The time after which another photo is due.
    pub interval: int,
    /// The time after which another refresh is due.
    pub refresh_interval: int,
    /// When the last refresh was begun because it was due.
    pub last_refresh: int,
    /// When the photo on show last changed.
    pub last_change: int,
    /// The key that is sent with the queries.
    pub api_key: Seq<char>,
    /// What the refresh under way is waiting for.
    pub stage: Stage,
    /// The day on which the refresh under way was begun.
    pub today: Date,
    /// How many days before that day the rover's photos are asked for.
    pub offset: int,
    /// Whether the rover feed had photos in this refresh.
    pub found: bool,
    /// The links of the catalogue's items in this round.
    pub links: Seq<Seq<char>>,
    /// The photos of the items' manifests taken so far in this round.
    pub fetched: Seq<PhotoView>,
}

impl ManagerView {
    /// The index of the photo on show lies in the pool; with an empty pool
    /// it is 0.
    pub open spec fn in_range(self) -> bool {
        if self.photos.len() == 0 {
            self.current == 0
        } else {
            0 <= self.current < self.photos.len()
        }
    }

    /// The manager after a step of `step` places at time `now`: an empty
    /// pool leaves it as it is.
    pub open spec fn advanced(self, step: int, now: int) -> ManagerView {
        if self.photos.len() == 0 {
            self
        } else {
            ManagerView {
                current: stepped(self.current, step, self.photos.len() as int),
                last_change: now,
                ..self
            }
        }
    }

    /// The manager after one step back at time `now`: an empty pool leaves
    /// it as it is.
    pub open spec fn retreated(self, now: int) -> ManagerView {
        if self.photos.len() == 0 {
            self
        } else {
            ManagerView {
                current: stepped_back(self.current, self.photos.len() as int),
                last_change: now,
                ..self
            }
        }
    }

    /// `after` is this manager after a step at time `now` by some number of
    /// places below the pool's length; with an empty pool, this manager
    /// itself.
    pub open spec fn steps_to(self, after: ManagerView, now: int) -> bool {
        if self.photos.len() == 0 {
            after == self
        } else {
            exists|step: int|
                0 <= step < self.photos.len() && after == #[trigger] self.advanced(step, now)
        }
    }

    /// More than the interval has passed at `now` since the last change.
    pub open spec fn change_due(self, now: int) -> bool {
        is_due(self.last_change, now, self.interval)
    }

    /// More than the refresh interval has passed at `now` since the last
    /// refresh.
    pub open spec fn refresh_due(self, now: int) -> bool {
        is_due(self.last_refresh, now, self.refresh_interval)
    }

    /// The manager once a refresh is begun at `now` because one is due, with
    /// the address of the first query; none where no refresh is due or the
    /// day has no text.
    pub open spec fn begun_if_due(self, now: int, today: Date) -> Option<(ManagerView, Seq<char>)> {
        if self.refresh_due(now) {
            match self.begun(today) {
                Some((begun, url)) => Some((ManagerView { last_refresh: now, ..begun }, url)),
                None => None,
            }
        } else {
            None
        }
    }

    /// The manager once a refresh is begun on the day `today`, with the
    /// address of the first query: the rover's photos of that day. Where the
    /// day has no text nothing is begun.
    pub open spec fn begun(self, today: Date) -> Option<(ManagerView, Seq<char>)> {
        match day_text(today, 0) {
            Some(day) => Some(
                (
                    ManagerView {
                        stage: Stage::Rover,
                        today,
                        offset: 0,
                        found: false,
                        links: Seq::empty(),
                        fetched: Seq::empty(),
                        ..self
                    },
                    rover_query(day, self.api_key),
                ),
            ),
            None => None,
        }
    }

    /// After the rover feed's reply: its photos, where it has any, take the
    /// pool's place and the index is taken round the new pool; where it has
    /// none, the next round asks for one day earlier. The
    /// picture-of-the-day feed is asked next, for the last seven days.
    pub open spec fn after_rover(self, reply: Json) -> Option<(ManagerView, Option<Seq<char>>)> {
        match (rover_gallery(reply), day_text(self.today, -7), day_text(self.today, 0)) {
            (Some(found), Some(first), Some(last)) => {
                let query = Some(daily_query(first, last, self.api_key));
                if found.len() > 0 {
                    Some(
                        (
                            ManagerView {
                                photos: found,
                                current: self.current % (found.len() as int),
                                found: true,
                                stage: Stage::Daily,
                                ..self
                            },
                            query,
                        ),
                    )
                } else if self.offset < u32::MAX {
                    Some(
                        (ManagerView { offset: self.offset + 1, stage: Stage::Daily, ..self }, query),
                    )
                } else {
                    None
                }
            },
            _ => None,
        }
    }

    /// After the picture-of-the-day feed's reply: its photos join the pool,
    /// and the image catalogue is asked next.
    pub open spec fn after_daily(self, reply: Json) -> Option<(ManagerView, Option<Seq<char>>)> {
        match daily_gallery(reply) {
            Some(more) => Some(
                (
                    ManagerView { photos: self.photos + more, stage: Stage::Catalogue, ..self },
                    Some(catalogue_query()),
                ),
            ),
            None => None,
        }
    }

    /// The end of a round: the photos fetched from the catalogue join the
    /// pool. Where the rover feed had photos the refresh is over; else the
    /// next round begins with the rover's photos of the earlier day.
    pub open spec fn round_ended(self) -> Option<(ManagerView, Option<Seq<char>>)> {
        let filled = ManagerView {
            photos: self.photos + self.fetched,
            links: Seq::empty(),
            fetched: Seq::empty(),
            ..self
        };
        if self.found {
            Some((ManagerView { stage: Stage::Idle, ..filled }, None))
        } else {
            match day_text(self.today, -self.offset) {
                Some(day) => Some(
                    (
                        ManagerView { stage: Stage::Rover, ..filled },
                        Some(rover_query(day, self.api_key)),
                    ),
                ),
                None => None,
            }
        }
    }

    /// After the image catalogue's reply: the manifest of its first item is
    /// asked for; with no items the round ends.
    pub open spec fn after_catalogue(self, reply: Json) -> Option<
        (ManagerView, Option<Seq<char>>),
    > {
        match catalogue_links(reply) {
            Some(links) => {
                let listed = ManagerView { links, fetched: Seq::empty(), ..self };
                if links.len() == 0 {
                    listed.round_ended()
                } else {
                    match manifest_address(links[0]) {
                        Some(url) => Some(
                            (ManagerView { stage: Stage::Manifest, ..listed }, Some(url)),
                        ),
                        None => None,
                    }
                }
            },
            None => None,
        }
    }

    /// After an item's manifest: its photo is kept, and the next item's
    /// manifest is asked for; after the last item's the round ends.
    pub open spec fn after_manifest(self, reply: Json) -> Option<
        (ManagerView, Option<Seq<char>>),
    > {
        match manifest_photo(reply) {
            Some(photo) => {
                let kept = ManagerView { fetched: self.fetched.push(photo), ..self };
                if kept.fetched.len() < kept.links.len() {
                    match manifest_address(kept.links[kept.fetched.len() as int]) {
                        Some(url) => Some((kept, Some(url))),
                        None => None,
                    }
                } else {
                    kept.round_ended()
                }
            },
            None => None,
        }
    }

    /// The manager after the awaited reply, with what the refresh does
    /// next. A reply that cannot be used, or that was not awaited, ends the
    /// refresh and changes nothing else.
    pub open spec fn received(self, reply: Json) -> (ManagerView, ProgressView) {
        let step = match self.stage {
            Stage::Idle => None,
            Stage::Rover => self.after_rover(reply),
            Stage::Daily => self.after_daily(reply),
            Stage::Catalogue => self.after_catalogue(reply),
            Stage::Manifest => self.after_manifest(reply),
        };
        match step {
            Some((next, Some(url))) => (next, ProgressView::Fetch(url)),
            Some((next, None)) => (next, ProgressView::Done),
            None => (ManagerView { stage: Stage::Idle, ..self }, ProgressView::Failed),
        }
    }

    /// The address of the photo on show, if the pool has one.
    pub open spec fn on_show(self) -> Option<Seq<char>> {
        if 0 <= self.current < self.photos.len() {
            Some(self.photos[self.current].src)
        } else {
            None
        }
    }
}

/// The change that puts the image at `url` on the desktop.
pub open spec fn shows(change: Option<WallpaperChange>, url: Option<Seq<char>>) -> bool {
    match (change, url) {
        (Some(change), Some(url)) => change.url@ == url && change.mode == WallpaperMode::Crop,
        (None, None) => true,
        _ => false,
    }
}

/// `rand::Rng::gen_range` on the generator that `rand::thread_rng` hands
/// out, asked for a number of `0..bound`: the number drawn lies below
/// `bound`. An empty range would panic, so `bound` is positive.
#[verifier::external_body]
fn draw_below(bound: usize) -> (drawn: usize)
    requires
        bound > 0,
    ensures
        drawn < bound,
{
    rand::Rng::gen_range(&mut rand::thread_rng(), 0..bound)
}

/// The pool of candidate wallpapers with the photo on show, the two
/// intervals and the refresh that is under way, if one is.
#[derive(Debug)]
pub struct PhotoManager {
    began: Instant,
    photos: Vec<Photo>,
    current: usize,
    interval: u128,
    refresh_interval: u128,
    last_refresh: u128,
    last_change: u128,
    api_key: String,
    stage: Stage,
    today: Date,
    offset: u32,
    found: bool,
    links: Vec<String>,
    fetched: Vec<Photo>,
}

impl View for PhotoManager {
    type V = ManagerView;

    closed spec fn view(&self) -> ManagerView {
        ManagerView {
            photos: gallery(self.photos@),
            current: if self.photos.len() == 0 {
                0
            } else {
                (self.current % self.photos.len()) as int
            },
            interval: self.interval as int,
            refresh_interval: self.refresh_interval as int,
            last_refresh: self.last_refresh as int,
            last_change: self.last_change as int,
            api_key: self.api_key@,
            stage: self.stage,
            today: self.today,
            offset: self.offset as int,
            found: self.found,
            links: texts(self.links@),
            fetched: gallery(self.fetched@),
        }
    }
}

impl PhotoManager {
    /// The index is held as the view gives it.
    spec fn settled(&self) -> bool {
        if self.photos.len() == 0 {
            self.current == 0
        } else {
            self.current < self.photos.len()
        }
    }

    /// A settled manager shows its index and the length of its pool as
    /// they are held.
    proof fn lemma_settled(&self)
        requires
            self.settled(),
        ensures
            self@.current == self.current,
            self@.photos.len() == self.photos.len(),
    {
        if self.photos.len() > 0 {
            lemma_small_mod(self.current as nat, self.photos.len() as nat);
        }
    }

    /// Takes the index round the pool, which leaves the view as it is.
    fn settle(&mut self)
        ensures
            final(self)@ == old(self)@,
            final(self).settled(),
            final(self).photos == old(self).photos,
    {
        if self.photos.len() == 0 {
            self.current = 0;
        } else {
            proof {
                lemma_mod_twice(self.current as int, self.photos.len() as int);
            }
            self.current = wrapped(self.current, self.photos.len());
        }
    }

    /// A manager with an empty pool and no refresh under way, made now: its
    /// times count from this moment. The intervals are in nanoseconds;
    /// `api_key` is sent with the queries.
    pub fn new(interval: u128, refresh_interval: u128, api_key: &str) -> (manager: PhotoManager)
        ensures
            manager@ == (ManagerView {
                photos: Seq::empty(),
                current: 0,
                interval: interval as int,
                refresh_interval: refresh_interval as int,
                last_refresh: 0,
                last_change: 0,
                api_key: api_key@,
                stage: Stage::Idle,
                today: Date { year: 0, month: 1, day: 1 },
                offset: 0,
                found: false,
                links: Seq::empty(),
                fetched: Seq::empty(),
            }),
            manager@.in_range(),
    {
        let manager = PhotoManager {
            began: moment(),
            photos: Vec::new(),
            current: 0,
            interval,
            refresh_interval,
            last_refresh: 0,
            last_change: 0,
            api_key: String::from_str(api_key),
            stage: Stage::Idle,
            today: Date { year: 0, month: 1, day: 1 },
            offset: 0,
            found: false,
            links: Vec::new(),
            fetched: Vec::new(),
        };
        assert(manager@.photos =~= Seq::empty());
        assert(manager@.links =~= Seq::empty());
        assert(manager@.fetched =~= Seq::empty());
        manager
    }

    /// The photos of the pool, in order.
    pub fn photos(&self) -> (photos: &Vec<Photo>)
        ensures
            gallery(photos@) == self@.photos,
    {
        &self.photos
    }

    /// The index of the photo on show.
    pub fn current_index(&self) -> (index: usize)
        ensures
            index == self@.current,
            self@.in_range(),
    {
        if self.photos.len() == 0 {
            0
        } else {
            wrapped(self.current, self.photos.len())
        }
    }

    /// The photo on show, if the pool has one.
    pub fn current(&self) -> (photo: Option<&Photo>)
        ensures
            match photo {
                Some(photo) => self@.on_show() == Some(photo@.src) && photo@
                    == self@.photos[self@.current],
                None => self@.photos.len() == 0,
            },
            self@.in_range(),
    {
        if self.photos.len() == 0 {
            None
        } else {
            Some(&self.photos[self.current_index()])
        }
    }

    /// What the refresh is waiting for.
    pub fn stage(&self) -> (stage: Stage)
        ensures
            stage == self@.stage,
    {
        self.stage
    }

    /// The time, in nanoseconds since the manager was made, of the last
    /// change of the photo on show.
    pub fn last_change(&self) -> (time: u128)
        ensures
            time == self@.last_change,
    {
        self.last_change
    }

    /// The time, in nanoseconds since the manager was made, at which the
    /// last refresh was begun because it was due.
    pub fn last_refresh(&self) -> (time: u128)
        ensures
            time == self@.last_refresh,
    {
        self.last_refresh
    }

    /// The change that puts the photo on show on the desktop.
    fn change(&self) -> (change: Option<WallpaperChange>)
        ensures
            shows(change, self@.on_show()),
            self@.in_range(),
    {
        if self.photos.len() == 0 {
            None
        } else {
            Some(
                WallpaperChange {
                    url: String::from_str(self.photos[self.current_index()].src()),
                    mode: WallpaperMode::Crop,
                },
            )
        }
    }

    /// Goes `step` places on from the photo on show, round the pool, and
    /// notes `now` as the time of the change. With an empty pool nothing
    /// changes. Returns the wallpaper to put on the desktop.
    pub fn advance(&mut self, step: usize, now: u128) -> (change: Option<WallpaperChange>)
        ensures
            final(self)@ == old(self)@.advanced(step as int, now as int),
            final(self)@.in_range(),
            shows(change, final(self)@.on_show()),
    {
        self.settle();
        if self.photos.len() == 0 {
            return None;
        }
        proof {
            self.lemma_settled();
        }
        self.current = step_forward(self.current, step, self.photos.len());
        self.last_change = now;
        proof {
            self.lemma_settled();
        }
        self.change()
    }

    /// Goes on from the photo on show by a number of places drawn at
    /// random below the pool's length, and notes `now` as the time of the
    /// change. With an empty pool nothing changes. Returns the wallpaper to
    /// put on the desktop.
    pub fn next_at(&mut self, now: u128) -> (change: Option<WallpaperChange>)
        ensures
            old(self)@.steps_to(final(self)@, now as int),
            final(self)@.in_range(),
            shows(change, final(self)@.on_show()),
    {
        if self.photos.len() == 0 {
            return self.change();
        }
        let step = draw_below(self.photos.len());
        let change = self.advance(step, now);
        assert(self@ == old(self)@.advanced(step as int, now as int));
        change
    }

    /// Goes on from the photo on show by a number of places drawn at
    /// random, at the present time. With an empty pool nothing changes.
    /// Returns the wallpaper to put on the desktop.
    pub fn next(&mut self) -> (change: Option<WallpaperChange>)
        ensures
            exists|now: int| #[trigger] old(self)@.steps_to(final(self)@, now),
            final(self)@.in_range(),
            shows(change, final(self)@.on_show()),
    {
        let now = nanos_since(&self.began);
        let change = self.next_at(now);
        assert(old(self)@.steps_to(self@, now as int));
        change
    }

    /// Goes one place back from the photo on show, round the pool, and notes
    /// `now` as the time of the change. With an empty pool nothing changes.
    /// Returns the wallpaper to put on the desktop.
    pub fn retreat(&mut self, now: u128) -> (change: Option<WallpaperChange>)
        ensures
            final(self)@ == old(self)@.retreated(now as int),
            final(self)@.in_range(),
            shows(change, final(self)@.on_show()),
    {
        self.settle();
        if self.photos.len() == 0 {
            return None;
        }
        proof {
            self.lemma_settled();
        }
        self.current = step_back(self.current, self.photos.len());
        self.last_change = now;
        proof {
            self.lemma_settled();
        }
        self.change()
    }

    /// Goes one place back from the photo on show, at the present time.
    /// With an empty pool nothing changes. Returns the wallpaper to put on
    /// the desktop.
    pub fn prev(&mut self) -> (change: Option<WallpaperChange>)
        ensures
            exists|now: int| final(self)@ == #[trigger] old(self)@.retreated(now),
            final(self)@.in_range(),
            shows(change, final(self)@.on_show()),
    {
        let now = nanos_since(&self.began);
        let change = self.retreat(now);
        assert(self@ == old(self)@.retreated(now as int));
        change
    }

    /// Goes on to another photo at `now` if more than the interval has
    /// passed since the last change; else nothing changes and there is no
    /// wallpaper to put on the desktop.
    pub fn next_if_ready_at(&mut self, now: u128) -> (change: Option<WallpaperChange>)
        ensures
            if old(self)@.change_due(now as int) {
                old(self)@.steps_to(final(self)@, now as int) && shows(
                    change,
                    final(self)@.on_show(),
                )
            } else {
                final(self)@ == old(self)@ && change is None
            },
            final(self)@.in_range(),
    {
        proof {
            lemma_index_in_range(*self);
        }
        if due(self.last_change, now, self.interval) {
            self.next_at(now)
        } else {
            None
        }
    }

    /// Goes on to another photo if by now more than the interval has passed
    /// since the last change; else nothing changes and there is no
    /// wallpaper to put on the desktop.
    pub fn next_if_ready(&mut self) -> (change: Option<WallpaperChange>)
        ensures
            exists|now: int|
                if #[trigger] old(self)@.change_due(now) {
                    old(self)@.steps_to(final(self)@, now) && shows(change, final(self)@.on_show())
                } else {
                    final(self)@ == old(self)@ && change is None
                },
            final(self)@.in_range(),
    {
        let now = nanos_since(&self.began);
        let ghost due_now = self@.change_due(now as int);
        let change = self.next_if_ready_at(now);
        assert(due_now == old(self)@.change_due(now as int));
        change
    }

    /// Begins a refresh of the pool on the day `today` and returns the
    /// address of the first query. Where the day has no text, nothing is
    /// begun.
    pub fn refresh_on(&mut self, today: Date) -> (query: Option<String>)
        ensures
            match query {
                Some(url) => old(self)@.begun(today) == Some((final(self)@, url@)),
                None => old(self)@.begun(today) is None && final(self)@ == old(self)@,
            },
            final(self)@.in_range(),
    {
        proof {
            lemma_index_in_range(*self);
        }
        let day = match day_before(today, 0) {
            Some(day) => day,
            None => {
                return None;
            },
        };
        self.stage = Stage::Rover;
        self.today = today;
        self.offset = 0;
        self.found = false;
        self.links = Vec::new();
        self.fetched = Vec::new();
        proof {
            assert(self@.links =~= Seq::empty());
            assert(self@.fetched =~= Seq::empty());
        }
        Some(rover_url(day.as_str(), self.api_key.as_str()))
    }

    /// Begins a refresh of the pool on the present day, where the machine
    /// stands, and returns the address of the first query.
    pub fn refresh(&mut self) -> (query: Option<String>)
        ensures
            exists|today: Date|
                match query {
                    Some(url) => #[trigger] old(self)@.begun(today) == Some((final(self)@, url@)),
                    None => old(self)@.begun(today) is None && final(self)@ == old(self)@,
                },
            final(self)@.in_range(),
    {
        let today = local_today();
        let query = self.refresh_on(today);
        assert(match query {
            Some(url) => old(self)@.begun(today) == Some((self@, url@)),
            None => old(self)@.begun(today) is None && self@ == old(self)@,
        });
        query
    }

    /// Begins a refresh on the day `today` if at `now` more than the
    /// refresh interval has passed since the last one, and notes `now` as
    /// its time; else nothing changes.
    pub fn refresh_if_ready_at(&mut self, now: u128, today: Date) -> (query: Option<String>)
        ensures
            match query {
                Some(url) => old(self)@.begun_if_due(now as int, today) == Some(
                    (final(self)@, url@),
                ),
                None => {
                    &&& old(self)@.begun_if_due(now as int, today) is None
                    &&& final(self)@ == old(self)@
                },
            },
            final(self)@.in_range(),
    {
        proof {
            lemma_index_in_range(*self);
        }
        if due(self.last_refresh, now, self.refresh_interval) {
            let query = self.refresh_on(today);
            if query.is_some() {
                self.last_refresh = now;
            }
            query
        } else {
            None
        }
    }

    /// Begins a refresh on the present day if by now more than the refresh
    /// interval has passed since the last one; else nothing changes.
    pub fn refresh_if_ready(&mut self) -> (query: Option<String>)
        ensures
            exists|now: int, today: Date|
                match query {
                    Some(url) => #[trigger] old(self)@.begun_if_due(now, today) == Some(
                        (final(self)@, url@),
                    ),
                    None => {
                        &&& old(self)@.begun_if_due(now, today) is None
                        &&& final(self)@ == old(self)@
                    },
                },
            final(self)@.in_range(),
    {
        let now = nanos_since(&self.began);
        let today = local_today();
        let query = self.refresh_if_ready_at(now, today);
        assert(match query {
            Some(url) => old(self)@.begun_if_due(now as int, today) == Some((self@, url@)),
            None => old(self)@.begun_if_due(now as int, today) is None && self@ == old(self)@,
        });
        query
    }

    fn take_rover(&mut self, reply: &Json) -> (next: Option<Option<String>>)
        ensures
            match next {
                Some(query) => old(self)@.after_rover(*reply) == Some(
                    (final(self)@, address(query)),
                ),
                None => old(self)@.after_rover(*reply) is None && final(self)@ == old(self)@,
            },
    {
        self.settle();
        let found = match rover_photos(reply) {
            Some(found) => found,
            None => {
                return None;
            },
        };
        let first = match day_before(self.today, 7) {
            Some(first) => first,
            None => {
                return None;
            },
        };
        let last = match day_before(self.today, 0) {
            Some(last) => last,
            None => {
                return None;
            },
        };
        proof {
            self.lemma_settled();
        }
        if found.len() > 0 {
            self.current = wrapped(self.current, found.len());
            self.photos = found;
            self.found = true;
        } else {
            if self.offset == u32::MAX {
                return None;
            }
            self.offset = self.offset + 1;
        }
        self.stage = Stage::Daily;
        proof {
            self.lemma_settled();
        }
        Some(Some(daily_url(first.as_str(), last.as_str(), self.api_key.as_str())))
    }

    fn take_daily(&mut self, reply: &Json) -> (next: Option<Option<String>>)
        ensures
            match next {
                Some(query) => old(self)@.after_daily(*reply) == Some(
                    (final(self)@, address(query)),
                ),
                None => old(self)@.after_daily(*reply) is None && final(self)@ == old(self)@,
            },
    {
        self.settle();
        let mut more = match daily_photos(reply) {
            Some(more) => more,
            None => {
                return None;
            },
        };
        proof {
            self.lemma_settled();
            lemma_gallery_add(self.photos@, more@);
        }
        self.photos.append(&mut more);
        self.stage = Stage::Catalogue;
        proof {
            self.lemma_settled();
        }
        Some(Some(catalogue_url()))
    }

    /// What the end of a round asks for next: `None` where the earlier day
    /// has no text, else the next round's first address, or none once the
    /// rover feed had photos.
    fn round_query(&self) -> (next: Option<Option<String>>)
        ensures
            match next {
                Some(query) => self@.round_ended() matches Some((_, url)) && url == address(query),
                None => self@.round_ended() is None,
            },
    {
        if self.found {
            Some(None)
        } else {
            match day_before(self.today, self.offset) {
                Some(day) => Some(Some(rover_url(day.as_str(), self.api_key.as_str()))),
                None => None,
            }
        }
    }

    /// Ends a round whose next address is known.
    fn close_round(&mut self)
        requires
            old(self)@.round_ended() is Some,
        ensures
            old(self)@.round_ended() matches Some((ended, _)) && ended == final(self)@,
    {
        self.settle();
        proof {
            self.lemma_settled();
            lemma_gallery_add(self.photos@, self.fetched@);
        }
        self.photos.append(&mut self.fetched);
        self.links = Vec::new();
        self.stage = if self.found {
            Stage::Idle
        } else {
            Stage::Rover
        };
        proof {
            self.lemma_settled();
            assert(self@.links =~= Seq::empty());
            assert(self@.fetched =~= Seq::empty());
        }
    }

    fn take_catalogue(&mut self, reply: &Json) -> (next: Option<Option<String>>)
        ensures
            match next {
                Some(query) => old(self)@.after_catalogue(*reply) == Some(
                    (final(self)@, address(query)),
                ),
                None => old(self)@.after_catalogue(*reply) is None && final(self)@ == old(self)@,
            },
    {
        let links = match catalogue_hrefs(reply) {
            Some(links) => links,
            None => {
                return None;
            },
        };
        if links.len() == 0 {
            let query = match self.round_query() {
                Some(query) => query,
                None => {
                    return None;
                },
            };
            self.links = links;
            self.fetched = Vec::new();
            proof {
                assert(self@.fetched =~= Seq::empty());
            }
            self.close_round();
            Some(query)
        } else {
            let url = match manifest_url(links[0].as_str()) {
                Some(url) => url,
                None => {
                    return None;
                },
            };
            self.links = links;
            self.fetched = Vec::new();
            self.stage = Stage::Manifest;
            proof {
                assert(self@.fetched =~= Seq::empty());
            }
            Some(Some(url))
        }
    }

    fn take_manifest(&mut self, reply: &Json) -> (next: Option<Option<String>>)
        ensures
            match next {
                Some(query) => old(self)@.after_manifest(*reply) == Some(
                    (final(self)@, address(query)),
                ),
                None => old(self)@.after_manifest(*reply) is None && final(self)@ == old(self)@,
            },
    {
        let photo = match self.get_nasa_image_from_json(reply) {
            Some(photo) => photo,
            None => {
                return None;
            },
        };
        proof {
            lemma_gallery_push(self.fetched@, photo);
        }
        if self.links.len() > 0 && self.fetched.len() < self.links.len() - 1 {
            let url = match manifest_url(self.links[self.fetched.len() + 1].as_str()) {
                Some(url) => url,
                None => {
                    return None;
                },
            };
            self.fetched.push(photo);
            Some(Some(url))
        } else {
            let query = match self.round_query() {
                Some(query) => query,
                None => {
                    return None;
                },
            };
            self.fetched.push(photo);
            self.close_round();
            Some(query)
        }
    }

    /// The photo that the manifest of a catalogue item gives; `None` where
    /// the manifest cannot be read.
    pub fn get_nasa_image_from_json(&self, manifest: &Json) -> (found: Option<Photo>)
        ensures
            match found {
                Some(photo) => manifest_photo(*manifest) == Some(photo@),
                None => manifest_photo(*manifest) is None,
            },
    {
        catalogue_photo(manifest)
    }

    /// Takes the reply that the refresh was waiting for and says how the
    /// refresh goes on. A reply that cannot be used, or one that was not
    /// awaited, ends the refresh and changes nothing else.
    pub fn receive(&mut self, reply: &Json) -> (progress: Progress)
        ensures
            (final(self)@, progress@) == old(self)@.received(*reply),
            final(self)@.in_range(),
    {
        let step = match self.stage {
            Stage::Idle => None,
            Stage::Rover => self.take_rover(reply),
            Stage::Daily => self.take_daily(reply),
            Stage::Catalogue => self.take_catalogue(reply),
            Stage::Manifest => self.take_manifest(reply),
        };
        proof {
            lemma_index_in_range(*self);
        }
        match step {
            Some(Some(url)) => Progress::Fetch(url),
            Some(None) => Progress::Done,
            None => {
                self.stage = Stage::Idle;
                Progress::Failed
            },
        }
    }
}

/// The index of the photo on show always lies in the pool: with an empty
/// pool it is 0, else it is below the pool's length.
pub proof fn lemma_index_in_range(manager: PhotoManager)
    ensures
        manager@.in_range(),
{
    if manager.photos.len() > 0 {
        lemma_mod_bound(manager.current as int, manager.photos.len() as int);
    }
}

/// A step keeps the index in the pool.
pub proof fn lemma_advanced_in_range(manager: ManagerView, step: int, now: int)
    requires
        manager.in_range(),
    ensures
        manager.advanced(step, now).in_range(),
{
    if manager.photos.len() > 0 {
        lemma_stepped_in_range(manager.current, step, manager.photos.len() as int);
    }
}

/// A step back keeps the index in the pool.
pub proof fn lemma_retreated_in_range(manager: ManagerView, now: int)
    requires
        manager.in_range(),
    ensures
        manager.retreated(now).in_range(),
{
    if manager.photos.len() > 0 {
        lemma_stepped_in_range(
            manager.current,
            manager.photos.len() - 1,
            manager.photos.len() as int,
        );
    }
}

/// Whatever reply a refresh takes, the index stays in the pool.
pub proof fn lemma_received_in_range(manager: ManagerView, reply: Json)
    requires
        manager.in_range(),
    ensures
        manager.received(reply).0.in_range(),
{
    match (manager.stage, rover_gallery(reply)) {
        (Stage::Rover, Some(found)) => {
            if found.len() > 0 {
                lemma_mod_bound(manager.current, found.len() as int);
            }
        },
        _ => {},
    }
}

/// With photos in the pool, a step that is no multiple of their number
/// shows another photo.
pub proof fn lemma_advance_shows_another(manager: ManagerView, step: int, now: int)
    requires
        manager.in_range(),
        manager.photos.len() > 0,
        step % (manager.photos.len() as int) != 0,
    ensures
        manager.advanced(step, now).current != manager.current,
{
    lemma_stepped_moves(manager.current, step, manager.photos.len() as int);
}

/// With an empty pool a step changes nothing.
pub proof fn lemma_advance_empty_pool(manager: ManagerView, step: int, now: int)
    requires
        manager.photos.len() == 0,
    ensures
        manager.advanced(step, now) == manager,
{
}

} // verus!
