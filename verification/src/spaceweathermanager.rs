//! The latest space-weather notice: its text, the images it links to, and
//! which of them is on show.

use crate::bitmap::{Bitmap, BitmapView};
use crate::calendar::{day_after, day_before, day_text, local_today, Date};
use crate::clock::{due, is_due, moment, nanos_since};
use crate::endpoints::{notices_query, notices_url};
use crate::feeds::{member_text, texts};
use crate::json::Json;
use crate::rotation::{
    lemma_stepped_in_range, lemma_stepped_moves, step_forward, stepped, wrapped,
};
use crate::text::{
    after_last, chars_of, ends_with, has_prefix, has_suffix, occurs_in, starts_with,
    suffix_after_last,
};
use std::time::Instant;
use vstd::arithmetic::div_mod::{lemma_mod_bound, lemma_mod_twice, lemma_small_mod};
use vstd::prelude::*;
use vstd::string::StringExecFns;

verus! {

/// The matches of the regular expression `pattern` in `text`, as the `regex`
/// crate finds them: one after the other from the left, none overlapping
/// another. `None` where the crate refuses the pattern.
pub uninterp spec fn regex_matches(pattern: Seq<char>, text: Seq<char>) -> Option<
    Seq<Seq<char>>,
>;

/// `regex::Regex::find_iter` on the expression that `regex::Regex::new`
/// makes of `pattern`, each match as the text that `Match::as_str` gives;
/// `None` where `new` refuses the pattern. The contract names the matches
/// and claims of each one only that it stands in `text`: `as_str` hands out
/// the part of the text that matched.
#[verifier::external_body]
fn find_all(pattern: &str, text: &str) -> (found: Option<Vec<String>>)
    ensures
        match found {
            Some(list) => regex_matches(pattern@, text@) == Some(texts(list@)),
            None => regex_matches(pattern@, text@) is None,
        },
        found matches Some(list) ==> forall|i: int|
            0 <= i < list.len() ==> occurs_in(text@, #[trigger] list[i]@),
{
    match regex::Regex::new(pattern) {
        Ok(matcher) => Some(
            matcher.find_iter(text).map(|found| found.as_str().to_string()).collect(),
        ),
        Err(_) => None,
    }
}

/// The expression for an image's address in a notice: `http` or `https`, a
/// run of word characters, slashes, dots, underscores and hyphens, and one
/// of four endings.
pub open spec fn image_link_pattern() -> Seq<char> {
    "https?://[\\w/._-]+\\.(?:jpg|jpeg|png|gif)"@
}

/// An address of the web that ends as an image's does.
pub open spec fn is_image_link(link: Seq<char>) -> bool {
    &&& has_prefix(link, "http://"@) || has_prefix(link, "https://"@)
    &&& has_suffix(link, ".jpg"@) || has_suffix(link, ".jpeg"@) || has_suffix(link, ".png"@)
        || has_suffix(link, ".gif"@)
}

/// Those of `found` that are image links, in order.
pub open spec fn image_links_among(found: Seq<Seq<char>>) -> Seq<Seq<char>> {
    found.filter(|link: Seq<char>| is_image_link(link))
}

/// The image links in `text`: the matches of the pattern, as far as they
/// are image links.
pub open spec fn image_links(text: Seq<char>) -> Seq<Seq<char>> {
    match regex_matches(image_link_pattern(), text) {
        Some(found) => image_links_among(found),
        None => Seq::empty(),
    }
}

/// Whether `link` is an address of the web that ends as an image's does.
pub fn looks_like_image_link(link: &str) -> (yes: bool)
    ensures
        yes == is_image_link(link@),
{
    let chars = chars_of(link);
    let web = starts_with(&chars, &chars_of("http://")) || starts_with(
        &chars,
        &chars_of("https://"),
    );
    let image = ends_with(&chars, &chars_of(".jpg")) || ends_with(&chars, &chars_of(".jpeg"))
        || ends_with(&chars, &chars_of(".png")) || ends_with(&chars, &chars_of(".gif"));
    web && image
}

/// Those of `found` that are image links, in order.
pub fn keep_image_links(found: &Vec<String>) -> (links: Vec<String>)
    ensures
        texts(links@) == image_links_among(texts(found@)),
        forall|i: int| 0 <= i < links.len() ==> is_image_link(#[trigger] links[i]@),
        forall|i: int| 0 <= i < links.len() ==> texts(found@).contains(#[trigger] links[i]@),
{
    let mut links: Vec<String> = Vec::new();
    let mut i: usize = 0;
    assert(texts(links@) =~= image_links_among(texts(found@).take(0)));
    while i < found.len()
        invariant
            i <= found.len(),
            texts(links@) == image_links_among(texts(found@).take(i as int)),
            forall|j: int| 0 <= j < links.len() ==> is_image_link(#[trigger] links[j]@),
            forall|k: int| 0 <= k < links.len() ==> texts(found@).contains(#[trigger] links[k]@),
        decreases found.len() - i,
    {
        proof {
            let seen = texts(found@).take(i as int);
            seen.lemma_filter_push(found@[i as int]@, |link: Seq<char>| is_image_link(link));
            assert(texts(found@).take(i + 1) =~= seen.push(found@[i as int]@));
        }
        if looks_like_image_link(found[i].as_str()) {
            let link = found[i].clone();
            assert(texts(links@.push(link)) =~= texts(links@).push(link@));
            assert(texts(found@)[i as int] == link@);
            links.push(link);
        }
        i += 1;
    }
    assert(texts(found@).take(found@.len() as int) =~= texts(found@));
    links
}

/// The image links in `text`, in the order in which they stand there. Each
/// of them is an address of the web that ends as an image's does, and
/// stands in `text`.
pub fn extract_image_links(text: &str) -> (links: Vec<String>)
    ensures
        texts(links@) == image_links(text@),
        forall|i: int| 0 <= i < links.len() ==> is_image_link(#[trigger] links[i]@),
        forall|i: int| 0 <= i < links.len() ==> occurs_in(text@, #[trigger] links[i]@),
{
    match find_all("https?://[\\w/._-]+\\.(?:jpg|jpeg|png|gif)", text) {
        Some(found) => keep_image_links(&found),
        None => {
            let none: Vec<String> = Vec::new();
            assert(texts(none@) =~= Seq::empty());
            none
        },
    }
}

/// The heading under which a notice's summary is shown.
pub open spec fn summary_heading() -> Seq<char> {
    "## Summary:\n\n"@
}

/// The words after which a notice's summary begins.
pub open spec fn summary_marker() -> Seq<char> {
    "Summary:\n\n"@
}

/// The text shown for a notice with this body: the heading, and what
/// follows the last marker in the body (all of the body where it has no
/// marker).
pub open spec fn summary_of(body: Seq<char>) -> Seq<char> {
    summary_heading() + after_last(body, summary_marker())
}

/// The time, in nanoseconds, for which one image of a notice is on show.
pub const IMAGE_INTERVAL: u128 = 10_000_000_000;

/// A weather report as plain values. Times are in nanoseconds since the
/// report was made.
pub struct ReportView {
    /// The summary of the notice, under its heading.
    pub message: Seq<char>,
    /// The type of the notice.
    pub message_type: Seq<char>,
    /// The time at which the notice was issued, as the notice writes it.
    pub time: Seq<char>,
    /// The addresses of the images that the summary links to.
    pub image_links: Seq<Seq<char>>,
    /// The images loaded so far.
    pub images: Seq<BitmapView>,
    /// The index of the image on show.
    pub active_image: int,
    /// The time after which the next image is due.
    pub image_interval: int,
    /// When the image on show last changed.
    pub last_image_change: int,
}

impl ReportView {
    /// The index of the image on show lies among the images; with none it
    /// is 0.
    pub open spec fn in_range(self) -> bool {
        if self.images.len() == 0 {
            self.active_image == 0
        } else {
            0 <= self.active_image < self.images.len()
        }
    }

    /// The report after going on to the next image, round the images: with
    /// no images it stays as it is.
    pub open spec fn advanced(self) -> ReportView {
        if self.images.len() == 0 {
            self
        } else {
            ReportView {
                active_image: stepped(self.active_image, 1, self.images.len() as int),
                ..self
            }
        }
    }

    /// More than the image interval has passed at `now` since the last
    /// change of the image on show.
    pub open spec fn change_due(self, now: int) -> bool {
        is_due(self.last_image_change, now, self.image_interval)
    }

    /// The report after a look at the time `now`: where a change is due, it
    /// goes on to the next image and notes `now`; else it stays as it is.
    pub open spec fn advanced_if_due(self, now: int) -> ReportView {
        if self.change_due(now) {
            ReportView { last_image_change: now, ..self.advanced() }
        } else {
            self
        }
    }

    /// The index of the image to show after a look at the time `now`: where
    /// a change is due and there are images, that of the next one.
    pub open spec fn shown_if_due(self, now: int) -> Option<int> {
        if self.change_due(now) {
            self.advanced().on_show()
        } else {
            None
        }
    }

    /// The report with one more image loaded.
    pub open spec fn with_image(self, image: BitmapView) -> ReportView {
        ReportView { images: self.images.push(image), ..self }
    }

    /// The index of the image on show, if there is one.
    pub open spec fn on_show(self) -> Option<int> {
        if self.images.len() == 0 {
            None
        } else {
            Some(self.active_image)
        }
    }
}

/// The report that a notice gives: its summary under the heading, its type
/// and its time of issue, the image links of the summary, and no image
/// loaded yet. Its time begins at 0. A notice gives none where its body,
/// its type or its time of issue is no string.
pub open spec fn report_of(notice: Json) -> Option<ReportView> {
    match (
        notice.member("messageBody"@).text(),
        notice.member("messageType"@).text(),
        notice.member("messageIssueTime"@).text(),
    ) {
        (Some(body), Some(message_type), Some(time)) => Some(
            ReportView {
                message: summary_of(body),
                message_type,
                time,
                image_links: image_links(summary_of(body)),
                images: Seq::empty(),
                active_image: 0,
                image_interval: IMAGE_INTERVAL as int,
                last_image_change: 0,
            },
        ),
        _ => None,
    }
}

/// The images of a list, each by its view.
pub open spec fn pictures(images: Seq<Bitmap>) -> Seq<BitmapView> {
    images.map_values(|image: Bitmap| image@)
}

/// One space-weather notice with the images it links to.
#[derive(Debug)]
pub struct WeatherReport {
    began: Instant,
    message: String,
    message_type: String,
    time: String,
    image_links: Vec<String>,
    images: Vec<Bitmap>,
    active_image: usize,
    image_interval: u128,
    last_image_change: u128,
}

impl View for WeatherReport {
    type V = ReportView;

    closed spec fn view(&self) -> ReportView {
        ReportView {
            message: self.message@,
            message_type: self.message_type@,
            time: self.time@,
            image_links: texts(self.image_links@),
            images: pictures(self.images@),
            active_image: if self.images.len() == 0 {
                0
            } else {
                (self.active_image % self.images.len()) as int
            },
            image_interval: self.image_interval as int,
            last_image_change: self.last_image_change as int,
        }
    }
}

impl WeatherReport {
    /// The index is held as the view gives it.
    spec fn settled(&self) -> bool {
        if self.images.len() == 0 {
            self.active_image == 0
        } else {
            self.active_image < self.images.len()
        }
    }

    /// A settled report shows its index and the number of its images as
    /// they are held.
    proof fn lemma_settled(&self)
        requires
            self.settled(),
        ensures
            self@.active_image == self.active_image,
            self@.images.len() == self.images.len(),
    {
        if self.images.len() > 0 {
            lemma_small_mod(self.active_image as nat, self.images.len() as nat);
        }
    }

    /// Takes the index round the images, which leaves the view as it is.
    fn settle(&mut self)
        ensures
            final(self)@ == old(self)@,
            final(self).settled(),
    {
        if self.images.len() == 0 {
            self.active_image = 0;
        } else {
            proof {
                lemma_mod_twice(self.active_image as int, self.images.len() as int);
            }
            self.active_image = wrapped(self.active_image, self.images.len());
        }
    }

    /// The report that `notice` gives, made now and with no image loaded
    /// yet: its times count from this moment. `None` where the notice's
    /// body, type or time of issue is no string.
    pub fn from_json(notice: &Json) -> (made: Option<WeatherReport>)
        ensures
            match made {
                Some(report) => report_of(*notice) == Some(report@),
                None => report_of(*notice) is None,
            },
            made matches Some(report) ==> report@.in_range(),
    {
        let body = match member_text(notice, "messageBody") {
            Some(body) => body,
            None => {
                return None;
            },
        };
        let message_type = match member_text(notice, "messageType") {
            Some(message_type) => message_type,
            None => {
                return None;
            },
        };
        let time = match member_text(notice, "messageIssueTime") {
            Some(time) => time,
            None => {
                return None;
            },
        };
        let summary = suffix_after_last(body, "Summary:\n\n");
        let message = String::from_str("## Summary:\n\n").concat(summary.as_str());
        let image_links = extract_image_links(message.as_str());
        let report = WeatherReport {
            began: moment(),
            message,
            message_type: String::from_str(message_type),
            time: String::from_str(time),
            image_links,
            images: Vec::new(),
            active_image: 0,
            image_interval: IMAGE_INTERVAL,
            last_image_change: 0,
        };
        assert(report@.images =~= Seq::empty());
        Some(report)
    }

    /// The summary of the notice, under its heading.
    pub fn message(&self) -> (message: &str)
        ensures
            message@ == self@.message,
    {
        self.message.as_str()
    }

    /// The type of the notice.
    pub fn message_type(&self) -> (message_type: &str)
        ensures
            message_type@ == self@.message_type,
    {
        self.message_type.as_str()
    }

    /// The time at which the notice was issued.
    pub fn time(&self) -> (time: &str)
        ensures
            time@ == self@.time,
    {
        self.time.as_str()
    }

    /// The addresses of the images that the notice links to.
    pub fn image_links(&self) -> (links: &Vec<String>)
        ensures
            texts(links@) == self@.image_links,
    {
        &self.image_links
    }

    /// The images loaded so far.
    pub fn images(&self) -> (images: &Vec<Bitmap>)
        ensures
            pictures(images@) == self@.images,
    {
        &self.images
    }

    /// The index of the image on show.
    pub fn active_image(&self) -> (index: usize)
        ensures
            index == self@.active_image,
            self@.in_range(),
    {
        if self.images.len() == 0 {
            0
        } else {
            proof {
                lemma_mod_bound(self.active_image as int, self.images.len() as int);
            }
            wrapped(self.active_image, self.images.len())
        }
    }

    /// Adds an image to those loaded; the image on show stays the same.
    pub fn add_image(&mut self, image: Bitmap)
        ensures
            final(self)@ == old(self)@.with_image(image@),
            final(self)@.in_range(),
    {
        self.settle();
        proof {
            self.lemma_settled();
            assert(pictures(self.images@.push(image)) =~= pictures(self.images@).push(image@));
        }
        self.images.push(image);
        proof {
            self.lemma_settled();
        }
    }

    /// Decodes the bytes of an image and adds it to those loaded. Returns
    /// whether the bytes gave an image; where they did not, nothing
    /// changes. Whether they give one, and which, is the decoder's matter
    /// (see `Bitmap::decode`); `add_image` says what loading a given image
    /// does.
    pub fn load_image(&mut self, bytes: &[u8]) -> (loaded: bool)
        ensures
            loaded ==> exists|image: BitmapView|
                image.is_filled() && final(self)@ == #[trigger] old(self)@.with_image(image),
            !loaded ==> final(self)@ == old(self)@,
            final(self)@.in_range(),
    {
        proof {
            lemma_report_in_range(*self);
        }
        match Bitmap::decode(bytes) {
            Some(image) => {
                self.add_image(image);
                true
            },
            None => false,
        }
    }

    /// Goes on to the next image, round the images. With no images nothing
    /// changes. Returns the index of the image to show.
    pub fn next_image(&mut self) -> (shown: Option<usize>)
        ensures
            final(self)@ == old(self)@.advanced(),
            final(self)@.in_range(),
            match shown {
                Some(index) => final(self)@.on_show() == Some(index as int),
                None => final(self)@.on_show() is None,
            },
    {
        self.settle();
        proof {
            self.lemma_settled();
        }
        if self.images.len() == 0 {
            return None;
        }
        self.active_image = step_forward(self.active_image, 1, self.images.len());
        proof {
            self.lemma_settled();
        }
        Some(self.active_image)
    }

    /// Goes on to the next image at `now` if more than the image interval
    /// has passed since the last change, and notes `now` as the time of the
    /// change; else nothing changes. Returns the index of the image to
    /// show, if there is a new one.
    pub fn next_if_ready_at(&mut self, now: u128) -> (shown: Option<usize>)
        ensures
            final(self)@ == old(self)@.advanced_if_due(now as int),
            final(self)@.in_range(),
            match shown {
                Some(index) => old(self)@.shown_if_due(now as int) == Some(index as int),
                None => old(self)@.shown_if_due(now as int) is None,
            },
    {
        proof {
            lemma_report_in_range(*self);
        }
        if due(self.last_image_change, now, self.image_interval) {
            let shown = self.next_image();
            self.last_image_change = now;
            shown
        } else {
            None
        }
    }

    /// Goes on to the next image if by now more than the image interval has
    /// passed since the last change; else nothing changes. Returns the
    /// index of the image to show, if there is a new one.
    pub fn next_if_ready(&mut self) -> (shown: Option<usize>)
        ensures
            exists|now: int|
                {
                    &&& final(self)@ == #[trigger] old(self)@.advanced_if_due(now)
                    &&& match shown {
                        Some(index) => old(self)@.shown_if_due(now) == Some(index as int),
                        None => old(self)@.shown_if_due(now) is None,
                    }
                },
            final(self)@.in_range(),
    {
        let now = nanos_since(&self.began);
        let shown = self.next_if_ready_at(now);
        assert(self@ == old(self)@.advanced_if_due(now as int));
        shown
    }
}

/// The index of the image on show always lies among the images: with none
/// it is 0, else it is below their number.
pub proof fn lemma_report_in_range(report: WeatherReport)
    ensures
        report@.in_range(),
{
    if report.images.len() > 0 {
        lemma_mod_bound(report.active_image as int, report.images.len() as int);
    }
}

/// Going on to the next image keeps the index among the images.
pub proof fn lemma_next_image_in_range(report: ReportView)
    requires
        report.in_range(),
    ensures
        report.advanced().in_range(),
{
    if report.images.len() > 0 {
        lemma_stepped_in_range(report.active_image, 1, report.images.len() as int);
    }
}

/// With two images or more, going on to the next one shows another image.
pub proof fn lemma_next_image_shows_another(report: ReportView)
    requires
        report.in_range(),
        report.images.len() >= 2,
    ensures
        report.advanced().active_image != report.active_image,
{
    lemma_small_mod(1, report.images.len());
    lemma_stepped_moves(report.active_image, 1, report.images.len() as int);
}

/// With no images, going on to the next one changes nothing.
pub proof fn lemma_next_image_without_images(report: ReportView)
    requires
        report.images.len() == 0,
    ensures
        report.advanced() == report,
{
}

/// The space-weather manager as plain values. Times are in nanoseconds
/// since the manager was made.
pub struct WeatherView {
    /// The latest report, once one was taken.
    pub report: Option<ReportView>,
    /// The time after which the notices are asked for again.
    pub refresh_interval: int,
    /// When the notices were last asked for because it was due.
    pub last_refresh: int,
    /// The key that is sent with the queries.
    pub api_key: Seq<char>,
}

impl WeatherView {
    /// The query for the notices round the day `today`: from the day before
    /// to the day after. There is none where one of the two days has no
    /// text.
    pub open spec fn query(self, today: Date) -> Option<Seq<char>> {
        match (day_text(today, -1), day_text(today, 1)) {
            (Some(first), Some(last)) => Some(notices_query(first, last, self.api_key)),
            _ => None,
        }
    }

    /// The manager once `now` is noted as the time at which the notices
    /// were asked for.
    pub open spec fn asked_at(self, now: int) -> WeatherView {
        WeatherView { last_refresh: now, ..self }
    }

    /// The manager with this report in place of its own.
    pub open spec fn with_report(self, report: Option<ReportView>) -> WeatherView {
        WeatherView { report, ..self }
    }

    /// The query for the notices, where at `now` more than the refresh
    /// interval has passed since they were last asked for and the days
    /// round `today` have a text.
    pub open spec fn query_if_due(self, now: int, today: Date) -> Option<Seq<char>> {
        if is_due(self.last_refresh, now, self.refresh_interval) {
            self.query(today)
        } else {
            None
        }
    }
}

/// What the notices' reply gives: the report of its first notice. It gives
/// none where the reply is no array or an empty one, or where the first
/// notice gives none.
pub open spec fn latest_report(reply: Json) -> Option<ReportView> {
    match reply.items() {
        Some(notices) => if notices.len() > 0 {
            report_of(notices[0])
        } else {
            None
        },
        None => None,
    }
}

/// The report that may be there, by its view.
pub open spec fn report_view(report: Option<WeatherReport>) -> Option<ReportView> {
    match report {
        Some(report) => Some(report@),
        None => None,
    }
}

/// The space-weather notices: the latest report and when it was last asked
/// for.
#[derive(Debug)]
pub struct SpaceWeatherManager {
    began: Instant,
    weather_report: Option<WeatherReport>,
    refresh_interval: u128,
    last_refresh: u128,
    api_key: String,
}

impl View for SpaceWeatherManager {
    type V = WeatherView;

    closed spec fn view(&self) -> WeatherView {
        WeatherView {
            report: report_view(self.weather_report),
            refresh_interval: self.refresh_interval as int,
            last_refresh: self.last_refresh as int,
            api_key: self.api_key@,
        }
    }
}

impl SpaceWeatherManager {
    /// A manager without a report, made now: its times count from this
    /// moment. The interval is in nanoseconds; `api_key` is sent with the
    /// queries.
    pub fn new(refresh_interval: u128, api_key: &str) -> (manager: SpaceWeatherManager)
        ensures
            manager@ == (WeatherView {
                report: None,
                refresh_interval: refresh_interval as int,
                last_refresh: 0,
                api_key: api_key@,
            }),
    {
        SpaceWeatherManager {
            began: moment(),
            weather_report: None,
            refresh_interval,
            last_refresh: 0,
            api_key: String::from_str(api_key),
        }
    }

    /// The latest report, once one was taken.
    pub fn weather_report(&self) -> (report: Option<&WeatherReport>)
        ensures
            match report {
                Some(report) => self@.report == Some(report@),
                None => self@.report is None,
            },
    {
        self.weather_report.as_ref()
    }

    /// The latest report, to go on to its next image or to load its images.
    pub fn weather_report_mut(&mut self) -> (report: Option<&mut WeatherReport>)
        ensures
            match report {
                Some(report) => old(self)@.report == Some((*report)@) && final(self)@ == old(
                    self,
                )@.with_report(Some((*final(report))@)),
                None => old(self)@.report is None && final(self)@ == old(self)@,
            },
    {
        self.weather_report.as_mut()
    }

    /// The time, in nanoseconds since the manager was made, at which the
    /// notices were last asked for because it was due.
    pub fn last_refresh(&self) -> (time: u128)
        ensures
            time == self@.last_refresh,
    {
        self.last_refresh
    }

    /// The address of the query for the notices round the day `today`.
    pub fn refresh_on(&self, today: Date) -> (query: Option<String>)
        ensures
            match query {
                Some(url) => self@.query(today) == Some(url@),
                None => self@.query(today) is None,
            },
    {
        let first = match day_before(today, 1) {
            Some(first) => first,
            None => {
                return None;
            },
        };
        let last = match day_after(today, 1) {
            Some(last) => last,
            None => {
                return None;
            },
        };
        Some(notices_url(first.as_str(), last.as_str(), self.api_key.as_str()))
    }

    /// The address of the query for the notices round the present day,
    /// where the machine stands.
    pub fn refresh(&self) -> (query: Option<String>)
        ensures
            exists|today: Date|
                match query {
                    Some(url) => #[trigger] self@.query(today) == Some(url@),
                    None => self@.query(today) is None,
                },
    {
        let today = local_today();
        let query = self.refresh_on(today);
        assert(match query {
            Some(url) => self@.query(today) == Some(url@),
            None => self@.query(today) is None,
        });
        query
    }

    /// The address of the query for the notices round the day `today`, if
    /// at `now` more than the refresh interval has passed since they were
    /// last asked for; `now` is then noted as the time of asking. Else
    /// nothing changes.
    pub fn refresh_if_ready_at(&mut self, now: u128, today: Date) -> (query: Option<String>)
        ensures
            match query {
                Some(url) => {
                    &&& old(self)@.query_if_due(now as int, today) == Some(url@)
                    &&& final(self)@ == old(self)@.asked_at(now as int)
                },
                None => {
                    &&& old(self)@.query_if_due(now as int, today) is None
                    &&& final(self)@ == old(self)@
                },
            },
    {
        if due(self.last_refresh, now, self.refresh_interval) {
            let query = self.refresh_on(today);
            if query.is_some() {
                self.last_refresh = now;
            }
            query
        } else {
            None
        }
    }

    /// The address of the query for the notices round the present day, if
    /// by now more than the refresh interval has passed since they were
    /// last asked for. Else nothing changes.
    pub fn refresh_if_ready(&mut self) -> (query: Option<String>)
        ensures
            exists|now: int, today: Date|
                match query {
                    Some(url) => {
                        &&& #[trigger] old(self)@.query_if_due(now, today) == Some(url@)
                        &&& final(self)@ == old(self)@.asked_at(now)
                    },
                    None => {
                        &&& old(self)@.query_if_due(now, today) is None
                        &&& final(self)@ == old(self)@
                    },
                },
    {
        let now = nanos_since(&self.began);
        let today = local_today();
        let query = self.refresh_if_ready_at(now, today);
        assert(match query {
            Some(url) => old(self)@.query_if_due(now as int, today) == Some(url@) && self@ == old(
                self,
            )@.asked_at(now as int),
            None => old(self)@.query_if_due(now as int, today) is None && self@ == old(self)@,
        });
        query
    }

    /// Takes the notices' reply: the report of the first notice becomes
    /// the manager's report. Returns whether the reply gave one; where it
    /// did not, nothing changes.
    pub fn receive(&mut self, reply: &Json) -> (taken: bool)
        ensures
            taken == (latest_report(*reply) is Some),
            final(self)@ == if taken {
                old(self)@.with_report(latest_report(*reply))
            } else {
                old(self)@
            },
    {
        let notices = match reply.as_array() {
            Some(notices) => notices,
            None => {
                return false;
            },
        };
        if notices.len() == 0 {
            return false;
        }
        match WeatherReport::from_json(&notices[0]) {
            Some(report) => {
                self.weather_report = Some(report);
                true
            },
            None => false,
        }
    }
}

} // verus!
