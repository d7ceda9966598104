//! Reading a job out of what is known of a logo: an attachment, or the links in a note.

use crate::job_loaders::LogoJob;
use crate::text::{
    chars_of, contains_text, is_space, is_space_spec, is_text_before, lowercase_of, parse_u32,
    parsed_u32, part_starts_with, part_to_string, text_before, text_contains, to_lowercase,
    trim_bounds, trimmed,
};
use vstd::prelude::*;

verus! {

/// A link, by the kind of place it leads to. Kinds that come first in this list are
/// preferred.
#[derive(Debug, Clone, Ord, PartialOrd, Eq, PartialEq)]
pub enum UrlType {
    JSONJob(String),
    Telegram(String),
    YandexMap(String),
    AppGallery(String),
    GooglePlay(String),
    RuStore(String),
    AppleApp(String),
    ImageUrl(String),
    VK(String),
    HH(String),
    Other(String),
    /// No link at all.
    NoLink,
}

/// A file that is attached to a request.
#[derive(Debug, Clone)]
pub struct Attachment {
    pub url: String,
}

/// One request for a logo.
#[derive(Debug, Clone)]
pub struct DataItem {
    pub id: u32,
    pub note: String,
    pub attachments: Vec<Attachment>,
}

/// The requests of a list.
#[derive(Debug, Clone)]
pub struct Data {
    pub data: Vec<DataItem>,
}

/// A list of requests as it is handed over.
#[derive(Debug, Clone)]
pub struct Root {
    pub data: Data,
}

/// The pattern of a link to an image file: a dot and an image extension, in either case,
/// before a question mark, a slash or the end.
pub const IMAGE_PATTERN: &'static str = "(?i)\\.(jpg|jpeg|png|gif|webp|svg|ico)(\\?|$|/)";

/// Whether a pattern of the `regex` crate matches anywhere in a text; `None` for what is
/// no pattern.
pub uninterp spec fn regex_match(pattern: Seq<char>, text: Seq<char>) -> Option<bool>;

/// Tells with `regex::Regex` whether a pattern matches anywhere in a text.
#[verifier::external_body]
fn pattern_matches(pattern: &str, text: &str) -> (found: Option<bool>)
    ensures
        found == regex_match(pattern@, text@),
{
    regex::Regex::new(pattern).ok().map(|compiled| compiled.is_match(text))
}

/// Whether a link leads to an image file.
pub open spec fn is_image_link(url: Seq<char>) -> bool {
    regex_match(IMAGE_PATTERN@, lowercase_of(url)) == Some(true)
}

/// The rank of the kind of a link: an image file by its pattern, else a known place by
/// the way the link begins, else any other place.
pub open spec fn classified_rank(url: Seq<char>) -> int {
    if is_image_link(url) {
        7
    } else if "https://vk.com/"@.is_prefix_of(url) {
        8
    } else if "https://t.me/"@.is_prefix_of(url) {
        1
    } else if "https://www.rustore.ru/"@.is_prefix_of(url) {
        5
    } else if "https://apps.apple.com/"@.is_prefix_of(url) {
        6
    } else if "https://appgallery.huawei.com/"@.is_prefix_of(url) {
        3
    } else if "https://play.google.com/store/apps/"@.is_prefix_of(url) {
        4
    } else if "https://yandex.ru/maps/"@.is_prefix_of(url) {
        2
    } else if "https://*.hh.ru/"@.is_prefix_of(url) {
        9
    } else {
        10
    }
}

/// A link as a pair: the rank of its kind, and its text.
pub struct UrlView {
    pub rank: int,
    pub text: Seq<char>,
}

impl UrlView {
    /// Whether this link is preferred to another: its kind comes first, or the kinds are
    /// one and its text comes first.
    pub open spec fn before(self, other: UrlView) -> bool {
        self.rank < other.rank || (self.rank == other.rank && text_before(self.text, other.text))
    }
}

impl View for UrlType {
    type V = UrlView;

    open spec fn view(&self) -> UrlView {
        match self {
            UrlType::JSONJob(url) => UrlView { rank: 0, text: url@ },
            UrlType::Telegram(url) => UrlView { rank: 1, text: url@ },
            UrlType::YandexMap(url) => UrlView { rank: 2, text: url@ },
            UrlType::AppGallery(url) => UrlView { rank: 3, text: url@ },
            UrlType::GooglePlay(url) => UrlView { rank: 4, text: url@ },
            UrlType::RuStore(url) => UrlView { rank: 5, text: url@ },
            UrlType::AppleApp(url) => UrlView { rank: 6, text: url@ },
            UrlType::ImageUrl(url) => UrlView { rank: 7, text: url@ },
            UrlType::VK(url) => UrlView { rank: 8, text: url@ },
            UrlType::HH(url) => UrlView { rank: 9, text: url@ },
            UrlType::Other(url) => UrlView { rank: 10, text: url@ },
            UrlType::NoLink => UrlView { rank: 11, text: Seq::empty() },
        }
    }
}

impl UrlType {
    /// The rank of the link's kind.
    pub fn rank(&self) -> (rank: u8)
        ensures
            rank == self@.rank,
    {
        match self {
            UrlType::JSONJob(_) => 0,
            UrlType::Telegram(_) => 1,
            UrlType::YandexMap(_) => 2,
            UrlType::AppGallery(_) => 3,
            UrlType::GooglePlay(_) => 4,
            UrlType::RuStore(_) => 5,
            UrlType::AppleApp(_) => 6,
            UrlType::ImageUrl(_) => 7,
            UrlType::VK(_) => 8,
            UrlType::HH(_) => 9,
            UrlType::Other(_) => 10,
            UrlType::NoLink => 11,
        }
    }

    /// The text of the link; empty for no link.
    pub fn url(&self) -> (text: &str)
        ensures
            text@ == self@.text,
    {
        match self {
            UrlType::JSONJob(url) => url.as_str(),
            UrlType::Telegram(url) => url.as_str(),
            UrlType::YandexMap(url) => url.as_str(),
            UrlType::AppGallery(url) => url.as_str(),
            UrlType::GooglePlay(url) => url.as_str(),
            UrlType::RuStore(url) => url.as_str(),
            UrlType::AppleApp(url) => url.as_str(),
            UrlType::ImageUrl(url) => url.as_str(),
            UrlType::VK(url) => url.as_str(),
            UrlType::HH(url) => url.as_str(),
            UrlType::Other(url) => url.as_str(),
            UrlType::NoLink => {
                proof {
                    reveal_strlit("");
                }
                let text = "";
                assert(text@ =~= Seq::<char>::empty());
                text
            },
        }
    }

    /// Whether this link is preferred to another.
    pub fn is_before(&self, other: &UrlType) -> (before: bool)
        ensures
            before == self@.before(other@),
    {
        let mine = self.rank();
        let theirs = other.rank();
        mine < theirs || (mine == theirs && is_text_before(self.url(), other.url()))
    }

    /// The link of the first attachment, as a job's own link; no link where nothing is
    /// attached.
    pub fn from_attachments(attachments: &Vec<Attachment>) -> (link: UrlType)
        ensures
            link@ == if attachments@.len() > 0 {
                UrlView { rank: 0, text: attachments@[0].url@ }
            } else {
                UrlView { rank: 11, text: Seq::empty() }
            },
    {
        if attachments.len() > 0 {
            UrlType::JSONJob(attachments[0].url.clone())
        } else {
            UrlType::NoLink
        }
    }

    /// Tells the kind of a link.
    pub fn from_str(url: &str) -> (link: UrlType)
        ensures
            link@ == (UrlView { rank: classified_rank(url@), text: url@ }),
    {
        let lower = to_lowercase(url);
        let chars = chars_of(url);
        let length = chars.len();
        assert(chars@.subrange(0, length as int) =~= url@);
        match pattern_matches(IMAGE_PATTERN, lower.as_str()) {
            Some(true) => {
                return UrlType::ImageUrl(String::from_str(url));
            },
            _ => {},
        }
        if part_starts_with(&chars, 0, length, "https://vk.com/") {
            UrlType::VK(String::from_str(url))
        } else if part_starts_with(&chars, 0, length, "https://t.me/") {
            UrlType::Telegram(String::from_str(url))
        } else if part_starts_with(&chars, 0, length, "https://www.rustore.ru/") {
            UrlType::RuStore(String::from_str(url))
        } else if part_starts_with(&chars, 0, length, "https://apps.apple.com/") {
            UrlType::AppleApp(String::from_str(url))
        } else if part_starts_with(&chars, 0, length, "https://appgallery.huawei.com/") {
            UrlType::AppGallery(String::from_str(url))
        } else if part_starts_with(&chars, 0, length, "https://play.google.com/store/apps/") {
            UrlType::GooglePlay(String::from_str(url))
        } else if part_starts_with(&chars, 0, length, "https://yandex.ru/maps/") {
            UrlType::YandexMap(String::from_str(url))
        } else if part_starts_with(&chars, 0, length, "https://*.hh.ru/") {
            UrlType::HH(String::from_str(url))
        } else {
            UrlType::Other(String::from_str(url))
        }
    }
}

/// The pieces that a text falls into at its line feeds.
pub open spec fn lines_of(text: Seq<char>) -> Seq<Seq<char>>
    decreases text.len(),
{
    if text.len() == 0 {
        seq![Seq::empty()]
    } else if text.last() == '\n' {
        lines_of(text.drop_last()).push(Seq::empty())
    } else {
        let before = lines_of(text.drop_last());
        before.drop_last().push(before.last().push(text.last()))
    }
}

/// Whether a line is a link: it begins with `https://` or `http://`.
pub open spec fn is_link(line: Seq<char>) -> bool {
    "https://"@.is_prefix_of(line) || "http://"@.is_prefix_of(line)
}

/// The link that a line holds, once the white space at its ends is taken off.
pub open spec fn link_of(line: Seq<char>) -> Option<UrlView> {
    if is_link(trimmed(line)) {
        Some(UrlView { rank: classified_rank(trimmed(line)), text: trimmed(line) })
    } else {
        None
    }
}

/// The preferred one of two links, the first in a tie.
pub open spec fn preferred(first: Option<UrlView>, second: Option<UrlView>) -> Option<UrlView> {
    match (first, second) {
        (None, _) => second,
        (_, None) => first,
        (Some(a), Some(b)) => if b.before(a) {
            second
        } else {
            first
        },
    }
}

/// The preferred link among the lines.
pub open spec fn best_link(lines: Seq<Seq<char>>) -> Option<UrlView>
    decreases lines.len(),
{
    if lines.len() == 0 {
        None
    } else {
        preferred(best_link(lines.drop_last()), link_of(lines.last()))
    }
}

/// The preferred link among the lines is the link of a line, and the link of no line is
/// preferred to it.
pub proof fn lemma_best_link(lines: Seq<Seq<char>>)
    ensures
        best_link(lines) is None ==> forall|i: int|
            0 <= i < lines.len() ==> link_of(#[trigger] lines[i]) is None,
        best_link(lines) is Some ==> {
            &&& exists|i: int| 0 <= i < lines.len() && link_of(#[trigger] lines[i]) == best_link(lines)
            &&& forall|i: int|
                0 <= i < lines.len() && link_of(#[trigger] lines[i]) is Some ==> !link_of(
                    lines[i],
                )->0.before(best_link(lines)->0)
        },
    decreases lines.len(),
{
    if lines.len() > 0 {
        let front = lines.drop_last();
        lemma_best_link(front);
        let rest = best_link(front);
        let last = link_of(lines.last());
        assert forall|i: int| 0 <= i < front.len() implies front[i] == lines[i] by {}
        if rest is Some {
            let i = choose|i: int| 0 <= i < front.len() && link_of(#[trigger] front[i]) == rest;
            assert(link_of(lines[i]) == rest);
        }
        assert(lines[lines.len() - 1] == lines.last());
        if best_link(lines) is Some {
            let best = best_link(lines)->0;
            assert forall|i: int|
                0 <= i < lines.len() && link_of(#[trigger] lines[i]) is Some implies !link_of(
                lines[i],
            )->0.before(best) by {
                let x = link_of(lines[i])->0;
                if i < front.len() {
                    assert(link_of(front[i]) is Some);
                    assert(!x.before(rest->0));
                    if last is Some && last->0.before(rest->0) {
                        lemma_before_transitive(x, last->0, rest->0);
                    }
                } else {
                    if rest is Some && !last->0.before(rest->0) {
                    } else {
                        lemma_before_irreflexive(x);
                    }
                }
            }
        }
    }
}

/// No text comes before itself.
pub proof fn lemma_text_before_irreflexive(a: Seq<char>)
    ensures
        !text_before(a, a),
    decreases a.len(),
{
    if a.len() > 0 {
        lemma_text_before_irreflexive(a.drop_first());
    }
}

/// The order of texts is transitive.
pub proof fn lemma_text_before_transitive(a: Seq<char>, b: Seq<char>, c: Seq<char>)
    requires
        text_before(a, b),
        text_before(b, c),
    ensures
        text_before(a, c),
    decreases a.len(),
{
    if a.len() > 0 && b.len() > 0 && c.len() > 0 {
        if a[0] == b[0] && b[0] == c[0] {
            lemma_text_before_transitive(a.drop_first(), b.drop_first(), c.drop_first());
        }
    }
}

/// No link is preferred to itself.
pub proof fn lemma_before_irreflexive(a: UrlView)
    ensures
        !a.before(a),
{
    lemma_text_before_irreflexive(a.text);
}

/// If a link is preferred to a second, no link to which the second is preferred is
/// preferred to the first: preference never runs in a circle of three.
pub proof fn lemma_before_transitive(x: UrlView, a: UrlView, b: UrlView)
    requires
        a.before(b),
        !x.before(b),
    ensures
        !x.before(a),
{
    if x.before(a) {
        if x.rank == a.rank && a.rank == b.rank {
            lemma_text_before_transitive(x.text, a.text, b.text);
        }
    }
}

/// Reads the link of one line of a note, `chars[from..to]`, and keeps the preferred one
/// of it and `best`.
fn take_line(note: &str, chars: &Vec<char>, from: usize, to: usize, best: Option<UrlType>) -> (kept:
    Option<UrlType>)
    requires
        chars@ == note@,
        from <= to <= chars@.len(),
    ensures
        view_of(kept) == preferred(
            view_of(best),
            link_of(chars@.subrange(from as int, to as int)),
        ),
{
    let (start, end) = trim_bounds(chars, from, to);
    if !(part_starts_with(chars, start, end, "https://") || part_starts_with(
        chars,
        start,
        end,
        "http://",
    )) {
        return best;
    }
    let text = part_to_string(note, chars, start, end);
    let link = UrlType::from_str(text.as_str());
    match best {
        None => Some(link),
        Some(old) => {
            if link.is_before(&old) {
                Some(link)
            } else {
                Some(old)
            }
        },
    }
}

/// What a link, or none, stands for.
pub open spec fn view_of(link: Option<UrlType>) -> Option<UrlView> {
    match link {
        Some(l) => Some(l@),
        None => None,
    }
}

impl UrlType {
    /// The preferred link of a note: every line that begins with `https://` or `http://`,
    /// the white space at its ends apart, is a link; `None` where no line is.
    pub fn from_note(note: &str) -> (link: Option<UrlType>)
        ensures
            view_of(link) == best_link(lines_of(note@)),
    {
        let chars = chars_of(note);
        let mut best: Option<UrlType> = None;
        let mut start: usize = 0;
        let mut i: usize = 0;
        let ghost mut done: Seq<Seq<char>> = Seq::empty();
        assert(chars@.take(0) =~= Seq::<char>::empty());
        assert(chars@.subrange(0, 0) =~= Seq::<char>::empty());
        assert(lines_of(chars@.take(0)) =~= done.push(chars@.subrange(0, 0)));
        while i < chars.len()
            invariant
                chars@ == note@,
                start <= i <= chars@.len(),
                lines_of(chars@.take(i as int)) == done.push(
                    chars@.subrange(start as int, i as int),
                ),
                view_of(best) == best_link(done),
            decreases chars@.len() - i,
        {
            let ghost line = chars@.subrange(start as int, i as int);
            proof {
                assert(chars@.take(i + 1).drop_last() =~= chars@.take(i as int));
                assert(chars@.take(i + 1).last() == chars@[i as int]);
                assert(done.push(line).drop_last() =~= done);
                assert(done.push(line).last() == line);
            }
            if chars[i] == '\n' {
                best = take_line(note, &chars, start, i, best);
                proof {
                    done = done.push(line);
                    assert(done.drop_last() =~= done.subrange(0, done.len() - 1));
                    assert(chars@.subrange(i + 1, i + 1) =~= Seq::<char>::empty());
                    assert(done.drop_last().push(line) =~= done);
                }
                start = i + 1;
            } else {
                proof {
                    assert(line.push(chars@[i as int]) =~= chars@.subrange(
                        start as int,
                        i + 1,
                    ));
                }
            }
            i = i + 1;
        }
        let ghost line = chars@.subrange(start as int, i as int);
        let link = take_line(note, &chars, start, i, best);
        proof {
            assert(chars@.take(i as int) =~= chars@);
            assert(done.push(line).drop_last() =~= done);
            assert(done.push(line).last() == line);
        }
        link
    }
}

impl DataItem {
    /// The job of a request: for the logo of the request's number, at the link of the
    /// first attachment; `None` where nothing is attached.
    pub fn get_job(&self) -> (job: Option<LogoJob>)
        ensures
            self.attachments@.len() == 0 ==> job is None,
            self.attachments@.len() > 0 ==> job is Some && job->0.id == self.id && job->0.url@
                == self.attachments@[0].url@,
    {
        match UrlType::from_attachments(&self.attachments) {
            UrlType::JSONJob(url) => Some(LogoJob::new(self.id, url)),
            _ => None,
        }
    }
}

/// What is to be done with a link to have the job of logo `id`.
#[derive(Debug)]
pub enum UrlAction {
    /// The link is the job's link.
    Job(LogoJob),
    /// The page at the link is searched for an icon.
    Search(String),
    /// Nothing: the link gives no job.
    Nothing,
}

impl UrlType {
    /// Says what is to be done with the link to have the job of logo `id`: a page of any
    /// other place is searched for an icon; a link to an image, a channel, a map, a
    /// vacancy page or a store of applications is taken as it is, but for the two
    /// stores that give nothing; a job's own link and no link give nothing.
    pub fn process(&self, id: u32) -> (action: UrlAction)
        ensures
            match action {
                UrlAction::Job(job) => job.id == id && job.url@ == self@.text && (self@.rank == 1
                    || self@.rank == 2 || 5 <= self@.rank <= 9),
                UrlAction::Search(url) => url@ == self@.text && self@.rank == 10,
                UrlAction::Nothing => self@.rank == 0 || self@.rank == 3 || self@.rank == 4
                    || self@.rank == 11,
            },
    {
        match self {
            UrlType::Telegram(url) => UrlAction::Job(LogoJob::new(id, url.clone())),
            UrlType::VK(url) => UrlAction::Job(LogoJob::new(id, url.clone())),
            UrlType::RuStore(url) => UrlAction::Job(LogoJob::new(id, url.clone())),
            UrlType::AppleApp(url) => UrlAction::Job(LogoJob::new(id, url.clone())),
            UrlType::YandexMap(url) => UrlAction::Job(LogoJob::new(id, url.clone())),
            UrlType::ImageUrl(url) => UrlAction::Job(LogoJob::new(id, url.clone())),
            UrlType::HH(url) => UrlAction::Job(LogoJob::new(id, url.clone())),
            UrlType::Other(url) => UrlAction::Search(url.clone()),
            _ => UrlAction::Nothing,
        }
    }
}

/// An icon that a page offers.
#[derive(Debug)]
pub struct IconInfo {
    pub url: String,
    pub icon_type: String,
    /// The sizes of the icon, as the page states them.
    pub sizes: Option<String>,
    /// The priority of the place where the icon was found.
    pub priority: u8,
}

/// The pieces that a text falls into at its white space.
pub open spec fn words_of(text: Seq<char>) -> Seq<Seq<char>>
    decreases text.len(),
{
    if text.len() == 0 {
        seq![Seq::empty()]
    } else if is_space_spec(text.last()) {
        words_of(text.drop_last()).push(Seq::empty())
    } else {
        let before = words_of(text.drop_last());
        before.drop_last().push(before.last().push(text.last()))
    }
}

/// How many times `x` stands in a word.
pub open spec fn count_x(word: Seq<char>) -> nat
    decreases word.len(),
{
    if word.len() == 0 {
        0
    } else {
        count_x(word.drop_last()) + if word.last() == 'x' {
            1nat
        } else {
            0nat
        }
    }
}

/// The width that a word of the form width, `x`, height states; `None` for a word of
/// another form, or whose width is no number.
pub open spec fn width_of_word(word: Seq<char>) -> Option<u32> {
    if count_x(word) == 1 {
        parsed_u32(word.subrange(0, word.index_of('x')))
    } else {
        None
    }
}

/// The greater of two widths, where there are any.
pub open spec fn wider(first: Option<u32>, second: Option<u32>) -> Option<u32> {
    match (first, second) {
        (None, _) => second,
        (_, None) => first,
        (Some(a), Some(b)) => if b > a {
            second
        } else {
            first
        },
    }
}

/// The greatest width that the words state.
pub open spec fn widest(words: Seq<Seq<char>>) -> Option<u32>
    decreases words.len(),
{
    if words.len() == 0 {
        None
    } else {
        wider(widest(words.drop_last()), width_of_word(words.last()))
    }
}

/// A word with `x` at two places holds at least two of them.
proof fn lemma_count_x(word: Seq<char>, a: int, b: int)
    requires
        0 <= a <= b < word.len(),
        word[a] == 'x',
        word[b] == 'x',
    ensures
        count_x(word) >= 1,
        a < b ==> count_x(word) >= 2,
    decreases word.len(),
{
    if b == word.len() - 1 {
        if a < b {
            lemma_count_x(word.drop_last(), a, a);
        }
    } else {
        lemma_count_x(word.drop_last(), a, b);
    }
}

/// Reads the width that one word, `chars[from..to]`, states.
fn word_width(chars: &Vec<char>, from: usize, to: usize) -> (width: Option<u32>)
    requires
        from <= to <= chars@.len(),
    ensures
        width == width_of_word(chars@.subrange(from as int, to as int)),
{
    let ghost word = chars@.subrange(from as int, to as int);
    let mut count: usize = 0;
    let mut first: usize = to;
    let mut i: usize = from;
    assert(word.take(0) =~= Seq::<char>::empty());
    while i < to
        invariant
            from <= i <= to <= chars@.len(),
            word == chars@.subrange(from as int, to as int),
            count == count_x(word.take(i - from)),
            count <= i - from,
            count == 0 ==> first == to && forall|j: int| 0 <= j < i - from ==> word[j] != 'x',
            count > 0 ==> from <= first < i && word[first - from] == 'x' && forall|j: int|
                0 <= j < first - from ==> word[j] != 'x',
        decreases to - i,
    {
        proof {
            assert(word.take(i - from + 1).drop_last() =~= word.take(i - from));
            assert(word.take(i - from + 1).last() == chars@[i as int]);
        }
        if chars[i] == 'x' {
            if count == 0 {
                first = i;
            }
            count = count + 1;
        }
        i = i + 1;
    }
    assert(word.take(to - from) =~= word);
    if count == 1 {
        proof {
            assert(word.contains('x')) by {
                assert(word[first - from] == 'x');
            }
            assert(word.index_of('x') == first - from) by {
                let k = word.index_of('x');
                assert(0 <= k < word.len() && word[k] == 'x');
                if k < first - from {
                    assert(word[k] != 'x');
                }
                if k > first - from {
                    lemma_count_x(word, first - from, k);
                }
            }
            assert(word.subrange(0, first - from) =~= chars@.subrange(
                from as int,
                first as int,
            ));
        }
        parse_u32(chars, from, first)
    } else {
        None
    }
}

/// The greater of two widths, where there are any.
fn pick_wider(first: Option<u32>, second: Option<u32>) -> (picked: Option<u32>)
    ensures
        picked == wider(first, second),
{
    match (first, second) {
        (None, _) => second,
        (_, None) => first,
        (Some(a), Some(b)) => if b > a {
            second
        } else {
            first
        },
    }
}

/// The greatest width among the sizes that a text states, such as `32x32 64x64`; `None`
/// where it states none.
pub fn parse_size(sizes: &str) -> (width: Option<u32>)
    ensures
        width == widest(words_of(sizes@)),
{
    let chars = chars_of(sizes);
    let mut best: Option<u32> = None;
    let mut start: usize = 0;
    let mut i: usize = 0;
    let ghost mut done: Seq<Seq<char>> = Seq::empty();
    assert(chars@.take(0) =~= Seq::<char>::empty());
    assert(chars@.subrange(0, 0) =~= Seq::<char>::empty());
    assert(words_of(chars@.take(0)) =~= done.push(chars@.subrange(0, 0)));
    while i < chars.len()
        invariant
            chars@ == sizes@,
            start <= i <= chars@.len(),
            words_of(chars@.take(i as int)) == done.push(chars@.subrange(start as int, i as int)),
            best == widest(done),
        decreases chars@.len() - i,
    {
        let ghost word = chars@.subrange(start as int, i as int);
        proof {
            assert(chars@.take(i + 1).drop_last() =~= chars@.take(i as int));
            assert(chars@.take(i + 1).last() == chars@[i as int]);
            assert(done.push(word).drop_last() =~= done);
            assert(done.push(word).last() == word);
        }
        if is_space(chars[i]) {
            let width = word_width(&chars, start, i);
            best = pick_wider(best, width);
            proof {
                done = done.push(word);
                assert(chars@.subrange(i + 1, i + 1) =~= Seq::<char>::empty());
                assert(done.drop_last().push(word) =~= done);
            }
            start = i + 1;
        } else {
            proof {
                assert(word.push(chars@[i as int]) =~= chars@.subrange(start as int, i + 1));
            }
        }
        i = i + 1;
    }
    let ghost word = chars@.subrange(start as int, i as int);
    let width = word_width(&chars, start, i);
    proof {
        assert(chars@.take(i as int) =~= chars@);
        assert(done.push(word).drop_last() =~= done);
        assert(done.push(word).last() == word);
    }
    pick_wider(best, width)
}

/// The size of an icon: the greatest width that its sizes state, 0 where they state
/// none.
pub open spec fn icon_size(icon: IconInfo) -> u32 {
    match icon.sizes {
        Some(sizes) => match widest(words_of(sizes@)) {
            Some(width) => width,
            None => 0,
        },
        None => 0,
    }
}

/// Whether the first icon is lower than the second: by priority, then by size.
pub open spec fn icon_below(a: IconInfo, b: IconInfo) -> bool {
    a.priority < b.priority || (a.priority == b.priority && icon_size(a) < icon_size(b))
}

/// Whether `index` is the place of the icon that is selected: no icon is lower, and
/// every later icon is higher.
pub open spec fn is_selected_icon(icons: Seq<IconInfo>, index: int) -> bool {
    &&& 0 <= index < icons.len()
    &&& forall|j: int| 0 <= j < icons.len() ==> !icon_below(#[trigger] icons[j], icons[index])
    &&& forall|j: int| index < j < icons.len() ==> icon_below(icons[index], #[trigger] icons[j])
}

/// The size of an icon.
fn size_of_icon(icon: &IconInfo) -> (size: u32)
    ensures
        size == icon_size(*icon),
{
    match &icon.sizes {
        Some(sizes) => match parse_size(sizes.as_str()) {
            Some(width) => width,
            None => 0,
        },
        None => 0,
    }
}

/// The place of the icon that is selected among those that a page offers: the lowest by
/// priority, then by size, and the last of those that are equally low. `None` where the
/// page offers none.
pub fn select_best_icon_index(icons: &Vec<IconInfo>) -> (selected: Option<usize>)
    ensures
        icons@.len() == 0 ==> selected is None,
        icons@.len() > 0 ==> selected is Some && is_selected_icon(icons@, selected->0 as int),
{
    if icons.len() == 0 {
        return None;
    }
    let mut best: usize = 0;
    let mut best_size: u32 = size_of_icon(&icons[0]);
    let mut i: usize = 1;
    while i < icons.len()
        invariant
            1 <= i <= icons@.len(),
            best < i,
            best_size == icon_size(icons@[best as int]),
            forall|j: int| 0 <= j < i ==> !icon_below(#[trigger] icons@[j], icons@[best as int]),
            forall|j: int| best < j < i ==> icon_below(icons@[best as int], #[trigger] icons@[j]),
        decreases icons@.len() - i,
    {
        let size = size_of_icon(&icons[i]);
        let higher = icons[best].priority < icons[i].priority || (icons[best].priority
            == icons[i].priority && best_size < size);
        if !higher {
            proof {
                let old_best = icons@[best as int];
                let next = icons@[i as int];
                assert(!icon_below(old_best, next));
                assert forall|j: int| 0 <= j < i + 1 implies !icon_below(
                    #[trigger] icons@[j],
                    next,
                ) by {
                    if j < i {
                        assert(!icon_below(icons@[j], old_best));
                    }
                }
            }
            best = i;
            best_size = size;
        }
        i = i + 1;
    }
    Some(best)
}

/// The icon that is selected among those that a page offers.
pub fn select_best_icon(icons: &Vec<IconInfo>) -> (selected: Option<&IconInfo>)
    ensures
        icons@.len() == 0 ==> selected is None,
        icons@.len() > 0 ==> selected is Some && exists|index: int|
            is_selected_icon(icons@, index) && *selected->0 == #[trigger] icons@[index],
{
    match select_best_icon_index(icons) {
        Some(index) => Some(&icons[index]),
        None => None,
    }
}

/// Which of the elements that a selector finds offer an icon.
#[derive(Clone, Copy, Debug, PartialEq, Eq, Structural)]
pub enum IconFilter {
    /// Every element.
    Any,
    /// An image whose alternative text speaks of a logo.
    LogoAlt,
    /// An image whose address speaks of no banner, advertisement or spacer.
    PlainImage,
}

/// A place on a page where icons are looked for.
#[derive(Clone, Copy, Debug)]
pub struct IconSource {
    /// The priority of the icons that are found here.
    pub priority: u8,
    /// The selector of the elements.
    pub selector: &'static str,
    /// The attribute that holds the icon's address.
    pub attribute: &'static str,
    /// The kind that is noted for the icons.
    pub icon_type: &'static str,
    pub filter: IconFilter,
}

/// The number of places where icons are looked for.
pub const ICON_SOURCE_COUNT: usize = 13;

/// The place that is searched at turn `index`: the page's own statements of its image
/// and icons first, then images that are called a logo, images in the page's head and
/// navigation, and last any image.
pub open spec fn icon_source_of(index: int) -> (u8, Seq<char>, Seq<char>, Seq<char>, IconFilter) {
    if index == 0 {
        (10, "meta[property='og:image']"@, "content"@, "og:image"@, IconFilter::Any)
    } else if index == 1 {
        (9, "meta[name='twitter:image']"@, "content"@, "twitter:image"@, IconFilter::Any)
    } else if index == 2 {
        (8, "link[rel='apple-touch-icon']"@, "href"@, "apple-touch-icon"@, IconFilter::Any)
    } else if index == 3 {
        (7, "link[rel='mask-icon']"@, "href"@, "mask-icon"@, IconFilter::Any)
    } else if index == 4 {
        (6, "link[rel='fluid-icon']"@, "href"@, "fluid-icon"@, IconFilter::Any)
    } else if index == 5 {
        (5, "link[rel='icon']"@, "href"@, "icon"@, IconFilter::Any)
    } else if index == 6 {
        (4, "link[rel='shortcut icon']"@, "href"@, "shortcut icon"@, IconFilter::Any)
    } else if index == 7 {
        (3, "img[alt]"@, "src"@, "logo-alt"@, IconFilter::LogoAlt)
    } else if index == 8 {
        (2, "header img"@, "src"@, "header-logo"@, IconFilter::Any)
    } else if index == 9 {
        (2, "nav img"@, "src"@, "header-logo"@, IconFilter::Any)
    } else if index == 10 {
        (2, ".logo img"@, "src"@, "header-logo"@, IconFilter::Any)
    } else if index == 11 {
        (2, "[class*='logo'] img"@, "src"@, "header-logo"@, IconFilter::Any)
    } else {
        (1, "img[src]"@, "src"@, "image"@, IconFilter::PlainImage)
    }
}

/// The place that is searched at turn `index`.
pub fn icon_source(index: usize) -> (source: IconSource)
    requires
        index < ICON_SOURCE_COUNT,
    ensures
        (
            source.priority,
            source.selector@,
            source.attribute@,
            source.icon_type@,
            source.filter,
        ) == icon_source_of(index as int),
{
    let any = IconFilter::Any;
    if index == 0 {
        IconSource {
            priority: 10,
            selector: "meta[property='og:image']",
            attribute: "content",
            icon_type: "og:image",
            filter: any,
        }
    } else if index == 1 {
        IconSource {
            priority: 9,
            selector: "meta[name='twitter:image']",
            attribute: "content",
            icon_type: "twitter:image",
            filter: any,
        }
    } else if index == 2 {
        IconSource {
            priority: 8,
            selector: "link[rel='apple-touch-icon']",
            attribute: "href",
            icon_type: "apple-touch-icon",
            filter: any,
        }
    } else if index == 3 {
        IconSource {
            priority: 7,
            selector: "link[rel='mask-icon']",
            attribute: "href",
            icon_type: "mask-icon",
            filter: any,
        }
    } else if index == 4 {
        IconSource {
            priority: 6,
            selector: "link[rel='fluid-icon']",
            attribute: "href",
            icon_type: "fluid-icon",
            filter: any,
        }
    } else if index == 5 {
        IconSource {
            priority: 5,
            selector: "link[rel='icon']",
            attribute: "href",
            icon_type: "icon",
            filter: any,
        }
    } else if index == 6 {
        IconSource {
            priority: 4,
            selector: "link[rel='shortcut icon']",
            attribute: "href",
            icon_type: "shortcut icon",
            filter: any,
        }
    } else if index == 7 {
        IconSource {
            priority: 3,
            selector: "img[alt]",
            attribute: "src",
            icon_type: "logo-alt",
            filter: IconFilter::LogoAlt,
        }
    } else if index == 8 {
        IconSource {
            priority: 2,
            selector: "header img",
            attribute: "src",
            icon_type: "header-logo",
            filter: any,
        }
    } else if index == 9 {
        IconSource {
            priority: 2,
            selector: "nav img",
            attribute: "src",
            icon_type: "header-logo",
            filter: any,
        }
    } else if index == 10 {
        IconSource {
            priority: 2,
            selector: ".logo img",
            attribute: "src",
            icon_type: "header-logo",
            filter: any,
        }
    } else if index == 11 {
        IconSource {
            priority: 2,
            selector: "[class*='logo'] img",
            attribute: "src",
            icon_type: "header-logo",
            filter: any,
        }
    } else {
        IconSource {
            priority: 1,
            selector: "img[src]",
            attribute: "src",
            icon_type: "image",
            filter: IconFilter::PlainImage,
        }
    }
}

/// Whether an element offers an icon under a filter, by its alternative text, if it has
/// one, and the address of its image.
pub open spec fn passes_filter(filter: IconFilter, alt: Option<Seq<char>>, address: Seq<char>)
    -> bool {
    match filter {
        IconFilter::Any => true,
        IconFilter::LogoAlt => match alt {
            Some(words) => contains_text(lowercase_of(words), "logo"@) || contains_text(
                lowercase_of(words),
                "логотип"@,
            ),
            None => false,
        },
        IconFilter::PlainImage => !contains_text(address, "banner"@) && !contains_text(
            address,
            "ad"@,
        ) && !contains_text(address, "1x1"@),
    }
}

/// Whether an element offers an icon under a filter.
pub fn icon_passes(filter: IconFilter, alt: Option<&str>, address: &str) -> (passes: bool)
    ensures
        passes == passes_filter(
            filter,
            match alt {
                Some(words) => Some(words@),
                None => None,
            },
            address@,
        ),
{
    match filter {
        IconFilter::Any => true,
        IconFilter::LogoAlt => match alt {
            Some(words) => {
                let lower = to_lowercase(words);
                text_contains(lower.as_str(), "logo") || text_contains(lower.as_str(), "логотип")
            },
            None => false,
        },
        IconFilter::PlainImage => !text_contains(address, "banner") && !text_contains(
            address,
            "ad",
        ) && !text_contains(address, "1x1"),
    }
}

} // verus!


