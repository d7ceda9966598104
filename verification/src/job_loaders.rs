//! The jobs of a batch: one logo each, known by a number.

use crate::parsers::Data;
use crate::text::{chars_of, lowercase_of, parse_u32, parsed_u32, part_to_string, same_text, to_lowercase};
use vstd::prelude::*;

verus! {

/// One unit of work: the logo with number `id`, to be had from `url`. The number is the
/// stem of the name of every file made for the logo.
#[derive(Debug, Clone)]
pub struct LogoJob {
    pub url: String,
    pub id: u32,
}

impl LogoJob {
    /// The job for logo `id` at `url`.
    pub fn new(id: u32, url: String) -> (job: LogoJob)
        ensures
            job.id == id,
            job.url == url,
    {
        Self { id, url }
    }
}

/// The jobs of a batch, in the order in which they were found.
#[derive(Debug, Clone)]
pub struct Jobs {
    pub logos: Vec<LogoJob>,
}

impl Jobs {
    /// The batch without jobs.
    pub fn empty() -> (jobs: Jobs)
        ensures
            jobs.logos@.len() == 0,
    {
        Self { logos: Vec::new() }
    }
}

/// The link of a job that is made for an image file.
pub const EMPTY_URL: &'static str = "None url";

/// What a job is made of: the number of its logo and the text of its link.
pub open spec fn job_view(job: LogoJob) -> (u32, Seq<char>) {
    (job.id, job.url@)
}

/// The jobs of a list of requests: one for every request with an attachment, in the
/// order of the requests, at the link of the first attachment.
pub open spec fn jobs_of(items: Seq<crate::parsers::DataItem>) -> Seq<(u32, Seq<char>)>
    decreases items.len(),
{
    if items.len() == 0 {
        Seq::empty()
    } else if items.last().attachments@.len() > 0 {
        jobs_of(items.drop_last()).push((items.last().id, items.last().attachments@[0].url@))
    } else {
        jobs_of(items.drop_last())
    }
}

/// Where the extension of a file name begins: after its last dot, unless the name has
/// no dot or only begins with its last one.
pub open spec fn last_dot(name: Seq<char>) -> Option<int>
    decreases name.len(),
{
    if name.len() <= 1 {
        None
    } else if name.last() == '.' {
        Some(name.len() - 1)
    } else {
        last_dot(name.drop_last())
    }
}

/// Whether a text in lower case is the extension of an image file from which jobs are
/// made.
pub open spec fn is_job_extension(lower: Seq<char>) -> bool {
    lower == "jpg"@ || lower == "jpeg"@ || lower == "png"@ || lower == "gif"@ || lower == "webp"@
}

/// The number of the logo that a file name stands for: the name up to its extension,
/// read as a number, where the extension is that of an image or there is none.
pub open spec fn logo_number(name: Seq<char>) -> Option<u32> {
    match last_dot(name) {
        Some(dot) => if is_job_extension(lowercase_of(name.subrange(dot + 1, name.len() as int))) {
            parsed_u32(name.subrange(0, dot))
        } else {
            None
        },
        None => parsed_u32(name),
    }
}

/// Finds the last dot of `chars` that is not its first character.
fn find_last_dot(chars: &Vec<char>) -> (dot: Option<usize>)
    ensures
        match dot {
            Some(d) => last_dot(chars@) == Some(d as int) && 0 < d < chars@.len(),
            None => last_dot(chars@) is None,
        },
{
    let mut end: usize = chars.len();
    assert(chars@.take(end as int) =~= chars@);
    while end > 1
        invariant
            end <= chars@.len(),
            last_dot(chars@) == last_dot(chars@.take(end as int)),
        decreases end,
    {
        proof {
            assert(chars@.take(end as int).drop_last() =~= chars@.take(end - 1));
            assert(chars@.take(end as int).last() == chars@[end - 1]);
        }
        if chars[end - 1] == '.' {
            return Some(end - 1);
        }
        end = end - 1;
    }
    None
}

/// The number of the logo that the name of an image file stands for: as `logo_number`,
/// but a name without extension stands for none.
pub open spec fn image_number(name: Seq<char>) -> Option<u32> {
    match last_dot(name) {
        Some(_) => logo_number(name),
        None => None,
    }
}

/// The number that a file name stands for, with or without the demand for an extension.
pub open spec fn number_of_name(name: Seq<char>, extension_needed: bool) -> Option<u32> {
    if extension_needed {
        image_number(name)
    } else {
        logo_number(name)
    }
}

/// Reads the number of the logo that a file name stands for.
fn read_logo_number(name: &str, extension_needed: bool) -> (number: Option<u32>)
    ensures
        number == number_of_name(name@, extension_needed),
{
    let chars = chars_of(name);
    let length = chars.len();
    match find_last_dot(&chars) {
        Some(dot) => {
            let extension = part_to_string(name, &chars, dot + 1, length);
            let lower = to_lowercase(extension.as_str());
            let known = same_text(lower.as_str(), "jpg") || same_text(lower.as_str(), "jpeg")
                || same_text(lower.as_str(), "png") || same_text(lower.as_str(), "gif")
                || same_text(lower.as_str(), "webp");
            if known {
                parse_u32(&chars, 0, dot)
            } else {
                None
            }
        },
        None => {
            if extension_needed {
                None
            } else {
                assert(chars@.subrange(0, length as int) =~= chars@);
                parse_u32(&chars, 0, length)
            }
        },
    }
}

impl LogoJob {
    /// The job that is made for an image file of the given name, with `EMPTY_URL` for its
    /// link; `None` where the name stands for no logo.
    pub fn from_file_name(name: &str) -> (job: Option<LogoJob>)
        ensures
            match job {
                Some(j) => logo_number(name@) == Some(j.id) && j.url@ == EMPTY_URL@,
                None => logo_number(name@) is None,
            },
    {
        match read_logo_number(name, false) {
            Some(id) => Some(LogoJob::new(id, String::from_str(EMPTY_URL))),
            None => None,
        }
    }
}

/// The numbers that the names of files stand for, in the order of the names.
pub open spec fn numbers_of(names: Seq<String>, extension_needed: bool) -> Seq<u32>
    decreases names.len(),
{
    if names.len() == 0 {
        Seq::empty()
    } else {
        match number_of_name(names.last()@, extension_needed) {
            Some(id) => numbers_of(names.drop_last(), extension_needed).push(id),
            None => numbers_of(names.drop_last(), extension_needed),
        }
    }
}

/// The numbers of the logos of a sequence of jobs.
pub open spec fn ids_of(logos: Seq<LogoJob>) -> Seq<u32> {
    logos.map_values(|job: LogoJob| job.id)
}

/// Whether every job has `EMPTY_URL` for its link.
pub open spec fn all_without_link(logos: Seq<LogoJob>) -> bool {
    forall|i: int| 0 <= i < logos.len() ==> (#[trigger] logos[i]).url@ == EMPTY_URL@
}

/// Whether the jobs stand in the order of their numbers.
pub open spec fn sorted_by_id(logos: Seq<LogoJob>) -> bool {
    forall|i: int, j: int| 0 <= i <= j < logos.len() ==> logos[i].id <= logos[j].id
}

/// Makes the jobs for the files of the given names, in the order of the names.
fn jobs_for_names(names: &Vec<String>, extension_needed: bool) -> (logos: Vec<LogoJob>)
    ensures
        ids_of(logos@) == numbers_of(names@, extension_needed),
        all_without_link(logos@),
{
    let mut logos: Vec<LogoJob> = Vec::new();
    let mut i: usize = 0;
    assert(names@.take(0) =~= Seq::<String>::empty());
    assert(ids_of(logos@) =~= Seq::<u32>::empty());
    while i < names.len()
        invariant
            i <= names@.len(),
            ids_of(logos@) == numbers_of(names@.take(i as int), extension_needed),
            all_without_link(logos@),
        decreases names@.len() - i,
    {
        let ghost before = logos@;
        proof {
            assert(names@.take(i + 1).drop_last() =~= names@.take(i as int));
            assert(names@.take(i + 1).last() == names@[i as int]);
        }
        match read_logo_number(names[i].as_str(), extension_needed) {
            Some(id) => {
                logos.push(LogoJob::new(id, String::from_str(EMPTY_URL)));
                assert(ids_of(logos@) =~= ids_of(before).push(id));
            },
            None => {},
        }
        i = i + 1;
    }
    assert(names@.take(names@.len() as int) =~= names@);
    logos
}

/// Puts jobs in the order of their numbers with `slice::sort_by_key`: the same jobs,
/// each as often as before.
#[verifier::external_body]
fn sort_by_id(logos: &mut Vec<LogoJob>)
    ensures
        sorted_by_id(final(logos)@),
        final(logos)@.to_multiset() == old(logos)@.to_multiset(),
{
    logos.sort_by_key(|job| job.id);
}

/// Whether `logos` are the jobs for the image files of the given names, in the order of
/// their numbers: they are some arrangement of the jobs in the order of the names.
pub open spec fn is_generated_from(logos: Seq<LogoJob>, names: Seq<String>) -> bool {
    &&& sorted_by_id(logos)
    &&& all_without_link(logos)
    &&& exists|found: Seq<LogoJob>|
        {
            &&& ids_of(found) == numbers_of(names, true)
            &&& #[trigger] found.to_multiset() == logos.to_multiset()
        }
}

/// Makes a job, with `EMPTY_URL` for its link, for every name of an image file that
/// stands for a logo, and puts the jobs in the order of their numbers.
pub fn generate_job(names: &Vec<String>) -> (logos: Vec<LogoJob>)
    ensures
        is_generated_from(logos@, names@),
{
    let mut logos = jobs_for_names(names, true);
    let ghost found = logos@;
    sort_by_id(&mut logos);
    proof {
        found.to_multiset_ensures();
        logos@.to_multiset_ensures();
        assert forall|i: int| 0 <= i < logos@.len() implies (#[trigger] logos@[i]).url@
            == EMPTY_URL@ by {
            let job = logos@[i];
            assert(logos@.contains(job));
            assert(found.to_multiset().count(job) > 0);
            assert(found.contains(job));
            let j = choose|j: int| 0 <= j < found.len() && found[j] == job;
            assert(found[j].url@ == EMPTY_URL@);
        }
        assert(found.to_multiset() == logos@.to_multiset());
    }
    logos
}

impl Jobs {
    /// What the jobs of the batch are made of, in order.
    pub open spec fn views(self) -> Seq<(u32, Seq<char>)> {
        self.logos@.map_values(|job: LogoJob| job_view(job))
    }

    /// The jobs for the files of the given names, in the order of the names: one, with
    /// `EMPTY_URL` for its link, for every name that stands for a logo.
    pub fn from_file_names(names: &Vec<String>) -> (jobs: Jobs)
        ensures
            ids_of(jobs.logos@) == numbers_of(names@, false),
            all_without_link(jobs.logos@),
    {
        Jobs { logos: jobs_for_names(names, false) }
    }

    /// The jobs of a list of requests.
    pub fn json_to_jobs(root: &Data) -> (jobs: Jobs)
        ensures
            jobs.views() == jobs_of(root.data@),
    {
        let mut logos: Vec<LogoJob> = Vec::new();
        let mut i: usize = 0;
        assert(root.data@.take(0) =~= Seq::<crate::parsers::DataItem>::empty());
        while i < root.data.len()
            invariant
                i <= root.data@.len(),
                logos@.map_values(|job: LogoJob| job_view(job)) == jobs_of(
                    root.data@.take(i as int),
                ),
            decreases root.data@.len() - i,
        {
            let ghost before = logos@;
            proof {
                assert(root.data@.take(i + 1).drop_last() =~= root.data@.take(i as int));
                assert(root.data@.take(i + 1).last() == root.data@[i as int]);
            }
            match root.data[i].get_job() {
                Some(job) => {
                    logos.push(job);
                    assert(logos@.map_values(|job: LogoJob| job_view(job)) =~= before.map_values(
                        |job: LogoJob| job_view(job),
                    ).push(job_view(job)));
                },
                None => {},
            }
            i = i + 1;
        }
        assert(root.data@.take(root.data@.len() as int) =~= root.data@);
        Jobs { logos }
    }
}

} // verus!

