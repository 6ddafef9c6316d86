//! On-demand refresh of the named feeds, and the summary of what is cached.
//!
//! Fetching a feed is the caller's work. The library reads the list of
//! names, decides which feeds are meant, and says afterwards which of them
//! succeeded.
use vstd::prelude::*;

use crate::models::IssPosition;
use crate::sample_cache::{latest_of, SampleCache, SourceSample, SourceSampleView};
use crate::text::{lowercase, lowercase_of, split, split_commas, str_eq, texts, trim, trimmed};

verus! {

/// The feeds refreshed where no list is given.
pub const DEFAULT_SOURCES: &'static str = "apod,neo,flr,cme,spacex";

/// A feed that can be refreshed on demand.
#[derive(Clone, Copy, Debug, PartialEq, Eq, Structural)]
pub enum FeedSource {
    Apod,
    Neo,
    Flr,
    Cme,
    Spacex,
}

impl FeedSource {
    /// The name under which the feed is cached.
    pub open spec fn name_spec(self) -> Seq<char> {
        match self {
            FeedSource::Apod => "apod"@,
            FeedSource::Neo => "neo"@,
            FeedSource::Flr => "flr"@,
            FeedSource::Cme => "cme"@,
            FeedSource::Spacex => "spacex"@,
        }
    }

    /// The feed that a name denotes, if it denotes one.
    pub open spec fn of_name(name: Seq<char>) -> Option<FeedSource> {
        if name == "apod"@ {
            Some(FeedSource::Apod)
        } else if name == "neo"@ {
            Some(FeedSource::Neo)
        } else if name == "flr"@ {
            Some(FeedSource::Flr)
        } else if name == "cme"@ {
            Some(FeedSource::Cme)
        } else if name == "spacex"@ {
            Some(FeedSource::Spacex)
        } else {
            None
        }
    }

    pub fn name(&self) -> (r: &'static str)
        ensures
            r@ == self.name_spec(),
    {
        match self {
            FeedSource::Apod => "apod",
            FeedSource::Neo => "neo",
            FeedSource::Flr => "flr",
            FeedSource::Cme => "cme",
            FeedSource::Spacex => "spacex",
        }
    }

    /// The feed that a name denotes. Names are matched as they stand.
    pub fn from_name(name: &str) -> (r: Option<FeedSource>)
        ensures
            r == FeedSource::of_name(name@),
    {
        if str_eq(name, "apod") {
            Some(FeedSource::Apod)
        } else if str_eq(name, "neo") {
            Some(FeedSource::Neo)
        } else if str_eq(name, "flr") {
            Some(FeedSource::Flr)
        } else if str_eq(name, "cme") {
            Some(FeedSource::Cme)
        } else if str_eq(name, "spacex") {
            Some(FeedSource::Spacex)
        } else {
            None
        }
    }
}

/// A piece of a list as a name: without the white space around it, in lower
/// case.
pub open spec fn cleaned(piece: Seq<char>) -> Seq<char> {
    lowercase_of(trimmed(piece))
}

/// The names that a run of pieces gives: each cleaned, the empty ones left
/// out.
pub open spec fn names_of(pieces: Seq<Seq<char>>) -> Seq<Seq<char>>
    decreases pieces.len(),
{
    if pieces.len() == 0 {
        Seq::empty()
    } else {
        let before = names_of(pieces.drop_last());
        let name = cleaned(pieces.last());
        if name.len() > 0 {
            before.push(name)
        } else {
            before
        }
    }
}

/// The names in a comma-separated list.
pub open spec fn listed_names(list: Seq<char>) -> Seq<Seq<char>> {
    names_of(split(list, ','))
}

/// The feeds that a run of names denotes, in order; a name that denotes none
/// is left out.
pub open spec fn targets_of(names: Seq<Seq<char>>) -> Seq<FeedSource>
    decreases names.len(),
{
    if names.len() == 0 {
        Seq::empty()
    } else {
        let before = targets_of(names.drop_last());
        match FeedSource::of_name(names.last()) {
            Some(f) => before.push(f),
            None => before,
        }
    }
}

/// The names of the feeds whose refresh succeeded, in order. A feed without
/// an outcome counts as failed.
pub open spec fn succeeded(targets: Seq<FeedSource>, outcomes: Seq<bool>) -> Seq<Seq<char>>
    decreases targets.len(),
{
    if targets.len() == 0 {
        Seq::empty()
    } else {
        let before = succeeded(targets.drop_last(), outcomes);
        if targets.len() <= outcomes.len() && outcomes[targets.len() - 1] {
            before.push(targets.last().name_spec())
        } else {
            before
        }
    }
}

/// The views of a run of static texts.
pub open spec fn static_texts(v: Seq<&'static str>) -> Seq<Seq<char>> {
    v.map_values(|x: &'static str| x@)
}

/// The views of a run of borrowed texts.
pub open spec fn borrowed_texts(v: Seq<&str>) -> Seq<Seq<char>> {
    v.map_values(|x: &str| x@)
}

/// Reads the names from a comma-separated list: each piece is trimmed and
/// put in lower case, and empty pieces are dropped.
pub fn parse_sources(list: &str) -> (r: Vec<String>)
    ensures
        texts(r@) == listed_names(list@),
{
    let pieces = split_commas(list);
    let mut out: Vec<String> = Vec::new();
    let mut i: usize = 0;
    assert(texts(pieces@).take(0) =~= Seq::empty());
    assert(texts(out@) =~= Seq::empty());
    while i < pieces.len()
        invariant
            i <= pieces.len(),
            texts(pieces@) == split(list@, ','),
            texts(out@) == names_of(texts(pieces@).take(i as int)),
        decreases pieces.len() - i,
    {
        let t = trim(pieces[i].as_str());
        let name = lowercase(t.as_str());
        proof {
            let upto = texts(pieces@).take(i as int + 1);
            assert(upto.drop_last() =~= texts(pieces@).take(i as int));
            assert(upto.last() == pieces@[i as int]@);
        }
        if !name.as_str().is_empty() {
            let ghost before = texts(out@);
            out.push(name);
            assert(texts(out@) =~= before.push(name@));
        }
        i += 1;
    }
    assert(texts(pieces@).take(pieces@.len() as int) =~= texts(pieces@));
    out
}

/// The feeds that a run of names denotes, in order. A name that denotes no
/// feed is passed over.
pub fn refresh_targets(sources: &[&str]) -> (r: Vec<FeedSource>)
    ensures
        r@ == targets_of(borrowed_texts(sources@)),
{
    let mut out: Vec<FeedSource> = Vec::new();
    let mut i: usize = 0;
    assert(borrowed_texts(sources@).take(0) =~= Seq::empty());
    while i < sources.len()
        invariant
            i <= sources.len(),
            out@ == targets_of(borrowed_texts(sources@).take(i as int)),
        decreases sources.len() - i,
    {
        proof {
            let upto = borrowed_texts(sources@).take(i as int + 1);
            assert(upto.drop_last() =~= borrowed_texts(sources@).take(i as int));
            assert(upto.last() == sources@[i as int]@);
        }
        match FeedSource::from_name(sources[i]) {
            Some(f) => {
                out.push(f);
            },
            None => {},
        }
        i += 1;
    }
    assert(borrowed_texts(sources@).take(sources@.len() as int) =~= borrowed_texts(sources@));
    out
}

/// The names of the feeds whose refresh succeeded, given the outcome of each
/// attempt in the order of the targets.
pub fn refresh_cache(targets: &Vec<FeedSource>, outcomes: &Vec<bool>) -> (done: Vec<&'static str>)
    ensures
        static_texts(done@) == succeeded(targets@, outcomes@),
{
    let mut done: Vec<&'static str> = Vec::new();
    let mut i: usize = 0;
    assert(targets@.take(0) =~= Seq::empty());
    assert(static_texts(done@) =~= Seq::empty());
    while i < targets.len()
        invariant
            i <= targets.len(),
            static_texts(done@) == succeeded(targets@.take(i as int), outcomes@),
        decreases targets.len() - i,
    {
        proof {
            let upto = targets@.take(i as int + 1);
            assert(upto.drop_last() =~= targets@.take(i as int));
            assert(upto.last() == targets@[i as int]);
        }
        if i < outcomes.len() && outcomes[i] {
            let ghost before = static_texts(done@);
            done.push(targets[i].name());
            assert(static_texts(done@) =~= before.push(targets@[i as int].name_spec()));
        }
        i += 1;
    }
    assert(targets@.take(targets@.len() as int) =~= targets@);
    done
}

/// What is cached, at a glance: the size of the catalog, the most recent
/// sample of each feed and of the position log, and the current position.
#[derive(Debug)]
pub struct Summary {
    pub apod: Option<SourceSample>,
    pub neo: Option<SourceSample>,
    pub flr: Option<SourceSample>,
    pub cme: Option<SourceSample>,
    pub spacex: Option<SourceSample>,
    pub iss: Option<SourceSample>,
    pub osdr_count: usize,
    pub iss_position: Option<IssPosition>,
}

/// The view of a sample that may be absent.
pub open spec fn sample_view(s: Option<SourceSample>) -> Option<SourceSampleView> {
    match s {
        Some(x) => Some(x@),
        None => None,
    }
}

/// The most recent sample of a source, absent while it has none.
pub fn latest_from_cache(cache: &SampleCache, src: &str) -> (r: Option<SourceSample>)
    ensures
        sample_view(r) == latest_of(cache@, src@),
{
    cache.latest(src)
}

/// The summary of a cache, a catalog size and a position. A source without
/// data shows as absent; that is no error.
pub fn get_summary(cache: &SampleCache, osdr_count: usize, iss_position: Option<IssPosition>) -> (r:
    Summary)
    ensures
        sample_view(r.apod) == latest_of(cache@, "apod"@),
        sample_view(r.neo) == latest_of(cache@, "neo"@),
        sample_view(r.flr) == latest_of(cache@, "flr"@),
        sample_view(r.cme) == latest_of(cache@, "cme"@),
        sample_view(r.spacex) == latest_of(cache@, "spacex"@),
        sample_view(r.iss) == latest_of(cache@, "iss"@),
        r.osdr_count == osdr_count,
        r.iss_position == iss_position,
{
    Summary {
        apod: latest_from_cache(cache, "apod"),
        neo: latest_from_cache(cache, "neo"),
        flr: latest_from_cache(cache, "flr"),
        cme: latest_from_cache(cache, "cme"),
        spacex: latest_from_cache(cache, "spacex"),
        iss: latest_from_cache(cache, "iss"),
        osdr_count,
        iss_position,
    }
}

} // verus!
