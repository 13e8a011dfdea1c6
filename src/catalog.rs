//! The measurement catalog: merging its pages, and looking up the display name
//! of an exercise by the key that a log's link names.
use vstd::prelude::*;
use vstd::string::StrSliceExecFns;
use crate::records::{CellSetGroupLinks, EmbeddedMeasurements, Measurement, MeasurementsResponse};

verus! {

impl MeasurementsResponse {
    /// Appends the entries of `other` to those of `self`. The links and the
    /// declared total stay those of `self`, whatever `other` declares.
    pub fn merge(self, other: Self) -> (r: Self)
        ensures
            r.links == self.links,
            r.total == self.total,
            r.embedded.measurements@ == self.embedded.measurements@ + other.embedded.measurements@,
    {
        let mut merged = self.embedded.measurements;
        let mut rest = other.embedded.measurements;
        merged.append(&mut rest);
        MeasurementsResponse {
            links: self.links,
            total: self.total,
            embedded: EmbeddedMeasurements { measurements: merged },
        }
    }
}

/// The part of a link after its last `/`; the whole link where it has none.
pub open spec fn last_segment(href: Seq<char>) -> Seq<char>
    decreases href.len(),
{
    if href.len() == 0 {
        href
    } else if href.last() == '/' {
        Seq::empty()
    } else {
        last_segment(href.drop_last()).push(href.last())
    }
}

/// The last segment of a group's measurement link, empty where there is no
/// such link.
pub open spec fn link_key(links: CellSetGroupLinks) -> Seq<char> {
    match links.measurement {
        Some(link) => last_segment(link.href@),
        None => Seq::empty(),
    }
}

/// The catalog key that a group's links name: the last segment of the
/// measurement link. None where there is no link or the segment is empty, for
/// such a link names no catalog entry.
pub open spec fn measurement_key(links: CellSetGroupLinks) -> Option<Seq<char>> {
    match links.measurement {
        Some(link) => if last_segment(link.href@).len() > 0 {
            Some(last_segment(link.href@))
        } else {
            None
        },
        None => None,
    }
}

proof fn lemma_last_segment_without_slash(s: Seq<char>)
    requires
        !s.contains('/'),
    ensures
        last_segment(s) == s,
    decreases s.len(),
{
    if s.len() > 0 {
        assert(s.last() == s[s.len() - 1]);
        assert(!s.drop_last().contains('/')) by {
            if s.drop_last().contains('/') {
                let k = choose|k: int| 0 <= k < s.drop_last().len() && s.drop_last()[k] == '/';
                assert(s[k] == '/');
            }
        }
        lemma_last_segment_without_slash(s.drop_last());
        assert(s.drop_last().push(s.last()) =~= s);
    }
}

proof fn lemma_last_segment_after_slash(head: Seq<char>, tail: Seq<char>)
    requires
        !tail.contains('/'),
    ensures
        last_segment(head.push('/') + tail) == tail,
    decreases tail.len(),
{
    let s = head.push('/') + tail;
    if tail.len() == 0 {
        assert(s =~= head.push('/'));
    } else {
        assert(s.drop_last() =~= head.push('/') + tail.drop_last());
        assert(tail.last() == tail[tail.len() - 1]);
        assert(!tail.drop_last().contains('/')) by {
            if tail.drop_last().contains('/') {
                let k = choose|k: int| 0 <= k < tail.drop_last().len() && tail.drop_last()[k] == '/';
                assert(tail[k] == '/');
            }
        }
        lemma_last_segment_after_slash(head, tail.drop_last());
        assert(tail.drop_last().push(tail.last()) =~= tail);
    }
}

/// The last `/`-delimited segment of `href`.
pub fn last_path_segment(href: &String) -> (r: String)
    ensures
        r@ == last_segment(href@),
{
    let s = href.as_str();
    let n = s.unicode_len();
    let mut i: usize = n;
    let mut found = false;
    while i > 0 && !found
        invariant
            s@ == href@,
            n == s@.len(),
            i <= n,
            found ==> i > 0 && s@[i - 1] == '/',
            forall|k: int| i <= k < n ==> s@[k] != '/',
        decreases i + if found { 0int } else { 1int },
    {
        if s.get_char(i - 1) == '/' {
            found = true;
        } else {
            i = i - 1;
        }
    }
    let tail = s.substring_char(i, n);
    proof {
        let t = s@.subrange(i as int, n as int);
        assert(!t.contains('/')) by {
            if t.contains('/') {
                let k = choose|k: int| 0 <= k < t.len() && t[k] == '/';
                assert(s@[i + k] == '/');
            }
        }
        if found {
            assert(s@ =~= s@.take(i - 1).push('/') + t);
            lemma_last_segment_after_slash(s@.take(i - 1), t);
        } else {
            assert(s@ =~= t);
            lemma_last_segment_without_slash(s@);
        }
    }
    tail.to_owned()
}

/// The catalog key named by a group's measurement link; empty where the link is missing.
pub fn get_workout_id_from_link(links: &CellSetGroupLinks) -> (r: String)
    ensures
        r@ == link_key(*links),
{
    match &links.measurement {
        Some(link) => last_path_segment(&link.href),
        None => String::new(),
    }
}

/// The catalog key named by a group's links; none where the link is missing
/// or ends in `/`.
pub fn measurement_key_of(links: &CellSetGroupLinks) -> (r: Option<String>)
    ensures
        r.deep_view() == measurement_key(*links),
{
    match &links.measurement {
        Some(link) => {
            let key = last_path_segment(&link.href);
            if key.as_str().is_empty() {
                None
            } else {
                Some(key)
            }
        },
        None => None,
    }
}

/// The display name of the last entry of `ms` whose identifier is `key`.
pub open spec fn catalog_name(ms: Seq<Measurement>, key: Seq<char>) -> Option<Seq<char>>
    decreases ms.len(),
{
    if ms.len() == 0 {
        None
    } else if ms.last().id@ == key {
        Some(ms.last().name.shown())
    } else {
        catalog_name(ms.drop_last(), key)
    }
}

/// Identifier-keyed display names of the catalog entries. Where two entries
/// share an identifier, the later one counts. The entries stand in order in
/// vectors, searched from the end: the identifiers are strings, and vstd's
/// hash-map specifications give no lookup result for string keys.
pub struct MeasurementLookup {
    ids: Vec<String>,
    names: Vec<String>,
    source: Ghost<Seq<Measurement>>,
}

impl MeasurementLookup {
    /// The catalog entries that the lookup was built from, as pairs of
    /// identifier and display name.
    pub closed spec fn entries(self) -> Seq<(Seq<char>, Seq<char>)> {
        Seq::new(self.ids@.len(), |i: int| (self.ids@[i]@, self.names@[i]@))
    }

    pub closed spec fn aligned(self) -> bool {
        self.ids@.len() == self.names@.len()
    }

    /// The catalog entries that the lookup was built from.
    pub closed spec fn catalog(self) -> Seq<Measurement> {
        self.source@
    }

    /// The lookup holds the identifier and display name of each catalog entry, in order.
    pub open spec fn wf(self) -> bool {
        &&& self.aligned()
        &&& self.entries().len() == self.catalog().len()
        &&& forall|i: int|
            0 <= i < self.catalog().len() ==> (#[trigger] self.entries()[i]) == (
            self.catalog()[i].id@,
            self.catalog()[i].name.shown(),
        )
    }

    /// The lookup holds the entries of `ms`, in order.
    pub open spec fn holds(self, ms: Seq<Measurement>) -> bool {
        self.wf() && self.catalog() == ms
    }

    /// The lookup of an empty catalog.
    pub fn new() -> (r: Self)
        ensures
            r.holds(Seq::empty()),
    {
        MeasurementLookup { ids: Vec::new(), names: Vec::new(), source: Ghost(Seq::empty()) }
    }

    /// The number of catalog entries.
    pub fn len(&self) -> (r: usize)
        requires
            self.wf(),
        ensures
            r == self.catalog().len(),
    {
        self.ids.len()
    }

    /// The lookup of the entries of `measurements`.
    pub fn from_measurements(measurements: &Vec<Measurement>) -> (r: Self)
        ensures
            r.holds(measurements@),
    {
        let mut ids: Vec<String> = Vec::new();
        let mut names: Vec<String> = Vec::new();
        let mut i: usize = 0;
        while i < measurements.len()
            invariant
                i <= measurements@.len(),
                ids@.len() == i,
                names@.len() == i,
                forall|k: int| 0 <= k < i ==> (#[trigger] ids@[k])@ == measurements@[k].id@,
                forall|k: int| 0 <= k < i ==> (#[trigger] names@[k])@ == measurements@[k].name.shown(),
            decreases measurements@.len() - i,
        {
            ids.push(measurements[i].id.clone());
            names.push(measurements[i].name.display_name());
            i = i + 1;
        }
        let r = MeasurementLookup { ids, names, source: Ghost(measurements@) };
        assert forall|k: int| 0 <= k < measurements@.len() implies (#[trigger] r.entries()[k]) == (
        measurements@[k].id@, measurements@[k].name.shown()) by {
            assert(r.ids@[k]@ == measurements@[k].id@);
            assert(r.names@[k]@ == measurements@[k].name.shown());
        }
        r
    }

    /// The lookup of a catalog response; empty where there is none.
    pub fn from_response(response: &Option<MeasurementsResponse>) -> (r: Self)
        ensures
            r.holds(
                match response {
                    Some(page) => page.embedded.measurements@,
                    None => Seq::empty(),
                },
            ),
    {
        match response {
            Some(page) => Self::from_measurements(&page.embedded.measurements),
            None => Self::new(),
        }
    }

    /// The display name of the exercise whose identifier is `key`.
    pub fn get(&self, key: &String) -> (r: Option<String>)
        requires
            self.wf(),
        ensures
            r.deep_view() == catalog_name(self.catalog(), key@),
    {
        let ghost ms = self.catalog();
        let mut i: usize = self.ids.len();
        assert(ms.take(i as int) =~= ms);
        while i > 0
            invariant
                i <= ms.len(),
                self.holds(ms),
                catalog_name(ms, key@) == catalog_name(ms.take(i as int), key@),
            decreases i,
        {
            let ghost prefix = ms.take(i as int);
            assert(prefix.drop_last() =~= ms.take(i - 1));
            assert(self.entries()[i - 1] == (ms[i - 1].id@, ms[i - 1].name.shown()));
            assert(prefix.last() == ms[i - 1]);
            if self.ids[i - 1] == *key {
                return Some(self.names[i - 1].clone());
            }
            i = i - 1;
        }
        None
    }
}

} // verus!
