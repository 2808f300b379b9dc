use crate::record::{opt_text, PointRecord, PointRecordView};
use vstd::prelude::*;

verus! {

/// The records of one country, in the order they were added.
#[derive(Debug)]
pub struct CountryEntry {
    pub country: String,
    pub records: Vec<PointRecord>,
}

/// The views of a sequence of records.
pub open spec fn records_view(s: Seq<PointRecord>) -> Seq<PointRecordView> {
    s.map_values(|r: PointRecord| r@)
}

/// The records of a country, or none where the country has no entry.
pub open spec fn records_of(
    m: Map<Seq<char>, Seq<PointRecordView>>,
    country: Seq<char>,
) -> Seq<PointRecordView> {
    if m.contains_key(country) {
        m[country]
    } else {
        Seq::empty()
    }
}

/// The index after one record is added under its country.
pub open spec fn with_record(
    m: Map<Seq<char>, Seq<PointRecordView>>,
    r: PointRecordView,
) -> Map<Seq<char>, Seq<PointRecordView>> {
    m.insert(r.country, records_of(m, r.country).push(r))
}

/// The index after records are added in order.
pub open spec fn with_records(
    m: Map<Seq<char>, Seq<PointRecordView>>,
    rs: Seq<PointRecordView>,
) -> Map<Seq<char>, Seq<PointRecordView>>
    decreases rs.len(),
{
    if rs.len() == 0 {
        m
    } else {
        with_record(with_records(m, rs.drop_last()), rs.last())
    }
}

/// The records of `rs` that belong to `country`, in their order.
pub open spec fn of_country(rs: Seq<PointRecordView>, country: Seq<char>) -> Seq<PointRecordView>
    decreases rs.len(),
{
    if rs.len() == 0 {
        Seq::empty()
    } else if rs.last().country == country {
        of_country(rs.drop_last(), country).push(rs.last())
    } else {
        of_country(rs.drop_last(), country)
    }
}

/// Point records grouped by country; each country's records keep the order they were added in.
pub struct CountryIndex {
    entries: Vec<CountryEntry>,
    groups: Ghost<Map<Seq<char>, Seq<PointRecordView>>>,
}

impl View for CountryIndex {
    type V = Map<Seq<char>, Seq<PointRecordView>>;

    closed spec fn view(&self) -> Map<Seq<char>, Seq<PointRecordView>> {
        self.groups@
    }
}

impl PointRecord {
    /// A record equal to this one in every field.
    pub fn duplicate(&self) -> (r: PointRecord)
        ensures
            r@ == self@,
    {
        let lat = match &self.lat {
            Some(t) => Some(t.clone()),
            None => None,
        };
        let long = match &self.long {
            Some(t) => Some(t.clone()),
            None => None,
        };
        assert(opt_text(lat) == opt_text(self.lat));
        assert(opt_text(long) == opt_text(self.long));
        PointRecord {
            province: self.province.clone(),
            country: self.country.clone(),
            updated: self.updated,
            confirmed: self.confirmed,
            deaths: self.deaths,
            recovered: self.recovered,
            lat,
            long,
        }
    }
}

/// Whether two strings hold the same text.
fn same_text(a: &String, b: &String) -> (r: bool)
    ensures
        r == (a@ == b@),
{
    a.eq(b)
}

impl CountryIndex {
    pub closed spec fn wf(&self) -> bool {
        &&& forall|i: int, j: int|
            0 <= i < self.entries@.len() && 0 <= j < self.entries@.len() && i != j
                ==> self.entries@[i].country@ != self.entries@[j].country@
        &&& forall|i: int|
            0 <= i < self.entries@.len() ==> {
                &&& self.groups@.contains_key(#[trigger] self.entries@[i].country@)
                &&& self.groups@[self.entries@[i].country@] == records_view(
                    self.entries@[i].records@,
                )
            }
        &&& forall|k: Seq<char>|
            #[trigger] self.groups@.contains_key(k) ==> exists|i: int|
                0 <= i < self.entries@.len() && self.entries@[i].country@ == k
    }

    /// An index without countries.
    pub fn new() -> (r: CountryIndex)
        ensures
            r.wf(),
            r@ == Map::<Seq<char>, Seq<PointRecordView>>::empty(),
    {
        CountryIndex { entries: Vec::new(), groups: Ghost(Map::empty()) }
    }

    /// Appends a record to the sequence of its country, creating the country's entry if needed.
    pub fn add_record(&mut self, record: PointRecord)
        requires
            old(self).wf(),
        ensures
            final(self).wf(),
            final(self)@ == with_record(old(self)@, record@),
    {
        let ghost before = self.groups@;
        let ghost key = record.country@;
        let mut i: usize = 0;
        while i < self.entries.len()
            invariant
                self.wf(),
                self.groups@ == before,
                before == old(self)@,
                key == record.country@,
                i <= self.entries@.len(),
                forall|j: int| 0 <= j < i ==> self.entries@[j].country@ != key,
            decreases self.entries@.len() - i,
        {
            if same_text(&self.entries[i].country, &record.country) {
                let ghost entries_before = self.entries@;
                let ghost rec_view = record@;
                self.entries[i].records.push(record);
                proof {
                    let new_groups = before.insert(key, records_of(before, key).push(rec_view));
                    assert(records_view(self.entries@[i as int].records@) =~= records_view(
                        entries_before[i as int].records@,
                    ).push(rec_view));
                    assert forall|j: int|
                        0 <= j < self.entries@.len() && j != i implies self.entries@[j]
                        == entries_before[j] by {}
                    self.groups = Ghost(new_groups);
                    assert forall|k: Seq<char>| #[trigger]
                        self.groups@.contains_key(k) implies exists|j: int|
                        0 <= j < self.entries@.len() && self.entries@[j].country@ == k by {
                        if k != key {
                            let j = choose|j: int|
                                0 <= j < entries_before.len() && entries_before[j].country@ == k;
                            assert(self.entries@[j].country@ == k);
                        } else {
                            assert(self.entries@[i as int].country@ == k);
                        }
                    }
                }
                return;
            }
            i += 1;
        }
        let ghost entries_before = self.entries@;
        let ghost rec_view = record@;
        let country = record.country.clone();
        let mut records: Vec<PointRecord> = Vec::new();
        records.push(record);
        self.entries.push(CountryEntry { country, records });
        proof {
            assert(!before.contains_key(key)) by {
                if before.contains_key(key) {
                    let j = choose|j: int|
                        0 <= j < entries_before.len() && entries_before[j].country@ == key;
                }
            }
            let new_groups = before.insert(key, records_of(before, key).push(rec_view));
            assert(records_view(self.entries@.last().records@) =~= Seq::<
                PointRecordView,
            >::empty().push(rec_view));
            assert(self.entries@.last().country@ == key);
            self.groups = Ghost(new_groups);
            assert forall|k: Seq<char>| #[trigger]
                self.groups@.contains_key(k) implies exists|j: int|
                0 <= j < self.entries@.len() && self.entries@[j].country@ == k by {
                if k != key {
                    let j = choose|j: int|
                        0 <= j < entries_before.len() && entries_before[j].country@ == k;
                    assert(self.entries@[j].country@ == k);
                } else {
                    assert(self.entries@[entries_before.len() as int].country@ == k);
                }
            }
        }
    }

    /// Adds one day's records in order, each under its country.
    pub fn add_snapshot(&mut self, records: &Vec<PointRecord>)
        requires
            old(self).wf(),
        ensures
            final(self).wf(),
            final(self)@ == with_records(old(self)@, records_view(records@)),
    {
        let ghost start = self@;
        let mut i: usize = 0;
        while i < records.len()
            invariant
                self.wf(),
                i <= records@.len(),
                self@ == with_records(start, records_view(records@.subrange(0, i as int))),
            decreases records@.len() - i,
        {
            let ghost upto = records_view(records@.subrange(0, i as int + 1));
            assert(upto.drop_last() =~= records_view(records@.subrange(0, i as int)));
            let record = records[i].duplicate();
            self.add_record(record);
            i += 1;
        }
        assert(records@.subrange(0, i as int) =~= records@);
    }

    /// The records of a country in the order they were added; `None` for a country never seen.
    pub fn records_for(&self, country: &String) -> (r: Option<&Vec<PointRecord>>)
        requires
            self.wf(),
        ensures
            r is None <==> !self@.contains_key(country@),
            r matches Some(v) ==> records_view(v@) == self@[country@],
    {
        let mut i: usize = 0;
        while i < self.entries.len()
            invariant
                self.wf(),
                i <= self.entries@.len(),
                forall|j: int| 0 <= j < i ==> self.entries@[j].country@ != country@,
            decreases self.entries@.len() - i,
        {
            if same_text(&self.entries[i].country, country) {
                return Some(&self.entries[i].records);
            }
            i += 1;
        }
        proof {
            if self@.contains_key(country@) {
                let j = choose|j: int|
                    0 <= j < self.entries@.len() && self.entries@[j].country@ == country@;
            }
        }
        None
    }

    /// The countries of the index, each once, in the order they first appeared.
    pub fn countries(&self) -> (r: Vec<String>)
        requires
            self.wf(),
        ensures
            forall|i: int| 0 <= i < r@.len() ==> self@.contains_key(#[trigger] r@[i]@),
            forall|k: Seq<char>|
                self@.contains_key(k) ==> exists|i: int| 0 <= i < r@.len() && r@[i]@ == k,
            forall|i: int, j: int| 0 <= i < j < r@.len() ==> r@[i]@ != r@[j]@,
    {
        let mut names: Vec<String> = Vec::new();
        let mut i: usize = 0;
        while i < self.entries.len()
            invariant
                self.wf(),
                i <= self.entries@.len(),
                names@.len() == i,
                forall|j: int| 0 <= j < i ==> names@[j]@ == self.entries@[j].country@,
            decreases self.entries@.len() - i,
        {
            names.push(self.entries[i].country.clone());
            i += 1;
        }
        assert forall|k: Seq<char>| self@.contains_key(k) implies exists|i: int|
            0 <= i < names@.len() && names@[i]@ == k by {
            let j = choose|j: int| 0 <= j < self.entries@.len() && self.entries@[j].country@ == k;
            assert(names@[j]@ == k);
        }
        assert forall|i: int| 0 <= i < names@.len() implies self@.contains_key(
            #[trigger] names@[i]@,
        ) by {
            assert(names@[i]@ == self.entries@[i].country@);
        }
        names
    }
}

/// Adding records one by one extends each country's sequence by that country's records, in
/// their order.
pub proof fn lemma_with_records_of_country(
    m: Map<Seq<char>, Seq<PointRecordView>>,
    rs: Seq<PointRecordView>,
    country: Seq<char>,
)
    ensures
        records_of(with_records(m, rs), country) == records_of(m, country) + of_country(
            rs,
            country,
        ),
    decreases rs.len(),
{
    if rs.len() == 0 {
        assert(records_of(m, country) + Seq::empty() =~= records_of(m, country));
    } else {
        lemma_with_records_of_country(m, rs.drop_last(), country);
        if rs.last().country == country {
            assert(records_of(m, country) + of_country(rs, country) =~= (records_of(m, country)
                + of_country(rs.drop_last(), country)).push(rs.last()));
        }
    }
}

/// Two days added in turn give each country its first day's records followed by its second
/// day's; a country with one record on each day ends with exactly those two, in day order.
pub proof fn lemma_two_days_in_order(
    day1: Seq<PointRecordView>,
    day2: Seq<PointRecordView>,
    country: Seq<char>,
)
    ensures
        records_of(
            with_records(with_records(Map::empty(), day1), day2),
            country,
        ) == of_country(day1, country) + of_country(day2, country),
        of_country(day1, country).len() == 1 && of_country(day2, country).len() == 1 ==> records_of(
            with_records(with_records(Map::empty(), day1), day2),
            country,
        ) == seq![of_country(day1, country)[0], of_country(day2, country)[0]],
{
    let m0 = Map::<Seq<char>, Seq<PointRecordView>>::empty();
    lemma_with_records_of_country(m0, day1, country);
    lemma_with_records_of_country(with_records(m0, day1), day2, country);
    assert(records_of(m0, country) + of_country(day1, country) =~= of_country(day1, country));
    if of_country(day1, country).len() == 1 && of_country(day2, country).len() == 1 {
        assert(of_country(day1, country) + of_country(day2, country) =~= seq![
            of_country(day1, country)[0],
            of_country(day2, country)[0],
        ]);
    }
}

} // verus!
