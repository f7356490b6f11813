//! Assembling records from the events of a document reader.
//!
//! A reader walks a document and reports the start of an element, the text
//! inside one, and the end of one. The assembler follows the path of open
//! elements, starts a record at every `record` element, files each text in
//! the field that the path names, and sets a record aside when its element
//! ends.

use crate::number::{parse_i32, parse_u64, parses_as_i32, parses_as_u64, signed_value, u64_value};
use crate::row::{texts_view, FloatBits};
use crate::tree::{Reading, Record};
use vstd::prelude::*;
use vstd::string::StringExecFns;

verus! {

/// What a reader reports. Texts come with the white space around them
/// removed, and with their reading as a floating-point number where they
/// have one.
#[derive(Clone, Debug, PartialEq, Eq)]
pub enum XmlEvent {
    Start(String),
    Text(String, Option<FloatBits>),
    End(String),
}

/// An event, by the texts that it holds.
pub enum EventView {
    Start(Seq<char>),
    Text(Seq<char>, Option<FloatBits>),
    End(Seq<char>),
}

impl View for XmlEvent {
    type V = EventView;

    open spec fn view(&self) -> EventView {
        match self {
            XmlEvent::Start(name) => EventView::Start(name@),
            XmlEvent::Text(text, number) => EventView::Text(text@, *number),
            XmlEvent::End(name) => EventView::End(name@),
        }
    }
}

/// The fields of a record that a text can be filed in.
#[derive(Clone, Copy, Debug, PartialEq, Eq, Structural)]
pub enum Field {
    Id,
    Name,
    Value,
    Category,
    Tag,
    MetaCreated,
    MetaUpdated,
    ReadingTimestamp,
    ReadingSensor,
    ReadingValue,
}

/// A reading, by the texts that it holds.
pub struct ReadingView {
    pub timestamp: Option<Seq<char>>,
    pub sensor: Option<Seq<char>>,
    pub value: Option<FloatBits>,
}

/// What an assembled record holds: the elements of its multi-valued fields
/// and its readings. An empty sequence stands for an absent field.
pub struct RootView {
    pub ids: Seq<i32>,
    pub names: Seq<Seq<char>>,
    pub values: Seq<u64>,
    pub categories: Seq<Seq<char>>,
    pub tags: Seq<Seq<char>>,
    pub created: Seq<Seq<char>>,
    pub updated: Seq<Seq<char>>,
    pub readings: Seq<ReadingView>,
}

/// The state of an assembly: the names of the open elements, whether a
/// record is open, the record that is being filled, and the records that
/// were set aside.
pub struct AssemblyView {
    pub path: Seq<Seq<char>>,
    pub inside: bool,
    pub draft: RootView,
    pub finished: Seq<RootView>,
}

/// The elements of an optional list; none where the list is absent.
pub open spec fn items<T>(list: Option<Vec<T>>) -> Seq<T> {
    match list {
        Some(v) => v@,
        None => Seq::empty(),
    }
}

/// The texts of an optional text.
pub open spec fn text_view(text: Option<String>) -> Option<Seq<char>> {
    match text {
        Some(s) => Some(s@),
        None => None,
    }
}

/// What a reading holds.
pub open spec fn reading_view(reading: Reading) -> ReadingView {
    ReadingView {
        timestamp: text_view(reading.timestamp),
        sensor: text_view(reading.sensor),
        value: reading.value,
    }
}

/// What a sequence of readings holds.
pub open spec fn readings_view(readings: Seq<Reading>) -> Seq<ReadingView> {
    readings.map_values(|r: Reading| reading_view(r))
}

/// What a record holds in its multi-valued fields and its readings.
pub open spec fn root_view(record: Record) -> RootView {
    RootView {
        ids: items(record.id),
        names: texts_view(items(record.name)),
        values: items(record.value),
        categories: texts_view(items(record.category)),
        tags: texts_view(items(record.tags)),
        created: texts_view(items(record.meta_created)),
        updated: texts_view(items(record.meta_updated)),
        readings: readings_view(items(record.readings)),
    }
}

/// What a sequence of records holds.
pub open spec fn roots_view(records: Seq<Record>) -> Seq<RootView> {
    records.map_values(|r: Record| root_view(r))
}

/// What a sequence of events holds.
pub open spec fn events_view(events: Seq<XmlEvent>) -> Seq<EventView> {
    events.map_values(|e: XmlEvent| e@)
}

/// Whether an optional list is absent or holds something.
pub open spec fn absent_or_filled<T>(list: Option<Vec<T>>) -> bool {
    list matches Some(v) ==> v@.len() > 0
}

/// Whether a record is one that an assembly produces: it has no
/// measurements, locations or statistics, and a field that is present holds
/// at least one element. Such a record is known by its view.
pub open spec fn assembled_form(record: Record) -> bool {
    &&& record.measurements is None
    &&& record.locations is None
    &&& record.statistics is None
    &&& absent_or_filled(record.id)
    &&& absent_or_filled(record.name)
    &&& absent_or_filled(record.value)
    &&& absent_or_filled(record.category)
    &&& absent_or_filled(record.tags)
    &&& absent_or_filled(record.meta_created)
    &&& absent_or_filled(record.meta_updated)
    &&& absent_or_filled(record.readings)
}

/// The record that holds nothing.
pub open spec fn empty_root() -> RootView {
    RootView {
        ids: Seq::empty(),
        names: Seq::empty(),
        values: Seq::empty(),
        categories: Seq::empty(),
        tags: Seq::empty(),
        created: Seq::empty(),
        updated: Seq::empty(),
        readings: Seq::empty(),
    }
}

/// The reading that holds nothing.
pub open spec fn empty_reading() -> ReadingView {
    ReadingView { timestamp: None, sensor: None, value: None }
}

/// The names of a path joined by dots.
pub open spec fn joined(names: Seq<Seq<char>>) -> Seq<char>
    decreases names.len(),
{
    if names.len() == 0 {
        Seq::empty()
    } else if names.len() == 1 {
        names[0]
    } else {
        joined(names.drop_last()) + seq!['.'] + names.last()
    }
}

/// A path without the document's root element, where it starts with it.
pub open spec fn below_root(path: Seq<Seq<char>>) -> Seq<Seq<char>> {
    if path.len() > 0 && path[0] == "records"@ {
        path.skip(1)
    } else {
        path
    }
}

/// The field that a joined path names, if it names one.
pub open spec fn field_named(name: Seq<char>) -> Option<Field> {
    if name == "record.id"@ {
        Some(Field::Id)
    } else if name == "record.name"@ {
        Some(Field::Name)
    } else if name == "record.value"@ {
        Some(Field::Value)
    } else if name == "record.category"@ {
        Some(Field::Category)
    } else if name == "record.tags.tag"@ {
        Some(Field::Tag)
    } else if name == "record.meta.created"@ {
        Some(Field::MetaCreated)
    } else if name == "record.meta.updated"@ {
        Some(Field::MetaUpdated)
    } else if name == "record.readings.reading.timestamp"@ {
        Some(Field::ReadingTimestamp)
    } else if name == "record.readings.reading.sensor"@ {
        Some(Field::ReadingSensor)
    } else if name == "record.readings.reading.value"@ {
        Some(Field::ReadingValue)
    } else {
        None
    }
}

/// The field that the text inside the open elements belongs to.
pub open spec fn field_at(path: Seq<Seq<char>>) -> Option<Field> {
    field_named(joined(below_root(path)))
}

/// A sequence of readings with its last reading replaced; unchanged where
/// there is no reading.
pub open spec fn with_last(readings: Seq<ReadingView>, last: ReadingView) -> Seq<ReadingView> {
    if readings.len() == 0 {
        readings
    } else {
        readings.update(readings.len() - 1, last)
    }
}

/// The record after a text has been filed in a field. A text that is to be
/// a number and is none is dropped, and so is a text for a reading where
/// the record has no reading.
pub open spec fn filed(
    draft: RootView,
    field: Option<Field>,
    text: Seq<char>,
    number: Option<FloatBits>,
) -> RootView {
    match field {
        Some(Field::Id) => if parses_as_i32(text) {
            RootView { ids: draft.ids.push(signed_value(text) as i32), ..draft }
        } else {
            draft
        },
        Some(Field::Name) => RootView { names: draft.names.push(text), ..draft },
        Some(Field::Value) => if parses_as_u64(text, 10) {
            RootView { values: draft.values.push(u64_value(text, 10)), ..draft }
        } else {
            draft
        },
        Some(Field::Category) => RootView { categories: draft.categories.push(text), ..draft },
        Some(Field::Tag) => RootView { tags: draft.tags.push(text), ..draft },
        Some(Field::MetaCreated) => RootView { created: draft.created.push(text), ..draft },
        Some(Field::MetaUpdated) => RootView { updated: draft.updated.push(text), ..draft },
        Some(Field::ReadingTimestamp) => RootView {
            readings: with_last(
                draft.readings,
                ReadingView { timestamp: Some(text), ..draft.readings.last() },
            ),
            ..draft
        },
        Some(Field::ReadingSensor) => RootView {
            readings: with_last(
                draft.readings,
                ReadingView { sensor: Some(text), ..draft.readings.last() },
            ),
            ..draft
        },
        Some(Field::ReadingValue) => match number {
            Some(v) => RootView {
                readings: with_last(
                    draft.readings,
                    ReadingView { value: Some(v), ..draft.readings.last() },
                ),
                ..draft
            },
            None => draft,
        },
        None => draft,
    }
}

impl AssemblyView {
    /// The state before any event.
    pub open spec fn start() -> AssemblyView {
        AssemblyView {
            path: Seq::empty(),
            inside: false,
            draft: empty_root(),
            finished: Seq::empty(),
        }
    }

    /// The state after an element has started: its name is on the path, a
    /// `record` opens a fresh record, and a `reading` inside a record adds
    /// a reading to it.
    pub open spec fn started(self, name: Seq<char>) -> AssemblyView {
        let inside = self.inside || name == "record"@;
        let fresh = if name == "record"@ {
            empty_root()
        } else {
            self.draft
        };
        let draft = if inside && name == "reading"@ {
            RootView { readings: fresh.readings.push(empty_reading()), ..fresh }
        } else {
            fresh
        };
        AssemblyView { path: self.path.push(name), inside: inside, draft: draft, ..self }
    }

    /// The state after a text: inside a record it is filed where the path
    /// says, outside it is dropped.
    pub open spec fn texted(self, text: Seq<char>, number: Option<FloatBits>) -> AssemblyView {
        if self.inside {
            AssemblyView { draft: filed(self.draft, field_at(self.path), text, number), ..self }
        } else {
            self
        }
    }

    /// The state after an element has ended: its name leaves the path, and
    /// the end of a `record` sets the record aside as it then is.
    pub open spec fn ended(self, name: Seq<char>) -> AssemblyView {
        let path = if self.path.len() > 0 {
            self.path.drop_last()
        } else {
            self.path
        };
        if name == "record"@ {
            AssemblyView {
                path: path,
                inside: false,
                finished: self.finished.push(self.draft),
                ..self
            }
        } else {
            AssemblyView { path: path, ..self }
        }
    }

    /// The state after an event.
    pub open spec fn after(self, event: EventView) -> AssemblyView {
        match event {
            EventView::Start(name) => self.started(name),
            EventView::Text(text, number) => self.texted(text, number),
            EventView::End(name) => self.ended(name),
        }
    }
}

/// The state after a sequence of events.
pub open spec fn state_after(events: Seq<EventView>) -> AssemblyView
    decreases events.len(),
{
    if events.len() == 0 {
        AssemblyView::start()
    } else {
        state_after(events.drop_last()).after(events.last())
    }
}

/// The records that a sequence of events describes.
pub open spec fn assembled(events: Seq<EventView>) -> Seq<RootView> {
    state_after(events).finished
}

/// Whether a text is the given literal.
pub fn same_text(text: &String, literal: &str) -> (same: bool)
    ensures
        same == (text@ == literal@),
{
    let other = literal.to_owned();
    *text == other
}

/// Joins the names of a path from `start` on by dots.
pub fn join_from(path: &Vec<String>, start: usize) -> (out: String)
    requires
        start <= path@.len(),
    ensures
        out@ == joined(texts_view(path@).skip(start as int)),
{
    let n: usize = path.len();
    let mut out = String::new();
    let ghost names = texts_view(path@).skip(start as int);
    if start < n {
        out.append(path[start].as_str());
        assert(names.take(1) =~= seq![path@[start as int]@]);
        let mut i: usize = start + 1;
        while i < n
            invariant
                start < i <= n,
                n == path@.len(),
                names == texts_view(path@).skip(start as int),
                out@ == joined(names.take(i - start)),
            decreases n - i,
        {
            proof {
                reveal_strlit(".");
                let next = names.take(i + 1 - start);
                assert(next.drop_last() =~= names.take(i - start));
                assert(next.last() == path@[i as int]@);
                assert("."@ =~= seq!['.']);
            }
            out.append(".");
            out.append(path[i].as_str());
            i += 1;
        }
        assert(names.take(n - start) =~= names);
    } else {
        assert(names.len() == 0);
    }
    out
}

/// Finds the field that the text inside the open elements belongs to.
pub fn route(path: &Vec<String>) -> (field: Option<Field>)
    ensures
        field == field_at(texts_view(path@)),
{
    let start: usize = if path.len() > 0 && same_text(&path[0], "records") {
        1
    } else {
        0
    };
    let name = join_from(path, start);
    assert(texts_view(path@).skip(0) =~= texts_view(path@));
    if same_text(&name, "record.id") {
        Some(Field::Id)
    } else if same_text(&name, "record.name") {
        Some(Field::Name)
    } else if same_text(&name, "record.value") {
        Some(Field::Value)
    } else if same_text(&name, "record.category") {
        Some(Field::Category)
    } else if same_text(&name, "record.tags.tag") {
        Some(Field::Tag)
    } else if same_text(&name, "record.meta.created") {
        Some(Field::MetaCreated)
    } else if same_text(&name, "record.meta.updated") {
        Some(Field::MetaUpdated)
    } else if same_text(&name, "record.readings.reading.timestamp") {
        Some(Field::ReadingTimestamp)
    } else if same_text(&name, "record.readings.reading.sensor") {
        Some(Field::ReadingSensor)
    } else if same_text(&name, "record.readings.reading.value") {
        Some(Field::ReadingValue)
    } else {
        None
    }
}

/// A record without any data.
pub fn empty_record() -> (record: Record)
    ensures
        root_view(record) == empty_root(),
        assembled_form(record),
{
    let record = Record {
        id: None,
        name: None,
        value: None,
        category: None,
        tags: None,
        meta_created: None,
        meta_updated: None,
        readings: None,
        measurements: None,
        locations: None,
        statistics: None,
    };
    proof {
        assert(texts_view(Seq::<String>::empty()) =~= Seq::<Seq<char>>::empty());
        assert(readings_view(Seq::<Reading>::empty()) =~= Seq::<ReadingView>::empty());
    }
    record
}

/// Appends an element to an optional list, which is created if absent.
pub fn push_item<T>(slot: &mut Option<Vec<T>>, item: T)
    ensures
        items(*final(slot)) == items(*old(slot)).push(item),
        *final(slot) is Some,
{
    let mut list: Vec<T> = Vec::new();
    let mut taken: Option<Vec<T>> = None;
    std::mem::swap(&mut taken, slot);
    match taken {
        Some(v) => {
            list = v;
        },
        None => {},
    }
    list.push(item);
    *slot = Some(list);
}

/// A copy of an optional list of plain values.
pub fn copy_plain<T: Copy>(list: &Option<Vec<T>>) -> (copy: Option<Vec<T>>)
    ensures
        items(copy) == items(*list),
        copy is Some <==> *list is Some,
{
    match list {
        Some(v) => {
            let mut out: Vec<T> = Vec::new();
            let n: usize = v.len();
            let mut i: usize = 0;
            while i < n
                invariant
                    i <= n,
                    n == v@.len(),
                    out@ == v@.take(i as int),
                decreases n - i,
            {
                out.push(v[i]);
                assert(v@.take(i + 1) =~= v@.take(i as int).push(v@[i as int]));
                i += 1;
            }
            assert(v@.take(n as int) =~= v@);
            Some(out)
        },
        None => None,
    }
}

/// A copy of an optional list of texts.
pub fn copy_texts(list: &Option<Vec<String>>) -> (copy: Option<Vec<String>>)
    ensures
        items(copy) == items(*list),
        copy is Some <==> *list is Some,
{
    match list {
        Some(v) => {
            let mut out: Vec<String> = Vec::new();
            let n: usize = v.len();
            let mut i: usize = 0;
            while i < n
                invariant
                    i <= n,
                    n == v@.len(),
                    out@ == v@.take(i as int),
                decreases n - i,
            {
                out.push(v[i].clone());
                assert(v@.take(i + 1) =~= v@.take(i as int).push(v@[i as int]));
                i += 1;
            }
            assert(v@.take(n as int) =~= v@);
            Some(out)
        },
        None => None,
    }
}

/// A copy of an optional list of readings.
pub fn copy_readings(list: &Option<Vec<Reading>>) -> (copy: Option<Vec<Reading>>)
    ensures
        items(copy) == items(*list),
        copy is Some <==> *list is Some,
{
    match list {
        Some(v) => {
            let mut out: Vec<Reading> = Vec::new();
            let n: usize = v.len();
            let mut i: usize = 0;
            while i < n
                invariant
                    i <= n,
                    n == v@.len(),
                    out@ == v@.take(i as int),
                decreases n - i,
            {
                let reading = Reading {
                    timestamp: crate::row::clone_text(&v[i].timestamp),
                    sensor: crate::row::clone_text(&v[i].sensor),
                    value: v[i].value,
                };
                out.push(reading);
                assert(v@.take(i + 1) =~= v@.take(i as int).push(v@[i as int]));
                i += 1;
            }
            assert(v@.take(n as int) =~= v@);
            Some(out)
        },
        None => None,
    }
}

/// A copy of a record of the form that an assembly produces.
pub fn copy_root(record: &Record) -> (copy: Record)
    requires
        assembled_form(*record),
    ensures
        root_view(copy) == root_view(*record),
        assembled_form(copy),
{
    Record {
        id: copy_plain(&record.id),
        name: copy_texts(&record.name),
        value: copy_plain(&record.value),
        category: copy_texts(&record.category),
        tags: copy_texts(&record.tags),
        meta_created: copy_texts(&record.meta_created),
        meta_updated: copy_texts(&record.meta_updated),
        readings: copy_readings(&record.readings),
        measurements: None,
        locations: None,
        statistics: None,
    }
}

/// Appends a text to an optional list of texts.
pub fn push_text(slot: &mut Option<Vec<String>>, text: &String)
    ensures
        texts_view(items(*final(slot))) == texts_view(items(*old(slot))).push(text@),
        *final(slot) is Some,
        absent_or_filled(*final(slot)),
{
    let ghost before = items(*slot);
    push_item(slot, text.clone());
    assert(texts_view(before.push(*text)) =~= texts_view(before).push(text@));
}

/// Sets the time stamp of the last reading, if there is a reading.
fn set_last_timestamp(slot: &mut Option<Vec<Reading>>, text: &String)
    ensures
        readings_view(items(*final(slot))) == with_last(
            readings_view(items(*old(slot))),
            ReadingView {
                timestamp: Some(text@),
                ..readings_view(items(*old(slot))).last()
            },
        ),
        *final(slot) is Some <==> *old(slot) is Some,
        items(*final(slot)).len() == items(*old(slot)).len(),
{
    let ghost before = items(*slot);
    let mut taken: Option<Vec<Reading>> = None;
    std::mem::swap(&mut taken, slot);
    match taken {
        Some(mut list) => {
            let n: usize = list.len();
            if n > 0 {
                list[n - 1].timestamp = Some(text.clone());
            }
            assert(readings_view(list@) =~= with_last(
                readings_view(before),
                ReadingView { timestamp: Some(text@), ..readings_view(before).last() },
            ));
            *slot = Some(list);
        },
        None => {
            assert(readings_view(before) =~= Seq::<ReadingView>::empty());
        },
    }
}

/// Sets the sensor of the last reading, if there is a reading.
fn set_last_sensor(slot: &mut Option<Vec<Reading>>, text: &String)
    ensures
        readings_view(items(*final(slot))) == with_last(
            readings_view(items(*old(slot))),
            ReadingView { sensor: Some(text@), ..readings_view(items(*old(slot))).last() },
        ),
        *final(slot) is Some <==> *old(slot) is Some,
        items(*final(slot)).len() == items(*old(slot)).len(),
{
    let ghost before = items(*slot);
    let mut taken: Option<Vec<Reading>> = None;
    std::mem::swap(&mut taken, slot);
    match taken {
        Some(mut list) => {
            let n: usize = list.len();
            if n > 0 {
                list[n - 1].sensor = Some(text.clone());
            }
            assert(readings_view(list@) =~= with_last(
                readings_view(before),
                ReadingView { sensor: Some(text@), ..readings_view(before).last() },
            ));
            *slot = Some(list);
        },
        None => {
            assert(readings_view(before) =~= Seq::<ReadingView>::empty());
        },
    }
}

/// Sets the value of the last reading, if there is a reading.
fn set_last_value(slot: &mut Option<Vec<Reading>>, value: FloatBits)
    ensures
        readings_view(items(*final(slot))) == with_last(
            readings_view(items(*old(slot))),
            ReadingView { value: Some(value), ..readings_view(items(*old(slot))).last() },
        ),
        *final(slot) is Some <==> *old(slot) is Some,
        items(*final(slot)).len() == items(*old(slot)).len(),
{
    let ghost before = items(*slot);
    let mut taken: Option<Vec<Reading>> = None;
    std::mem::swap(&mut taken, slot);
    match taken {
        Some(mut list) => {
            let n: usize = list.len();
            if n > 0 {
                list[n - 1].value = Some(value);
            }
            assert(readings_view(list@) =~= with_last(
                readings_view(before),
                ReadingView { value: Some(value), ..readings_view(before).last() },
            ));
            *slot = Some(list);
        },
        None => {
            assert(readings_view(before) =~= Seq::<ReadingView>::empty());
        },
    }
}

/// Files a text in a field of a record.
pub fn file_text(record: &mut Record, field: Option<Field>, text: &String, number: Option<FloatBits>)
    requires
        assembled_form(*old(record)),
    ensures
        assembled_form(*final(record)),
        root_view(*final(record)) == filed(root_view(*old(record)), field, text@, number),
{
    match field {
        Some(Field::Id) => {
            match parse_i32(text.as_str()) {
                Ok(v) => {
                    push_item(&mut record.id, v);
                },
                Err(_) => {},
            }
        },
        Some(Field::Name) => {
            push_text(&mut record.name, text);
        },
        Some(Field::Value) => {
            match parse_u64(text.as_str(), 10) {
                Ok(v) => {
                    push_item(&mut record.value, v);
                },
                Err(_) => {},
            }
        },
        Some(Field::Category) => {
            push_text(&mut record.category, text);
        },
        Some(Field::Tag) => {
            push_text(&mut record.tags, text);
        },
        Some(Field::MetaCreated) => {
            push_text(&mut record.meta_created, text);
        },
        Some(Field::MetaUpdated) => {
            push_text(&mut record.meta_updated, text);
        },
        Some(Field::ReadingTimestamp) => {
            set_last_timestamp(&mut record.readings, text);
        },
        Some(Field::ReadingSensor) => {
            set_last_sensor(&mut record.readings, text);
        },
        Some(Field::ReadingValue) => {
            match number {
                Some(v) => {
                    set_last_value(&mut record.readings, v);
                },
                None => {},
            }
        },
        None => {},
    }
}

/// Follows the events of a reader and gathers the records.
pub struct Assembler {
    path: Vec<String>,
    inside: bool,
    draft: Record,
    finished: Vec<Record>,
}

impl View for Assembler {
    type V = AssemblyView;

    closed spec fn view(&self) -> AssemblyView {
        AssemblyView {
            path: texts_view(self.path@),
            inside: self.inside,
            draft: root_view(self.draft),
            finished: roots_view(self.finished@),
        }
    }
}

impl Assembler {
    /// The record that is being filled and the records that were set aside
    /// have the form that an assembly produces.
    pub closed spec fn wf(&self) -> bool {
        &&& assembled_form(self.draft)
        &&& forall|i: int|
            0 <= i < self.finished@.len() ==> assembled_form(#[trigger] self.finished@[i])
    }

    /// An assembler that has seen no event.
    pub fn new() -> (assembler: Assembler)
        ensures
            assembler.wf(),
            assembler@ == AssemblyView::start(),
    {
        let assembler = Assembler {
            path: Vec::new(),
            inside: false,
            draft: empty_record(),
            finished: Vec::new(),
        };
        proof {
            assert(texts_view(assembler.path@) =~= Seq::<Seq<char>>::empty());
            assert(roots_view(assembler.finished@) =~= Seq::<RootView>::empty());
        }
        assembler
    }

    /// Takes the next event.
    pub fn feed(&mut self, event: &XmlEvent)
        requires
            old(self).wf(),
        ensures
            final(self).wf(),
            final(self)@ == old(self)@.after(event@),
    {
        let ghost before = self@;
        let ghost path_before = self.path@;
        let ghost finished_before = self.finished@;
        match event {
            XmlEvent::Start(name) => {
                self.path.push(name.clone());
                assert(texts_view(self.path@) =~= texts_view(path_before).push(name@));
                if same_text(name, "record") {
                    self.inside = true;
                    self.draft = empty_record();
                }
                if self.inside && same_text(name, "reading") {
                    let ghost earlier = items(self.draft.readings);
                    let blank = Reading { timestamp: None, sensor: None, value: None };
                    push_item(&mut self.draft.readings, blank);
                    assert(readings_view(earlier.push(blank)) =~= readings_view(earlier).push(
                        empty_reading(),
                    ));
                }
            },
            XmlEvent::Text(text, number) => {
                if self.inside {
                    let field = route(&self.path);
                    file_text(&mut self.draft, field, text, *number);
                }
            },
            XmlEvent::End(name) => {
                if same_text(name, "record") {
                    let done = copy_root(&self.draft);
                    self.finished.push(done);
                    self.inside = false;
                    assert(roots_view(self.finished@) =~= roots_view(finished_before).push(
                        root_view(self.draft),
                    ));
                }
                if self.path.len() > 0 {
                    self.path.pop();
                    assert(texts_view(self.path@) =~= texts_view(path_before).drop_last());
                }
            },
        }
    }

    /// Ends the assembly and hands out the records that were set aside.
    pub fn finish(self) -> (records: Vec<Record>)
        requires
            self.wf(),
        ensures
            roots_view(records@) == self@.finished,
            forall|i: int| 0 <= i < records@.len() ==> assembled_form(#[trigger] records@[i]),
    {
        self.finished
    }
}

/// Assembles the records that a sequence of events describes.
pub fn assemble(events: &Vec<XmlEvent>) -> (records: Vec<Record>)
    ensures
        roots_view(records@) == assembled(events_view(events@)),
        forall|i: int| 0 <= i < records@.len() ==> assembled_form(#[trigger] records@[i]),
{
    let mut assembler = Assembler::new();
    let n: usize = events.len();
    let mut i: usize = 0;
    while i < n
        invariant
            i <= n,
            n == events@.len(),
            assembler.wf(),
            assembler@ == state_after(events_view(events@).take(i as int)),
        decreases n - i,
    {
        proof {
            let next = events_view(events@).take(i + 1);
            assert(next.drop_last() =~= events_view(events@).take(i as int));
            assert(next.last() == events@[i as int]@);
        }
        assembler.feed(&events[i]);
        i += 1;
    }
    assert(events_view(events@).take(n as int) =~= events_view(events@));
    assembler.finish()
}

} // verus!
