//! The credential database: entries kept as the records of one fixed group
//! of a container of groups and records, and the batch format of one URI
//! per line.

use crate::database_entry::{
    entry_fields, field_value, fields_view, get_field, reads_back, record_entry, secret_key,
    totp_from_url, totp_to_url, totp_url_read, totp_url_written, ClockodeEntry,
    ClockodeEntryView, Field, FieldView, RecordError, TotpView,
};
use crate::entry::Id;
use crate::order::{sorted_order, sorts, texts};
use crate::otp_uri::{has_host, names_host};
use crate::text::{
    all_white_space, append_str, chars_view, from_chars, is_blank, lines_of, lower_cased,
    same_chars, split_lines, to_chars, trim, trimmed,
};
use vstd::prelude::*;

verus! {

/// One record of the container: an identifier and named text fields.
#[derive(Debug)]
pub struct Record {
    pub uuid: Id,
    pub fields: Vec<Field>,
}

/// One group of the container: a name and the records directly in it.
#[derive(Debug)]
pub struct Group {
    pub name: String,
    pub records: Vec<Record>,
}

/// The container as far as the entries live in it: the groups directly
/// under its root, in their order.
#[derive(Debug)]
pub struct ClockodeDatabase {
    pub groups: Vec<Group>,
}

/// A record as plain values.
pub struct RecordView {
    pub uuid: Id,
    pub fields: Seq<FieldView>,
}

/// A group as plain values.
pub struct GroupView {
    pub name: Seq<char>,
    pub records: Seq<RecordView>,
}

/// The container as plain values.
pub struct DatabaseView {
    pub groups: Seq<GroupView>,
}

impl View for Record {
    type V = RecordView;

    open spec fn view(&self) -> RecordView {
        RecordView { uuid: self.uuid, fields: fields_view(self.fields@) }
    }
}

/// The records of a group as plain values.
pub open spec fn records_view(records: Seq<Record>) -> Seq<RecordView> {
    records.map_values(|r: Record| r@)
}

impl View for Group {
    type V = GroupView;

    open spec fn view(&self) -> GroupView {
        GroupView { name: self.name@, records: records_view(self.records@) }
    }
}

/// The groups of a container as plain values.
pub open spec fn groups_view(groups: Seq<Group>) -> Seq<GroupView> {
    groups.map_values(|g: Group| g@)
}

impl View for ClockodeDatabase {
    type V = DatabaseView;

    open spec fn view(&self) -> DatabaseView {
        DatabaseView { groups: groups_view(self.groups@) }
    }
}

/// Why an operation of the database failed.
#[derive(Debug, Clone, Copy, PartialEq, Eq, Structural)]
pub enum DatabaseError {
    /// The password does not open the container.
    IncorrectPassword,
    /// The container has no group of the fixed name: this library did not
    /// make it.
    MissingGroup,
    /// The entry to update has no identifier.
    MissingId,
    /// No record has the identifier.
    EntryNotFound(Id),
    /// A record of the group holds no readable entry.
    Record(RecordError),
    /// There is no entry to export.
    NoEntries,
}

impl DatabaseError {
    /// The message of the error.
    pub open spec fn message(self) -> Seq<char> {
        match self {
            DatabaseError::IncorrectPassword => "Incorrect Password"@,
            DatabaseError::MissingGroup => "Default Group not found"@,
            DatabaseError::MissingId => "Cannot update entry without UUID"@,
            DatabaseError::EntryNotFound(id) => "Entry with UUID "@ + id.text() + " not found"@,
            DatabaseError::Record(e) => e.message(),
            DatabaseError::NoEntries => "No entries found to export"@,
        }
    }

    /// The message of the error.
    pub fn to_string(&self) -> (s: String)
        ensures
            s@ == self.message(),
    {
        let mut out: Vec<char> = Vec::new();
        match self {
            DatabaseError::IncorrectPassword => {
                append_str(&mut out, "Incorrect Password");
            },
            DatabaseError::MissingGroup => {
                append_str(&mut out, "Default Group not found");
            },
            DatabaseError::MissingId => {
                append_str(&mut out, "Cannot update entry without UUID");
            },
            DatabaseError::EntryNotFound(id) => {
                append_str(&mut out, "Entry with UUID ");
                append_str(&mut out, id.to_string().as_str());
                append_str(&mut out, " not found");
            },
            DatabaseError::Record(e) => {
                append_str(&mut out, e.to_string().as_str());
            },
            DatabaseError::NoEntries => {
                append_str(&mut out, "No entries found to export");
            },
        }
        assert(out@ =~= self.message());
        from_chars(&out)
    }
}

/// The name of the group that holds the entries.
pub open spec fn group_name() -> Seq<char> {
    "Default Group"@
}

/// Index of the first group of the fixed name; the number of groups where
/// there is none.
pub open spec fn group_index(groups: Seq<GroupView>) -> nat
    decreases groups.len(),
{
    if groups.len() == 0 || groups[0].name == group_name() {
        0
    } else {
        1 + group_index(groups.drop_first())
    }
}

/// Index of the first record with the identifier `id`; the number of
/// records where there is none.
pub open spec fn record_index(records: Seq<RecordView>, id: Id) -> nat
    decreases records.len(),
{
    if records.len() == 0 || records[0].uuid == id {
        0
    } else {
        1 + record_index(records.drop_first(), id)
    }
}

pub proof fn lemma_group_index(groups: Seq<GroupView>)
    ensures
        group_index(groups) <= groups.len(),
        group_index(groups) < groups.len() ==> groups[group_index(groups) as int].name
            == group_name(),
    decreases groups.len(),
{
    if groups.len() != 0 && groups[0].name != group_name() {
        lemma_group_index(groups.drop_first());
    }
}

impl DatabaseView {
    /// The records of the fixed group; none where the group is missing.
    pub open spec fn records(self) -> Option<Seq<RecordView>> {
        let at = group_index(self.groups);
        if at < self.groups.len() {
            Some(self.groups[at as int].records)
        } else {
            None
        }
    }

    /// The container with other records in the fixed group; unchanged where
    /// the group is missing.
    pub open spec fn with_records(self, records: Seq<RecordView>) -> DatabaseView {
        let at = group_index(self.groups);
        if at < self.groups.len() {
            DatabaseView {
                groups: self.groups.update(
                    at as int,
                    GroupView { name: self.groups[at as int].name, records },
                ),
            }
        } else {
            self
        }
    }
}

fn find_group(groups: &Vec<Group>) -> (r: Option<usize>)
    ensures
        r is Some == (group_index(groups_view(groups@)) < groups.len()),
        r matches Some(at) ==> at == group_index(groups_view(groups@)) && at < groups.len(),
{
    let wanted = to_chars("Default Group");
    let ghost all = groups_view(groups@);
    let mut i: usize = 0;
    assert(all.skip(0) == all);
    while i < groups.len()
        invariant
            i <= groups.len(),
            wanted@ == group_name(),
            all == groups_view(groups@),
            group_index(all) == i + group_index(all.skip(i as int)),
        decreases groups.len() - i,
    {
        let ghost rest = all.skip(i as int);
        assert(rest[0] == groups@[i as int]@);
        assert(rest.drop_first() == all.skip(i + 1));
        if same_chars(&to_chars(groups[i].name.as_str()), &wanted) {
            return Some(i);
        }
        i += 1;
    }
    None
}

fn find_record(records: &Vec<Record>, id: Id) -> (r: Option<usize>)
    ensures
        r is Some == (record_index(records_view(records@), id) < records.len()),
        r matches Some(at) ==> at == record_index(records_view(records@), id) && at
            < records.len(),
{
    let ghost all = records_view(records@);
    let mut i: usize = 0;
    assert(all.skip(0) == all);
    while i < records.len()
        invariant
            i <= records.len(),
            all == records_view(records@),
            record_index(all, id) == i + record_index(all.skip(i as int), id),
        decreases records.len() - i,
    {
        let ghost rest = all.skip(i as int);
        assert(rest[0] == records@[i as int]@);
        assert(rest.drop_first() == all.skip(i + 1));
        if records[i].uuid == id {
            return Some(i);
        }
        i += 1;
    }
    None
}

/// What an operation changed in the container, for the caller to carry
/// into the file: the group is given by its index among the groups, a
/// record by its index among the group's records.
#[derive(Debug, Clone, Copy, PartialEq, Eq, Structural)]
pub enum Change {
    /// Nothing was changed.
    Unchanged,
    /// The records of the group from the index `from` on are new.
    Added { group: usize, from: usize },
    /// The record at the index `at` has other fields, all of them.
    Replaced { group: usize, at: usize },
    /// The record that stood at the index `at` is gone.
    Removed { group: usize, at: usize },
}

/// The record that stores an entry under the identifier `uuid`.
pub open spec fn record_of(e: ClockodeEntryView, uuid: Id) -> RecordView {
    RecordView { uuid, fields: entry_fields(e) }
}

/// What adding an entry as the record `uuid` makes of a container.
pub open spec fn added(db: DatabaseView, e: ClockodeEntryView, uuid: Id) -> Result<
    DatabaseView,
    DatabaseError,
> {
    match db.records() {
        None => Err(DatabaseError::MissingGroup),
        Some(records) => Ok(db.with_records(records.push(record_of(e, uuid)))),
    }
}

/// What updating an entry makes of a container: the first record with the
/// entry's identifier gets the entry's fields, all of them.
pub open spec fn updated(db: DatabaseView, e: ClockodeEntryView) -> Result<
    DatabaseView,
    DatabaseError,
> {
    match e.id {
        None => Err(DatabaseError::MissingId),
        Some(id) => match db.records() {
            None => Err(DatabaseError::MissingGroup),
            Some(records) => {
                let at = record_index(records, id);
                if at < records.len() {
                    Ok(db.with_records(records.update(at as int, record_of(e, id))))
                } else {
                    Err(DatabaseError::EntryNotFound(id))
                }
            },
        },
    }
}

/// What deleting the entry `id` makes of a container: the first record
/// with the identifier leaves the group.
pub open spec fn deleted(db: DatabaseView, id: Id) -> Result<DatabaseView, DatabaseError> {
    match db.records() {
        None => Err(DatabaseError::MissingGroup),
        Some(records) => {
            let at = record_index(records, id);
            if at < records.len() {
                Ok(db.with_records(records.remove(at as int)))
            } else {
                Err(DatabaseError::EntryNotFound(id))
            }
        },
    }
}

impl ClockodeDatabase {
    /// The container as this library makes it: the fixed group, empty.
    pub fn new() -> (db: ClockodeDatabase)
        ensures
            db@.groups.len() == 1,
            db@.records() == Some(Seq::<RecordView>::empty()),
    {
        let mut groups: Vec<Group> = Vec::new();
        groups.push(Group { name: "Default Group".to_owned(), records: Vec::new() });
        let db = ClockodeDatabase { groups };
        proof {
            assert(db@.groups[0].name == group_name());
            assert(db@.groups[0].records =~= Seq::<RecordView>::empty());
        }
        db
    }

    fn put_records(&mut self, at: usize, records: Vec<Record>)
        requires
            at == group_index(old(self)@.groups),
            at < old(self).groups.len(),
        ensures
            final(self)@ == old(self)@.with_records(records_view(records@)),
    {
        let old_group = self.groups.remove(at);
        let group = Group { name: old_group.name, records };
        self.groups.insert(at, group);
        proof {
            assert(self@.groups =~= old(self)@.with_records(records_view(records@)).groups);
        }
    }

    fn take_records(&mut self, at: usize) -> (records: Vec<Record>)
        requires
            at == group_index(old(self)@.groups),
            at < old(self).groups.len(),
        ensures
            old(self)@.records() == Some(records_view(records@)),
            final(self)@ == old(self)@.with_records(Seq::<RecordView>::empty()),
            at == group_index(final(self)@.groups),
            at < final(self).groups.len(),
            forall|r: Seq<RecordView>| #[trigger]
                final(self)@.with_records(r) == old(self)@.with_records(r),
    {
        let old_group = self.groups.remove(at);
        let group = Group { name: old_group.name, records: Vec::new() };
        assert(group@.records =~= Seq::<RecordView>::empty());
        self.groups.insert(at, group);
        proof {
            let before = old(self)@;
            let after = self@;
            assert(after.groups =~= before.with_records(Seq::<RecordView>::empty()).groups);
            lemma_index_kept(before.groups, Seq::<RecordView>::empty());
            assert forall|r: Seq<RecordView>| #[trigger]
                after.with_records(r) == before.with_records(r) by {
                assert(after.with_records(r).groups =~= before.with_records(r).groups);
            }
        }
        old_group.records
    }

    /// Adds an entry to the fixed group, as the record `uuid`.
    pub fn add_entry_as(&mut self, entry: &ClockodeEntry, uuid: Id) -> (r: Result<
        Change,
        DatabaseError,
    >)
        ensures
            r is Ok ==> (added(old(self)@, entry@, uuid) matches Ok(db) && db == final(self)@),
            r matches Ok(change) ==> old(self)@.records() matches Some(records) && change == (
            Change::Added {
                group: group_index(old(self)@.groups) as usize,
                from: records.len() as usize,
            }),
            r matches Err(e) ==> added(old(self)@, entry@, uuid) matches Err(x) && x == e,
            r is Err ==> final(self)@ == old(self)@,
    {
        let at = match find_group(&self.groups) {
            Some(at) => at,
            None => {
                return Err(DatabaseError::MissingGroup);
            },
        };
        let mut records = self.take_records(at);
        let ghost before = records_view(records@);
        let from = records.len();
        records.push(Record { uuid, fields: entry.to_fields() });
        assert(records_view(records@) =~= before.push(record_of(entry@, uuid)));
        self.put_records(at, records);
        Ok(Change::Added { group: at, from })
    }

    /// Adds an entry to the fixed group, as a record with a new random
    /// identifier. It fails only where the group is missing, and then
    /// changes nothing.
    pub fn add_entry(&mut self, entry: &ClockodeEntry) -> (r: Result<Change, DatabaseError>)
        ensures
            r is Ok ==> exists|uuid: Id| #[trigger]
                added(old(self)@, entry@, uuid) == Ok::<DatabaseView, DatabaseError>(final(self)@),
            r matches Ok(change) ==> old(self)@.records() matches Some(records) && change == (
            Change::Added {
                group: group_index(old(self)@.groups) as usize,
                from: records.len() as usize,
            }),
            r is Ok == old(self)@.records() is Some,
            r matches Err(e) ==> e == DatabaseError::MissingGroup && final(self)@ == old(self)@,
    {
        self.add_entry_as(entry, Id::fresh())
    }

    /// Replaces all the fields of the record that has the entry's
    /// identifier by the entry's fields.
    pub fn update_entry(&mut self, entry: &ClockodeEntry) -> (r: Result<Change, DatabaseError>)
        ensures
            r is Ok ==> (updated(old(self)@, entry@) matches Ok(db) && db == final(self)@),
            r matches Ok(change) ==> old(self)@.records() matches Some(records) && entry.id matches Some(
                id,
            ) && change == (Change::Replaced {
                group: group_index(old(self)@.groups) as usize,
                at: record_index(records, id) as usize,
            }),
            r matches Err(e) ==> updated(old(self)@, entry@) matches Err(x) && x == e,
            r is Err ==> final(self)@ == old(self)@,
    {
        let id = match entry.id {
            Some(id) => id,
            None => {
                return Err(DatabaseError::MissingId);
            },
        };
        let at = match find_group(&self.groups) {
            Some(at) => at,
            None => {
                return Err(DatabaseError::MissingGroup);
            },
        };
        let place = match find_record(&self.groups[at].records, id) {
            Some(place) => place,
            None => {
                return Err(DatabaseError::EntryNotFound(id));
            },
        };
        let mut records = self.take_records(at);
        let ghost before = records_view(records@);
        records.remove(place);
        records.insert(place, Record { uuid: id, fields: entry.to_fields() });
        assert(records_view(records@) =~= before.update(place as int, record_of(entry@, id)));
        self.put_records(at, records);
        Ok(Change::Replaced { group: at, at: place })
    }

    /// Removes the record that has the identifier `entry_id`.
    pub fn delete_entry(&mut self, entry_id: Id) -> (r: Result<Change, DatabaseError>)
        ensures
            r is Ok ==> (deleted(old(self)@, entry_id) matches Ok(db) && db == final(self)@),
            r matches Ok(change) ==> old(self)@.records() matches Some(records) && change == (
            Change::Removed {
                group: group_index(old(self)@.groups) as usize,
                at: record_index(records, entry_id) as usize,
            }),
            r matches Err(e) ==> deleted(old(self)@, entry_id) matches Err(x) && x == e,
            r is Err ==> final(self)@ == old(self)@,
    {
        let at = match find_group(&self.groups) {
            Some(at) => at,
            None => {
                return Err(DatabaseError::MissingGroup);
            },
        };
        let place = match find_record(&self.groups[at].records, entry_id) {
            Some(place) => place,
            None => {
                return Err(DatabaseError::EntryNotFound(entry_id));
            },
        };
        let mut records = self.take_records(at);
        let ghost before = records_view(records@);
        records.remove(place);
        assert(records_view(records@) =~= before.remove(place as int));
        self.put_records(at, records);
        Ok(Change::Removed { group: at, at: place })
    }
}

/// Changing the records of the fixed group leaves the group where it is.
pub proof fn lemma_index_kept(groups: Seq<GroupView>, records: Seq<RecordView>)
    ensures
        group_index((DatabaseView { groups }).with_records(records).groups) == group_index(
            groups,
        ),
        (DatabaseView { groups }).with_records(records).groups.len() == groups.len(),
    decreases groups.len(),
{
    let db = DatabaseView { groups };
    let at = group_index(groups);
    lemma_group_index(groups);
    if at < groups.len() {
        let after = db.with_records(records).groups;
        if groups[0].name == group_name() {
            assert(after[0].name == group_name());
        } else {
            let rest = groups.drop_first();
            lemma_index_kept(rest, records);
            let rest_after = (DatabaseView { groups: rest }).with_records(records).groups;
            assert(after.drop_first() =~= rest_after);
            assert(after[0] == groups[0]);
        }
    }
}

/// The entries that the records of a group hold, in the records' order. A
/// record without secret field is passed over; the first record that fails
/// for another reason fails the whole.
pub open spec fn entries_in(records: Seq<RecordView>) -> Result<
    Seq<ClockodeEntryView>,
    RecordError,
>
    decreases records.len(),
{
    if records.len() == 0 {
        Ok(Seq::empty())
    } else {
        match entries_in(records.drop_last()) {
            Err(e) => Err(e),
            Ok(found) => match record_entry(records.last().uuid, records.last().fields) {
                Ok(entry) => Ok(found.push(entry)),
                Err(RecordError::MissingSecret) => Ok(found),
                Err(e) => Err(e),
            },
        }
    }
}

/// A failure among the first records is the failure of all of them.
pub proof fn lemma_entries_fail_early(records: Seq<RecordView>, k: int)
    requires
        0 <= k <= records.len(),
        entries_in(records.subrange(0, k)) is Err,
    ensures
        entries_in(records) == entries_in(records.subrange(0, k)),
    decreases records.len() - k,
{
    if k < records.len() {
        assert(records.subrange(0, k + 1).drop_last() == records.subrange(0, k));
        lemma_entries_fail_early(records, k + 1);
    } else {
        assert(records.subrange(0, k) == records);
    }
}

/// The entries of a list as plain values.
pub open spec fn entries_view(entries: Seq<ClockodeEntry>) -> Seq<ClockodeEntryView> {
    entries.map_values(|e: ClockodeEntry| e@)
}

/// The keys by which entries are sorted: their names in lower case.
pub open spec fn name_keys(found: Seq<ClockodeEntryView>) -> Seq<Seq<char>> {
    found.map_values(|e: ClockodeEntryView| lower_cased(e.name))
}

/// The entries of `found` in the order of the indices `order`.
pub open spec fn picked(found: Seq<ClockodeEntryView>, order: Seq<usize>) -> Seq<
    ClockodeEntryView,
> {
    order.map_values(|i: usize| found[i as int])
}

/// `list` holds the entries of `found`, each once, sorted by name without
/// regard to letter case, entries of one name in the order of `found`.
pub open spec fn sorted_listing(found: Seq<ClockodeEntryView>, list: Seq<ClockodeEntryView>) -> bool {
    exists|order: Seq<usize>| #[trigger] sorts(name_keys(found), order) && list == picked(found, order)
}

/// Why a container lists no entries, if it does not.
pub open spec fn listing_error(db: DatabaseView) -> Option<DatabaseError> {
    match db.records() {
        None => Some(DatabaseError::MissingGroup),
        Some(records) => match entries_in(records) {
            Err(e) => Some(DatabaseError::Record(e)),
            Ok(_) => None,
        },
    }
}

/// `list` is the sorted listing of the entries of the container.
pub open spec fn listing_of(db: DatabaseView, list: Seq<ClockodeEntryView>) -> bool {
    db.records() matches Some(records) && entries_in(records) matches Ok(found) && sorted_listing(
        found,
        list,
    )
}

/// Sorts entries by name without regard to letter case; entries of one
/// name keep their order.
pub fn sort_entries(found: &Vec<ClockodeEntry>) -> (list: Vec<ClockodeEntry>)
    ensures
        sorted_listing(entries_view(found@), entries_view(list@)),
{
    let mut keys: Vec<Vec<char>> = Vec::new();
    let mut i: usize = 0;
    while i < found.len()
        invariant
            i <= found.len(),
            keys.len() == i,
            forall|j: int| 0 <= j < i ==> (#[trigger] keys@[j])@ == lower_cased(found@[j].name@),
        decreases found.len() - i,
    {
        keys.push(to_chars(found[i].name.as_str().to_lowercase().as_str()));
        i += 1;
    }
    assert(texts(keys@) =~= name_keys(entries_view(found@)));
    let order = sorted_order(&keys);
    let mut list: Vec<ClockodeEntry> = Vec::new();
    let mut k: usize = 0;
    while k < order.len()
        invariant
            k <= order.len(),
            order.len() == found.len(),
            forall|j: int| 0 <= j < order.len() ==> (#[trigger] order@[j]) < found.len(),
            list.len() == k,
            forall|j: int| 0 <= j < k ==> (#[trigger] list@[j])@ == found@[order@[j] as int]@,
        decreases order.len() - k,
    {
        list.push(found[order[k]].clone());
        k += 1;
    }
    assert(entries_view(list@) =~= picked(entries_view(found@), order@));
    list
}

/// The text of a batch: the URL of each entry, each followed by a line
/// feed.
pub open spec fn batch_written(list: Seq<ClockodeEntryView>) -> Seq<char>
    decreases list.len(),
{
    if list.len() == 0 {
        Seq::empty()
    } else {
        batch_written(list.drop_last()) + totp_url_written(list.last().totp) + seq!['\n']
    }
}

/// Writes entries as a batch, one URL per line. An empty list is an error:
/// no empty batch is written.
pub fn write_batch(entries: &Vec<ClockodeEntry>) -> (r: Result<String, DatabaseError>)
    ensures
        entries.len() == 0 ==> r == Err::<String, DatabaseError>(DatabaseError::NoEntries),
        entries.len() > 0 ==> (r matches Ok(text) && text@ == batch_written(
            entries_view(entries@),
        )),
{
    if entries.len() == 0 {
        return Err(DatabaseError::NoEntries);
    }
    let ghost all = entries_view(entries@);
    let mut out: Vec<char> = Vec::new();
    let mut i: usize = 0;
    while i < entries.len()
        invariant
            i <= entries.len(),
            all == entries_view(entries@),
            out@ == batch_written(all.subrange(0, i as int)),
        decreases entries.len() - i,
    {
        let ghost head = all.subrange(0, i + 1);
        assert(head.drop_last() == all.subrange(0, i as int));
        assert(head.last() == entries@[i as int]@);
        let url = totp_to_url(&entries[i].totp);
        append_str(&mut out, url.as_str());
        out.push('\n');
        assert(out@ =~= batch_written(head));
        i += 1;
    }
    assert(all.subrange(0, entries.len() as int) == all);
    Ok(from_chars(&out))
}

/// What a line of a batch holds.
pub enum LineRead {
    /// A blank line, or a comment: a line that begins with `#`.
    Ignored,
    /// A line that is no URL of a credential.
    Malformed,
    /// An entry.
    Entry(ClockodeEntryView),
}

/// The name of an imported entry: its account name, or `Default` where
/// that is blank.
pub open spec fn imported_name(account_name: Seq<char>) -> Seq<char> {
    if all_white_space(account_name) {
        "Default"@
    } else {
        account_name
    }
}

/// What a line holds, once trimmed.
pub open spec fn line_read(line: Seq<char>) -> LineRead {
    let text = trimmed(line);
    if text.len() == 0 || text[0] == '#' {
        LineRead::Ignored
    } else if !has_host(text) {
        LineRead::Malformed
    } else {
        match totp_url_read(text) {
            None => LineRead::Malformed,
            Some(totp) => LineRead::Entry(
                ClockodeEntryView { id: None, name: imported_name(totp.account_name), totp },
            ),
        }
    }
}

/// The entries that the lines hold, in the lines' order.
pub open spec fn entries_read(lines: Seq<Seq<char>>) -> Seq<ClockodeEntryView>
    decreases lines.len(),
{
    if lines.len() == 0 {
        Seq::empty()
    } else {
        match line_read(lines.last()) {
            LineRead::Entry(e) => entries_read(lines.drop_last()).push(e),
            _ => entries_read(lines.drop_last()),
        }
    }
}

/// The malformed lines, trimmed, in their order.
pub open spec fn lines_refused(lines: Seq<Seq<char>>) -> Seq<Seq<char>>
    decreases lines.len(),
{
    if lines.len() == 0 {
        Seq::empty()
    } else {
        match line_read(lines.last()) {
            LineRead::Malformed => lines_refused(lines.drop_last()).push(trimmed(lines.last())),
            _ => lines_refused(lines.drop_last()),
        }
    }
}

/// What reading a batch gave.
#[derive(Debug)]
pub struct Batch {
    /// The entries, in the order of their lines; none has an identifier
    /// yet.
    pub entries: Vec<ClockodeEntry>,
    /// The lines that were passed over as malformed, for the caller to
    /// report.
    pub refused: Vec<String>,
}

/// The texts of a list of strings.
pub open spec fn strings_view(lines: Seq<String>) -> Seq<Seq<char>> {
    lines.map_values(|line: String| line@)
}

/// Reads a batch: one URL per line. Blank lines and lines that begin with
/// `#` are ignored; a malformed line is passed over and reported, and does
/// not stop the reading.
pub fn read_batch(content: &str) -> (batch: Batch)
    ensures
        entries_view(batch.entries@) == entries_read(lines_of(content@)),
        strings_view(batch.refused@) == lines_refused(lines_of(content@)),
{
    let lines = split_lines(&to_chars(content));
    let ghost all = chars_view(lines@);
    let mut entries: Vec<ClockodeEntry> = Vec::new();
    let mut refused: Vec<String> = Vec::new();
    let mut i: usize = 0;
    assert(entries_view(entries@) =~= entries_read(all.subrange(0, 0)));
    assert(strings_view(refused@) =~= lines_refused(all.subrange(0, 0)));
    while i < lines.len()
        invariant
            i <= lines.len(),
            all == chars_view(lines@),
            entries_view(entries@) == entries_read(all.subrange(0, i as int)),
            strings_view(refused@) == lines_refused(all.subrange(0, i as int)),
        decreases lines.len() - i,
    {
        let ghost head = all.subrange(0, i + 1);
        let ghost found = entries_view(entries@);
        let ghost passed = strings_view(refused@);
        assert(head.drop_last() == all.subrange(0, i as int));
        assert(head.last() == lines@[i as int]@);
        let text = trim(&lines[i]);
        if text.len() > 0 && text[0] != '#' {
            let url = from_chars(&text);
            let read = if names_host(url.as_str()) {
                totp_from_url(url.as_str())
            } else {
                None
            };
            match read {
                Some(totp) => {
                    let name = if is_blank(&to_chars(totp.account_name.as_str())) {
                        "Default".to_owned()
                    } else {
                        totp.account_name.clone()
                    };
                    entries.push(ClockodeEntry { id: None, name, totp });
                    assert(entries_view(entries@) =~= found.push(line_read(head.last())->Entry_0));
                },
                None => {
                    refused.push(url);
                    assert(strings_view(refused@) =~= passed.push(trimmed(head.last())));
                },
            }
        }
        i += 1;
    }
    assert(all.subrange(0, lines.len() as int) == all);
    Batch { entries, refused }
}

/// What an import did.
#[derive(Debug)]
pub struct Imported {
    /// The lines that were passed over as malformed, for the caller to
    /// report.
    pub refused: Vec<String>,
    /// What was changed in the container.
    pub change: Change,
}

/// The identifiers of the records that hold no secret field, in the
/// records' order: the records that a listing passes over.
pub open spec fn ids_without_secret(records: Seq<RecordView>) -> Seq<Id>
    decreases records.len(),
{
    if records.len() == 0 {
        Seq::empty()
    } else if field_value(records.last().fields, secret_key()) is None {
        ids_without_secret(records.drop_last()).push(records.last().uuid)
    } else {
        ids_without_secret(records.drop_last())
    }
}

/// The records that store `entries` under the identifiers `ids`, one for
/// one.
pub open spec fn records_for(entries: Seq<ClockodeEntryView>, ids: Seq<Id>) -> Seq<RecordView>
    recommends
        ids.len() == entries.len(),
{
    Seq::new(entries.len(), |i: int| record_of(entries[i], ids[i]))
}

/// What an import of `count` entries changes: nothing where there is no
/// entry, and else the records that were added to the fixed group.
pub open spec fn import_change(db: DatabaseView, count: nat) -> Change {
    if count == 0 {
        Change::Unchanged
    } else {
        match db.records() {
            Some(records) => Change::Added {
                group: group_index(db.groups) as usize,
                from: records.len() as usize,
            },
            None => Change::Unchanged,
        }
    }
}

/// What importing entries makes of a container, `ids` being the new
/// identifiers: the entries join the fixed group in their order. Nothing to
/// import is no error, even where the group is missing.
pub open spec fn imported(db: DatabaseView, entries: Seq<ClockodeEntryView>, ids: Seq<Id>) -> Result<
    DatabaseView,
    DatabaseError,
> {
    if entries.len() == 0 {
        Ok(db)
    } else {
        match db.records() {
            None => Err(DatabaseError::MissingGroup),
            Some(records) => Ok(db.with_records(records + records_for(entries, ids))),
        }
    }
}

impl ClockodeDatabase {
    /// The entries of the fixed group, sorted by name without regard to
    /// letter case. Records without secret field are passed over. A missing
    /// group and a record that holds no readable entry are errors.
    pub fn list_entries(&self) -> (r: Result<Vec<ClockodeEntry>, DatabaseError>)
        ensures
            r matches Ok(list) ==> listing_of(self@, entries_view(list@)),
            r is Ok == listing_error(self@) is None,
            r matches Err(e) ==> listing_error(self@) == Some(e),
    {
        let at = match find_group(&self.groups) {
            Some(at) => at,
            None => {
                return Err(DatabaseError::MissingGroup);
            },
        };
        let records = &self.groups[at].records;
        let ghost all = records_view(records@);
        assert(self@.records() == Some(all));
        let mut found: Vec<ClockodeEntry> = Vec::new();
        let mut i: usize = 0;
        assert(all.subrange(0, 0) =~= Seq::<RecordView>::empty());
        assert(entries_view(found@) =~= Seq::<ClockodeEntryView>::empty());
        while i < records.len()
            invariant
                i <= records.len(),
                all == records_view(records@),
                self@.records() == Some(all),
                entries_in(all.subrange(0, i as int)) == Ok::<Seq<ClockodeEntryView>, RecordError>(
                    entries_view(found@),
                ),
            decreases records.len() - i,
        {
            let ghost head = all.subrange(0, i + 1);
            let ghost before = entries_view(found@);
            assert(head.drop_last() == all.subrange(0, i as int));
            assert(head.last() == records@[i as int]@);
            match ClockodeEntry::from_record(records[i].uuid, &records[i].fields) {
                Ok(entry) => {
                    found.push(entry);
                    assert(entries_view(found@) =~= before.push(
                        record_entry(head.last().uuid, head.last().fields)->Ok_0,
                    ));
                },
                Err(RecordError::MissingSecret) => {},
                Err(e) => {
                    proof {
                        assert(entries_in(head) == Err::<Seq<ClockodeEntryView>, RecordError>(e));
                        lemma_entries_fail_early(all, i + 1);
                    }
                    return Err(DatabaseError::Record(e));
                },
            }
            i += 1;
        }
        assert(all.subrange(0, records.len() as int) == all);
        Ok(sort_entries(&found))
    }

    /// The identifiers of the records of the fixed group that a listing
    /// passes over because they hold no secret field, for the caller to
    /// report. A missing group is an error.
    pub fn records_without_secret(&self) -> (r: Result<Vec<Id>, DatabaseError>)
        ensures
            self@.records() is None ==> r == Err::<Vec<Id>, DatabaseError>(
                DatabaseError::MissingGroup,
            ),
            self@.records() matches Some(records) ==> (r matches Ok(ids) && ids@
                == ids_without_secret(records)),
    {
        let at = match find_group(&self.groups) {
            Some(at) => at,
            None => {
                return Err(DatabaseError::MissingGroup);
            },
        };
        let records = &self.groups[at].records;
        let ghost all = records_view(records@);
        assert(self@.records() == Some(all));
        let mut ids: Vec<Id> = Vec::new();
        let mut i: usize = 0;
        assert(all.subrange(0, 0) =~= Seq::<RecordView>::empty());
        while i < records.len()
            invariant
                i <= records.len(),
                all == records_view(records@),
                ids@ == ids_without_secret(all.subrange(0, i as int)),
            decreases records.len() - i,
        {
            let ghost head = all.subrange(0, i + 1);
            assert(head.drop_last() == all.subrange(0, i as int));
            assert(head.last() == records@[i as int]@);
            if get_field(&records[i].fields, "ClockodeTotpSecret").is_none() {
                ids.push(records[i].uuid);
            }
            i += 1;
        }
        assert(all.subrange(0, records.len() as int) == all);
        Ok(ids)
    }

    /// Adds entries to the fixed group, the entry at each index as a record
    /// with the identifier at that index.
    pub fn import_entries_as(&mut self, entries: &Vec<ClockodeEntry>, ids: &Vec<Id>) -> (r: Result<
        Change,
        DatabaseError,
    >)
        requires
            ids.len() == entries.len(),
        ensures
            r is Ok ==> (imported(old(self)@, entries_view(entries@), ids@) matches Ok(db) && db
                == final(self)@),
            r matches Ok(change) ==> change == import_change(old(self)@, entries.len() as nat),
            r matches Err(e) ==> imported(old(self)@, entries_view(entries@), ids@) matches Err(x)
                && x == e,
            r is Err ==> final(self)@ == old(self)@,
    {
        if entries.len() == 0 {
            return Ok(Change::Unchanged);
        }
        let at = match find_group(&self.groups) {
            Some(at) => at,
            None => {
                return Err(DatabaseError::MissingGroup);
            },
        };
        let mut records = self.take_records(at);
        let ghost before = records_view(records@);
        let ghost all = entries_view(entries@);
        let from = records.len();
        let mut i: usize = 0;
        while i < entries.len()
            invariant
                i <= entries.len(),
                ids.len() == entries.len(),
                all == entries_view(entries@),
                records_view(records@) == before + records_for(all, ids@).subrange(0, i as int),
            decreases entries.len() - i,
        {
            let ghost so_far = records_view(records@);
            let ghost wanted = records_for(all, ids@);
            records.push(Record { uuid: ids[i], fields: entries[i].to_fields() });
            assert(wanted[i as int] == record_of(all[i as int], ids@[i as int]));
            assert(records_view(records@) =~= so_far.push(wanted[i as int]));
            assert(wanted.subrange(0, i + 1) =~= wanted.subrange(0, i as int).push(wanted[i as int]));
            assert(records_view(records@) =~= before + wanted.subrange(0, i + 1));
            i += 1;
        }
        assert(records_for(all, ids@).subrange(0, entries.len() as int) =~= records_for(
            all,
            ids@,
        ));
        self.put_records(at, records);
        Ok(Change::Added { group: at, from })
    }

    /// Imports a batch of one URL per line: every entry read from it joins
    /// the fixed group under a new random identifier, in the order of the
    /// lines. Malformed lines do not fail the import; they are returned for
    /// the caller to report. The import fails only where there is an entry
    /// to add and no group to add it to, and then changes nothing.
    pub fn import_content(&mut self, content: &str) -> (r: Result<Imported, DatabaseError>)
        ensures
            r matches Ok(done) ==> strings_view(done.refused@) == lines_refused(
                lines_of(content@),
            ),
            r matches Ok(done) ==> done.change == import_change(
                old(self)@,
                entries_read(lines_of(content@)).len(),
            ),
            r is Ok ==> exists|ids: Seq<Id>| #[trigger]
                imported(old(self)@, entries_read(lines_of(content@)), ids) == Ok::<
                    DatabaseView,
                    DatabaseError,
                >(final(self)@) && ids.len() == entries_read(lines_of(content@)).len(),
            r is Ok == (entries_read(lines_of(content@)).len() == 0 || old(self)@.records()
                is Some),
            r matches Err(e) ==> e == DatabaseError::MissingGroup && final(self)@ == old(self)@,
    {
        let batch = read_batch(content);
        let mut ids: Vec<Id> = Vec::new();
        let mut i: usize = 0;
        while i < batch.entries.len()
            invariant
                i <= batch.entries.len(),
                ids.len() == i,
            decreases batch.entries.len() - i,
        {
            ids.push(Id::fresh());
            i += 1;
        }
        match self.import_entries_as(&batch.entries, &ids) {
            Ok(change) => Ok(Imported { refused: batch.refused, change }),
            Err(e) => Err(e),
        }
    }

    /// Writes the entries of the container as a batch, one URL per line,
    /// sorted as `list_entries` sorts them. A container without entries is
    /// an error: no empty batch is written.
    pub fn export_content(&self) -> (r: Result<String, DatabaseError>)
        ensures
            r matches Ok(text) ==> exists|list: Seq<ClockodeEntryView>| #[trigger]
                listing_of(self@, list) && list.len() > 0 && text@ == batch_written(list),
            r matches Err(e) ==> listing_error(self@) == Some(e) || (e == DatabaseError::NoEntries
                && listing_of(self@, Seq::<ClockodeEntryView>::empty())),
    {
        let list = self.list_entries()?;
        assert(list.len() == 0 ==> entries_view(list@) =~= Seq::<ClockodeEntryView>::empty());
        write_batch(&list)
    }
}

} // verus!
