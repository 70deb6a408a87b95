//! The record of what is buried: an ordered list of pairs of paths, kept as a text
//! file with one pair to a line. The functions here turn the file's bytes into
//! entries and back, and answer the questions asked of the record. Reading and
//! writing the file is left to the caller.
//!
//! A line holds the original path, one delimiter, the grave path, and ends with a
//! line end. A line without exactly one delimiter is no entry: it is passed over when
//! the record is read and is gone when the record is written anew. A path that holds
//! a delimiter or a line end cannot be recorded and is refused.

use crate::path::{
    append_from, is_under, join, joined, path_views, same_bytes, slice_of, starts_with,
    to_owned_bytes,
};
use vstd::prelude::*;

verus! {

/// The byte between the two paths of a line (a tab).
pub const DELIMITER: u8 = 9;

/// The byte that ends a line.
pub const LINE_END: u8 = 10;

/// One burial: where the object was, and where it rests.
pub struct Entry {
    pub orig: Seq<u8>,
    pub dest: Seq<u8>,
}

/// One burial, as held in memory.
#[derive(Debug)]
pub struct RecordItem {
    /// Where the object was.
    pub orig: Vec<u8>,
    /// Where it rests in the graveyard.
    pub dest: Vec<u8>,
}

impl View for RecordItem {
    type V = Entry;

    open spec fn view(&self) -> Entry {
        Entry { orig: self.orig@, dest: self.dest@ }
    }
}

impl Clone for RecordItem {
    fn clone(&self) -> (copy: RecordItem)
        ensures
            copy@ == self@,
    {
        RecordItem { orig: self.orig.clone(), dest: self.dest.clone() }
    }
}

/// The entries that `items` holds.
pub open spec fn item_views(items: Seq<RecordItem>) -> Seq<Entry> {
    items.map_values(|item: RecordItem| item@)
}

/// The entry that `item` holds, if there is one.
pub open spec fn item_view(item: Option<RecordItem>) -> Option<Entry> {
    match item {
        Some(item) => Some(item@),
        None => None,
    }
}

/// The name of the record's file inside the graveyard.
pub open spec fn record_name() -> Seq<u8> {
    seq![46u8, 114u8, 101u8, 99u8, 111u8, 114u8, 100u8]
}

/// Where the first `byte` stands in `text`; the length of `text` if it holds none.
pub open spec fn first_index(text: Seq<u8>, byte: u8) -> nat
    decreases text.len(),
{
    if text.len() == 0 || text[0] == byte {
        0
    } else {
        1 + first_index(text.skip(1), byte)
    }
}

/// A path that can stand in a line: it holds neither a delimiter nor a line end.
pub open spec fn recordable(path: Seq<u8>) -> bool {
    !path.contains(DELIMITER) && !path.contains(LINE_END)
}

/// An entry both of whose paths can stand in a line.
pub open spec fn entry_recordable(entry: Entry) -> bool {
    recordable(entry.orig) && recordable(entry.dest)
}

/// The line that holds `entry`.
pub open spec fn entry_line(entry: Entry) -> Seq<u8> {
    entry.orig + seq![DELIMITER] + entry.dest + seq![LINE_END]
}

/// The entry that `line`, taken without its line end, holds: the bytes before and
/// after its delimiter if it has exactly one.
pub open spec fn line_entry(line: Seq<u8>) -> Option<Entry> {
    let k = first_index(line, DELIMITER) as int;
    if k < line.len() && !line.skip(k + 1).contains(DELIMITER) {
        Some(Entry { orig: line.take(k), dest: line.skip(k + 1) })
    } else {
        None
    }
}

/// The entries that the bytes of a record hold, first line first.
pub open spec fn parsed(content: Seq<u8>) -> Seq<Entry>
    decreases content.len(),
{
    if content.len() == 0 {
        Seq::<Entry>::empty()
    } else {
        let k = first_index(content, LINE_END) as int;
        let rest = if k < content.len() {
            parsed(content.skip(k + 1))
        } else {
            Seq::<Entry>::empty()
        };
        match line_entry(content.take(k)) {
            Some(entry) => seq![entry] + rest,
            None => rest,
        }
    }
}

/// The bytes of a record that holds `entries`, in their order.
pub open spec fn rendered(entries: Seq<Entry>) -> Seq<u8>
    decreases entries.len(),
{
    if entries.len() == 0 {
        Seq::<u8>::empty()
    } else {
        rendered(entries.drop_last()) + entry_line(entries.last())
    }
}

/// The entries whose grave is `prefix` or lies below it, in their order.
pub open spec fn under_prefix(entries: Seq<Entry>, prefix: Seq<u8>) -> Seq<Entry> {
    entries.filter(|e: Entry| is_under(e.dest, prefix))
}

/// The entries whose grave path is one of `graves`, in their order.
pub open spec fn matching(entries: Seq<Entry>, graves: Seq<Seq<u8>>) -> Seq<Entry> {
    entries.filter(|e: Entry| graves.contains(e.dest))
}

/// The entries whose grave path is none of `graves`, in their order.
pub open spec fn without(entries: Seq<Entry>, graves: Seq<Seq<u8>>) -> Seq<Entry> {
    entries.filter(|e: Entry| !graves.contains(e.dest))
}

/// Where the first `byte` stands in `text` from `from` on.
fn find_byte(text: &[u8], from: usize, byte: u8) -> (at: usize)
    requires
        from <= text.len(),
    ensures
        at == from + first_index(text@.skip(from as int), byte),
        from <= at <= text.len(),
{
    let mut i: usize = from;
    while i < text.len() && text[i] != byte
        invariant
            from <= i <= text.len(),
            first_index(text@.skip(from as int), byte) == (i - from) + first_index(
                text@.skip(i as int),
                byte,
            ),
        decreases text.len() - i,
    {
        assert(text@.skip(i as int).skip(1) =~= text@.skip(i + 1));
        i += 1;
    }
    i
}

/// Whether `path` holds neither a delimiter nor a line end.
pub fn is_recordable(path: &[u8]) -> (ok: bool)
    ensures
        ok == recordable(path@),
{
    let mut i: usize = 0;
    while i < path.len()
        invariant
            i <= path.len(),
            forall|k: int| 0 <= k < i ==> path@[k] != DELIMITER && path@[k] != LINE_END,
        decreases path.len() - i,
    {
        if path[i] == DELIMITER || path[i] == LINE_END {
            return false;
        }
        i += 1;
    }
    true
}

/// Whether one of `graves` is `path`.
pub fn holds_path(graves: &Vec<Vec<u8>>, path: &[u8]) -> (found: bool)
    ensures
        found == path_views(graves@).contains(path@),
{
    let mut i: usize = 0;
    while i < graves.len()
        invariant
            i <= graves.len(),
            forall|k: int| 0 <= k < i ==> path_views(graves@)[k] != path@,
        decreases graves.len() - i,
    {
        if same_bytes(graves[i].as_slice(), path) {
            assert(path_views(graves@)[i as int] == path@);
            return true;
        }
        i += 1;
    }
    false
}

impl RecordItem {
    /// Reads the entry that the bytes of `text` from `from` up to `to` hold, if they
    /// are a line with exactly one delimiter.
    fn read(text: &[u8], from: usize, to: usize) -> (item: Option<RecordItem>)
        requires
            from <= to <= text.len(),
        ensures
            item_view(item) == line_entry(text@.subrange(from as int, to as int)),
    {
        let ghost line = text@.subrange(from as int, to as int);
        let mut k: usize = from;
        assert(line.skip(0) =~= line);
        while k < to && text[k] != DELIMITER
            invariant
                from <= k <= to <= text.len(),
                line == text@.subrange(from as int, to as int),
                first_index(line, DELIMITER) == (k - from) + first_index(
                    line.skip(k - from),
                    DELIMITER,
                ),
            decreases to - k,
        {
            assert(line.skip(k - from).skip(1) =~= line.skip(k + 1 - from));
            k += 1;
        }
        if k >= to {
            return None;
        }
        let mut j: usize = k + 1;
        while j < to
            invariant
                k < j <= to <= text.len(),
                from <= k,
                line == text@.subrange(from as int, to as int),
                first_index(line, DELIMITER) == k - from,
                forall|i: int| k < i < j ==> text@[i] != DELIMITER,
            decreases to - j,
        {
            if text[j] == DELIMITER {
                assert(line.skip(k + 1 - from)[j - k - 1] == DELIMITER);
                return None;
            }
            j += 1;
        }
        let item = RecordItem { orig: slice_of(text, from, k), dest: slice_of(text, k + 1, to) };
        assert(item.orig@ =~= line.take(k - from));
        assert(item.dest@ =~= line.skip(k + 1 - from));
        Some(item)
    }

    /// Reads the entry that `line` holds; `line` is taken without its line end.
    pub fn new(line: &[u8]) -> (item: Option<RecordItem>)
        ensures
            item_view(item) == line_entry(line@),
    {
        assert(line@.subrange(0, line.len() as int) =~= line@);
        RecordItem::read(line, 0, line.len())
    }

    /// The line that holds this entry, with its line end.
    pub fn line(&self) -> (line: Vec<u8>)
        ensures
            line@ == entry_line(self@),
    {
        let mut line = to_owned_bytes(self.orig.as_slice());
        line.push(DELIMITER);
        append_from(&mut line, self.dest.as_slice(), 0);
        line.push(LINE_END);
        line
    }
}

/// Where the record of the graveyard `graveyard` is kept.
pub fn record_path(graveyard: &[u8]) -> (path: Vec<u8>)
    ensures
        path@ == joined(graveyard@, record_name()),
{
    let mut name: Vec<u8> = Vec::new();
    name.push(46);
    name.push(114);
    name.push(101);
    name.push(99);
    name.push(111);
    name.push(114);
    name.push(100);
    join(graveyard, name.as_slice())
}

/// The record of a graveyard, read into memory: its entries, oldest first.
#[derive(Debug)]
pub struct Record {
    pub items: Vec<RecordItem>,
}

impl View for Record {
    type V = Seq<Entry>;

    open spec fn view(&self) -> Seq<Entry> {
        item_views(self.items@)
    }
}

impl Record {
    /// A record without entries: that of a graveyard in which nothing rests.
    pub fn new() -> (record: Record)
        ensures
            record@ == Seq::<Entry>::empty(),
    {
        let record = Record { items: Vec::new() };
        record
    }

    /// Reads the entries that the bytes of a record's file hold.
    pub fn parse(content: &[u8]) -> (record: Record)
        ensures
            record@ == parsed(content@),
    {
        let mut items: Vec<RecordItem> = Vec::new();
        let mut pos: usize = 0;
        assert(content@.skip(0) =~= content@);
        while pos < content.len()
            invariant
                pos <= content.len(),
                item_views(items@) + parsed(content@.skip(pos as int)) == parsed(content@),
            decreases content.len() - pos,
        {
            let ghost rest = content@.skip(pos as int);
            let end = find_byte(content, pos, LINE_END);
            assert(rest.take(end - pos) =~= content@.subrange(pos as int, end as int));
            match RecordItem::read(content, pos, end) {
                Some(item) => {
                    items.push(item);
                },
                None => {},
            }
            if end < content.len() {
                assert(rest.skip(end - pos + 1) =~= content@.skip(end + 1));
                pos = end + 1;
            } else {
                pos = end;
            }
        }
        Record { items }
    }

    /// The bytes of a file that holds this record.
    pub fn render(&self) -> (content: Vec<u8>)
        ensures
            content@ == rendered(self@),
    {
        let mut content: Vec<u8> = Vec::new();
        let mut i: usize = 0;
        while i < self.items.len()
            invariant
                i <= self.items.len(),
                content@ == rendered(self@.take(i as int)),
            decreases self.items.len() - i,
        {
            let line = self.items[i].line();
            append_from(&mut content, line.as_slice(), 0);
            assert(self@.take(i + 1).drop_last() =~= self@.take(i as int));
            i += 1;
        }
        assert(self@.take(self.items.len() as int) =~= self@);
        content
    }

    /// The entry written last, if there is one.
    pub fn get_last_bury(&self) -> (last: Option<RecordItem>)
        ensures
            item_view(last) == if self@.len() > 0 {
                Some(self@.last())
            } else {
                None
            },
    {
        if self.items.len() == 0 {
            None
        } else {
            Some(self.items[self.items.len() - 1].clone())
        }
    }

    /// The entries whose grave is `gravepath` or lies below it, oldest first.
    pub fn seance(&self, gravepath: &[u8]) -> (found: Vec<RecordItem>)
        ensures
            item_views(found@) == under_prefix(self@, gravepath@),
    {
        let ghost pred = |e: Entry| is_under(e.dest, gravepath@);
        let mut found: Vec<RecordItem> = Vec::new();
        let mut i: usize = 0;
        proof {
            reveal(Seq::filter);
        }
        while i < self.items.len()
            invariant
                i <= self.items.len(),
                pred == (|e: Entry| is_under(e.dest, gravepath@)),
                item_views(found@) == self@.take(i as int).filter(pred),
            decreases self.items.len() - i,
        {
            proof {
                reveal(Seq::filter);
                assert(self@.take(i + 1).drop_last() =~= self@.take(i as int));
            }
            if starts_with(self.items[i].dest.as_slice(), gravepath) {
                found.push(self.items[i].clone());
            }
            i += 1;
        }
        assert(self@.take(self.items.len() as int) =~= self@);
        found
    }

    /// The entries whose grave path is one of `graves`, oldest first. A path in
    /// `graves` that no entry has is passed over.
    pub fn lines_of_graves(&self, graves: &Vec<Vec<u8>>) -> (found: Vec<RecordItem>)
        ensures
            item_views(found@) == matching(self@, path_views(graves@)),
    {
        let ghost pred = |e: Entry| path_views(graves@).contains(e.dest);
        let mut found: Vec<RecordItem> = Vec::new();
        let mut i: usize = 0;
        proof {
            reveal(Seq::filter);
        }
        while i < self.items.len()
            invariant
                i <= self.items.len(),
                pred == (|e: Entry| path_views(graves@).contains(e.dest)),
                item_views(found@) == self@.take(i as int).filter(pred),
            decreases self.items.len() - i,
        {
            proof {
                reveal(Seq::filter);
                assert(self@.take(i + 1).drop_last() =~= self@.take(i as int));
            }
            if holds_path(graves, self.items[i].dest.as_slice()) {
                found.push(self.items[i].clone());
            }
            i += 1;
        }
        assert(self@.take(self.items.len() as int) =~= self@);
        found
    }

    /// The record without the entries whose grave path is one of `graves`; the other
    /// entries keep their order.
    pub fn log_exhumed_graves(&self, graves: &Vec<Vec<u8>>) -> (kept: Record)
        ensures
            kept@ == without(self@, path_views(graves@)),
    {
        let ghost pred = |e: Entry| !path_views(graves@).contains(e.dest);
        let mut items: Vec<RecordItem> = Vec::new();
        let mut i: usize = 0;
        proof {
            reveal(Seq::filter);
        }
        while i < self.items.len()
            invariant
                i <= self.items.len(),
                pred == (|e: Entry| !path_views(graves@).contains(e.dest)),
                item_views(items@) == self@.take(i as int).filter(pred),
            decreases self.items.len() - i,
        {
            proof {
                reveal(Seq::filter);
                assert(self@.take(i + 1).drop_last() =~= self@.take(i as int));
            }
            if !holds_path(graves, self.items[i].dest.as_slice()) {
                items.push(self.items[i].clone());
            }
            i += 1;
        }
        assert(self@.take(self.items.len() as int) =~= self@);
        Record { items }
    }

    /// Records that `source` now rests at `dest`: the entry becomes the last of the
    /// record, and the line to add at the end of the record's file is returned. Paths
    /// that cannot stand in a line are refused and the record stays as it is.
    pub fn write_log(&mut self, source: &[u8], dest: &[u8]) -> (line: Option<Vec<u8>>)
        ensures
            line is Some <==> recordable(source@) && recordable(dest@),
            line is None ==> final(self)@ == old(self)@,
            line matches Some(bytes) ==> {
                &&& final(self)@ == old(self)@.push(Entry { orig: source@, dest: dest@ })
                &&& bytes@ == entry_line(Entry { orig: source@, dest: dest@ })
            },
    {
        if !is_recordable(source) || !is_recordable(dest) {
            return None;
        }
        let item = RecordItem { orig: to_owned_bytes(source), dest: to_owned_bytes(dest) };
        let line = item.line();
        self.items.push(item);
        Some(line)
    }
}

/// Where the first `byte` of `text` stands: no byte before that place is `byte`, and
/// the byte at that place is, unless `text` holds none.
pub proof fn lemma_first_index(text: Seq<u8>, byte: u8)
    ensures
        first_index(text, byte) <= text.len(),
        forall|i: int| 0 <= i < first_index(text, byte) ==> text[i] != byte,
        first_index(text, byte) < text.len() ==> text[first_index(text, byte) as int] == byte,
    decreases text.len(),
{
    if text.len() > 0 && text[0] != byte {
        lemma_first_index(text.skip(1), byte);
        assert forall|i: int| 0 <= i < first_index(text, byte) implies text[i] != byte by {
            if i > 0 {
                assert(text[i] == text.skip(1)[i - 1]);
            }
        }
    }
}

/// The place `k` is that of the first `byte` of `text` if no byte before it is
/// `byte` and the byte at `k` is, or `k` is the end of `text`.
pub proof fn lemma_first_index_is(text: Seq<u8>, byte: u8, k: int)
    requires
        0 <= k <= text.len(),
        forall|i: int| 0 <= i < k ==> text[i] != byte,
        k < text.len() ==> text[k] == byte,
    ensures
        first_index(text, byte) == k,
{
    lemma_first_index(text, byte);
}

/// The bytes of a rendered record are empty or end with a line end.
pub proof fn lemma_rendered_ends_lines(entries: Seq<Entry>)
    ensures
        rendered(entries).len() == 0 || rendered(entries).last() == LINE_END,
{
}

/// Adding the line of an entry at the end of a record's file, which is empty or ends
/// with a line end, adds that entry after the last of the record's entries and
/// changes none of them.
pub proof fn lemma_append_line(content: Seq<u8>, entry: Entry)
    requires
        content.len() == 0 || content.last() == LINE_END,
        entry_recordable(entry),
    ensures
        parsed(content + entry_line(entry)) == parsed(content).push(entry),
    decreases content.len(),
{
    let line = entry_line(entry);
    let whole = content + line;
    if content.len() == 0 {
        assert(whole =~= line);
        let k = line.len() - 1;
        let text = entry.orig + seq![DELIMITER] + entry.dest;
        assert(line =~= text.push(LINE_END));
        assert forall|i: int| 0 <= i < k implies line[i] != LINE_END by {
            if i < entry.orig.len() {
                assert(line[i] == entry.orig[i]);
            } else if i > entry.orig.len() {
                assert(line[i] == entry.dest[i - entry.orig.len() - 1]);
            }
        }
        lemma_first_index_is(line, LINE_END, k);
        assert(line.take(k) =~= text);
        assert forall|i: int| 0 <= i < entry.orig.len() implies text[i] != DELIMITER by {
            assert(text[i] == entry.orig[i]);
        }
        lemma_first_index_is(text, DELIMITER, entry.orig.len() as int);
        assert(text.take(entry.orig.len() as int) =~= entry.orig);
        assert(text.skip(entry.orig.len() as int + 1) =~= entry.dest);
        assert(line_entry(text) == Some(entry));
        assert(line.skip(k + 1) =~= Seq::<u8>::empty());
        assert(parsed(line.skip(k + 1)) =~= Seq::<Entry>::empty());
        assert(parsed(line) =~= seq![entry]);
        assert(parsed(content).push(entry) =~= seq![entry]);
    } else {
        lemma_first_index(content, LINE_END);
        let k = first_index(content, LINE_END) as int;
        assert(k < content.len());
        assert forall|i: int| 0 <= i < k implies whole[i] != LINE_END by {
            assert(whole[i] == content[i]);
        }
        assert(whole[k] == content[k]);
        lemma_first_index_is(whole, LINE_END, k);
        assert(whole.take(k) =~= content.take(k));
        let tail = content.skip(k + 1);
        assert(whole.skip(k + 1) =~= tail + line);
        if tail.len() > 0 {
            assert(tail.last() == content.last());
        }
        lemma_append_line(tail, entry);
        match line_entry(content.take(k)) {
            Some(first) => {
                assert(parsed(whole) =~= (seq![first] + parsed(tail)).push(entry));
            },
            None => {},
        }
    }
}

/// Reading what was written gives back what was there: the entries of a record,
/// written to a file and read again, are the same entries in the same order.
pub proof fn lemma_parse_of_render(entries: Seq<Entry>)
    requires
        forall|i: int| 0 <= i < entries.len() ==> entry_recordable(#[trigger] entries[i]),
    ensures
        parsed(rendered(entries)) == entries,
    decreases entries.len(),
{
    if entries.len() > 0 {
        let front = entries.drop_last();
        lemma_parse_of_render(front);
        lemma_rendered_ends_lines(front);
        lemma_append_line(rendered(front), entries.last());
    }
}

/// What is kept of a record holds exactly the entries of the record that are to be
/// kept.
pub proof fn lemma_kept_exactly(entries: Seq<Entry>, keep: spec_fn(Entry) -> bool, entry: Entry)
    ensures
        entries.filter(keep).contains(entry) <==> entries.contains(entry) && keep(entry),
    decreases entries.len(),
{
    reveal(Seq::filter);
    if entries.len() > 0 {
        let front = entries.drop_last();
        lemma_kept_exactly(front, keep, entry);
        let found = entries.filter(keep);
        let before = front.filter(keep);
        if entries.contains(entry) && keep(entry) {
            let i = choose|i: int| 0 <= i < entries.len() && entries[i] == entry;
            if i < front.len() {
                assert(front[i] == entry);
                let j = choose|j: int| 0 <= j < before.len() && before[j] == entry;
                assert(found[j] == entry);
            } else {
                assert(found.last() == entry);
            }
        }
        if found.contains(entry) {
            let j = choose|j: int| 0 <= j < found.len() && found[j] == entry;
            if j < before.len() {
                assert(before[j] == entry);
                let i = choose|i: int| 0 <= i < front.len() && front[i] == entry;
                assert(entries[i] == entry);
            } else {
                assert(entries[entries.len() - 1] == entry);
            }
        }
    }
}

/// The query for a prefix finds exactly the entries whose grave is the prefix or lies
/// below it: what it finds is such an entry of the record, and every such entry of
/// the record is found.
pub proof fn lemma_seance_finds_exactly(entries: Seq<Entry>, prefix: Seq<u8>, entry: Entry)
    ensures
        under_prefix(entries, prefix).contains(entry) <==> entries.contains(entry) && is_under(
            entry.dest,
            prefix,
        ),
{
    lemma_kept_exactly(entries, |e: Entry| is_under(e.dest, prefix), entry);
}

/// Taking graves out of the record takes out exactly their entries: an entry stays
/// if and only if it was there and its grave is none of those taken out.
pub proof fn lemma_exhumed_exactly(entries: Seq<Entry>, graves: Seq<Seq<u8>>, entry: Entry)
    ensures
        without(entries, graves).contains(entry) <==> entries.contains(entry) && !graves.contains(
            entry.dest,
        ),
        matching(entries, graves).contains(entry) <==> entries.contains(entry) && graves.contains(
            entry.dest,
        ),
{
    lemma_kept_exactly(entries, |e: Entry| !graves.contains(e.dest), entry);
    lemma_kept_exactly(entries, |e: Entry| graves.contains(e.dest), entry);
}

/// The query keeps the order of the record: what it finds in a record made of two
/// parts is what it finds in the first part, followed by what it finds in the second.
pub proof fn lemma_seance_in_store_order(first: Seq<Entry>, second: Seq<Entry>, prefix: Seq<u8>)
    ensures
        under_prefix(first + second, prefix) == under_prefix(first, prefix) + under_prefix(
            second,
            prefix,
        ),
{
    Seq::filter_distributes_over_add(first, second, |e: Entry| is_under(e.dest, prefix));
}

/// An entry whose grave no other entry has, written last, is the one that the query
/// for its grave finds, and the record without its grave is the record as it was
/// before.
pub proof fn lemma_last_entry_leaves_alone(entries: Seq<Entry>, entry: Entry)
    requires
        forall|i: int| 0 <= i < entries.len() ==> (#[trigger] entries[i]).dest != entry.dest,
    ensures
        matching(entries.push(entry), seq![entry.dest]) == seq![entry],
        without(entries.push(entry), seq![entry.dest]) == entries,
    decreases entries.len(),
{
    reveal(Seq::filter);
    let graves = seq![entry.dest];
    assert(graves[0] == entry.dest);
    lemma_untouched_by_other_graves(entries, entry.dest);
    assert(entries.push(entry).drop_last() =~= entries);
}

/// A record in which no entry has the grave `grave` holds nothing that matches it
/// and loses nothing when it is taken out.
pub proof fn lemma_untouched_by_other_graves(entries: Seq<Entry>, grave: Seq<u8>)
    requires
        forall|i: int| 0 <= i < entries.len() ==> (#[trigger] entries[i]).dest != grave,
    ensures
        matching(entries, seq![grave]) == Seq::<Entry>::empty(),
        without(entries, seq![grave]) == entries,
    decreases entries.len(),
{
    reveal(Seq::filter);
    if entries.len() > 0 {
        let front = entries.drop_last();
        lemma_untouched_by_other_graves(front, grave);
        let graves = seq![grave];
        assert(!graves.contains(entries.last().dest)) by {
            if graves.contains(entries.last().dest) {
                let j = choose|j: int| 0 <= j < graves.len() && graves[j] == entries.last().dest;
            }
        }
    }
}

/// What is read from a record can be written to it: neither path of an entry that a
/// line holds has a delimiter or a line end in it.
pub proof fn lemma_parsed_recordable(content: Seq<u8>, i: int)
    requires
        0 <= i < parsed(content).len(),
    ensures
        entry_recordable(parsed(content)[i]),
    decreases content.len(),
{
    lemma_first_index(content, LINE_END);
    let k = first_index(content, LINE_END) as int;
    let line = content.take(k);
    let rest = if k < content.len() {
        parsed(content.skip(k + 1))
    } else {
        Seq::<Entry>::empty()
    };
    match line_entry(line) {
        Some(entry) => {
            if i == 0 {
                lemma_first_index(line, DELIMITER);
                let t = first_index(line, DELIMITER) as int;
                assert forall|j: int| 0 <= j < entry.orig.len() implies entry.orig[j] != DELIMITER
                    && entry.orig[j] != LINE_END by {
                    assert(entry.orig[j] == line[j]);
                    assert(line[j] == content[j]);
                }
                assert forall|j: int| 0 <= j < entry.dest.len() implies entry.dest[j]
                    != LINE_END by {
                    assert(entry.dest[j] == line[j + t + 1]);
                    assert(line[j + t + 1] == content[j + t + 1]);
                }
            } else {
                assert(parsed(content)[i] == rest[i - 1]);
                lemma_parsed_recordable(content.skip(k + 1), i - 1);
            }
        },
        None => {
            lemma_parsed_recordable(content.skip(k + 1), i);
        },
    }
}

/// Every grave that stands in the record can be chosen by its path: the entries
/// that match the path of an entry's grave hold that entry.
pub proof fn lemma_each_grave_can_be_chosen(entries: Seq<Entry>, entry: Entry)
    requires
        entries.contains(entry),
    ensures
        matching(entries, seq![entry.dest]).contains(entry),
{
    let graves = seq![entry.dest];
    assert(graves[0] == entry.dest);
    lemma_exhumed_exactly(entries, graves, entry);
}

} // verus!
