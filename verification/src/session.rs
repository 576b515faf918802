//! Session stores: keys with their values, kept in memory or in a file.
//!
//! A store that is kept in a file writes the whole file again at every
//! insert. The library says what to write; writing is left to the caller.

use vstd::prelude::*;
use vstd::slice::slice_subrange;
use crate::lines::{trim, trim_of};
use crate::pieces::{
    free_of, lemma_find_mark, lemma_free_of_concat, lemma_join_front, lemma_match_second,
};
use crate::registry::{distinct_keys, index_of, lemma_index_of, lookup, put, Registry};
use crate::text::{
    append, find, find_from, from_chars, join, join_with, lemma_find_from, to_chars, views,
};

verus! {

/// What separates the key of a record from its value.
pub open spec fn record_end() -> Seq<char> {
    seq![' ', '+', '/', '+', '/', '+', ' ']
}

/// One entry as it is written to the file.
pub open spec fn record_text(entry: (Seq<char>, Seq<char>)) -> Seq<char> {
    entry.0 + record_end() + entry.1
}

/// The entries as they are written to the file: one record each, with a
/// slash between two records.
pub open spec fn file_text(entries: Seq<(Seq<char>, Seq<char>)>) -> Seq<char> {
    join_with(entries.map_values(|e: (Seq<char>, Seq<char>)| record_text(e)), seq!['/'])
}

/// The index of the last slash of a text.
pub open spec fn last_slash(s: Seq<char>) -> Option<int>
    decreases s.len(),
{
    if s.len() == 0 {
        None
    } else if s.last() == '/' {
        Some(s.len() - 1)
    } else {
        last_slash(s.drop_last())
    }
}

/// The entries that a text which is not empty holds.
///
/// The key of the first record stands before the first separator. Where no
/// other separator follows, the rest is its value. Where one follows, the
/// key of the next record stands before it, behind the last slash, and the
/// value of the first record ends at that slash. Keys and values are taken
/// without the white space around them. A text without a separator, or
/// without a slash between two separators, holds no entries.
pub open spec fn records_from(text: Seq<char>) -> Option<Seq<(Seq<char>, Seq<char>)>>
    decreases text.len(),
    via records_from_decreases
{
    match find_from(text, record_end(), 0) {
        None => None,
        Some(i) => {
            let key = text.take(i);
            let after = text.skip(i + 7);
            match find_from(after, record_end(), 0) {
                None => Some(seq![(trim_of(key), trim_of(after))]),
                Some(j) => match last_slash(after.take(j)) {
                    None => None,
                    Some(s) => match records_from(after.skip(s + 1)) {
                        Some(rest) => Some(seq![(trim_of(key), trim_of(after.take(s)))] + rest),
                        None => None,
                    },
                },
            }
        },
    }
}

#[via_fn]
proof fn records_from_decreases(text: Seq<char>) {
    lemma_find_from(text, record_end(), 0);
    match find_from(text, record_end(), 0) {
        None => {},
        Some(i) => {
            let after = text.skip(i + 7);
            lemma_find_from(after, record_end(), 0);
            match find_from(after, record_end(), 0) {
                None => {},
                Some(j) => {
                    lemma_last_slash(after.take(j));
                },
            }
        },
    }
}

/// The entries that a text holds: none where it is empty.
pub open spec fn records_of(text: Seq<char>) -> Option<Seq<(Seq<char>, Seq<char>)>> {
    if text.len() == 0 {
        Some(Seq::empty())
    } else {
        records_from(text)
    }
}

/// The entries once each of the records is put into them, in order.
pub open spec fn put_all(
    entries: Seq<(Seq<char>, Seq<char>)>,
    records: Seq<(Seq<char>, Seq<char>)>,
) -> Seq<(Seq<char>, Seq<char>)>
    decreases records.len(),
{
    if records.len() == 0 {
        entries
    } else {
        put(put_all(entries, records.drop_last()), records.last().0, records.last().1)
    }
}

/// An entry is written so that it can be read again: its key holds neither
/// plus sign nor slash, its value holds no plus sign, and neither starts or
/// ends with white space.
pub open spec fn clean(entry: (Seq<char>, Seq<char>)) -> bool {
    &&& free_of(entry.0, '+')
    &&& free_of(entry.0, '/')
    &&& free_of(entry.1, '+')
    &&& trim_of(entry.0) == entry.0
    &&& trim_of(entry.1) == entry.1
}

/// What follows the first key and its separator in the text of entries.
pub open spec fn after_first_key(entries: Seq<(Seq<char>, Seq<char>)>) -> Seq<char> {
    if entries.len() == 1 {
        entries[0].1
    } else {
        entries[0].1 + seq!['/'] + file_text(entries.drop_first())
    }
}

/// The last slash of a text is found within the text.
pub proof fn lemma_last_slash(s: Seq<char>)
    ensures
        match last_slash(s) {
            Some(i) => 0 <= i < s.len() && s[i] == '/',
            None => true,
        },
    decreases s.len(),
{
    if s.len() > 0 && s.last() != '/' {
        lemma_last_slash(s.drop_last());
    }
}

/// The last slash of a text that ends in a slash and a key is that slash.
pub proof fn lemma_last_slash_before(value: Seq<char>, key: Seq<char>)
    requires
        free_of(key, '/'),
    ensures
        last_slash(value + seq!['/'] + key) == Some(value.len() as int),
    decreases key.len(),
{
    let whole = value + seq!['/'] + key;
    if key.len() == 0 {
        assert(whole.last() == '/');
    } else {
        assert(whole.last() == key.last());
        assert(key[key.len() - 1] != '/');
        assert(whole.drop_last() == value + seq!['/'] + key.drop_last());
        lemma_last_slash_before(value, key.drop_last());
    }
}

/// No separator stands in a text without plus sign.
pub proof fn lemma_no_mark(s: Seq<char>)
    requires
        free_of(s, '+'),
    ensures
        find_from(s, record_end(), 0) is None,
{
    lemma_find_from(s, record_end(), 0);
    if find_from(s, record_end(), 0) is Some {
        let j = find_from(s, record_end(), 0)->0;
        lemma_match_second(s, record_end(), j);
    }
}

/// The text of entries starts with the first key and its separator.
pub proof fn lemma_file_text_head(entries: Seq<(Seq<char>, Seq<char>)>)
    requires
        entries.len() >= 1,
    ensures
        file_text(entries) == entries[0].0 + record_end() + after_first_key(entries),
{
    let records = entries.map_values(|e: (Seq<char>, Seq<char>)| record_text(e));
    if entries.len() == 1 {
        assert(records.len() == 1);
    } else {
        let rest = entries.drop_first();
        let rest_records = rest.map_values(|e: (Seq<char>, Seq<char>)| record_text(e));
        assert(records == seq![record_text(entries[0])] + rest_records);
        lemma_join_front(record_text(entries[0]), rest_records, seq!['/']);
        assert(entries[0].0 + record_end() + entries[0].1 + seq!['/'] + file_text(rest)
            == entries[0].0 + record_end() + (entries[0].1 + seq!['/'] + file_text(rest)));
    }
}

/// What a store writes for entries that are clean is read back as these
/// entries, however many they are.
pub proof fn lemma_records_round_trip(entries: Seq<(Seq<char>, Seq<char>)>)
    requires
        entries.len() >= 1,
        forall|i: int| 0 <= i < entries.len() ==> clean(#[trigger] entries[i]),
    ensures
        records_from(file_text(entries)) == Some(entries),
        file_text(entries).len() > 0,
    decreases entries.len(),
{
    let mark = record_end();
    let key = entries[0].0;
    let value = entries[0].1;
    let text = file_text(entries);
    let after = after_first_key(entries);
    let n = key.len() as int;
    assert(clean(entries[0]));
    assert(mark.len() == 7 && mark[0] == ' ' && mark[1] == '+');
    lemma_file_text_head(entries);
    lemma_find_mark(key, mark, after, '+');
    assert(text.take(n) == key);
    assert(text.skip(n + 7) == after);
    if entries.len() == 1 {
        lemma_no_mark(value);
        assert(seq![(key, value)] == entries);
    } else {
        let rest = entries.drop_first();
        assert forall|i: int| 0 <= i < rest.len() implies clean(#[trigger] rest[i]) by {
            assert(rest[i] == entries[i + 1]);
        }
        lemma_records_round_trip(rest);
        lemma_file_text_head(rest);
        let next = rest[0].0;
        let beyond = after_first_key(rest);
        let head = value + seq!['/'] + next;
        assert(clean(rest[0]));
        lemma_free_of_concat(value, seq!['/'], '+');
        lemma_free_of_concat(value + seq!['/'], next, '+');
        assert(after == head + mark + beyond);
        lemma_find_mark(head, mark, beyond, '+');
        assert(after.take(head.len() as int) == head);
        lemma_last_slash_before(value, next);
        assert(after.take(value.len() as int) == value);
        assert(after.skip(value.len() as int + 1) == file_text(rest));
        assert(seq![(key, value)] + rest == entries);
    }
}

/// What a store writes is read back as the entries it holds, where these
/// are clean.
pub proof fn lemma_file_round_trip(entries: Seq<(Seq<char>, Seq<char>)>)
    requires
        forall|i: int| 0 <= i < entries.len() ==> clean(#[trigger] entries[i]),
    ensures
        records_of(file_text(entries)) == Some(entries),
{
    if entries.len() == 0 {
        let records = entries.map_values(|e: (Seq<char>, Seq<char>)| record_text(e));
        assert(records.len() == 0);
    } else {
        lemma_records_round_trip(entries);
    }
}

/// Putting entries with distinct keys into an empty store, one after the
/// other, gives these entries.
pub proof fn lemma_put_all_distinct(entries: Seq<(Seq<char>, Seq<char>)>)
    requires
        distinct_keys(entries),
    ensures
        put_all(Seq::empty(), entries) == entries,
    decreases entries.len(),
{
    if entries.len() > 0 {
        let front = entries.drop_last();
        let last = entries.last();
        assert forall|i: int, j: int| 0 <= i < j < front.len() implies (#[trigger] front[i]).0 != (
        #[trigger] front[j]).0 by {
            assert(front[i] == entries[i] && front[j] == entries[j]);
        }
        lemma_put_all_distinct(front);
        lemma_index_of(front, last.0);
        if index_of(front, last.0) is Some {
            let i = index_of(front, last.0)->0;
            assert(entries[i].0 == entries[entries.len() - 1].0);
        }
        assert(front.push((last.0, last.1)) =~= entries);
    }
}

/// A store that is brought up from what a store has written holds the
/// entries of that store, where these are clean.
pub proof fn lemma_session_round_trip(entries: Seq<(Seq<char>, Seq<char>)>)
    requires
        distinct_keys(entries),
        forall|i: int| 0 <= i < entries.len() ==> clean(#[trigger] entries[i]),
    ensures
        records_of(file_text(entries)) == Some(entries),
        put_all(Seq::empty(), records_of(file_text(entries))->0) == entries,
{
    lemma_file_round_trip(entries);
    lemma_put_all_distinct(entries);
}

/// Why the file of a store could not be read.
#[derive(Clone, Copy, Debug, PartialEq, Eq, Structural)]
pub enum SessionError {
    /// The file holds a record without a separator between key and value,
    /// or two records without a slash between them.
    MalformedRecord,
}

/// What is to be done with the file of a store.
pub enum FileAction {
    /// The file does not exist: make its directories and an empty file.
    Create,
    /// Write the given text as the whole content of the file.
    Write(String),
    /// Leave the file as it is.
    Keep,
}

/// The views of a list of pairs of strings.
pub open spec fn pair_views(pairs: Seq<(String, String)>) -> Seq<(Seq<char>, Seq<char>)> {
    pairs.map_values(|p: (String, String)| (p.0@, p.1@))
}

/// The index of the last slash of a text.
pub fn find_last_slash(s: &[char]) -> (r: Option<usize>)
    ensures
        match r {
            Some(i) => last_slash(s@) == Some(i as int),
            None => last_slash(s@) is None,
        },
{
    let mut i: usize = s.len();
    assert(s@.take(i as int) == s@);
    while i > 0
        invariant
            i <= s.len(),
            last_slash(s@) == last_slash(s@.take(i as int)),
        decreases i,
    {
        if s[i - 1] == '/' {
            return Some(i - 1);
        }
        assert(s@.take(i as int).drop_last() == s@.take(i - 1));
        i -= 1;
    }
    None
}

/// Reads the entries that a text which is not empty holds.
pub fn read_records_from(text: &[char]) -> (r: Option<Vec<(String, String)>>)
    ensures
        match r {
            Some(pairs) => records_from(text@) == Some(pair_views(pairs@)),
            None => records_from(text@) is None,
        },
    decreases text@.len(),
{
    let mark: Vec<char> = vec![' ', '+', '/', '+', '/', '+', ' '];
    assert(mark@ == record_end());
    proof {
        lemma_find_from(text@, mark@, 0);
    }
    let i = match find(text, mark.as_slice(), 0) {
        Some(i) => i,
        None => {
            return None;
        },
    };
    let n = text.len();
    let key = slice_subrange(text, 0, i);
    let after = slice_subrange(text, i + 7, n);
    assert(key@ == text@.take(i as int));
    assert(after@ == text@.skip(i + 7));
    proof {
        lemma_find_from(after@, mark@, 0);
    }
    let j = match find(after, mark.as_slice(), 0) {
        Some(j) => j,
        None => {
            let mut pairs: Vec<(String, String)> = Vec::new();
            let k = trim(key);
            let v = trim(after);
            let pair = (from_chars(k.as_slice()), from_chars(v.as_slice()));
            pairs.push(pair);
            assert(pair_views(pairs@) == seq![(trim_of(key@), trim_of(after@))]);
            return Some(pairs);
        },
    };
    let head = slice_subrange(after, 0, j);
    assert(head@ == after@.take(j as int));
    proof {
        lemma_last_slash(head@);
    }
    let s = match find_last_slash(head) {
        Some(s) => s,
        None => {
            return None;
        },
    };
    let m = after.len();
    let value = slice_subrange(after, 0, s);
    let rest = slice_subrange(after, s + 1, m);
    assert(value@ == after@.take(s as int));
    assert(rest@ == after@.skip(s + 1));
    match read_records_from(rest) {
        Some(mut pairs) => {
            let ghost before = pair_views(pairs@);
            let k = trim(key);
            let v = trim(value);
            let pair = (from_chars(k.as_slice()), from_chars(v.as_slice()));
            pairs.insert(0, pair);
            assert(pair_views(pairs@) == seq![(trim_of(key@), trim_of(value@))] + before);
            Some(pairs)
        },
        None => None,
    }
}

/// Reads the entries that a text holds.
pub fn read_records(text: &str) -> (r: Option<Vec<(String, String)>>)
    ensures
        match r {
            Some(pairs) => records_of(text@) == Some(pair_views(pairs@)),
            None => records_of(text@) is None,
        },
{
    let chars = to_chars(text);
    if chars.len() == 0 {
        let pairs: Vec<(String, String)> = Vec::new();
        assert(pair_views(pairs@) == Seq::<(Seq<char>, Seq<char>)>::empty());
        return Some(pairs);
    }
    read_records_from(chars.as_slice())
}

/// A store that lives as long as the process.
pub struct MemorySession {
    items: Registry<String>,
}

impl MemorySession {
    /// The keys with their values, in the order in which the keys came.
    pub closed spec fn entries(self) -> Seq<(Seq<char>, Seq<char>)> {
        self.items.model()
    }

    pub fn new() -> (r: Self)
        ensures
            r.entries() == Seq::<(Seq<char>, Seq<char>)>::empty(),
    {
        MemorySession { items: Registry::new() }
    }

    /// Puts `value` under `key`. A value that stood there is replaced; no
    /// key stands twice.
    pub fn insert(&mut self, key: String, value: String)
        ensures
            final(self).entries() == put(old(self).entries(), key@, value@),
            distinct_keys(final(self).entries()),
    {
        self.items.insert(key, value);
    }

    /// The value under `key`.
    pub fn get(&self, key: &String) -> (r: Option<String>)
        ensures
            match r {
                Some(v) => lookup(self.entries(), key@) == Some(v@),
                None => lookup(self.entries(), key@) is None,
            },
    {
        match self.items.get(key.as_str()) {
            Some(t) => Some(t.clone()),
            None => None,
        }
    }
}

/// A store whose entries are also kept in a file.
pub struct PhysicalSession {
    filepath: String,
    items: Registry<String>,
}

impl PhysicalSession {
    /// The keys with their values, in the order in which the keys came.
    pub closed spec fn entries(self) -> Seq<(Seq<char>, Seq<char>)> {
        self.items.model()
    }

    /// The path of the file.
    pub closed spec fn path(self) -> Seq<char> {
        self.filepath@
    }

    /// An empty store for the file at `fpath`.
    pub fn new(fpath: String) -> (r: Self)
        ensures
            r.entries() == Seq::<(Seq<char>, Seq<char>)>::empty(),
            r.path() == fpath@,
    {
        PhysicalSession { items: Registry::new(), filepath: fpath }
    }

    /// The path of the file.
    pub fn get_filepath(&self) -> (r: String)
        ensures
            r@ == self.path(),
    {
        self.filepath.clone()
    }

    /// Puts `value` under `key` and gives the text that the file is to hold
    /// from now on.
    pub fn insert(&mut self, key: String, value: String) -> (contents: String)
        ensures
            final(self).entries() == put(old(self).entries(), key@, value@),
            distinct_keys(final(self).entries()),
            final(self).path() == old(self).path(),
            contents@ == file_text(final(self).entries()),
    {
        self.items.insert(key, value);
        self.compose()
    }

    /// The value under `key`.
    pub fn get(&self, key: &String) -> (r: Option<String>)
        ensures
            match r {
                Some(v) => lookup(self.entries(), key@) == Some(v@),
                None => lookup(self.entries(), key@) is None,
            },
    {
        match self.items.get(key.as_str()) {
            Some(t) => Some(t.clone()),
            None => None,
        }
    }

    /// Brings the store up from its file. `found` is the content of the
    /// file, or `None` where the file does not exist.
    ///
    /// The entries of an existing file are put into the store, and the file
    /// is then to be written again. A missing file is to be created. A file
    /// that cannot be read as records is refused and changes nothing.
    pub fn initiate(&mut self, found: Option<String>) -> (r: Result<FileAction, SessionError>)
        ensures
            final(self).path() == old(self).path(),
            match found {
                None => r matches Ok(FileAction::Create) && final(self).entries() == old(self).entries(),
                Some(text) => match records_of(text@) {
                    None => r == Err::<FileAction, SessionError>(SessionError::MalformedRecord)
                        && final(self).entries() == old(self).entries(),
                    Some(records) => {
                        &&& final(self).entries() == put_all(old(self).entries(), records)
                        &&& if records.len() == 0 {
                            r matches Ok(FileAction::Keep)
                        } else {
                            r matches Ok(FileAction::Write(contents)) && contents@ == file_text(
                                final(self).entries(),
                            )
                        }
                    },
                },
            },
    {
        match found {
            Some(contents) => {
                let pairs = match read_records(contents.as_str()) {
                    Some(p) => p,
                    None => {
                        return Err(SessionError::MalformedRecord);
                    },
                };
                let any = pairs.len() > 0;
                self.insert_all(pairs);
                if any {
                    Ok(FileAction::Write(self.compose()))
                } else {
                    Ok(FileAction::Keep)
                }
            },
            None => Ok(FileAction::Create),
        }
    }

    /// The text that the file is to hold.
    pub fn compose(&self) -> (r: String)
        ensures
            r@ == file_text(self.entries()),
    {
        let mut ret: Vec<Vec<char>> = Vec::new();
        let n = self.items.len();
        let ghost wanted = self.entries().map_values(|e: (Seq<char>, Seq<char>)| record_text(e));
        let mut i: usize = 0;
        assert(views(ret@) == wanted.take(0));
        while i < n
            invariant
                i <= n,
                n == self.entries().len(),
                wanted == self.entries().map_values(|e: (Seq<char>, Seq<char>)| record_text(e)),
                views(ret@) == wanted.take(i as int),
            decreases n - i,
        {
            let ghost before = views(ret@);
            let mut line = to_chars(self.items.key_at(i).as_str());
            let pat: Vec<char> = vec![' ', '+', '/', '+', '/', '+', ' '];
            assert(pat@ == record_end());
            append(&mut line, pat.as_slice());
            let value = to_chars(self.items.value_at(i).as_str());
            append(&mut line, value.as_slice());
            ret.push(line);
            assert(views(ret@) == before.push(line@));
            assert(wanted.take(i + 1) == wanted.take(i as int).push(wanted[i as int]));
            i += 1;
        }
        assert(wanted.take(n as int) == wanted);
        let slash: Vec<char> = vec!['/'];
        assert(slash@ == seq!['/']);
        let ret_joined = join(&ret, slash.as_slice());
        from_chars(ret_joined.as_slice())
    }

    /// Puts the entries that `text` holds into the store. A text that cannot
    /// be read as records is refused and changes nothing.
    pub fn decompose(&mut self, text: String) -> (r: Result<(), SessionError>)
        ensures
            final(self).path() == old(self).path(),
            match records_of(text@) {
                Some(records) => r is Ok && final(self).entries() == put_all(
                    old(self).entries(),
                    records,
                ),
                None => r == Err::<(), SessionError>(SessionError::MalformedRecord) && final(self).entries() == old(self).entries(),
            },
    {
        match read_records(text.as_str()) {
            Some(pairs) => {
                self.insert_all(pairs);
                Ok(())
            },
            None => Err(SessionError::MalformedRecord),
        }
    }

    /// Puts each of the pairs into the store, in order.
    fn insert_all(&mut self, pairs: Vec<(String, String)>)
        ensures
            final(self).path() == old(self).path(),
            final(self).entries() == put_all(old(self).entries(), pair_views(pairs@)),
    {
        let mut i: usize = 0;
        assert(pair_views(pairs@).take(0) == Seq::<(Seq<char>, Seq<char>)>::empty());
        while i < pairs.len()
            invariant
                i <= pairs.len(),
                self.path() == old(self).path(),
                self.entries() == put_all(old(self).entries(), pair_views(pairs@).take(i as int)),
            decreases pairs.len() - i,
        {
            let ghost upto = pair_views(pairs@).take(i + 1);
            assert(upto.drop_last() == pair_views(pairs@).take(i as int));
            assert(upto.last() == (pairs@[i as int].0@, pairs@[i as int].1@));
            let key = pairs[i].0.clone();
            let value = pairs[i].1.clone();
            self.items.insert(key, value);
            i += 1;
        }
        assert(pair_views(pairs@).take(pairs.len() as int) == pair_views(pairs@));
    }
}

} // verus!
