//! What was read from disk for a plan: the documents, tables, line files and
//! body files that the plan names, by their paths.

use vstd::prelude::*;
use crate::error::{Error, ErrorKind, Failure};
use crate::text::{
    chars_of, contains, contains_text, is_whitespace, matches_at, occurs_at, string_of, trim,
    trim_spec, whitespace,
};
use crate::value::{
    Json, Value, array_field, entries_insert, entries_model, insert_entry, items_model, strings,
    texts,
};

verus! {

/// The first position at or after `from` at which `keys` holds `key`.
pub open spec fn find_key<K>(keys: Seq<K>, key: K, from: int) -> Option<int>
    decreases keys.len() - from,
{
    if from < 0 || from >= keys.len() {
        None
    } else if keys[from] == key {
        Some(from)
    } else {
        find_key(keys, key, from + 1)
    }
}

/// What is found is the first position that holds the key, and nothing is
/// found only where no position holds it.
pub proof fn lemma_find_key<K>(keys: Seq<K>, key: K, from: int)
    requires
        0 <= from,
    ensures
        match find_key(keys, key, from) {
            Some(i) => from <= i < keys.len() && keys[i] == key && forall|j: int|
                from <= j < i ==> keys[j] != key,
            None => forall|j: int| from <= j < keys.len() ==> keys[j] != key,
        },
    decreases keys.len() - from,
{
    if from < keys.len() && keys[from] != key {
        lemma_find_key(keys, key, from + 1);
    }
}

/// The files that a plan draws on, as they were read: each list is searched
/// from the front.
#[derive(Debug, PartialEq, Eq)]
pub struct Files {
    /// YAML files, each as its path and its documents.
    pub documents: Vec<(String, Vec<Value>)>,
    /// CSV files, each as its path, the quote character it was read with and
    /// its rows, a row being a mapping from column name to string.
    pub tables: Vec<(String, u8, Vec<Value>)>,
    /// Text files, each as its path and its lines as strings.
    pub lines: Vec<(String, Vec<Value>)>,
    /// Other files, each as its path and its bytes.
    pub bytes: Vec<(String, Vec<u8>)>,
}

impl Files {
    /// The paths of the YAML files.
    pub open spec fn document_paths(&self) -> Seq<Seq<char>> {
        Seq::new(self.documents@.len(), |i: int| self.documents@[i].0@)
    }

    /// The paths and quote characters of the CSV files.
    pub open spec fn table_keys(&self) -> Seq<(Seq<char>, u8)> {
        Seq::new(self.tables@.len(), |i: int| (self.tables@[i].0@, self.tables@[i].1))
    }

    /// The paths of the text files.
    pub open spec fn line_paths(&self) -> Seq<Seq<char>> {
        Seq::new(self.lines@.len(), |i: int| self.lines@[i].0@)
    }

    /// The paths of the other files.
    pub open spec fn byte_paths(&self) -> Seq<Seq<char>> {
        Seq::new(self.bytes@.len(), |i: int| self.bytes@[i].0@)
    }

    /// The documents of the YAML file at `path`.
    pub open spec fn documents_at(&self, path: Seq<char>) -> Option<Seq<Json>> {
        match find_key(self.document_paths(), path, 0) {
            Some(i) => Some(items_model(self.documents@[i].1@)),
            None => None,
        }
    }

    /// The rows of the CSV file at `path`, read with the quote character `quote`.
    pub open spec fn table_at(&self, path: Seq<char>, quote: u8) -> Option<Seq<Json>> {
        match find_key(self.table_keys(), (path, quote), 0) {
            Some(i) => Some(items_model(self.tables@[i].2@)),
            None => None,
        }
    }

    /// The lines of the text file at `path`.
    pub open spec fn lines_at(&self, path: Seq<char>) -> Option<Seq<Json>> {
        match find_key(self.line_paths(), path, 0) {
            Some(i) => Some(items_model(self.lines@[i].1@)),
            None => None,
        }
    }

    /// The bytes of the file at `path`.
    pub open spec fn bytes_at(&self, path: Seq<char>) -> Option<Seq<u8>> {
        match find_key(self.byte_paths(), path, 0) {
            Some(i) => Some(self.bytes@[i].1@),
            None => None,
        }
    }

    /// No files.
    pub fn new() -> (r: Files)
        ensures
            forall|path: Seq<char>| r.documents_at(path) is None,
            forall|path: Seq<char>, quote: u8| r.table_at(path, quote) is None,
            forall|path: Seq<char>| r.lines_at(path) is None,
            forall|path: Seq<char>| r.bytes_at(path) is None,
    {
        Files { documents: Vec::new(), tables: Vec::new(), lines: Vec::new(), bytes: Vec::new() }
    }

    /// The documents of the YAML file at `path`.
    pub fn documents(&self, path: &str) -> (r: Option<&Vec<Value>>)
        ensures
            match r {
                Some(docs) => self.documents_at(path@) == Some(items_model(docs@)),
                None => self.documents_at(path@) is None,
            },
    {
        let wanted = path.to_owned();
        let mut i: usize = 0;
        while i < self.documents.len()
            invariant
                i <= self.documents.len(),
                wanted@ == path@,
                find_key(self.document_paths(), path@, 0) == find_key(
                    self.document_paths(),
                    path@,
                    i as int,
                ),
            decreases self.documents.len() - i,
        {
            if self.documents[i].0 == wanted {
                return Some(&self.documents[i].1);
            }
            i += 1;
        }
        None
    }

    /// The rows of the CSV file at `path`, read with the quote character `quote`.
    pub fn table(&self, path: &str, quote: u8) -> (r: Option<&Vec<Value>>)
        ensures
            match r {
                Some(rows) => self.table_at(path@, quote) == Some(items_model(rows@)),
                None => self.table_at(path@, quote) is None,
            },
    {
        let wanted = path.to_owned();
        let mut i: usize = 0;
        while i < self.tables.len()
            invariant
                i <= self.tables.len(),
                wanted@ == path@,
                find_key(self.table_keys(), (path@, quote), 0) == find_key(
                    self.table_keys(),
                    (path@, quote),
                    i as int,
                ),
            decreases self.tables.len() - i,
        {
            if self.tables[i].0 == wanted && self.tables[i].1 == quote {
                return Some(&self.tables[i].2);
            }
            i += 1;
        }
        None
    }

    /// The lines of the text file at `path`.
    pub fn lines(&self, path: &str) -> (r: Option<&Vec<Value>>)
        ensures
            match r {
                Some(items) => self.lines_at(path@) == Some(items_model(items@)),
                None => self.lines_at(path@) is None,
            },
    {
        let wanted = path.to_owned();
        let mut i: usize = 0;
        while i < self.lines.len()
            invariant
                i <= self.lines.len(),
                wanted@ == path@,
                find_key(self.line_paths(), path@, 0) == find_key(
                    self.line_paths(),
                    path@,
                    i as int,
                ),
            decreases self.lines.len() - i,
        {
            if self.lines[i].0 == wanted {
                return Some(&self.lines[i].1);
            }
            i += 1;
        }
        None
    }

    /// The bytes of the file at `path`.
    pub fn bytes(&self, path: &str) -> (r: Option<&Vec<u8>>)
        ensures
            match r {
                Some(b) => self.bytes_at(path@) == Some(b@),
                None => self.bytes_at(path@) is None,
            },
    {
        let wanted = path.to_owned();
        let mut i: usize = 0;
        while i < self.bytes.len()
            invariant
                i <= self.bytes.len(),
                wanted@ == path@,
                find_key(self.byte_paths(), path@, 0) == find_key(
                    self.byte_paths(),
                    path@,
                    i as int,
                ),
            decreases self.bytes.len() - i,
        {
            if self.bytes[i].0 == wanted {
                return Some(&self.bytes[i].1);
            }
            i += 1;
        }
        None
    }
}

/// The entries of a document: the list under `accessor`, or, without an
/// accessor, the document itself, which is then a list.
pub open spec fn doc_entries(doc: Json, accessor: Option<Seq<char>>) -> Result<
    Seq<Json>,
    Failure,
> {
    match accessor {
        Some(name) => match array_field(doc, name) {
            Some(items) => Ok(items),
            None => Err((ErrorKind::MissingAccessor, name)),
        },
        None => match doc {
            Json::Array(items) => Ok(items),
            _ => Err((ErrorKind::NotASequence, Seq::<char>::empty())),
        },
    }
}

/// The entries of the document `doc` under `accessor`.
pub fn read_yaml_doc_accessor<'a>(doc: &'a Value, accessor: Option<&str>) -> (r: Result<
    &'a Vec<Value>,
    Error,
>)
    ensures
        match r {
            Ok(items) => doc_entries(
                doc@,
                match accessor {
                    Some(a) => Some(a@),
                    None => None,
                },
            ) == Ok::<Seq<Json>, Failure>(items_model(items@)),
            Err(e) => doc_entries(
                doc@,
                match accessor {
                    Some(a) => Some(a@),
                    None => None,
                },
            ) == Err::<Seq<Json>, Failure>(e@),
        },
{
    match accessor {
        Some(name) => match doc.get_sequence(name) {
            Some(items) => Ok(items),
            None => Err(Error::about(ErrorKind::MissingAccessor, name)),
        },
        None => match doc.as_sequence() {
            Some(items) => Ok(items),
            None => Err(Error::new(ErrorKind::NotASequence, String::new())),
        },
    }
}

/// The pieces of `s` between the occurrences of `pat`, found from the left and
/// not overlapping, where the piece at hand starts at `start` and the search
/// goes on at `i`.
pub open spec fn split_from(s: Seq<char>, pat: Seq<char>, start: int, i: int) -> Seq<Seq<char>>
    decreases s.len() - i,
{
    if pat.len() == 0 || i < 0 || i + pat.len() > s.len() {
        seq![s.subrange(start, s.len() as int)]
    } else if occurs_at(s, pat, i) {
        seq![s.subrange(start, i)] + split_from(s, pat, i + pat.len(), i + pat.len())
    } else {
        split_from(s, pat, start, i + 1)
    }
}

/// The pieces of `s` between the occurrences of `pat`.
pub open spec fn split_on(s: Seq<char>, pat: Seq<char>) -> Seq<Seq<char>> {
    split_from(s, pat, 0, 0)
}

/// The pieces of `v` between the occurrences of `pat`.
pub fn split_text(v: &Vec<char>, pat: &Vec<char>) -> (r: Vec<Vec<char>>)
    requires
        pat.len() > 0,
    ensures
        texts(r@) == split_on(v@, pat@),
{
    let mut pieces: Vec<Vec<char>> = Vec::new();
    let mut start: usize = 0;
    let mut i: usize = 0;
    assert(texts(pieces@) + split_from(v@, pat@, 0, 0) =~= split_on(v@, pat@));
    while pat.len() <= v.len() - i
        invariant
            pat.len() > 0,
            start <= i <= v.len(),
            split_on(v@, pat@) == texts(pieces@) + split_from(v@, pat@, start as int, i as int),
        decreases v.len() - i,
    {
        if matches_at(v, pat, i) {
            let ghost before = texts(pieces@);
            let piece = copy_range(v, start, i);
            pieces.push(piece);
            assert(texts(pieces@) =~= before.push(v@.subrange(start as int, i as int)));
            assert(before + (seq![v@.subrange(start as int, i as int)] + split_from(
                v@,
                pat@,
                i + pat.len(),
                i + pat.len(),
            )) =~= before.push(v@.subrange(start as int, i as int)) + split_from(
                v@,
                pat@,
                i + pat.len(),
                i + pat.len(),
            ));
            i = i + pat.len();
            start = i;
        } else {
            i += 1;
        }
    }
    let ghost before = texts(pieces@);
    let last = copy_range(v, start, v.len());
    pieces.push(last);
    assert(texts(pieces@) =~= before + seq![v@.subrange(start as int, v@.len() as int)]);
    pieces
}

/// The characters `v[from..to]`.
pub fn copy_range(v: &Vec<char>, from: usize, to: usize) -> (r: Vec<char>)
    requires
        from <= to <= v.len(),
    ensures
        r@ == v@.subrange(from as int, to as int),
{
    let mut out: Vec<char> = Vec::new();
    let mut i: usize = from;
    while i < to
        invariant
            from <= i <= to <= v.len(),
            out@ == v@.subrange(from as int, i as int),
        decreases to - i,
    {
        out.push(v[i]);
        assert(v@.subrange(from as int, i as int).push(v@[i as int]) == v@.subrange(
            from as int,
            i + 1,
        ));
        i += 1;
    }
    out
}

/// The line that parts the documents of a file.
pub open spec fn separator() -> Seq<char> {
    seq!['-', '-', '-', '\n']
}

/// Whether the text holds several documents: it has a separator line inside,
/// or starts with one and has another.
pub open spec fn is_multi(t: Seq<char>) -> bool {
    contains_text(t, seq!['\n'] + separator()) || (occurs_at(t, separator(), 0) && split_on(
        t,
        separator(),
    ).len() > 2)
}

/// Whether the text holds nothing but white space and `#`.
pub open spec fn is_hollow(t: Seq<char>) -> bool {
    forall|i: int| 0 <= i < t.len() ==> t[i] == '#' || is_whitespace(#[trigger] t[i])
}

/// The texts to parse among the first `n` of `parts`: each part without the
/// white space around it, unless nothing or only `#` is left of it.
pub open spec fn frames_of(parts: Seq<Seq<char>>, n: nat) -> Seq<Seq<char>>
    decreases n,
{
    if n == 0 || n > parts.len() {
        Seq::empty()
    } else {
        let head = frames_of(parts, (n - 1) as nat);
        let t = trim_spec(parts[n - 1]);
        if t.len() > 0 && !is_hollow(t) {
            head.push(t)
        } else {
            head
        }
    }
}

/// The texts of the documents of a file with several documents, each to be
/// parsed by itself; none where the file does not hold several.
pub open spec fn frames_spec(content: Seq<char>) -> Seq<Seq<char>> {
    let t = trim_spec(content);
    if is_multi(t) {
        let parts = split_on(t, separator());
        frames_of(parts, parts.len())
    } else {
        Seq::empty()
    }
}

/// The text of the document of a file with one document: the file without a
/// separator line at its start and without the white space around it.
pub open spec fn single_spec(content: Seq<char>) -> Seq<char> {
    let t = trim_spec(content);
    if occurs_at(t, separator(), 0) {
        trim_spec(t.skip(4))
    } else {
        trim_spec(t)
    }
}

/// Whether the text holds nothing but white space and `#`.
fn hollow(t: &Vec<char>) -> (r: bool)
    ensures
        r == is_hollow(t@),
{
    let mut i: usize = 0;
    while i < t.len()
        invariant
            i <= t.len(),
            forall|j: int| 0 <= j < i ==> t@[j] == '#' || is_whitespace(#[trigger] t@[j]),
        decreases t.len() - i,
    {
        if !(t[i] == '#' || whitespace(t[i])) {
            return false;
        }
        i += 1;
    }
    true
}

/// The separator line, and the separator line after a line break.
fn separators() -> (r: (Vec<char>, Vec<char>))
    ensures
        r.0@ == separator(),
        r.1@ == seq!['\n'] + separator(),
{
    let mut sep: Vec<char> = Vec::new();
    sep.push('-');
    sep.push('-');
    sep.push('-');
    sep.push('\n');
    let mut inner: Vec<char> = Vec::new();
    inner.push('\n');
    inner.push('-');
    inner.push('-');
    inner.push('-');
    inner.push('\n');
    assert(sep@ =~= separator());
    assert(inner@ =~= seq!['\n'] + separator());
    (sep, inner)
}

/// The texts of the documents of a file with several documents.
pub fn document_frames(content: &str) -> (r: Vec<String>)
    ensures
        strings(r@) == frames_spec(content@),
{
    let t = trim(&chars_of(content));
    let (sep, inner) = separators();
    let mut frames: Vec<String> = Vec::new();
    assert(strings(frames@) =~= Seq::<Seq<char>>::empty());
    let parts = split_text(&t, &sep);
    let multi = contains(&t, &inner) || (matches_at(&t, &sep, 0) && parts.len() > 2);
    if !multi {
        return frames;
    }
    let mut i: usize = 0;
    while i < parts.len()
        invariant
            i <= parts.len(),
            strings(frames@) == frames_of(texts(parts@), i as nat),
        decreases parts.len() - i,
    {
        let piece = trim(&parts[i]);
        assert(texts(parts@)[i as int] == parts@[i as int]@);
        if piece.len() > 0 && !hollow(&piece) {
            let ghost before = strings(frames@);
            frames.push(string_of(&piece));
            assert(strings(frames@) =~= before.push(piece@));
        }
        i += 1;
    }
    frames
}

/// The text of the document of a file with one document.
pub fn single_frame(content: &str) -> (r: String)
    ensures
        r@ == single_spec(content@),
{
    let t = trim(&chars_of(content));
    let (sep, _inner) = separators();
    if matches_at(&t, &sep, 0) {
        let rest = copy_range(&t, 4, t.len());
        assert(t@.subrange(4, t@.len() as int) == t@.skip(4));
        string_of(&trim(&rest))
    } else {
        string_of(&trim(&t))
    }
}

/// The documents among the first `n` of `parsed` that are not null.
pub open spec fn kept(parsed: Seq<Json>, n: nat) -> Seq<Json>
    decreases n,
{
    if n == 0 || n > parsed.len() {
        Seq::empty()
    } else {
        let head = kept(parsed, (n - 1) as nat);
        if parsed[n - 1] is Null {
            head
        } else {
            head.push(parsed[n - 1])
        }
    }
}

/// The documents of `parsed` that are not null.
pub fn documents(parsed: Vec<Value>) -> (r: Vec<Value>)
    ensures
        items_model(r@) == kept(items_model(parsed@), parsed@.len()),
{
    let mut out: Vec<Value> = Vec::new();
    let mut i: usize = 0;
    assert(items_model(out@) =~= Seq::<Json>::empty());
    while i < parsed.len()
        invariant
            i <= parsed.len(),
            items_model(out@) == kept(items_model(parsed@), i as nat),
        decreases parsed.len() - i,
    {
        assert(items_model(parsed@)[i as int] == parsed@[i as int]@);
        match &parsed[i] {
            Value::Null => {},
            other => {
                let ghost before = items_model(out@);
                out.push(other.clone());
                assert(items_model(out@) =~= before.push(parsed@[i as int]@));
            },
        }
        i += 1;
    }
    out
}

/// What is known of the documents of a file once its frames are parsed.
#[derive(Debug, PartialEq, Eq)]
pub enum Parsing {
    /// The documents of the file.
    Complete(Vec<Value>),
    /// The file holds one document at most: this text is to be parsed.
    Single(String),
}

/// What is known of the documents of the file `content` once its frames are
/// parsed to `parsed`: the documents that are not null are those of the file;
/// where there is none, the file is to be parsed as one document.
pub fn after_frames(content: &str, parsed: Vec<Value>) -> (r: Parsing)
    ensures
        match r {
            Parsing::Complete(docs) => items_model(docs@) == kept(
                items_model(parsed@),
                parsed@.len(),
            ) && docs@.len() > 0,
            Parsing::Single(frame) => kept(items_model(parsed@), parsed@.len()).len() == 0
                && frame@ == single_spec(content@),
        },
{
    let docs = documents(parsed);
    if docs.len() > 0 {
        Parsing::Complete(docs)
    } else {
        Parsing::Single(single_frame(content))
    }
}

/// The documents of a file that was parsed as one document to `parsed`: that
/// document, or, where it is null, one null document all the same.
pub fn after_single(parsed: Value) -> (r: Vec<Value>)
    ensures
        items_model(r@) == seq![parsed@],
{
    let mut out: Vec<Value> = Vec::new();
    out.push(parsed);
    assert(items_model(out@) =~= seq![out@[0]@]);
    out
}

/// The members of a row of a table: the first `n` columns, each under its
/// heading as a string; of two columns with one heading the later one counts.
pub open spec fn row_entries(headers: Seq<Seq<char>>, record: Seq<Seq<char>>, n: nat) -> Seq<
    (Seq<char>, Json),
>
    decreases n,
{
    if n == 0 || n > headers.len() || n > record.len() {
        Seq::empty()
    } else {
        entries_insert(
            row_entries(headers, record, (n - 1) as nat),
            headers[n - 1],
            Json::Text(record[n - 1]),
        )
    }
}

/// The row of a table with the headings `headers` that the record `record`
/// is: as many columns as both have.
pub open spec fn row_spec(headers: Seq<Seq<char>>, record: Seq<Seq<char>>) -> Json {
    Json::Object(
        row_entries(
            headers,
            record,
            if headers.len() <= record.len() {
                headers.len()
            } else {
                record.len()
            },
        ),
    )
}

/// The row of a table with the headings `headers` that the record `record` is.
pub fn row(headers: &Vec<String>, record: &Vec<String>) -> (r: Value)
    ensures
        r@ == row_spec(strings(headers@), strings(record@)),
{
    let count = if headers.len() <= record.len() {
        headers.len()
    } else {
        record.len()
    };
    let mut mapping: Vec<(String, Value)> = Vec::new();
    let mut i: usize = 0;
    assert(entries_model(mapping@) =~= Seq::<(Seq<char>, Json)>::empty());
    while i < count
        invariant
            i <= count,
            count <= headers.len(),
            count <= record.len(),
            entries_model(mapping@) == row_entries(strings(headers@), strings(record@), i as nat),
        decreases count - i,
    {
        insert_entry(&mut mapping, headers[i].clone(), Value::Text(record[i].clone()));
        i += 1;
    }
    let r = Value::Object(mapping);
    proof {
        crate::value::lemma_object_view(r);
    }
    r
}

/// The rows of a table with the headings `headers` and the records `records`.
pub fn rows(headers: &Vec<String>, records: &Vec<Vec<String>>) -> (r: Vec<Value>)
    ensures
        r@.len() == records@.len(),
        forall|i: int|
            0 <= i < r@.len() ==> (#[trigger] r@[i])@ == row_spec(
                strings(headers@),
                strings(records@[i]@),
            ),
{
    let mut out: Vec<Value> = Vec::new();
    let mut i: usize = 0;
    while i < records.len()
        invariant
            i <= records.len(),
            out@.len() == i,
            forall|j: int|
                0 <= j < i ==> (#[trigger] out@[j])@ == row_spec(
                    strings(headers@),
                    strings(records@[j]@),
                ),
        decreases records.len() - i,
    {
        out.push(row(headers, &records[i]));
        i += 1;
    }
    out
}

/// The lines of a text file as items: each line a string.
pub fn line_items(lines: &Vec<String>) -> (r: Vec<Value>)
    ensures
        r@.len() == lines@.len(),
        forall|i: int| 0 <= i < r@.len() ==> (#[trigger] r@[i])@ == Json::Text(lines@[i]@),
{
    let mut out: Vec<Value> = Vec::new();
    let mut i: usize = 0;
    while i < lines.len()
        invariant
            i <= lines.len(),
            out@.len() == i,
            forall|j: int| 0 <= j < i ==> (#[trigger] out@[j])@ == Json::Text(lines@[j]@),
        decreases lines.len() - i,
    {
        out.push(Value::Text(lines[i].clone()));
        i += 1;
    }
    out
}


} // verus!
