use crate::safety::pathguard::{normalize_chars, normalized};
use crate::text::{
    chars_of, lines_of, lines_view, split_lines, split_words, string_of, strings_view, trim,
    trim_chars, words_of,
};
use crate::wire::opt_view;
use vstd::prelude::*;

verus! {

/// What `char::is_alphanumeric` returns: whether the character is a letter
/// or a number by the Unicode tables.
pub uninterp spec fn alphanumeric(c: char) -> bool;

/// `char::is_alphanumeric` depends on the character alone, so its result
/// is given the name `alphanumeric`.
pub assume_specification[ char::is_alphanumeric ](c: char) -> (r: bool)
    ensures
        r == alphanumeric(c),
;

/// A capital letter of the basic Latin alphabet as a small one; any other
/// character as it is.
pub open spec fn ascii_lower(c: char) -> char {
    if 'A' <= c && c <= 'Z' {
        ((c as u8) + 32) as char
    } else {
        c
    }
}

/// A character as the tokens see it: letters and numbers in lower case,
/// anything else as a space.
pub open spec fn token_char(c: char) -> char {
    if alphanumeric(c) {
        ascii_lower(c)
    } else {
        ' '
    }
}

/// The tokens of a text: the runs of letters and numbers, in lower case.
pub open spec fn tokens_of(s: Seq<char>) -> Seq<Seq<char>> {
    words_of(s.map_values(|c: char| token_char(c)))
}

/// How many of the first `n` query tokens occur among the tokens of a text.
pub open spec fn hits_among(tokens: Seq<Seq<char>>, query: Seq<Seq<char>>, n: int) -> nat
    decreases n,
{
    if n <= 0 {
        0
    } else if tokens.contains(query[n - 1]) {
        hits_among(tokens, query, n - 1) + 1
    } else {
        hits_among(tokens, query, n - 1)
    }
}

fn lower_ascii(c: char) -> (r: char)
    ensures
        r == ascii_lower(c),
{
    if 'A' <= c && c <= 'Z' {
        ((c as u8) + 32) as char
    } else {
        c
    }
}

fn token_chars(s: &str) -> (r: Vec<Vec<char>>)
    ensures
        lines_view(r@) == tokens_of(s@),
{
    let v = chars_of(s);
    let ghost want = s@.map_values(|c: char| token_char(c));
    let mut mapped: Vec<char> = Vec::new();
    let mut i: usize = 0;
    while i < v.len()
        invariant
            i <= v.len(),
            v@ == s@,
            want == s@.map_values(|c: char| token_char(c)),
            mapped@ == want.take(i as int),
        decreases v.len() - i,
    {
        let c = v[i];
        let t = if c.is_alphanumeric() {
            lower_ascii(c)
        } else {
            ' '
        };
        assert(want.take(i + 1) == want.take(i as int).push(want[i as int]));
        mapped.push(t);
        i += 1;
    }
    assert(want.take(v.len() as int) == want);
    split_words(&mapped)
}

/// The tokens of a text: its runs of letters and numbers, in lower case.
pub fn tokenize(s: &str) -> (r: Vec<String>)
    ensures
        strings_view(r@) == tokens_of(s@),
{
    let words = token_chars(s);
    let mut out: Vec<String> = Vec::new();
    let mut i: usize = 0;
    while i < words.len()
        invariant
            i <= words.len(),
            strings_view(out@) == lines_view(words@).take(i as int),
        decreases words.len() - i,
    {
        let w = string_of(&words[i]);
        assert(strings_view(out@.push(w)) == strings_view(out@).push(w@));
        assert(lines_view(words@).take(i + 1) == lines_view(words@).take(i as int).push(
            lines_view(words@)[i as int],
        ));
        out.push(w);
        i += 1;
    }
    assert(lines_view(words@).take(words.len() as int) == lines_view(words@));
    out
}

fn has_token(tokens: &[String], t: &String) -> (r: bool)
    ensures
        r == strings_view(tokens@).contains(t@),
{
    let mut i: usize = 0;
    while i < tokens.len()
        invariant
            i <= tokens.len(),
            forall|q: int| 0 <= q < i ==> strings_view(tokens@)[q] != t@,
        decreases tokens.len() - i,
    {
        assert(strings_view(tokens@)[i as int] == tokens@[i as int]@);
        if tokens[i] == *t {
            return true;
        }
        i += 1;
    }
    false
}

/// How many of the query tokens occur among the tokens given; a query
/// token that is there twice counts twice.
pub fn count_hits(tokens: &[String], query: &[String]) -> (r: usize)
    ensures
        r == hits_among(strings_view(tokens@), strings_view(query@), query.len() as int),
{
    let ghost qv = strings_view(query@);
    let mut hits: usize = 0;
    let mut i: usize = 0;
    while i < query.len()
        invariant
            i <= query.len(),
            qv == strings_view(query@),
            hits == hits_among(strings_view(tokens@), qv, i as int),
            hits <= i,
        decreases query.len() - i,
    {
        assert(qv[i as int] == query@[i as int]@);
        if has_token(tokens, &query[i]) {
            hits += 1;
        }
        i += 1;
    }
    hits
}

/// For a chunk of text and the tokens of a query: how many of the query
/// tokens occur among the tokens of the text, and how many tokens the text
/// has. The score of the chunk is made of these two.
pub fn keyword_hits(text: &str, query: &[String]) -> (r: (usize, usize))
    ensures
        r.0 == hits_among(tokens_of(text@), strings_view(query@), query.len() as int),
        r.1 == tokens_of(text@).len(),
{
    let tokens = tokenize(text);
    (count_hits(&tokens, query), tokens.len())
}

/// The path with every backslash written as a slash.
pub fn normalize_path(p: &str) -> (r: String)
    ensures
        r@ == normalized(p@),
{
    string_of(&normalize_chars(&chars_of(p)))
}


/// The fields of one line of the index, as they were read: each is there
/// or not.
#[derive(Debug)]
pub struct RawChunk {
    pub id: Option<String>,
    pub path: Option<String>,
    pub start: Option<u64>,
    pub end: Option<u64>,
    pub text: Option<String>,
    pub lang: Option<String>,
    pub sha1: Option<String>,
}

/// The fields of one line as plain data.
pub struct RawChunkView {
    pub id: Option<Seq<char>>,
    pub path: Option<Seq<char>>,
    pub start: Option<u64>,
    pub end: Option<u64>,
    pub text: Option<Seq<char>>,
    pub lang: Option<Seq<char>>,
    pub sha1: Option<Seq<char>>,
}

impl View for RawChunk {
    type V = RawChunkView;

    open spec fn view(&self) -> RawChunkView {
        RawChunkView {
            id: opt_view(self.id),
            path: opt_view(self.path),
            start: self.start,
            end: self.end,
            text: opt_view(self.text),
            lang: opt_view(self.lang),
            sha1: opt_view(self.sha1),
        }
    }
}

/// A piece of a file of the project, with the text that the search reads.
#[derive(Debug)]
pub struct EmbeddingChunk {
    pub id: String,
    pub path: String,
    pub start: Option<usize>,
    pub end: Option<usize>,
    pub text: String,
    pub lang: Option<String>,
    pub sha1: Option<String>,
}

/// A chunk as plain data.
pub struct EmbeddingChunkView {
    pub id: Seq<char>,
    pub path: Seq<char>,
    pub start: Option<usize>,
    pub end: Option<usize>,
    pub text: Seq<char>,
    pub lang: Option<Seq<char>>,
    pub sha1: Option<Seq<char>>,
}

impl View for EmbeddingChunk {
    type V = EmbeddingChunkView;

    open spec fn view(&self) -> EmbeddingChunkView {
        EmbeddingChunkView {
            id: self.id@,
            path: self.path@,
            start: self.start,
            end: self.end,
            text: self.text@,
            lang: opt_view(self.lang),
            sha1: opt_view(self.sha1),
        }
    }
}

/// The chunks as plain data.
pub open spec fn chunks_view(v: Seq<EmbeddingChunk>) -> Seq<EmbeddingChunkView> {
    v.map_values(|c: EmbeddingChunk| c@)
}

/// What `serde_json` reads as the member `name` of the JSON value in a
/// line, where that member is a string: none where the line is no JSON
/// value, where the value has no such member, and where the member is no
/// string.
pub uninterp spec fn json_text(line: Seq<char>, name: Seq<char>) -> Option<Seq<char>>;

/// What `serde_json` reads as the member `name` of the JSON value in a
/// line, where that member is a number without sign or fraction that fits
/// 64 bits: none where the line is no JSON value, where the value has no
/// such member, and where the member is no such number.
pub uninterp spec fn json_number(line: Seq<char>, name: Seq<char>) -> Option<u64>;

/// Reads the line with `serde_json::from_str`, looks the member up with
/// `Value::get` and takes its text with `Value::as_str`. What comes out
/// depends on the line and the name alone.
#[verifier::external_body]
fn text_member(line: &str, name: &str) -> (r: Option<String>)
    ensures
        opt_view(r) == json_text(line@, name@),
{
    let v: serde_json::Value = serde_json::from_str(line).ok()?;
    v.get(name)?.as_str().map(str::to_string)
}

/// Reads the line with `serde_json::from_str`, looks the member up with
/// `Value::get` and takes its number with `Value::as_u64`. What comes out
/// depends on the line and the name alone.
#[verifier::external_body]
fn number_member(line: &str, name: &str) -> (r: Option<u64>)
    ensures
        r == json_number(line@, name@),
{
    let v: serde_json::Value = serde_json::from_str(line).ok()?;
    v.get(name)?.as_u64()
}

/// The fields of a chunk as one line of the index holds them: the members
/// `id`, `path`, `text`, `lang` and `sha1` as texts, `start` and `end` as
/// numbers.
pub open spec fn fields_of(line: Seq<char>) -> RawChunkView {
    RawChunkView {
        id: json_text(line, "id"@),
        path: json_text(line, "path"@),
        start: json_number(line, "start"@),
        end: json_number(line, "end"@),
        text: json_text(line, "text"@),
        lang: json_text(line, "lang"@),
        sha1: json_text(line, "sha1"@),
    }
}

/// The fields of a chunk as one line of the index holds them.
pub fn fields_in(line: &str) -> (r: RawChunk)
    ensures
        r@ == fields_of(line@),
{
    RawChunk {
        id: text_member(line, "id"),
        path: text_member(line, "path"),
        start: number_member(line, "start"),
        end: number_member(line, "end"),
        text: text_member(line, "text"),
        lang: text_member(line, "lang"),
        sha1: text_member(line, "sha1"),
    }
}

/// An optional text, or nothing.
pub open spec fn text_or_empty(o: Option<Seq<char>>) -> Seq<char> {
    match o {
        Some(t) => t,
        None => Seq::empty(),
    }
}

/// An optional number as a position in a file.
pub open spec fn position(o: Option<u64>) -> Option<usize> {
    match o {
        Some(n) => Some(n as usize),
        None => None,
    }
}

/// The chunk that the fields of a line make: none where the path or the
/// text is missing or empty; else the fields, the path with slashes.
pub open spec fn chunk_of(raw: RawChunkView) -> Option<EmbeddingChunkView> {
    if text_or_empty(raw.path).len() == 0 || text_or_empty(raw.text).len() == 0 {
        None
    } else {
        Some(
            EmbeddingChunkView {
                id: text_or_empty(raw.id),
                path: normalized(text_or_empty(raw.path)),
                start: position(raw.start),
                end: position(raw.end),
                text: text_or_empty(raw.text),
                lang: raw.lang,
                sha1: raw.sha1,
            },
        )
    }
}

/// The chunk that a line of the index holds, if any: a blank line holds
/// none, and so does a line that is no JSON value, for it has no members.
pub open spec fn chunk_in_line(line: Seq<char>) -> Option<EmbeddingChunkView> {
    if trim(line).len() == 0 {
        None
    } else {
        chunk_of(fields_of(line))
    }
}

/// The chunks that the first `n` lines hold, in their order.
pub open spec fn chunks_in(lines: Seq<Seq<char>>, n: int) -> Seq<EmbeddingChunkView>
    decreases n,
{
    if n <= 0 {
        Seq::empty()
    } else {
        match chunk_in_line(lines[n - 1]) {
            Some(c) => chunks_in(lines, n - 1).push(c),
            None => chunks_in(lines, n - 1),
        }
    }
}

fn owned_or_empty(o: Option<String>) -> (r: String)
    ensures
        r@ == text_or_empty(opt_view(o)),
{
    match o {
        Some(t) => t,
        None => String::new(),
    }
}

fn as_position(o: Option<u64>) -> (r: Option<usize>)
    ensures
        r == position(o),
{
    match o {
        Some(n) => Some(#[verifier::truncate] (n as usize)),
        None => None,
    }
}

/// The chunk that the fields of a line make.
pub fn chunk_from(raw: RawChunk) -> (r: Option<EmbeddingChunk>)
    ensures
        (match r {
            Some(c) => Some(c@),
            None => None,
        }) == chunk_of(raw@),
{
    let path = owned_or_empty(raw.path);
    let text = owned_or_empty(raw.text);
    if path.as_str().is_empty() || text.as_str().is_empty() {
        return None;
    }
    Some(
        EmbeddingChunk {
            id: owned_or_empty(raw.id),
            path: normalize_path(path.as_str()),
            start: as_position(raw.start),
            end: as_position(raw.end),
            text,
            lang: raw.lang,
            sha1: raw.sha1,
        },
    )
}

/// The chunks of an index file, one JSON value to a line: blank lines,
/// lines that are no JSON and lines without path or text are passed over.
pub fn parse_chunks(content: &str) -> (r: Vec<EmbeddingChunk>)
    ensures
        chunks_view(r@) == chunks_in(lines_of(content@), lines_of(content@).len() as int),
{
    let lines = split_lines(&chars_of(content));
    let ghost lv = lines_of(content@);
    let mut out: Vec<EmbeddingChunk> = Vec::new();
    let mut i: usize = 0;
    assert(chunks_view(out@) == chunks_in(lv, 0));
    while i < lines.len()
        invariant
            i <= lines.len(),
            lv == lines_view(lines@),
            chunks_view(out@) == chunks_in(lv, i as int),
        decreases lines.len() - i,
    {
        assert(lv[i as int] == lines@[i as int]@);
        if trim_chars(&lines[i]).len() > 0 {
            let line = string_of(&lines[i]);
            match chunk_from(fields_in(line.as_str())) {
                Some(c) => {
                    assert(chunks_view(out@.push(c)) == chunks_view(out@).push(c@));
                    out.push(c);
                },
                None => {},
            }
        }
        i += 1;
    }
    out
}

} // verus!
