//! The request line of an HTTP request: `METHOD target VERSION`.
use crate::nav::split_path_query_spec;
use crate::query::{parse_query_params, parse_query_spec, QueryParams};
use crate::text::{chars_of, substring};
use vstd::prelude::*;
use vstd::string::*;

verus! {

/// The Unicode `White_Space` property, which `char::is_whitespace` tests.
pub open spec fn is_white_space(c: char) -> bool {
    let u = c as u32;
    (0x09 <= u <= 0x0d) || u == 0x20 || u == 0x85 || u == 0xa0 || u == 0x1680 || (0x2000 <= u
        <= 0x200a) || u == 0x2028 || u == 0x2029 || u == 0x202f || u == 0x205f || u == 0x3000
}

pub fn white_space(c: char) -> (r: bool)
    ensures
        r == is_white_space(c),
{
    let u = c as u32;
    (0x09 <= u && u <= 0x0d) || u == 0x20 || u == 0x85 || u == 0xa0 || u == 0x1680 || (0x2000 <= u
        && u <= 0x200a) || u == 0x2028 || u == 0x2029 || u == 0x202f || u == 0x205f || u == 0x3000
}

/// The complete words of `s` and the word still open at its end.
pub open spec fn scan_words(s: Seq<char>) -> (Seq<Seq<char>>, Seq<char>)
    decreases s.len(),
{
    if s.len() == 0 {
        (Seq::empty(), Seq::empty())
    } else {
        let prev = scan_words(s.drop_last());
        if is_white_space(s.last()) {
            if prev.1.len() > 0 {
                (prev.0.push(prev.1), Seq::empty())
            } else {
                (prev.0, Seq::empty())
            }
        } else {
            (prev.0, prev.1.push(s.last()))
        }
    }
}

/// The words of `s`: its maximal runs of non-whitespace.
pub open spec fn words(s: Seq<char>) -> Seq<Seq<char>> {
    let (ws, cur) = scan_words(s);
    if cur.len() > 0 {
        ws.push(cur)
    } else {
        ws
    }
}

/// The `n`th word, or nothing where there are fewer.
pub open spec fn word_or_empty(ws: Seq<Seq<char>>, n: int) -> Seq<char> {
    if n < ws.len() {
        ws[n]
    } else {
        Seq::empty()
    }
}

/// The method, path and version of a request.
#[derive(Debug)]
pub struct RequestLine {
    pub method: String,
    pub path: String,
    pub version: String,
}

fn words_of(line: &str) -> (r: Vec<String>)
    ensures
        r@.map_values(|w: String| w@) == words(line@),
{
    let chars = chars_of(line);
    let mut out: Vec<String> = Vec::new();
    let mut start: usize = 0;
    let mut i: usize = 0;
    while i < chars.len()
        invariant
            start <= i <= chars@.len(),
            chars@ == line@,
            out@.map_values(|w: String| w@) == scan_words(line@.take(i as int)).0,
            scan_words(line@.take(i as int)).1 == line@.subrange(start as int, i as int),
        decreases chars@.len() - i,
    {
        assert(line@.take(i as int + 1).drop_last() =~= line@.take(i as int));
        assert(line@.take(i as int + 1).last() == chars@[i as int]);
        if white_space(chars[i]) {
            if start < i {
                let w = substring(line, start, i);
                out.push(w);
                assert(out@.map_values(|w: String| w@) =~= scan_words(line@.take(i as int)).0.push(
                    scan_words(line@.take(i as int)).1,
                ));
            }
            start = i + 1;
            assert(line@.subrange(start as int, i as int + 1) =~= Seq::<char>::empty());
        } else {
            assert(line@.subrange(start as int, i as int + 1) =~= line@.subrange(
                start as int,
                i as int,
            ).push(chars@[i as int]));
        }
        i = i + 1;
    }
    assert(line@.take(i as int) =~= line@);
    if start < i {
        let w = substring(line, start, i);
        out.push(w);
        assert(out@.map_values(|w: String| w@) =~= words(line@));
    }
    out
}

fn word_at(ws: &Vec<String>, n: usize) -> (r: String)
    ensures
        r@ == word_or_empty(ws@.map_values(|w: String| w@), n as int),
{
    if n < ws.len() {
        ws[n].clone()
    } else {
        String::new()
    }
}

/// Reads a request line: its first three words are the method, the target
/// and the version (missing ones are empty); the target splits at its first
/// `?` into the path and the query parameters.
pub fn parse_request_line(request_line: String) -> (r: (RequestLine, QueryParams))
    ensures
        r.0.method@ == word_or_empty(words(request_line@), 0),
        r.0.path@ == split_path_query_spec(word_or_empty(words(request_line@), 1)).0,
        r.0.version@ == word_or_empty(words(request_line@), 2),
        r.1@ == parse_query_spec(split_path_query_spec(word_or_empty(words(request_line@), 1)).1),
{
    let ws = words_of(request_line.as_str());
    let method = word_at(&ws, 0);
    let target = word_at(&ws, 1);
    let version = word_at(&ws, 2);
    let (path, query) = crate::nav::split_path_query(target.as_str());
    let params = parse_query_params(query);
    (RequestLine { method, path: String::from_str(path), version }, params)
}

} // verus!
