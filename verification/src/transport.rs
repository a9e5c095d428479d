//! The request and response logic that a transport layer puts around the
//! engine: reading reveal ranges, the placeholder for an identifier without
//! a class, and the paging of a bulk request.

use crate::anonymization::{mask_or_default, HashAlgorithm};
use crate::models::{
    opt_view, BulkRequest, BulkResponse, Pagination, ValidateParams, ValidationRecord,
    ValidationResponse,
};
use crate::text::{all_digits, chars_of, digit_value, is_digit};
use crate::validation::{name_view, selected_algorithm, validate_document, validation_of};
use vstd::prelude::*;

verus! {

/// The pieces of `s` from `start` on, cut at each `sep` at or after `i`;
/// the characters from `start` up to `i` belong to the first piece.
pub open spec fn split_from(s: Seq<char>, sep: char, start: int, i: int) -> Seq<Seq<char>>
    decreases s.len() - i,
{
    if i >= s.len() {
        seq![s.subrange(start, s.len() as int)]
    } else if s[i] == sep {
        seq![s.subrange(start, i)] + split_from(s, sep, i + 1, i + 1)
    } else {
        split_from(s, sep, start, i + 1)
    }
}

/// The pieces that the separators cut `s` into. There is one piece more
/// than there are separators; a piece may be empty.
pub open spec fn split(s: Seq<char>, sep: char) -> Seq<Seq<char>> {
    split_from(s, sep, 0, 0)
}

/// The pieces put together again, with `sep` between one and the next.
pub open spec fn join(pieces: Seq<Seq<char>>, sep: char) -> Seq<char>
    decreases pieces.len(),
{
    if pieces.len() == 0 {
        Seq::empty()
    } else if pieces.len() == 1 {
        pieces[0]
    } else {
        pieces[0] + seq![sep] + join(pieces.skip(1), sep)
    }
}

/// No piece holds the separator.
pub open spec fn free_of(pieces: Seq<Seq<char>>, sep: char) -> bool {
    forall|p: int, j: int|
        0 <= p < pieces.len() && 0 <= j < pieces[p].len() ==> #[trigger] pieces[p][j] != sep
}

/// The same of a scan that has come to `i` with a piece open since `start`.
proof fn lemma_split_from(s: Seq<char>, sep: char, start: int, i: int)
    requires
        0 <= start <= i <= s.len(),
        forall|j: int| start <= j < i ==> s[j] != sep,
    ensures
        split_from(s, sep, start, i).len() >= 1,
        free_of(split_from(s, sep, start, i), sep),
        join(split_from(s, sep, start, i), sep) == s.subrange(start, s.len() as int),
    decreases s.len() - i,
{
    let pieces = split_from(s, sep, start, i);
    if i >= s.len() {
        assert(pieces[0] == s.subrange(start, s.len() as int));
    } else if s[i] == sep {
        lemma_split_from(s, sep, i + 1, i + 1);
        let head = s.subrange(start, i);
        let rest = split_from(s, sep, i + 1, i + 1);
        assert(pieces =~= seq![head] + rest);
        assert(pieces.skip(1) =~= rest);
        assert(join(pieces, sep) =~= s.subrange(start, s.len() as int));
        assert forall|p: int, j: int|
            0 <= p < pieces.len() && 0 <= j < pieces[p].len() implies #[trigger] pieces[p][j]
            != sep by {
            if p > 0 {
                assert(pieces[p] == rest[p - 1]);
                assert(rest[p - 1][j] != sep);
            }
        }
    } else {
        lemma_split_from(s, sep, start, i + 1);
    }
}

/// Splitting loses nothing and leaves no separator behind: the pieces hold
/// none, and joined by the separator they give the string back.
pub proof fn lemma_split_joins_back(s: Seq<char>, sep: char)
    ensures
        split(s, sep).len() >= 1,
        free_of(split(s, sep), sep),
        join(split(s, sep), sep) == s,
{
    lemma_split_from(s, sep, 0, 0);
    assert(s.subrange(0, s.len() as int) =~= s);
}

/// The contents of a vector of pieces.
pub open spec fn pieces_view(pieces: Seq<Vec<char>>) -> Seq<Seq<char>> {
    pieces.map_values(|p: Vec<char>| p@)
}

/// Cuts `chars` at every `sep`.
pub fn split_chars(chars: &Vec<char>, sep: char) -> (pieces: Vec<Vec<char>>)
    ensures
        pieces_view(pieces@) == split(chars@, sep),
{
    let mut pieces: Vec<Vec<char>> = Vec::new();
    let mut current: Vec<char> = Vec::new();
    let ghost mut start: int = 0;
    let mut i: usize = 0;
    while i < chars.len()
        invariant
            0 <= start <= i <= chars.len(),
            current@ == chars@.subrange(start, i as int),
            split(chars@, sep) == pieces_view(pieces@) + split_from(chars@, sep, start, i as int),
        decreases chars.len() - i,
    {
        let ghost before = pieces_view(pieces@);
        if chars[i] == sep {
            pieces.push(current);
            current = Vec::new();
            proof {
                assert(pieces_view(pieces@) =~= before + seq![chars@.subrange(start, i as int)]);
                start = i + 1;
            }
        } else {
            current.push(chars[i]);
        }
        i += 1;
        assert(current@ =~= chars@.subrange(start, i as int));
        assert(split(chars@, sep) =~= pieces_view(pieces@) + split_from(
            chars@,
            sep,
            start,
            i as int,
        ));
    }
    let ghost before = pieces_view(pieces@);
    pieces.push(current);
    assert(pieces_view(pieces@) =~= before + seq![chars@.subrange(start, chars@.len() as int)]);
    pieces
}

/// The number that a string of digits writes in decimal.
pub open spec fn decimal_value(s: Seq<char>) -> int
    decreases s.len(),
{
    if s.len() == 0 {
        0
    } else {
        10 * decimal_value(s.drop_last()) + digit_value(s.last())
    }
}

/// The index that `s` writes: an optional `+`, then one digit or more and
/// nothing else, and a value that a `usize` can hold.
pub open spec fn parse_index(s: Seq<char>) -> Option<usize> {
    let body = if s.len() > 0 && s[0] == '+' {
        s.skip(1)
    } else {
        s
    };
    if body.len() > 0 && all_digits(body) && decimal_value(body) <= usize::MAX {
        Some(decimal_value(body) as usize)
    } else {
        None
    }
}

/// A string of digits writes at least the number that any of its prefixes
/// writes.
proof fn lemma_decimal_value_grows(s: Seq<char>, k: int)
    requires
        all_digits(s),
        0 <= k <= s.len(),
    ensures
        0 <= decimal_value(s.take(k)) <= decimal_value(s),
    decreases s.len() - k,
{
    if k == s.len() {
        assert(s.take(k) =~= s);
        lemma_decimal_value_nonnegative(s);
    } else {
        lemma_decimal_value_grows(s, k + 1);
        let t = s.take(k + 1);
        assert(t.drop_last() =~= s.take(k));
        assert(t.last() == s[k]);
        assert(all_digits(s.take(k))) by {
            assert forall|j: int| 0 <= j < s.take(k).len() implies is_digit(
                #[trigger] s.take(k)[j],
            ) by {
                assert(s.take(k)[j] == s[j]);
            }
        }
        lemma_decimal_value_nonnegative(s.take(k));
    }
}

/// A string of digits writes no negative number.
proof fn lemma_decimal_value_nonnegative(s: Seq<char>)
    requires
        all_digits(s),
    ensures
        0 <= decimal_value(s),
    decreases s.len(),
{
    if s.len() > 0 {
        assert forall|j: int| 0 <= j < s.drop_last().len() implies is_digit(
            #[trigger] s.drop_last()[j],
        ) by {
            assert(s.drop_last()[j] == s[j]);
        }
        lemma_decimal_value_nonnegative(s.drop_last());
        assert(is_digit(s[s.len() - 1]));
    }
}

/// Reads an index as `parse_index` defines it.
pub fn parse_index_chars(chars: &Vec<char>) -> (index: Option<usize>)
    ensures
        index == parse_index(chars@),
{
    let start: usize = if chars.len() > 0 && chars[0] == '+' {
        1
    } else {
        0
    };
    let ghost body = chars@.skip(start as int);
    assert(chars@.skip(0) =~= chars@);
    if start == chars.len() {
        return None;
    }
    let mut value: usize = 0;
    let mut i: usize = start;
    while i < chars.len()
        invariant
            start <= i <= chars.len(),
            start < chars.len(),
            start == if chars@.len() > 0 && chars@[0] == '+' {
                1int
            } else {
                0int
            },
            body == chars@.skip(start as int),
            chars@.skip(0) == chars@,
            all_digits(body.take(i - start)),
            value == decimal_value(body.take(i - start)),
        decreases chars.len() - i,
    {
        let c = chars[i];
        if !(c >= '0' && c <= '9') {
            assert(body[i - start] == c);
            return None;
        }
        let d: usize = (c as u32 - 48) as usize;
        let ghost next = body.take(i - start + 1);
        proof {
            assert(next.drop_last() =~= body.take(i - start));
            assert(next.last() == c);
            assert forall|j: int| 0 <= j < next.len() implies is_digit(
                #[trigger] next[j],
            ) by {
                if j < i - start {
                    assert(body.take(i - start)[j] == next[j]);
                }
            }
            assert(decimal_value(next) == 10 * value + d);
            if all_digits(body) {
                lemma_decimal_value_grows(body, i - start + 1);
            }
        }
        let shifted = match value.checked_mul(10) {
            Some(v) => v,
            None => {
                return None;
            },
        };
        value = match shifted.checked_add(d) {
            Some(v) => v,
            None => {
                return None;
            },
        };
        i += 1;
    }
    assert(body.take(i - start) =~= body);
    Some(value)
}

/// The range that a piece writes: two indices with one `-` between them.
pub open spec fn parse_range(piece: Seq<char>) -> Option<(usize, usize)> {
    let parts = split(piece, '-');
    if parts.len() == 2 {
        match (parse_index(parts[0]), parse_index(parts[1])) {
            (Some(start), Some(end)) => Some((start, end)),
            _ => None,
        }
    } else {
        None
    }
}

/// The ranges that the pieces write, in order; a piece that writes none is
/// passed over.
pub open spec fn ranges_from(pieces: Seq<Seq<char>>) -> Seq<(usize, usize)>
    decreases pieces.len(),
{
    if pieces.len() == 0 {
        Seq::empty()
    } else {
        let rest = ranges_from(pieces.drop_last());
        match parse_range(pieces.last()) {
            Some(range) => rest.push(range),
            None => rest,
        }
    }
}

/// The reveal ranges that a `show` parameter writes: `start-end` pairs
/// separated by commas.
pub open spec fn show_ranges_of(show: Seq<char>) -> Seq<(usize, usize)> {
    ranges_from(split(show, ','))
}

fn parse_range_chars(piece: &Vec<char>) -> (range: Option<(usize, usize)>)
    ensures
        range == parse_range(piece@),
{
    let parts = split_chars(piece, '-');
    if parts.len() != 2 {
        return None;
    }
    assert(pieces_view(parts@)[0] == parts@[0]@);
    assert(pieces_view(parts@)[1] == parts@[1]@);
    match (parse_index_chars(&parts[0]), parse_index_chars(&parts[1])) {
        (Some(start), Some(end)) => Some((start, end)),
        _ => None,
    }
}

/// Reads the reveal ranges of a `show` parameter. A pair that is not two
/// indices with one `-` between them is dropped without a word.
pub fn parse_show_ranges(show: &str) -> (ranges: Vec<(usize, usize)>)
    ensures
        ranges@ == show_ranges_of(show@),
{
    let chars = chars_of(show);
    let pieces = split_chars(&chars, ',');
    let mut ranges: Vec<(usize, usize)> = Vec::new();
    let mut i: usize = 0;
    while i < pieces.len()
        invariant
            i <= pieces.len(),
            pieces_view(pieces@) == split(show@, ','),
            ranges@ == ranges_from(pieces_view(pieces@).take(i as int)),
        decreases pieces.len() - i,
    {
        let ghost done = pieces_view(pieces@).take(i as int + 1);
        assert(done.drop_last() =~= pieces_view(pieces@).take(i as int));
        assert(done.last() == pieces@[i as int]@);
        match parse_range_chars(&pieces[i]) {
            Some(range) => {
                ranges.push(range);
            },
            None => {},
        }
        i += 1;
    }
    assert(pieces_view(pieces@).take(pieces.len() as int) =~= pieces_view(pieces@));
    ranges
}

/// The reveal ranges of a request: those that its `show` parameter writes,
/// and none when it has no such parameter.
pub open spec fn requested_ranges(show: Option<String>) -> Seq<(usize, usize)> {
    match show {
        Some(s) => show_ranges_of(s@),
        None => Seq::empty(),
    }
}

/// The response for an identifier without a class: it hands the input
/// back as the number and leaves everything else empty.
pub open spec fn placeholder(raw: Seq<char>) -> ValidationRecord {
    ValidationRecord {
        valid: false,
        kind: "INVALID"@,
        number: raw,
        formatted: Seq::empty(),
        anonymized: Seq::empty(),
        anonymized_key: None,
        custom_anonymized: None,
        region: None,
    }
}

/// The response that a request for one identifier is owed.
pub open spec fn response_to(params: ValidateParams) -> ValidationRecord {
    match validation_of(
        params.doc@,
        requested_ranges(params.show),
        mask_or_default(params.mask),
        selected_algorithm(opt_view(params.hash_type)),
    ) {
        Some(record) => record,
        None => placeholder(params.doc@),
    }
}

/// Answers a request for one identifier. An identifier without a class
/// gets the placeholder in place of a validation.
pub fn validate_handler(params: ValidateParams) -> (response: ValidationResponse)
    ensures
        response@ == response_to(params),
{
    let show_ranges = match &params.show {
        Some(show) => Some(parse_show_ranges(show.as_str())),
        None => None,
    };
    let hash_type: Option<&str> = match &params.hash_type {
        Some(name) => Some(name.as_str()),
        None => None,
    };
    match validate_document(params.doc.as_str(), show_ranges, params.mask, hash_type) {
        Some(response) => response,
        None => ValidationResponse {
            valid: false,
            kind: "INVALID".to_owned(),
            number: params.doc.clone(),
            formatted: String::new(),
            anonymized: String::new(),
            anonymized_key: None,
            custom_anonymized: None,
            region: None,
        },
    }
}

/// How many documents a bulk request skips.
pub open spec fn page_offset(offset: Option<usize>) -> usize {
    match offset {
        Some(o) => o,
        None => 0,
    }
}

/// How many documents a bulk request takes: what it asks for, 100 when it
/// does not say, and never more than 100.
pub open spec fn page_limit(limit: Option<usize>) -> usize {
    match limit {
        Some(l) => if l < 100 {
            l
        } else {
            100
        },
        None => 100,
    }
}

/// The documents of a page: `limit` of them after the first `offset`, or
/// as many as there are.
pub open spec fn page(docs: Seq<String>, offset: int, limit: int) -> Seq<String> {
    if offset >= docs.len() {
        Seq::empty()
    } else if offset + limit >= docs.len() {
        docs.skip(offset)
    } else {
        docs.subrange(offset, offset + limit)
    }
}

/// Where a page lies in a list of `total` documents. A next page is
/// announced exactly when this one ends before the list does.
pub open spec fn pagination_of(total: usize, offset: Option<usize>, limit: Option<usize>)
    -> Pagination {
    let o = page_offset(offset);
    let l = page_limit(limit);
    Pagination {
        total,
        offset: o,
        limit: l,
        next_offset: if o + l < total {
            Some((o + l) as usize)
        } else {
            None
        },
    }
}

/// The records of the documents that have a class, in order, each
/// validated with no reveal range and the default mask.
pub open spec fn bulk_records(docs: Seq<String>, algo: HashAlgorithm) -> Seq<ValidationRecord>
    decreases docs.len(),
{
    if docs.len() == 0 {
        Seq::empty()
    } else {
        let rest = bulk_records(docs.drop_last(), algo);
        match validation_of(docs.last()@, Seq::empty(), '*', algo) {
            Some(record) => rest.push(record),
            None => rest,
        }
    }
}

/// The contents of a vector of responses.
pub open spec fn records_of(results: Seq<ValidationResponse>) -> Seq<ValidationRecord> {
    results.map_values(|r: ValidationResponse| r@)
}

/// Every record is that of a valid identifier.
pub open spec fn all_valid(records: Seq<ValidationRecord>) -> bool {
    forall|i: int| 0 <= i < records.len() ==> (#[trigger] records[i]).valid
}

/// Answers a bulk request: validates one page of its documents, passes
/// over those without a class, and says where the page lies.
pub fn bulk_handler(body: BulkRequest) -> (response: BulkResponse)
    ensures
        response.pagination == pagination_of(body.documents.len(), body.offset, body.limit),
        records_of(response.results@) == bulk_records(
            page(
                body.documents@,
                page_offset(body.offset) as int,
                page_limit(body.limit) as int,
            ),
            selected_algorithm(opt_view(body.hash_type)),
        ),
        response.valid == all_valid(records_of(response.results@)),
        response.results.len() <= page_limit(body.limit),
{
    let offset: usize = match body.offset {
        Some(o) => o,
        None => 0,
    };
    let limit: usize = match body.limit {
        Some(l) => if l < 100 {
            l
        } else {
            100
        },
        None => 100,
    };
    let total = body.documents.len();
    let hash_type: Option<&str> = match &body.hash_type {
        Some(name) => Some(name.as_str()),
        None => None,
    };
    let ghost algo = selected_algorithm(opt_view(body.hash_type));
    let start: usize = if offset < total {
        offset
    } else {
        total
    };
    let end: usize = if limit < total - start {
        start + limit
    } else {
        total
    };
    let mut results: Vec<ValidationResponse> = Vec::new();
    let mut valid = true;
    let mut i: usize = start;
    while i < end
        invariant
            start <= i <= end <= body.documents.len(),
            name_view(hash_type) == opt_view(body.hash_type),
            algo == selected_algorithm(opt_view(body.hash_type)),
            records_of(results@) == bulk_records(
                body.documents@.subrange(start as int, i as int),
                algo,
            ),
            valid == all_valid(records_of(results@)),
            results.len() <= i - start,
        decreases end - i,
    {
        let ghost before = records_of(results@);
        let ghost done = body.documents@.subrange(start as int, i as int + 1);
        assert(done.drop_last() =~= body.documents@.subrange(start as int, i as int));
        assert(done.last() == body.documents@[i as int]);
        match validate_document(body.documents[i].as_str(), None, None, hash_type) {
            Some(response) => {
                let ok = response.valid;
                results.push(response);
                assert(records_of(results@) =~= before.push(response@));
                assert(all_valid(before.push(response@)) == (all_valid(before) && ok)) by {
                    if all_valid(before) && ok {
                        assert forall|k: int| 0 <= k < before.push(response@).len() implies (
                        #[trigger] before.push(response@)[k]).valid by {
                            if k < before.len() {
                                assert(before[k].valid);
                            }
                        }
                    } else if !ok {
                        assert(!before.push(response@)[before.len() as int].valid);
                    } else {
                        let k = choose|k: int| 0 <= k < before.len() && !(#[trigger] before[k]).valid;
                        assert(!before.push(response@)[k].valid);
                    }
                }
                valid = valid && ok;
            },
            None => {},
        }
        i += 1;
    }
    assert(body.documents@.subrange(start as int, end as int) =~= page(
        body.documents@,
        offset as int,
        limit as int,
    ));
    let next_offset = if offset < total && limit < total - offset {
        Some(offset + limit)
    } else {
        None
    };
    BulkResponse { valid, results, pagination: Pagination { total, offset, limit, next_offset } }
}

} // verus!
