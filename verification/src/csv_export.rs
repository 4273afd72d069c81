//! The text of a Total Phase CSV export: a preamble of a few lines, then CSV
//! records (the first of which is a header row), read with the `csv` crate.
use crate::total_phase_parser::{record_view, records_view};
use vstd::prelude::*;

verus! {

// ----------------------------------------------------------------------------
// The preamble
// ----------------------------------------------------------------------------

/// The number of bytes of the first line of `text`, its `\n` included; the
/// whole text when it has no `\n`.
pub open spec fn line_len(text: Seq<u8>) -> nat
    decreases text.len(),
{
    if text.len() == 0 {
        0
    } else if text[0] == 10u8 {
        1
    } else {
        1 + line_len(text.skip(1))
    }
}

/// What follows the first `n` lines of `text`, as reading `n` lines into a
/// string leaves it: nothing when one of those lines is not valid UTF-8.
pub open spec fn skip_lines_spec(text: Seq<u8>, n: nat) -> Option<Seq<u8>>
    decreases n,
{
    if n == 0 {
        Some(text)
    } else {
        let l = line_len(text);
        if vstd::utf8::valid_utf8(text.take(l as int)) {
            skip_lines_spec(text.skip(l as int), (n - 1) as nat)
        } else {
            None
        }
    }
}

/// `std::str::from_utf8` succeeds exactly on the byte strings that are valid
/// UTF-8, which `valid_utf8` defines.
#[verifier::external_body]
fn utf8_valid(b: &[u8]) -> (r: bool)
    ensures
        r == vstd::utf8::valid_utf8(b@),
{
    std::str::from_utf8(b).is_ok()
}

/// Where the line that starts at `from` ends (after its `\n`, or at the end).
fn line_end(text: &[u8], from: usize) -> (e: usize)
    requires
        from <= text.len(),
    ensures
        from <= e <= text.len(),
        e - from == line_len(text@.skip(from as int)),
{
    let mut j: usize = from;
    while j < text.len()
        invariant
            from <= j <= text.len(),
            line_len(text@.skip(from as int)) == (j - from) + line_len(text@.skip(j as int)),
        decreases text.len() - j,
    {
        assert(text@.skip(j as int)[0] == text@[j as int]);
        assert(text@.skip(j as int).skip(1) =~= text@.skip(j + 1));
        if text[j] == 10u8 {
            return j + 1;
        }
        j = j + 1;
    }
    assert(text@.skip(j as int).len() == 0);
    j
}

/// The bytes `b[from..to]`.
fn byte_range(b: &[u8], from: usize, to: usize) -> (r: Vec<u8>)
    requires
        from <= to <= b.len(),
    ensures
        r@ == b@.subrange(from as int, to as int),
{
    let mut r: Vec<u8> = Vec::new();
    let mut i: usize = from;
    while i < to
        invariant
            from <= i <= to <= b.len(),
            r@ == b@.subrange(from as int, i as int),
        decreases to - i,
    {
        r.push(b[i]);
        i = i + 1;
        assert(r@ =~= b@.subrange(from as int, i as int));
    }
    r
}

/// What follows the first `n` lines of `text` (see `skip_lines_spec`).
pub fn skip_lines(text: &[u8], n: usize) -> (r: Option<Vec<u8>>)
    ensures
        match r {
            Some(v) => skip_lines_spec(text@, n as nat) == Some(v@),
            None => skip_lines_spec(text@, n as nat) is None,
        },
{
    let mut pos: usize = 0;
    let mut k: usize = 0;
    assert(text@.skip(0) =~= text@);
    while k < n
        invariant
            pos <= text.len(),
            k <= n,
            skip_lines_spec(text@, n as nat) == skip_lines_spec(text@.skip(pos as int), (n - k) as nat),
        decreases n - k,
    {
        let e = line_end(text, pos);
        let line = byte_range(text, pos, e);
        assert(text@.skip(pos as int).take(e - pos) =~= line@);
        assert(text@.skip(pos as int).skip(e - pos) =~= text@.skip(e as int));
        if !utf8_valid(line.as_slice()) {
            return None;
        }
        pos = e;
        k = k + 1;
    }
    let rest = byte_range(text, pos, text.len());
    assert(rest@ =~= text@.skip(pos as int));
    Some(rest)
}

// ----------------------------------------------------------------------------
// CSV records
// ----------------------------------------------------------------------------

/// What `csv::Reader::records` gives for `text`, read by a reader built with
/// `csv::ReaderBuilder::new()` and the given `flexible` setting (the first
/// record is a header and is not among them), record by record: its fields,
/// or the reader's error for it, as the error's `Debug` text.
pub uninterp spec fn csv_row_results(text: Seq<u8>, flexible: bool) -> Seq<
    Result<Seq<Seq<char>>, Seq<char>>,
>;

/// A record read from CSV text, as plain values.
pub open spec fn result_view(r: Result<Vec<String>, String>) -> Result<Seq<Seq<char>>, Seq<char>> {
    match r {
        Ok(v) => Ok(record_view(v@)),
        Err(m) => Err(m@),
    }
}

/// Records read from CSV text, as plain values.
pub open spec fn results_view(rs: Seq<Result<Vec<String>, String>>) -> Seq<
    Result<Seq<Seq<char>>, Seq<char>>,
> {
    rs.map_values(|r: Result<Vec<String>, String>| result_view(r))
}

/// `csv::ReaderBuilder::new().flexible(flexible).from_reader(text).records()`:
/// every record's fields, or its error's `Debug` text. The contract names the
/// result.
#[verifier::external_body]
pub(crate) fn csv_record_results(text: &[u8], flexible: bool) -> (r: Vec<Result<Vec<String>, String>>)
    ensures
        results_view(r@) == csv_row_results(text@, flexible),
{
    let mut reader = csv::ReaderBuilder::new().flexible(flexible).from_reader(text);
    reader.records().map(|r| match r {
        Ok(rec) => Ok(rec.iter().map(String::from).collect()),
        Err(e) => Err(format!("{:?}", e)),
    }).collect()
}

/// Rows, each as a record read without error.
pub open spec fn ok_results(rows: Seq<Seq<Seq<char>>>) -> Seq<Result<Seq<Seq<char>>, Seq<char>>> {
    rows.map_values(|r: Seq<Seq<char>>| Ok::<Seq<Seq<char>>, Seq<char>>(r))
}

/// The position of the first error at or after `i`, or the number of records.
pub open spec fn error_from(rs: Seq<Result<Seq<Seq<char>>, Seq<char>>>, i: int) -> int
    decreases rs.len() - i,
{
    if i >= rs.len() {
        rs.len() as int
    } else if rs[i] is Err {
        i
    } else {
        error_from(rs, i + 1)
    }
}

/// The rows before the first error.
pub open spec fn leading_rows(rs: Seq<Result<Seq<Seq<char>>, Seq<char>>>) -> Seq<Seq<Seq<char>>> {
    Seq::new(
        error_from(rs, 0) as nat,
        |j: int|
            match rs[j] {
                Ok(r) => r,
                Err(_) => Seq::empty(),
            },
    )
}

/// The first error, if there is one.
pub open spec fn first_error(rs: Seq<Result<Seq<Seq<char>>, Seq<char>>>) -> Option<Seq<char>> {
    let k = error_from(rs, 0);
    if 0 <= k < rs.len() {
        match rs[k] {
            Err(m) => Some(m),
            Ok(_) => None,
        }
    } else {
        None
    }
}

proof fn lemma_error_from_ok_prefix(
    rows: Seq<Seq<Seq<char>>>,
    tail: Seq<Result<Seq<Seq<char>>, Seq<char>>>,
    i: int,
)
    requires
        0 <= i <= rows.len(),
        tail.len() == 0 || tail[0] is Err,
    ensures
        error_from(ok_results(rows) + tail, i) == rows.len(),
    decreases rows.len() - i,
{
    let rs = ok_results(rows) + tail;
    if i < rows.len() {
        assert(rs[i] == Ok::<Seq<Seq<char>>, Seq<char>>(rows[i]));
        lemma_error_from_ok_prefix(rows, tail, i + 1);
    }
}

/// Law: rows read without error, followed by nothing or by an error, lead with
/// exactly those rows, and their first error is that error.
pub proof fn lemma_leading_rows(
    rows: Seq<Seq<Seq<char>>>,
    tail: Seq<Result<Seq<Seq<char>>, Seq<char>>>,
)
    requires
        tail.len() == 0 || tail[0] is Err,
    ensures
        leading_rows(ok_results(rows) + tail) == rows,
        first_error(ok_results(rows) + tail) == (if tail.len() == 0 {
            None
        } else {
            match tail[0] {
                Err(m) => Some(m),
                Ok(_) => None,
            }
        }),
{
    lemma_error_from_ok_prefix(rows, tail, 0);
    let rs = ok_results(rows) + tail;
    assert forall|j: int| 0 <= j < rows.len() implies #[trigger] leading_rows(rs)[j] == rows[j] by {
        assert(rs[j] == Ok::<Seq<Seq<char>>, Seq<char>>(rows[j]));
    }
    assert(leading_rows(rs) =~= rows);
    if tail.len() > 0 {
        assert(rs[rows.len() as int] == tail[0]);
    }
}

/// The records in reverse order.
fn reversed_results(v: Vec<Result<Vec<String>, String>>) -> (r: Vec<Result<Vec<String>, String>>)
    ensures
        r@.len() == v@.len(),
        forall|j: int| 0 <= j < r@.len() ==> #[trigger] r@[j] == v@[v@.len() - 1 - j],
{
    let mut v = v;
    let ghost all = v@;
    let n = v.len();
    let mut out: Vec<Result<Vec<String>, String>> = Vec::new();
    while v.len() > 0
        invariant
            v@.len() + out@.len() == n,
            n == all.len(),
            v@ == all.subrange(0, v@.len() as int),
            forall|j: int| 0 <= j < out@.len() ==> #[trigger] out@[j] == all[n - 1 - j],
        decreases v.len(),
    {
        let x = v.pop().unwrap();
        out.push(x);
    }
    out
}

/// Splits records at their first error: the rows before it, the error, and
/// the records after it (none when there is no error).
pub fn split_at_error(results: Vec<Result<Vec<String>, String>>) -> (r: (
    Vec<Vec<String>>,
    Option<String>,
    Vec<Result<Vec<String>, String>>,
))
    ensures
        results_view(results@) == ok_results(records_view(r.0@)) + match r.1 {
            Some(e) => seq![Err::<Seq<Seq<char>>, Seq<char>>(e@)] + results_view(r.2@),
            None => Seq::empty(),
        },
        r.1 is None ==> r.2@.len() == 0,
{
    let ghost all = results@;
    let n = results.len();
    let mut pending = reversed_results(results);
    let mut rows: Vec<Vec<String>> = Vec::new();
    let mut taken: usize = 0;
    assert(ok_results(records_view(rows@)) =~= results_view(all.take(0)));
    while pending.len() > 0
        invariant
            n == all.len(),
            all == results@,
            taken + pending@.len() == n,
            forall|j: int| 0 <= j < pending@.len() ==> #[trigger] pending@[j] == all[n - 1 - j],
            ok_results(records_view(rows@)) == results_view(all.take(taken as int)),
        decreases pending.len(),
    {
        let ghost before = pending@;
        let x = pending.pop().unwrap();
        assert(x == all[taken as int]);
        match x {
            Ok(row) => {
                let ghost prev = ok_results(records_view(rows@));
                rows.push(row);
                assert(ok_results(records_view(rows@)) =~= prev.push(result_view(all[taken as int])));
                assert(results_view(all.take(taken + 1)) =~= results_view(all.take(taken as int)).push(
                    result_view(all[taken as int]),
                ));
                taken = taken + 1;
            },
            Err(e) => {
                let rest = reversed_results(pending);
                assert(result_view(all[taken as int]) == Err::<Seq<Seq<char>>, Seq<char>>(e@));
                assert(results_view(rest@) =~= results_view(all.skip(taken + 1)));
                assert(results_view(all) =~= results_view(all.take(taken as int)) + seq![
                    result_view(all[taken as int]),
                ] + results_view(all.skip(taken + 1)));
                assert(results_view(all) =~= ok_results(records_view(rows@)) + (seq![
                    Err::<Seq<Seq<char>>, Seq<char>>(e@),
                ] + results_view(rest@)));
                return (rows, Some(e), rest);
            },
        }
    }
    assert(all.take(n as int) =~= all);
    (rows, None, Vec::new())
}

/// The records a lenient read accepts, in order.
pub open spec fn accepted_rows(rs: Seq<Result<Seq<Seq<char>>, Seq<char>>>) -> Seq<Seq<Seq<char>>>
    decreases rs.len(),
{
    if rs.len() == 0 {
        Seq::empty()
    } else {
        let before = accepted_rows(rs.drop_last());
        match rs.last() {
            Ok(r) => before.push(r),
            Err(_) => before,
        }
    }
}

/// The errors a lenient read reports, in order.
pub open spec fn rejected_rows(rs: Seq<Result<Seq<Seq<char>>, Seq<char>>>) -> Seq<Seq<char>>
    decreases rs.len(),
{
    if rs.len() == 0 {
        Seq::empty()
    } else {
        let before = rejected_rows(rs.drop_last());
        match rs.last() {
            Ok(_) => before,
            Err(m) => before.push(m),
        }
    }
}

} // verus!
