//! A simpler reader for Total Phase CSV exports that turns every top-level row
//! with a device and an endpoint into a request block, without the binary file.
use crate::csv_export::{
    accepted_rows, csv_record_results, csv_row_results, rejected_rows, result_view, results_view,
    skip_lines, skip_lines_spec,
};
use crate::hexdata::{decode_or_empty, hex_or_empty};
use crate::text::{
    chars_of, contains_spec, contains_str, eq_str, parse_u32, parse_u32_spec, parse_u8,
    parse_u8_spec, remove_all_spec, remove_all_str, starts_with_spec, starts_with_str, string_of,
};
use crate::total_phase_parser::{column, record_view, speed_spec};
use crate::usb_request_block::{
    USBDirection, USBFunction, USBRequestBlock, USBSpeed, USBTransferType, UrbModel,
};
use vstd::prelude::*;

verus! {

/// The rows of a CSV export (after its preamble), not yet parsed.
pub struct TotalPhaseCsvReader {
    records: Vec<Vec<String>>,
}

/// The transfer direction named in the operation column.
pub open spec fn csv_direction_spec(r: Seq<Seq<char>>) -> USBDirection {
    match column(r, 9) {
        Some(x) => if contains_spec(x, "IN"@) {
            USBDirection::DirectionIn
        } else if contains_spec(x, "OUT"@) {
            USBDirection::DirectionOut
        } else {
            USBDirection::DirectionNone
        },
        None => USBDirection::DirectionNone,
    }
}

/// A row that `from_csv_record` reads: the columns up to the data column exist,
/// the level is a `u8` and the index a `u32`.
pub open spec fn csv_record_ok(r: Seq<Seq<char>>) -> bool {
    &&& r.len() >= 11
    &&& parse_u8_spec(r[0]) is Some
    &&& parse_u32_spec(r[2]) is Some
}

/// The request block of a row: nothing unless the device and endpoint columns
/// are numbers. Times are not read (0), the block is a bulk transfer without
/// control stage, and its URB function is unknown.
pub open spec fn csv_urb_spec(r: Seq<Seq<char>>) -> Option<UrbModel> {
    match (parse_u8_spec(r[7]), parse_u8_spec(r[8])) {
        (Some(device_number), Some(endpoint_number)) => Some(
            UrbModel {
                speed: speed_spec(r),
                direction: csv_direction_spec(r),
                device_number,
                endpoint_number,
                data: hex_or_empty(remove_all_spec(r[10], " "@)),
                index: parse_u32_spec(r[2]).unwrap(),
                duration_ns: 0,
                index_ns: 0,
                transfer_type: USBTransferType::Bulk,
                control_stage: None,
                usb_function: USBFunction::Unknown,
            },
        ),
        _ => None,
    }
}

/// Law: a row gives a request block exactly when its device and endpoint
/// columns are numbers; the block is addressed to that device and endpoint,
/// has the row's index, goes in when the operation names IN, out when it names
/// OUT and not IN, and carries the hexadecimal data of the data column (spaces
/// ignored); its times are 0.
pub proof fn lemma_csv_block_fields(r: Seq<Seq<char>>)
    requires
        csv_record_ok(r),
    ensures
        csv_urb_spec(r) is Some <==> parse_u8_spec(r[7]) is Some && parse_u8_spec(r[8]) is Some,
        csv_urb_spec(r) matches Some(u) ==> {
            &&& Some(u.device_number) == parse_u8_spec(r[7])
            &&& Some(u.endpoint_number) == parse_u8_spec(r[8])
            &&& Some(u.index) == parse_u32_spec(r[2])
            &&& (contains_spec(r[9], "IN"@) ==> u.direction == USBDirection::DirectionIn)
            &&& (!contains_spec(r[9], "IN"@) && contains_spec(r[9], "OUT"@) ==> u.direction
                == USBDirection::DirectionOut)
            &&& (!contains_spec(r[9], "IN"@) && !contains_spec(r[9], "OUT"@) ==> u.direction
                == USBDirection::DirectionNone)
            &&& u.data == hex_or_empty(remove_all_spec(r[10], " "@))
            &&& u.speed == speed_spec(r)
            &&& u.index_ns == 0
            &&& u.duration_ns == 0
        },
{
}

/// A top-level row: its first column is exactly `0` (and not a comment).
pub open spec fn csv_row_selected(r: Seq<Seq<char>>) -> bool {
    !starts_with_spec(r[0], "#"@) && r[0] == "0"@
}

/// Every row has a first column, and every top-level row is readable.
pub open spec fn csv_rows_ok(rs: Seq<Seq<Seq<char>>>) -> bool {
    forall|i: int|
        0 <= i < rs.len() ==> #[trigger] rs[i].len() >= 1 && (csv_row_selected(rs[i])
            ==> csv_record_ok(rs[i]))
}

/// The request blocks of the top-level rows among the first `n`, in order.
pub open spec fn csv_urbs_upto(rs: Seq<Seq<Seq<char>>>, n: nat) -> Seq<UrbModel>
    decreases n,
{
    if n == 0 {
        Seq::<UrbModel>::empty()
    } else {
        let r = rs[n - 1];
        let before = csv_urbs_upto(rs, (n - 1) as nat);
        if csv_row_selected(r) {
            match csv_urb_spec(r) {
                Some(u) => before.push(u),
                None => before,
            }
        } else {
            before
        }
    }
}

fn column_chars(record: &Vec<String>, i: usize) -> (c: Vec<char>)
    requires
        i < record.len(),
    ensures
        c@ == record_view(record@)[i as int],
{
    chars_of(record[i].as_str())
}

fn speed_of_row(record: &Vec<String>) -> (s: USBSpeed)
    ensures
        s == speed_spec(record_view(record@)),
{
    if record.len() <= 1 {
        return USBSpeed::SpeedUnknown;
    }
    let c = column_chars(record, 1);
    if eq_str(&c, "LS") {
        USBSpeed::SpeedLow
    } else if eq_str(&c, "FS") {
        USBSpeed::SpeedLow
    } else if eq_str(&c, "HS") {
        USBSpeed::SpeedHigh
    } else if eq_str(&c, "SS") {
        USBSpeed::SpeedSuper
    } else {
        USBSpeed::SpeedUnknown
    }
}

impl TotalPhaseCsvReader {
    /// A reader over the rows of an export.
    pub fn new(records: Vec<Vec<String>>) -> (r: Self)
        ensures
            r.rows() == records_view_all(records@),
    {
        TotalPhaseCsvReader { records }
    }

    /// A reader over the text of an export: the six lines of preamble are
    /// skipped and the rest is read as CSV records (the first is the header);
    /// records the CSV reader rejects are left out, and their errors are given
    /// back in order. Nothing when a preamble line is not UTF-8.
    pub fn from_export(csv_text: &[u8]) -> (r: Option<(Self, Vec<String>)>)
        ensures
            match r {
                Some((reader, errors)) => skip_lines_spec(csv_text@, 6) matches Some(rest) && {
                    &&& reader.rows() == accepted_rows(csv_row_results(rest, false))
                    &&& errors@.map_values(|e: String| e@) == rejected_rows(csv_row_results(rest, false))
                },
                None => skip_lines_spec(csv_text@, 6) is None,
            },
    {
        let rest = match skip_lines(csv_text, 6) {
            Some(rest) => rest,
            None => return None,
        };
        let ghost all = csv_row_results(rest@, false);
        let results = csv_record_results(rest.as_slice(), false);
        let mut records: Vec<Vec<String>> = Vec::new();
        let mut errors: Vec<String> = Vec::new();
        let mut results = results;
        let n = results.len();
        let ghost full = results@;
        let mut pending: Vec<Result<Vec<String>, String>> = Vec::new();
        while results.len() > 0
            invariant
                n == full.len(),
                pending@.len() + results@.len() == n,
                results@ == full.take(results@.len() as int),
                forall|j: int| 0 <= j < pending@.len() ==> #[trigger] pending@[j] == full[n - 1 - j],
            decreases results.len(),
        {
            let r = results.pop().unwrap();
            assert(results@ =~= full.take(results@.len() as int));
            pending.push(r);
        }
        let mut taken: usize = 0;
        assert(all.take(0) =~= Seq::<Result<Seq<Seq<char>>, Seq<char>>>::empty());
        assert(records_view_all(records@) =~= Seq::<Seq<Seq<char>>>::empty());
        assert(errors@.map_values(|e: String| e@) =~= Seq::<Seq<char>>::empty());
        while pending.len() > 0
            invariant
                n == all.len(),
                full.len() == n,
                results_view(full) == all,
                taken + pending@.len() == n,
                forall|j: int| 0 <= j < pending@.len() ==> #[trigger] pending@[j] == full[n - 1 - j],
                records_view_all(records@) == accepted_rows(all.take(taken as int)),
                errors@.map_values(|e: String| e@) == rejected_rows(all.take(taken as int)),
            decreases pending.len(),
        {
            let ghost before = pending@;
            let r = pending.pop().unwrap();
            assert(r == full[taken as int]);
            assert(result_view(r) == all[taken as int]);
            assert(all.take(taken + 1).drop_last() =~= all.take(taken as int));
            assert(all.take(taken + 1).last() == all[taken as int]);
            let ghost rv = records_view_all(records@);
            let ghost ev = errors@.map_values(|e: String| e@);
            match r {
                Ok(v) => {
                    records.push(v);
                    assert(records_view_all(records@) =~= rv.push(record_view(records@.last()@)));
                },
                Err(m) => {
                    errors.push(m);
                    assert(errors@.map_values(|e: String| e@) =~= ev.push(errors@.last()@));
                },
            }
            taken = taken + 1;
        }
        assert(all.take(n as int) =~= all);
        Some((TotalPhaseCsvReader { records }, errors))
    }

    /// The rows not yet parsed.
    pub closed spec fn rows(&self) -> Seq<Seq<Seq<char>>> {
        records_view_all(self.records@)
    }

    /// The request block of one row (see `csv_urb_spec`).
    pub fn from_csv_record(record: &Vec<String>) -> (u: Option<USBRequestBlock>)
        requires
            csv_record_ok(record_view(record@)),
        ensures
            match u {
                Some(b) => csv_urb_spec(record_view(record@)) == Some(b@),
                None => csv_urb_spec(record_view(record@)) is None,
            },
    {
        let _level: u8 = parse_u8(&column_chars(record, 0)).unwrap();
        let index: u32 = parse_u32(&column_chars(record, 2)).unwrap();
        let device: Option<u8> = parse_u8(&column_chars(record, 7));
        let endpoint: Option<u8> = parse_u8(&column_chars(record, 8));
        let duration_ns: u64 = 0;
        let index_ns: u64 = 0;
        if device.is_none() || endpoint.is_none() {
            return None;
        }
        let endpoint_number = endpoint.unwrap();
        let device_number = device.unwrap();
        let speed = speed_of_row(record);
        let op = column_chars(record, 9);
        let direction = if contains_str(&op, "IN") {
            USBDirection::DirectionIn
        } else if contains_str(&op, "OUT") {
            USBDirection::DirectionOut
        } else {
            USBDirection::DirectionNone
        };
        proof {
            reveal_strlit(" ");
        }
        let cleaned = remove_all_str(&column_chars(record, 10), " ");
        let data = decode_or_empty(string_of(cleaned.as_slice()).as_str());
        Some(
            USBRequestBlock {
                speed,
                direction,
                device_number,
                endpoint_number,
                data,
                index,
                duration_ns,
                index_ns,
                transfer_type: USBTransferType::Bulk,
                control_stage: None,
                usb_function: USBFunction::Unknown,
            },
        )
    }

    /// Whether every row can be parsed (see `csv_rows_ok`), which is what
    /// `parse` needs.
    pub fn is_parsable(&self) -> (b: bool)
        ensures
            b == csv_rows_ok(self.rows()),
    {
        let ghost rs = self.rows();
        let mut i: usize = 0;
        while i < self.records.len()
            invariant
                rs == records_view_all(self.records@),
                i <= self.records.len(),
                forall|j: int|
                    0 <= j < i ==> #[trigger] rs[j].len() >= 1 && (csv_row_selected(rs[j])
                        ==> csv_record_ok(rs[j])),
            decreases self.records.len() - i,
        {
            let record = &self.records[i];
            assert(rs[i as int] == record_view(record@));
            if record.len() < 1 {
                assert(rs[i as int].len() < 1);
                return false;
            }
            let field = column_chars(record, 0);
            let selected = !starts_with_str(&field, "#") && eq_str(&field, "0");
            if selected {
                let ok = record.len() >= 11 && parse_u8(&column_chars(record, 0)).is_some()
                    && parse_u32(&column_chars(record, 2)).is_some();
                if !ok {
                    return false;
                }
            }
            i = i + 1;
        }
        true
    }

    /// The request blocks of the top-level rows, in order; the rows are used up.
    pub fn parse(&mut self) -> (results: Vec<USBRequestBlock>)
        requires
            csv_rows_ok(old(self).rows()),
        ensures
            results@.map_values(|u: USBRequestBlock| u@) == csv_urbs_upto(
                old(self).rows(),
                old(self).rows().len(),
            ),
            final(self).rows() == Seq::<Seq<Seq<char>>>::empty(),
    {
        let ghost rs = self.rows();
        let mut records: Vec<Vec<String>> = Vec::new();
        std::mem::swap(&mut records, &mut self.records);
        let mut results: Vec<USBRequestBlock> = Vec::new();
        let mut i: usize = 0;
        while i < records.len()
            invariant
                rs == records_view_all(records@),
                csv_rows_ok(rs),
                i <= records.len(),
                results@.map_values(|u: USBRequestBlock| u@) == csv_urbs_upto(rs, i as nat),
            decreases records.len() - i,
        {
            let record = &records[i];
            assert(rs[i as int] == record_view(record@));
            assert(rs[i as int].len() >= 1);
            let field = column_chars(record, 0);
            let ghost before = results@.map_values(|u: USBRequestBlock| u@);
            if starts_with_str(&field, "#") || !eq_str(&field, "0") {
                i = i + 1;
                continue;
            }
            let parsed = Self::from_csv_record(record);
            if parsed.is_some() {
                results.push(parsed.unwrap());
                assert(results@.map_values(|u: USBRequestBlock| u@) =~= before.push(
                    csv_urb_spec(rs[i as int]).unwrap(),
                ));
            }
            i = i + 1;
        }
        assert(records_view_all(self.records@) =~= Seq::<Seq<Seq<char>>>::empty());
        results
    }
}

/// The rows of an export.
pub open spec fn records_view_all(rs: Seq<Vec<String>>) -> Seq<Seq<Seq<char>>> {
    rs.map_values(|r: Vec<String>| record_view(r@))
}

} // verus!
