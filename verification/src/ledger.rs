//! The manifest of uploaded files: one row for each file name, kept in the
//! order in which the files were first recorded.

use vstd::prelude::*;
use vstd::string::StringExecFns;

verus! {

/// One row of the manifest.
#[derive(Clone, Debug, PartialEq, Eq)]
pub struct LedgerRow {
    pub cdn_url: String,
    pub origin_url: String,
    pub file_name: String,
    pub size_kib: String,
}

/// The mathematical model of a row: its four fields as character sequences.
pub struct RowView {
    pub cdn_url: Seq<char>,
    pub origin_url: Seq<char>,
    pub file_name: Seq<char>,
    pub size_kib: Seq<char>,
}

impl View for LedgerRow {
    type V = RowView;

    open spec fn view(&self) -> RowView {
        RowView {
            cdn_url: self.cdn_url@,
            origin_url: self.origin_url@,
            file_name: self.file_name@,
            size_kib: self.size_kib@,
        }
    }
}

/// The row that a stored record of `fields` stands for: a record of four
/// fields is a full row; records of two fields and of one field, written by
/// earlier layouts, fill the first columns and leave the others empty; a
/// record of any other length is not a row.
pub open spec fn row_of_record(fields: Seq<Seq<char>>) -> Option<RowView> {
    if fields.len() == 4 {
        Some(
            RowView {
                cdn_url: fields[0],
                origin_url: fields[1],
                file_name: fields[2],
                size_kib: fields[3],
            },
        )
    } else if fields.len() == 2 {
        Some(
            RowView {
                cdn_url: fields[0],
                origin_url: fields[1],
                file_name: Seq::empty(),
                size_kib: Seq::empty(),
            },
        )
    } else if fields.len() == 1 {
        Some(
            RowView {
                cdn_url: fields[0],
                origin_url: Seq::empty(),
                file_name: Seq::empty(),
                size_kib: Seq::empty(),
            },
        )
    } else {
        None
    }
}

/// The fields of a record as character sequences.
pub open spec fn record_view(fields: Seq<String>) -> Seq<Seq<char>> {
    fields.map_values(|f: String| f@)
}

/// Whether some row carries the file name `name`.
pub open spec fn has_file(rows: Seq<RowView>, name: Seq<char>) -> bool {
    exists|i: int| 0 <= i < rows.len() && #[trigger] rows[i].file_name == name
}

/// The rows after `row` was offered: unchanged when its file name is already
/// recorded, and with `row` at the end when it is not.
pub open spec fn upserted(rows: Seq<RowView>, row: RowView) -> Seq<RowView> {
    if has_file(rows, row.file_name) {
        rows
    } else {
        rows.push(row)
    }
}

/// Offering the same row twice leaves the manifest as offering it once.
pub proof fn lemma_upsert_idempotent(rows: Seq<RowView>, row: RowView)
    ensures
        upserted(upserted(rows, row), row) == upserted(rows, row),
{
    if !has_file(rows, row.file_name) {
        let once = rows.push(row);
        assert(once[rows.len() as int].file_name == row.file_name);
        assert(has_file(once, row.file_name));
    }
}

/// Offering a row never removes or changes a recorded row, and afterwards the
/// file name of the offered row is recorded.
pub proof fn lemma_upsert_keeps_rows(rows: Seq<RowView>, row: RowView)
    ensures
        rows.is_prefix_of(upserted(rows, row)),
        has_file(upserted(rows, row), row.file_name),
{
    if !has_file(rows, row.file_name) {
        let once = rows.push(row);
        assert(once[rows.len() as int].file_name == row.file_name);
    }
}

/// When no two rows share a file name, that still holds after a row was
/// offered.
pub proof fn lemma_upsert_keeps_names_distinct(rows: Seq<RowView>, row: RowView)
    requires
        names_distinct(rows),
    ensures
        names_distinct(upserted(rows, row)),
{
    if !has_file(rows, row.file_name) {
        let once = rows.push(row);
        assert forall|i: int, j: int| 0 <= i < j < once.len() implies once[i].file_name
            != once[j].file_name by {
            if j == rows.len() {
                assert(rows[i].file_name == once[i].file_name);
            }
        }
    }
}

/// No two rows share a file name.
pub open spec fn names_distinct(rows: Seq<RowView>) -> bool {
    forall|i: int, j: int| 0 <= i < j < rows.len() ==> rows[i].file_name != rows[j].file_name
}

impl LedgerRow {
    /// The row that names the columns, written first in a stored manifest.
    pub fn header() -> (row: LedgerRow)
        ensures
            row@ == (RowView {
                cdn_url: "cdn_url"@,
                origin_url: "origin_url"@,
                file_name: "file_name"@,
                size_kib: "file_size_kib"@,
            }),
    {
        LedgerRow {
            cdn_url: String::from_str("cdn_url"),
            origin_url: String::from_str("origin_url"),
            file_name: String::from_str("file_name"),
            size_kib: String::from_str("file_size_kib"),
        }
    }

    /// Reads a stored record as a row.
    pub fn from_record(fields: &Vec<String>) -> (row: Option<LedgerRow>)
        ensures
            match row {
                Some(r) => row_of_record(record_view(fields@)) == Some(r@),
                None => row_of_record(record_view(fields@)) is None,
            },
    {
        let n = fields.len();
        if n == 4 {
            Some(
                LedgerRow {
                    cdn_url: fields[0].clone(),
                    origin_url: fields[1].clone(),
                    file_name: fields[2].clone(),
                    size_kib: fields[3].clone(),
                },
            )
        } else if n == 2 {
            Some(
                LedgerRow {
                    cdn_url: fields[0].clone(),
                    origin_url: fields[1].clone(),
                    file_name: String::new(),
                    size_kib: String::new(),
                },
            )
        } else if n == 1 {
            Some(
                LedgerRow {
                    cdn_url: fields[0].clone(),
                    origin_url: String::new(),
                    file_name: String::new(),
                    size_kib: String::new(),
                },
            )
        } else {
            None
        }
    }
}

/// The manifest: its rows in the order in which they were recorded.
#[derive(Clone, Debug, PartialEq, Eq)]
pub struct Ledger {
    pub rows: Vec<LedgerRow>,
}

impl View for Ledger {
    type V = Seq<RowView>;

    open spec fn view(&self) -> Seq<RowView> {
        self.rows@.map_values(|r: LedgerRow| r@)
    }
}

impl Ledger {
    /// A manifest without rows.
    pub fn new() -> (ledger: Ledger)
        ensures
            ledger@ == Seq::<RowView>::empty(),
    {
        let ledger = Ledger { rows: Vec::new() };
        proof {
            assert(ledger@ =~= Seq::<RowView>::empty());
        }
        ledger
    }

    /// Number of rows.
    pub fn len(&self) -> (n: usize)
        ensures
            n == self@.len(),
    {
        self.rows.len()
    }

    /// Whether some row carries the file name `name`.
    pub fn contains(&self, name: &str) -> (found: bool)
        ensures
            found == has_file(self@, name@),
    {
        let wanted = String::from_str(name);
        let mut i: usize = 0;
        while i < self.rows.len()
            invariant
                i <= self.rows@.len(),
                wanted@ == name@,
                forall|k: int| 0 <= k < i ==> (#[trigger] self@[k]).file_name != name@,
            decreases self.rows@.len() - i,
        {
            if self.rows[i].file_name == wanted {
                proof {
                    assert(self@[i as int].file_name == name@);
                }
                return true;
            }
            i = i + 1;
        }
        false
    }

    /// Offers a row to the manifest. A row whose file name is already
    /// recorded is skipped, and the recorded row stays as it is; any other
    /// row is added at the end. Returns whether the row was added.
    pub fn upsert(&mut self, row: LedgerRow) -> (added: bool)
        ensures
            final(self)@ == upserted(old(self)@, row@),
            added == !has_file(old(self)@, row.file_name@),
    {
        if self.contains(row.file_name.as_str()) {
            false
        } else {
            let ghost before = self@;
            self.rows.push(row);
            proof {
                assert(self@ =~= before.push(row@));
            }
            true
        }
    }
}

} // verus!
