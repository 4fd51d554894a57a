use vstd::prelude::*;

use crate::descriptor::TableDescriptor;
use crate::error::SsqlError;
use crate::row::{decode_joined, decodes_to, Record, Row};

verus! {

/// What a result cursor hands out: a data row or a metadata marker.
#[derive(Debug)]
pub enum CursorItem {
    Row(Row),
    Metadata,
}

/// What one pull of a [`RowStream`] gives.
#[derive(Debug)]
pub enum StreamStep {
    /// A data row, read as one record per table.
    Item(Result<Vec<Record>, SsqlError>),
    /// A metadata marker: nothing to hand out, pull again.
    Skip,
    /// The cursor is exhausted.
    End,
}

/// The decisions of a lazy stream of decoded rows over one cursor.
///
/// The caller fetches the next cursor item (`None` once the cursor is exhausted) and hands it
/// to [`RowStream::on_item`], which says what to yield. Once ended, the stream stays ended.
pub struct RowStream {
    pub tables: Vec<TableDescriptor>,
    pub done: bool,
}

/// The data rows among the cursor items, in order.
pub open spec fn rows_of(items: Seq<CursorItem>) -> Seq<Row>
    decreases items.len(),
{
    if items.len() == 0 {
        Seq::empty()
    } else {
        match items.last() {
            CursorItem::Row(row) => rows_of(items.drop_last()).push(row),
            CursorItem::Metadata => rows_of(items.drop_last()),
        }
    }
}

impl RowStream {
    /// A stream that reads each row as one record per table of `tables`.
    pub fn new(tables: Vec<TableDescriptor>) -> (r: RowStream)
        ensures
            r.tables == tables,
            !r.done,
    {
        RowStream { tables, done: false }
    }

    /// Handles the next cursor item, or the end of the cursor when `item` is `None`.
    pub fn on_item(&mut self, item: Option<CursorItem>) -> (r: StreamStep)
        ensures
            final(self).tables == old(self).tables,
            old(self).done ==> r is End && final(self).done,
            !old(self).done && item is None ==> r is End && final(self).done,
            item matches Some(CursorItem::Metadata) ==> (!old(self).done ==> r is Skip
                && !final(self).done),
            item matches Some(CursorItem::Row(row)) ==> (!old(self).done ==> !final(self).done && (
            r matches StreamStep::Item(res) && decodes_to(old(self).tables@, row, res))),
    {
        if self.done {
            return StreamStep::End;
        }
        match item {
            None => {
                self.done = true;
                StreamStep::End
            },
            Some(CursorItem::Metadata) => StreamStep::Skip,
            Some(CursorItem::Row(row)) => StreamStep::Item(decode_joined(&self.tables, &row)),
        }
    }
}

/// Reads every data row of a cursor, skipping metadata, in cursor order.
pub fn decode_all(tables: Vec<TableDescriptor>, items: Vec<CursorItem>) -> (r: Vec<
    Result<Vec<Record>, SsqlError>,
>)
    ensures
        r@.len() == rows_of(items@).len(),
        forall|i: int|
            0 <= i < r@.len() ==> decodes_to(tables@, rows_of(items@)[i], #[trigger] r@[i]),
{
    let ghost all = items@;
    let ghost ts = tables@;
    let mut stream = RowStream::new(tables);
    let mut items = items;
    let mut out: Vec<Result<Vec<Record>, SsqlError>> = Vec::new();
    let n = items.len();
    let mut i: usize = 0;
    assert(all.subrange(0, n as int) =~= all);
    while i < n
        invariant
            n == all.len(),
            i <= n,
            stream.tables@ == ts,
            !stream.done,
            items@ == all.subrange(i as int, n as int),
            out@.len() == rows_of(all.take(i as int)).len(),
            forall|k: int|
                0 <= k < out@.len() ==> decodes_to(ts, rows_of(all.take(i as int))[k], #[trigger] out@[k]),
        decreases n - i,
    {
        let item = items.remove(0);
        assert(item == all[i as int]);
        assert(all.take(i + 1).drop_last() =~= all.take(i as int));
        assert(all.take(i + 1).last() == item);
        assert(items@ =~= all.subrange(i + 1, n as int));
        match stream.on_item(Some(item)) {
            StreamStep::Item(res) => {
                out.push(res);
            },
            _ => {},
        }
        i = i + 1;
    }
    assert(all.take(n as int) =~= all);
    out
}

/// The data rows among the cursor items, metadata markers left out, in cursor order.
pub fn data_rows(items: Vec<CursorItem>) -> (r: Vec<Row>)
    ensures
        r@ == rows_of(items@),
{
    let ghost all = items@;
    let mut items = items;
    let mut out: Vec<Row> = Vec::new();
    let n = items.len();
    let mut i: usize = 0;
    assert(all.subrange(0, n as int) =~= all);
    while i < n
        invariant
            n == all.len(),
            i <= n,
            items@ == all.subrange(i as int, n as int),
            out@ == rows_of(all.take(i as int)),
        decreases n - i,
    {
        let item = items.remove(0);
        assert(item == all[i as int]);
        assert(all.take(i + 1).drop_last() =~= all.take(i as int));
        assert(all.take(i + 1).last() == item);
        assert(items@ =~= all.subrange(i + 1, n as int));
        match item {
            CursorItem::Row(row) => {
                out.push(row);
            },
            CursorItem::Metadata => {},
        }
        i = i + 1;
    }
    assert(all.take(n as int) =~= all);
    out
}

} // verus!
