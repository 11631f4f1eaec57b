//! The transfer pipeline: prefetch sizing, the shared arena layout, the
//! width-overflow scan, the batched row iterator, and the out-of-band
//! large-object copy.

use migration::oracle::common::OCILobPiece;
use migration::oracle::common::OCITempLobType;
use migration::oracle::lob::LobDescriptor;
use migration::oracle::lob::lob_copy;
use migration::oracle::lob::lob_write_tolerated;
use migration::oracle::lob::piece_for;
use migration::oracle::meta::string_meta;
use migration::oracle::meta::u32_meta;
use migration::oracle::query::Query;
use migration::oracle::typed_query::QueryBuilder;
use migration::table::PrimaryKey;
use migration::table::build_table_info;
use migration::table::map_column;
use migration::table_loader::LoadBuffer;
use migration::table_loader::LobProcessor;
use migration::table_loader::TableReader;
use migration::table_loader::TableWriter;
use migration::table_loader::bind_layout;
use migration::table_loader::check_lengths;

fn plain_table() -> migration::table::TableInfo {
    let id = map_column("ID".to_string(), "NUMBER".to_string(), 22, "N", Some(0), Some(5));
    let name = map_column("NAME".to_string(), "VARCHAR2".to_string(), 20, "Y", None, None);
    let pk = PrimaryKey { name: "PK_T".to_string(), columns: vec!["ID".to_string()] };
    build_table_info("T".to_string(), "N", "NO", "N", vec![id, name], Some(pk), vec![])
}

fn lob_table() -> migration::table::TableInfo {
    let id = map_column("ID".to_string(), "NUMBER".to_string(), 22, "N", Some(0), Some(5));
    let doc = map_column("DOC".to_string(), "BLOB".to_string(), 0, "Y", None, None);
    build_table_info("L".to_string(), "N", "NO", "N", vec![id, doc], None, vec![])
}

#[test]
fn prefetch_within_both_budgets() {
    // Buffer budget 16000 bytes, indicator budget 1000 entries; the
    // two-column table's row width is 22 + 20 = 42.
    let buffer = LoadBuffer::new(16000);
    assert_eq!(buffer.values_size, 16000);
    assert_eq!(buffer.indicators_size, 1000);
    let t = plain_table();
    let n = buffer.get_prefetch_rows(&t);
    assert_eq!(n, 379);
    let w: u32 = 42;
    let c: u32 = 2;
    assert!(n >= 1);
    assert!(n * w <= buffer.values_size);
    assert!(n * c <= buffer.indicators_size);
}

#[test]
fn prefetch_indicator_budget_binds() {
    // A tight indicator budget, not the byte budget, limits the batch.
    let buffer = LoadBuffer::new(160000);
    assert_eq!(buffer.indicators_size, 10000);
    let t = plain_table();
    let n = buffer.get_prefetch_rows(&t);
    assert_eq!(n, 3808);
    assert!(n * 42 <= 160000);
}

#[test]
fn lob_tables_go_row_by_row() {
    let buffer = LoadBuffer::new(16000);
    assert_eq!(buffer.get_prefetch_rows(&lob_table()), 1);
}

#[test]
fn layout_over_shared_arena() {
    let t = plain_table();
    let layout = bind_layout(&t, 100);
    assert_eq!(layout.len(), 2);
    assert_eq!(layout[0].position, 1);
    assert_eq!(layout[0].value_offset, 0);
    assert_eq!(layout[0].indicator_offset, 0);
    assert_eq!(layout[0].length_offset, 0);
    assert!(!layout[0].is_lob);
    assert!(!layout[0].needs_charset);
    assert_eq!(layout[1].position, 2);
    assert_eq!(layout[1].value_offset, 2200);
    assert_eq!(layout[1].indicator_offset, 100);
    assert_eq!(layout[1].length_offset, 100);
    assert!(layout[1].needs_charset);
}

#[test]
fn lob_columns_skip_value_regions() {
    let t = lob_table();
    let layout = bind_layout(&t, 1);
    assert!(layout[1].is_lob);
    assert_eq!(layout[1].indicator_offset, 1);
}

#[test]
fn width_overflow_is_surfaced() {
    let t = plain_table();
    // One batch of 2 rows over 2 columns; the second row's NAME cell came
    // back 25 bytes for a 20-byte column.
    let indicators: Vec<i16> = vec![0, 0, 0, 0];
    let ret_lengths: Vec<u16> = vec![4, 4, 10, 25];
    let overflows = check_lengths(&t, 2, 2, &indicators, &ret_lengths);
    assert_eq!(overflows.len(), 1);
    assert_eq!(overflows[0].column, 1);
    assert_eq!(overflows[0].row, 1);
    assert_eq!(overflows[0].actual, 25);
    assert_eq!(overflows[0].declared, 20);
}

#[test]
fn null_cells_never_overflow() {
    let t = plain_table();
    let indicators: Vec<i16> = vec![0, 0, -1, -1];
    let ret_lengths: Vec<u16> = vec![4, 4, 9999, 9999];
    let overflows = check_lengths(&t, 2, 2, &indicators, &ret_lengths);
    assert_eq!(overflows.len(), 0);
}

#[test]
fn chunk_boundary_copy_is_exact() {
    // Source length an exact chunk multiple: 16000 over chunks of 8000.
    let mut src = LobDescriptor::with_length(16000);
    let mut dst = LobDescriptor::new(true, OCITempLobType::Blob, false);
    let total = lob_copy(&mut src, &mut dst, 8000);
    assert_eq!(total, 16000);
    assert_eq!(dst.len(), 16000);
    assert_eq!(dst.pieces, vec![OCILobPiece::FirstPiece, OCILobPiece::LastPiece]);
}

#[test]
fn single_chunk_copy_is_one_piece() {
    let mut src = LobDescriptor::with_length(5000);
    let mut dst = LobDescriptor::new(true, OCITempLobType::Clob, false);
    let total = lob_copy(&mut src, &mut dst, 8000);
    assert_eq!(total, 5000);
    assert_eq!(dst.pieces, vec![OCILobPiece::OnePiece]);
}

#[test]
fn long_copy_marks_middle_pieces() {
    let mut src = LobDescriptor::with_length(20001);
    let mut dst = LobDescriptor::new(true, OCITempLobType::Blob, false);
    let total = lob_copy(&mut src, &mut dst, 8000);
    assert_eq!(total, 20001);
    assert_eq!(
        dst.pieces,
        vec![OCILobPiece::FirstPiece, OCILobPiece::NextPiece, OCILobPiece::LastPiece]
    );
}

#[test]
fn empty_lob_copies_nothing() {
    let mut src = LobDescriptor::with_length(0);
    let mut dst = LobDescriptor::new(true, OCITempLobType::Blob, false);
    let total = lob_copy(&mut src, &mut dst, 8000);
    assert_eq!(total, 0);
    assert_eq!(dst.len(), 0);
    assert!(dst.pieces.is_empty());
}

#[test]
fn null_source_trims_destination() {
    let src = LobDescriptor::new(false, OCITempLobType::Default, true);
    let dst = LobDescriptor::new(true, OCITempLobType::Blob, false);
    let mut processor = LobProcessor::new(vec![(src, dst)]);
    processor.copy(8000);
    assert_eq!(processor.lob_locators[0].1.len(), 0);
}

#[test]
fn processor_copies_every_pair() {
    let pairs = vec![
        (
            LobDescriptor::with_length(100),
            LobDescriptor::new(true, OCITempLobType::Blob, false),
        ),
        (
            LobDescriptor::with_length(9000),
            LobDescriptor::new(true, OCITempLobType::Clob, false),
        ),
    ];
    let mut processor = LobProcessor::new(pairs);
    processor.copy(8000);
    assert_eq!(processor.lob_locators[0].1.len(), 100);
    assert_eq!(processor.lob_locators[1].1.len(), 9000);
}

#[test]
fn reader_decodes_fetch_outcomes() {
    let mut reader = TableReader::new("select 1".to_string());
    assert!(!reader.executed);
    reader.execute();
    assert!(reader.executed);
    assert!(matches!(reader.fetch(None, 50), Ok((50, false))));
    let no_more = migration::oracle::errors::OracleError {
        code: 100,
        message: "No data".to_string(),
        location: "fetch".to_string(),
    };
    assert!(matches!(reader.fetch(Some(no_more), 7), Ok((7, true))));
    let bad = migration::oracle::errors::OracleError {
        code: 600,
        message: "internal".to_string(),
        location: "fetch".to_string(),
    };
    assert!(reader.fetch(Some(bad), 0).is_err());
}

#[test]
fn writer_accumulates_rows() {
    let mut writer = TableWriter::new("insert".to_string());
    writer.execute(380);
    writer.execute(120);
    assert_eq!(writer.rows_written, 500);
}

#[test]
fn iterator_refetches_transparently() {
    // Three rows over a batch of two and a final batch of one.
    let q = Query::new("select".to_string(), 2, vec![u32_meta()]);
    let mut it = q.iterator();
    assert!(it.needs_fetch());
    assert_eq!(it.next(Some((2, false))), Some(0));
    assert!(!it.needs_fetch());
    assert_eq!(it.next(None), Some(1));
    assert!(it.needs_fetch());
    assert_eq!(it.next(Some((1, true))), Some(0));
    assert_eq!(it.next(None), None);
    assert_eq!(it.next(None), None);
}

#[test]
fn no_rows_at_all() {
    let q = Query::new("select".to_string(), 4, vec![u32_meta()]);
    let mut it = q.iterator();
    assert_eq!(it.next(Some((0, true))), None);
    assert_eq!(it.next(None), None);
}

#[test]
fn fetch_area_extracts_cells() {
    // Two columns (a number and a short text), two prefetched rows; the
    // driver's layout is one block per column, a cell per row.
    let meta = vec![u32_meta(), string_meta(3)];
    let mut q = Query::new("select".to_string(), 2, meta);
    // Column 0 block: row 0 holds 7, row 1 holds 9.
    q.fetch_area.values[0..4].copy_from_slice(&7u32.to_le_bytes());
    q.fetch_area.values[4..8].copy_from_slice(&9u32.to_le_bytes());
    // Column 1 block starts at 4 * 2 = 8; each cell is 14 bytes.
    q.fetch_area.values[8..10].copy_from_slice(b"AB");
    q.fetch_area.values[22..25].copy_from_slice(b"XYZ");
    // Indicators: all present except column 1 of row 0.
    q.fetch_area.indicators[0] = 0;
    q.fetch_area.indicators[1] = 0;
    q.fetch_area.indicators[2] = -1;
    q.fetch_area.indicators[3] = 0;
    q.fetch_area.ret_lengths[0] = 4;
    q.fetch_area.ret_lengths[1] = 4;
    q.fetch_area.ret_lengths[2] = 0;
    q.fetch_area.ret_lengths[3] = 3;
    let row0 = q.fetch_area.result(0);
    assert_eq!(row0[0].to_u32(), 7);
    assert_eq!(row0[1].to_text(), "");
    let row1 = q.fetch_area.result(1);
    assert_eq!(row1[0].to_u32(), 9);
    assert_eq!(row1[1].to_text(), "XYZ");
}

#[test]
fn builder_carries_text_and_prefetch() {
    let b = QueryBuilder::new("select x from t".to_string());
    assert_eq!(b.prefetch_rows, 10);
    assert!(b.bindmap.is_none());
    let b = b.prefetch(250);
    assert_eq!(b.prefetch_rows, 250);
    assert_eq!(b.stmt_text, "select x from t");
}

#[test]
fn three_records_reach_destination_with_key() {
    // A source table with (ID NUMBER(5), NAME VARCHAR2(20)), primary key
    // on ID, three rows: the destination table matches, all three rows
    // survive the codec, and after the builder drains its queue the
    // primary key constraint is issued.
    let t = plain_table();
    assert_eq!(
        migration::table_executor::create_table_sql("S", &t, false),
        "create table S.T (\"ID\" NUMBER(5,0) not null,\"NAME\" VARCHAR2(20)\n) tablespace \"DATA\""
    );
    let rows: Vec<(u32, &str)> = vec![(1, "ANA"), (2, "BARBU"), (3, "CRISTI")];
    let mut carried: Vec<(u32, String)> = Vec::new();
    for (id, name) in &rows {
        let id_cell = migration::oracle::meta::ResultItem::new(
            migration::oracle::meta::encode_u32(*id),
            true,
            4,
        );
        let name_bytes = migration::oracle::meta::encode_text(name);
        let n = name_bytes.len();
        let name_cell = migration::oracle::meta::ResultItem::new(name_bytes, true, n);
        carried.push((id_cell.to_u32(), name_cell.to_text()));
    }
    assert_eq!(
        carried,
        vec![
            (1, "ANA".to_string()),
            (2, "BARBU".to_string()),
            (3, "CRISTI".to_string())
        ]
    );
    let mut svc = migration::indexes::IndexesService::new();
    assert!(migration::indexes::should_finalize(t.unsupported, false, false));
    svc.finalize("S".to_string(), t);
    svc.quit();
    assert!(svc.closed);
    let (schema, table) = &svc.queue[0];
    let pk = table.primary_key.as_ref().unwrap();
    assert_eq!(
        migration::indexes::create_pk_sql(schema, &table.name, pk),
        "alter table S.T add constraint PK_T primary key (ID) using index tablespace GRAND_INDEX"
    );
}

#[test]
fn undersized_budget_still_batches_one_row() {
    // A budget that covers less than two rows must still batch one row,
    // so the fetch loop always makes progress.
    let buffer = LoadBuffer::new(16);
    let wide = map_column("W".to_string(), "VARCHAR2".to_string(), 16, "Y", None, None);
    let t = build_table_info("W".to_string(), "N", "NO", "N", vec![wide], None, vec![]);
    assert_eq!(buffer.get_prefetch_rows(&t), 1);
}

#[test]
fn piece_decisions_match_the_protocol() {
    assert_eq!(piece_for(true, true), OCILobPiece::OnePiece);
    assert_eq!(piece_for(true, false), OCILobPiece::FirstPiece);
    assert_eq!(piece_for(false, false), OCILobPiece::NextPiece);
    assert_eq!(piece_for(false, true), OCILobPiece::LastPiece);
    assert!(lob_write_tolerated(99, OCILobPiece::FirstPiece));
    assert!(lob_write_tolerated(99, OCILobPiece::NextPiece));
    assert!(!lob_write_tolerated(99, OCILobPiece::LastPiece));
    assert!(!lob_write_tolerated(99, OCILobPiece::OnePiece));
    assert!(!lob_write_tolerated(0, OCILobPiece::FirstPiece));
}
