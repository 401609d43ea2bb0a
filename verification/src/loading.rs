//! Reading a tile map from its comma-separated source.

use vstd::prelude::*;

verus! {

/// The error type of the `csv` crate. Nothing is known of what it holds.
#[verifier::external_type_specification]
#[verifier::external_body]
pub struct ExCsvError(csv::Error);

/// A tile map as its source gives it: one row of atlas indices per line.
#[derive(Debug, Clone, PartialEq, Eq)]
pub struct MapAsset {
    pub map: Vec<Vec<u32>>,
}

/// Why a tile map could not be loaded or spawned.
#[derive(Debug)]
pub enum MapError {
    /// The source is not a grid of non-negative integers; the cause is inside.
    Malformed(csv::Error),
    /// The asset that should hold the map was not among the loaded assets.
    MissingAsset,
    /// A row has another number of columns than the first row.
    RaggedRow,
    /// The grid, at the configured tile size, does not fill the arena exactly.
    ArenaMismatch,
}

/// The number of rows of a grid.
pub open spec fn grid_height(rows: Seq<Seq<u32>>) -> int {
    rows.len() as int
}

/// The number of columns of a grid: the length of its first row.
pub open spec fn grid_width(rows: Seq<Seq<u32>>) -> int {
    if rows.len() == 0 {
        0
    } else {
        rows[0].len() as int
    }
}

/// Every row has as many columns as the first.
pub open spec fn rectangular(rows: Seq<Seq<u32>>) -> bool {
    forall|y: int| 0 <= y < rows.len() ==> (#[trigger] rows[y]).len() == grid_width(rows)
}

/// Tells whether every row has as many columns as the first.
pub fn is_rectangular(map: &Vec<Vec<u32>>) -> (r: bool)
    ensures
        r == rectangular(map.deep_view()),
{
    let ghost rows = map.deep_view();
    let height = map.len();
    let width = if height == 0 {
        0
    } else {
        map[0].len()
    };
    let mut row: usize = 0;
    while row < height
        invariant
            row <= height,
            height == map@.len(),
            rows == map.deep_view(),
            width == grid_width(rows),
            forall|j: int| 0 <= j < row ==> (#[trigger] rows[j]).len() == width,
        decreases height - row,
    {
        if map[row].len() != width {
            assert(rows[row as int].len() != grid_width(rows));
            return false;
        }
        row += 1;
    }
    true
}

impl MapAsset {
    /// The rows of atlas indices, first line first.
    pub open spec fn rows(&self) -> Seq<Seq<u32>> {
        self.map.deep_view()
    }

    /// Makes an asset of the records of a source, which must form a grid: a
    /// row of another length than the first is a failure of the load.
    pub fn new(map: Vec<Vec<u32>>) -> (r: Result<MapAsset, MapError>)
        ensures
            match r {
                Ok(asset) => rectangular(map.deep_view()) && asset.rows() == map.deep_view(),
                Err(e) => e is RaggedRow && !rectangular(map.deep_view()),
            },
    {
        if is_rectangular(&map) {
            Ok(MapAsset { map })
        } else {
            Err(MapError::RaggedRow)
        }
    }
}

/// What the `csv` crate reads from `bytes` as records of unsigned 32-bit numbers,
/// with no header line and with records of unequal length refused: the records
/// in their order, or `None` where the crate reports an error.
pub uninterp spec fn csv_rows(bytes: Seq<u8>) -> Option<Seq<Seq<u32>>>;

/// Calls `csv::ReaderBuilder::new`, `has_headers(false)` and `from_reader` on the
/// bytes and collects what `Reader::deserialize` yields, up to the first error.
/// The contract only names the outcome: it is the same for the same bytes.
#[verifier::external_body]
fn read_csv_rows(bytes: &[u8]) -> (r: Result<Vec<Vec<u32>>, csv::Error>)
    ensures
        match r {
            Ok(rows) => csv_rows(bytes@) == Some(rows.deep_view()),
            Err(_) => csv_rows(bytes@) is None,
        },
{
    let mut reader = csv::ReaderBuilder::new().has_headers(false).from_reader(bytes);
    reader.deserialize().collect()
}

/// What loading a map from a source makes of the records that were read from
/// it, or of the failure to read them.
pub open spec fn loaded(records: Option<Seq<Seq<u32>>>, r: Result<MapAsset, MapError>) -> bool {
    match records {
        None => r is Err && r->Err_0 is Malformed,
        Some(rows) => if rectangular(rows) {
            r is Ok && r->Ok_0.rows() == rows
        } else {
            r is Err && r->Err_0 is RaggedRow
        },
    }
}

/// Loads tile maps from comma-separated files.
#[derive(Debug, Clone, Copy, PartialEq, Eq, Structural)]
pub struct MapAssetLoader;

impl MapAssetLoader {
    /// Loads a map asset from the bytes of a comma-separated file that has no
    /// header line.
    ///
    /// The asset holds the records as the `csv` crate reads them. An error of
    /// that crate (a cell that is no unsigned number, for one) fails the load
    /// with `MapError::Malformed`, and records that form no grid fail it with
    /// `MapError::RaggedRow`.
    pub fn load(&self, bytes: &[u8]) -> (r: Result<MapAsset, MapError>)
        ensures
            loaded(csv_rows(bytes@), r),
    {
        match read_csv_rows(bytes) {
            Ok(map) => MapAsset::new(map),
            Err(e) => Err(MapError::Malformed(e)),
        }
    }

    /// The file name extension of the sources that this loader reads.
    pub fn extensions(&self) -> (r: &[&str])
        ensures
            r@.len() == 1,
            r@[0]@ == "csv"@,
    {
        &["csv"]
    }
}

impl Default for MapAssetLoader {
    fn default() -> (r: MapAssetLoader) {
        MapAssetLoader
    }
}

} // verus!
