//! The column-layout engine. Given an ordered sequence of items, each
//! exposing a display width and a renderable text, the engine searches
//! for the arrangement with the most columns whose total line length
//! stays inside a width budget, then renders the items into that grid.
//!
//! The search is modelled by [`scan`], a fold over the item widths that
//! mirrors the incremental pass of [`Tabulator::get_column_config`]:
//! one candidate configuration per column count, each grown column by
//! column as items are assigned to it and abandoned for good the moment
//! its line length reaches the budget.

use vstd::prelude::*;

verus! {

/// Minimum width of a column: one character of content plus the fixed
/// two-character inter-column separator budget.
pub const MIN_COLUMN_WIDTH: usize = 3;

/// Width of the separator assumed between columns (absent after the
/// last column).
pub const COLUMN_SEPARATOR_WIDTH: usize = 2;

/// The capability the engine asks of the items it arranges: a display
/// width in character cells and a renderable text form. The width is
/// the number of cells the text occupies on screen, which may differ
/// from its length in characters or bytes.
pub trait CharacterLength {
    /// The display width, as a mathematical value.
    spec fn width_spec(&self) -> nat;

    /// The renderable text, as a mathematical value.
    spec fn text_spec(&self) -> Seq<char>;

    /// The number of character cells this item occupies when rendered.
    fn characters_long(&self) -> (n: usize)
        ensures
            n == self.width_spec(),
    ;

    /// The text to place into a grid cell for this item.
    fn rendered_text(&self) -> (s: String)
        ensures
            s@ == self.text_spec(),
    ;
}

/// Fill order of the grid.
#[derive(Clone, Copy, PartialEq, Eq, Structural)]
pub enum TabulateOrientation {
    /// Fill top-to-bottom down each column before advancing to the next.
    Columns,
    /// Fill left-to-right across each row before advancing to the next.
    Rows,
}

/// One candidate grid arrangement: a column count, the width each
/// column has grown to, the resulting total line length, and whether
/// the arrangement still fits the budget.
#[derive(Debug)]
pub struct ColumnConfiguration {
    /// Number of columns of this candidate.
    pub num_columns: usize,
    /// Width of each column; the length of this vector is `num_columns`.
    pub col_widths: Vec<usize>,
    /// Total length of a full line: the sum of all column widths.
    pub line_len: usize,
    /// False once the line length has reached the budget; never set
    /// back to true.
    pub valid: bool,
}

/// The error of asking for a layout of no items.
#[derive(Debug)]
pub enum ConfigError {
    /// The item sequence was empty; the caller should render nothing.
    EmptyData,
}

impl ConfigError {
    /// The human-readable description of the error.
    pub fn message(&self) -> (s: String)
        ensures
            s@ == "Data is empty"@,
    {
        "Data is empty".to_owned()
    }
}

/// Ceiling division for positive divisors.
pub open spec fn ceil_div(a: int, b: int) -> int {
    (a + b - 1) / b
}

/// Number of grid rows needed for `n` items in `c` columns.
pub open spec fn rows_for(n: int, c: int) -> int {
    ceil_div(n, c)
}

/// The column that the item with linear index `i` occupies, out of `n`
/// items arranged into `c` columns. Search and render agree on this
/// mapping; row-major places consecutive items side by side, column-major
/// fills a whole column of `rows_for(n, c)` cells before moving right.
pub open spec fn col_of_index(i: int, n: int, c: int, o: TabulateOrientation) -> int {
    match o {
        TabulateOrientation::Rows => i % c,
        TabulateOrientation::Columns => i / rows_for(n, c),
    }
}

/// The row that the item with linear index `i` occupies, out of `n`
/// items arranged into `c` columns.
pub open spec fn row_of_index(i: int, n: int, c: int, o: TabulateOrientation) -> int {
    match o {
        TabulateOrientation::Rows => i / c,
        TabulateOrientation::Columns => i % rows_for(n, c),
    }
}

/// The linear index of the cell at `row` and `col` of a grid with
/// `rows` rows and `c` columns: the inverse of `col_of_index`.
pub open spec fn index_of_cell(row: int, col: int, rows: int, c: int, o: TabulateOrientation) -> int {
    match o {
        TabulateOrientation::Rows => row * c + col,
        TabulateOrientation::Columns => row + col * rows,
    }
}

/// The extra cells an item claims beyond its width: the separator,
/// unless the item falls in the last column.
pub open spec fn real_len_of(w: int, col: int, c: int) -> int {
    w + if col == c - 1 {
        0int
    } else {
        COLUMN_SEPARATOR_WIDTH as int
    }
}

/// The mathematical state of one candidate configuration while the
/// search scans the items.
pub struct ScanState {
    /// Width each column has grown to so far.
    pub col_widths: Seq<int>,
    /// Sum of all column widths.
    pub line_len: int,
    /// Whether the candidate still fits the budget.
    pub valid: bool,
}

/// The state a candidate with `c` columns starts from: every column at
/// the minimum width, and the budget not yet checked.
pub open spec fn init_state(c: int, min_col_width: int) -> ScanState {
    ScanState {
        col_widths: Seq::new(c as nat, |j: int| min_col_width),
        line_len: c * min_col_width,
        valid: true,
    }
}

/// One step of the search: assign the item with width `w` and linear
/// index `i` to the candidate `s` with `c` columns. An abandoned
/// candidate is left untouched; otherwise the item's column grows to
/// the item's real length when too narrow, and the candidate is
/// abandoned for good if the new line length reaches the budget `mll`.
pub open spec fn scan_step(
    s: ScanState,
    w: int,
    i: int,
    n: int,
    c: int,
    mll: int,
    o: TabulateOrientation,
) -> ScanState {
    if !s.valid {
        s
    } else {
        let col = col_of_index(i, n, c, o);
        let needed = real_len_of(w, col, c);
        if s.col_widths[col] < needed {
            let ll = s.line_len + needed - s.col_widths[col];
            ScanState { col_widths: s.col_widths.update(col, needed), line_len: ll, valid: ll < mll }
        } else {
            s
        }
    }
}

/// The state of the candidate with `c` columns after the first `k`
/// items have been scanned.
pub open spec fn scan(widths: Seq<int>, k: int, c: int, mll: int, o: TabulateOrientation) -> ScanState
    decreases k,
{
    if k <= 0 {
        init_state(c, MIN_COLUMN_WIDTH as int)
    } else {
        scan_step(
            scan(widths, k - 1, c, mll, o),
            widths[k - 1],
            k - 1,
            widths.len() as int,
            c,
            mll,
            o,
        )
    }
}

/// The most columns the search proposes: the budget divided by the
/// minimum column width, at least one, and never more columns than
/// there are items.
pub open spec fn max_columns_for(mll: int, n: int, min_col_width: int) -> int {
    let by_width = if mll / min_col_width < 1 {
        1int
    } else {
        mll / min_col_width
    };
    if by_width < n {
        by_width
    } else {
        n
    }
}

/// The greatest column count at most `c` whose candidate survives the
/// whole scan, or zero when none does.
pub open spec fn best_valid_upto(widths: Seq<int>, c: int, mll: int, o: TabulateOrientation) -> int
    decreases c,
{
    if c <= 0 {
        0
    } else if scan(widths, widths.len() as int, c, mll, o).valid {
        c
    } else {
        best_valid_upto(widths, c - 1, mll, o)
    }
}

/// The column count the search selects: the greatest that survives, or
/// the single-column fallback when every candidate was abandoned.
pub open spec fn chosen_columns(widths: Seq<int>, mll: int, o: TabulateOrientation) -> int {
    let best = best_valid_upto(
        widths,
        max_columns_for(mll, widths.len() as int, MIN_COLUMN_WIDTH as int),
        mll,
        o,
    );
    if best == 0 {
        1
    } else {
        best
    }
}

/// The display widths of a sequence of items.
pub open spec fn item_widths<T: CharacterLength>(data: Seq<T>) -> Seq<int> {
    data.map_values(|t: T| t.width_spec() as int)
}

/// The configuration record `cfg` holds exactly the state of the
/// candidate with `c` columns after the first `k` items were scanned.
pub open spec fn config_tracks(
    cfg: ColumnConfiguration,
    widths: Seq<int>,
    k: int,
    c: int,
    mll: int,
    o: TabulateOrientation,
) -> bool {
    let s = scan(widths, k, c, mll, o);
    &&& cfg.num_columns == c
    &&& cfg.col_widths@.len() == c
    &&& cfg.col_widths@.map_values(|w: usize| w as int) == s.col_widths
    &&& cfg.line_len == s.line_len
    &&& cfg.valid == s.valid
}

/// The configuration record `cfg` holds exactly the scanned state of
/// the candidate with its column count after every item was scanned.
pub open spec fn config_matches(
    cfg: ColumnConfiguration,
    widths: Seq<int>,
    mll: int,
    o: TabulateOrientation,
) -> bool {
    config_tracks(cfg, widths, widths.len() as int, cfg.num_columns as int, mll, o)
}

/// The configuration record `cfg` is a fresh candidate with `c`
/// columns, each at the minimum width `mcw`.
pub open spec fn config_is_init(cfg: ColumnConfiguration, c: int, mcw: int) -> bool {
    let s = init_state(c, mcw);
    &&& cfg.num_columns == c
    &&& cfg.col_widths@.len() == c
    &&& cfg.col_widths@.map_values(|w: usize| w as int) == s.col_widths
    &&& cfg.line_len == s.line_len
    &&& cfg.valid == s.valid
}

/// Create one candidate configuration per column count from one up to
/// the bound, each with every column at the minimum width.
pub fn init_column_configs(
    max_line_length: usize,
    num_items: usize,
    min_col_width: usize,
) -> (configs: Vec<ColumnConfiguration>)
    requires
        min_col_width >= 1,
    ensures
        configs@.len() == max_columns_for(
            max_line_length as int,
            num_items as int,
            min_col_width as int,
        ),
        forall|j: int| 0 <= j < configs@.len() ==> #[trigger] config_is_init(
            configs@[j],
            j + 1,
            min_col_width as int,
        ),
{
    let mut configs: Vec<ColumnConfiguration> = Vec::new();
    let by_width = max_line_length / min_col_width;
    let max_columns: usize = if by_width < 1 {
        1
    } else {
        by_width
    };
    let max_columns: usize = if max_columns < num_items {
        max_columns
    } else {
        num_items
    };
    assert(max_columns == max_columns_for(
        max_line_length as int,
        num_items as int,
        min_col_width as int,
    ));
    proof {
        if max_columns > 1 {
            vstd::arithmetic::div_mod::lemma_fundamental_div_mod(
                max_line_length as int,
                min_col_width as int,
            );
            vstd::arithmetic::mul::lemma_mul_inequality(
                max_columns as int,
                (max_line_length as int) / (min_col_width as int),
                min_col_width as int,
            );
        }
    }
    let mut idx: usize = 0;
    while idx < max_columns
        invariant
            idx <= max_columns,
            max_columns == max_columns_for(
                max_line_length as int,
                num_items as int,
                min_col_width as int,
            ),
            max_columns * min_col_width <= max_line_length || max_columns <= 1,
            min_col_width >= 1,
            configs@.len() == idx,
            forall|j: int| 0 <= j < configs@.len() ==> #[trigger] config_is_init(
                configs@[j],
                j + 1,
                min_col_width as int,
            ),
        decreases max_columns - idx,
    {
        let num_columns = idx + 1;
        proof {
            vstd::arithmetic::mul::lemma_mul_inequality(
                num_columns as int,
                max_columns as int,
                min_col_width as int,
            );
            if max_columns <= 1 {
                assert(num_columns == 1);
                assert(num_columns as int * min_col_width as int == min_col_width as int)
                    by (nonlinear_arith)
                    requires num_columns == 1;
            }
        }
        let col_widths = make_min_widths(num_columns, min_col_width);
        let config = ColumnConfiguration {
            num_columns,
            col_widths,
            line_len: num_columns * min_col_width,
            valid: true,
        };
        configs.push(config);
        proof {
            assert(config_is_init(configs@[idx as int], idx + 1, min_col_width as int));
        }
        idx = num_columns;
    }
    configs
}

/// The number of grid rows, computed as the items divided by the
/// columns, rounded up, without forming the overflowing sum `n + c - 1`.
fn rows_exec(n: usize, c: usize) -> (rows: usize)
    requires
        1 <= c,
    ensures
        rows == rows_for(n as int, c as int),
        rows >= 1 || n == 0,
{
    let q = n / c;
    let r = n % c;
    proof {
        vstd::arithmetic::div_mod::lemma_fundamental_div_mod(n as int, c as int);
        if r != 0 {
            assert(c >= 2) by {
                if c == 1 {
                    assert(n as int % 1int == 0) by (nonlinear_arith);
                }
            }
            vstd::arithmetic::div_mod::lemma_div_is_ordered_by_denominator(n as int, 2, c as int);
            lemma_ceil_div_identity(n as int, c as int);
        } else {
            lemma_ceil_div_identity(n as int, c as int);
            if n >= 1 && q == 0 {
                assert(c as int * (q as int) + r as int == 0) by (nonlinear_arith)
                    requires
                        q == 0,
                        r == 0,
                ;
            }
        }
    }
    if r != 0 {
        q + 1
    } else {
        q
    }
}

/// The row count of the grid is exactly the item count divided by the
/// column count, rounded up: the quotient, plus one when a remainder
/// is left.
pub proof fn lemma_ceil_div_identity(n: int, c: int)
    requires
        0 <= n,
        1 <= c,
    ensures
        ceil_div(n, c) == n / c + if n % c != 0 {
            1int
        } else {
            0int
        },
{
    let q = n / c;
    let r = n % c;
    vstd::arithmetic::div_mod::lemma_fundamental_div_mod(n, c);
    if r != 0 {
        assert(n + c - 1 == (q + 1) * c + (r - 1)) by (nonlinear_arith)
            requires
                n == c * q + r,
        ;
        vstd::arithmetic::div_mod::lemma_fundamental_div_mod_converse_div(
            n + c - 1,
            c,
            q + 1,
            r - 1,
        );
    } else {
        assert(n + c - 1 == q * c + (c - 1)) by (nonlinear_arith)
            requires
                n == c * q + r,
                r == 0,
        ;
        vstd::arithmetic::div_mod::lemma_fundamental_div_mod_converse_div(n + c - 1, c, q, c - 1);
    }
}

/// The column an item maps to always lies inside the grid.
pub proof fn lemma_col_in_range(i: int, n: int, c: int, o: TabulateOrientation)
    requires
        0 <= i < n,
        1 <= c,
    ensures
        0 <= col_of_index(i, n, c, o) < c,
{
    match o {
        TabulateOrientation::Rows => {
        }
        TabulateOrientation::Columns => {
            let rows = rows_for(n, c);
            vstd::arithmetic::div_mod::lemma_fundamental_div_mod(n + c - 1, c);
            assert(c * rows >= n);
            assert(rows >= 1) by {
                if rows <= 0 {
                    assert(c * rows <= 0) by (nonlinear_arith)
                        requires
                            c >= 1,
                            rows <= 0,
                    ;
                }
            }
            assert(i < rows * c) by (nonlinear_arith)
                requires
                    i < c * rows,
            ;
            vstd::arithmetic::div_mod::lemma_multiply_divide_lt(i, rows, c);
        }
    }
}

/// The grid of a chosen column count holds at least as many cells as
/// there are items.
pub proof fn lemma_grid_covers(n: int, c: int)
    requires
        1 <= c,
        0 <= n,
    ensures
        n <= c * rows_for(n, c),
        n >= 1 ==> rows_for(n, c) >= 1,
{
    vstd::arithmetic::div_mod::lemma_fundamental_div_mod(n + c - 1, c);
    let rows = rows_for(n, c);
    if n >= 1 {
        assert(rows >= 1) by {
            if rows <= 0 {
                assert(c * rows <= 0) by (nonlinear_arith)
                    requires
                        c >= 1,
                        rows <= 0,
                ;
            }
        }
    }
}

/// Shape and bounds the scan keeps: the candidate with `c` columns
/// always has `c` column widths, none below the minimum, and while the
/// candidate stays valid its line length is below the budget unless no
/// column has grown yet.
pub proof fn lemma_scan_wf(widths: Seq<int>, k: int, c: int, mll: int, o: TabulateOrientation)
    requires
        1 <= c,
        0 <= k <= widths.len(),
        forall|i: int| 0 <= i < widths.len() ==> #[trigger] widths[i] >= 0,
    ensures
        ({
            let s = scan(widths, k, c, mll, o);
            &&& s.col_widths.len() == c
            &&& forall|j: int|
                0 <= j < c ==> #[trigger] s.col_widths[j] >= MIN_COLUMN_WIDTH as int
            &&& (s.valid ==> s.line_len < mll || s.line_len == c * MIN_COLUMN_WIDTH as int)
        }),
    decreases k,
{
    if k <= 0 {
    } else {
        lemma_scan_wf(widths, k - 1, c, mll, o);
        let s = scan(widths, k - 1, c, mll, o);
        if s.valid {
            lemma_col_in_range(k - 1, widths.len() as int, c, o);
        }
    }
}

/// A vector of `count` columns, each at the minimum width.
fn make_min_widths(count: usize, min_col_width: usize) -> (v: Vec<usize>)
    ensures
        v@.len() == count,
        v@.map_values(|w: usize| w as int) =~= Seq::new(count as nat, |j: int| min_col_width as int),
{
    let mut v: Vec<usize> = Vec::new();
    let mut i: usize = 0;
    while i < count
        invariant
            i <= count,
            v@.len() == i,
            forall|j: int| 0 <= j < i ==> v@[j] == min_col_width,
        decreases count - i,
    {
        v.push(min_col_width);
        i = i + 1;
    }
    v
}

/// A tabulator for laying out and rendering a slice of items.
pub struct Tabulator<'a, T> {
    /// The items to arrange, in display order.
    pub data: &'a [T],
    /// Width budget for a rendered line, in character cells.
    pub max_line_length: usize,
    /// Fill order of the grid.
    pub orientation: TabulateOrientation,
}

/// Inputs small enough for the search's arithmetic: every display
/// width must leave room for the separator and the budget within the
/// machine's integer range.
pub open spec fn widths_in_range<T: CharacterLength>(data: Seq<T>, mll: int) -> bool {
    forall|i: int| 0 <= i < data.len() ==> (#[trigger] data[i].width_spec()) + mll
        + COLUMN_SEPARATOR_WIDTH <= usize::MAX
}

impl<'a, T> Tabulator<'a, T> {
    /// Package the items, the line budget and the fill order for a
    /// later layout search and render.
    pub fn new(data: &'a [T], max_line_length: usize, orientation: TabulateOrientation) -> (t: Self)
        ensures
            t.data == data,
            t.max_line_length == max_line_length,
            t.orientation == orientation,
    {
        Tabulator { data, max_line_length, orientation }
    }

    /// Scan every item against one candidate configuration per column
    /// count and select the one with the most columns that still fits
    /// the budget; when every candidate overflows, fall back to the
    /// single-column arrangement. Fails exactly on an empty item
    /// sequence.
    pub fn get_column_config(&self) -> (r: Result<ColumnConfiguration, ConfigError>) where
        T: CharacterLength,

        requires
            self.max_line_length >= 1,
            widths_in_range(self.data@, self.max_line_length as int),
        ensures
            r is Err <==> self.data@.len() == 0,
            r matches Ok(cfg) ==> {
                let widths = item_widths(self.data@);
                let mll = self.max_line_length as int;
                &&& cfg.num_columns == chosen_columns(widths, mll, self.orientation)
                &&& config_matches(cfg, widths, mll, self.orientation)
                &&& 1 <= cfg.num_columns <= self.data@.len()
                &&& cfg.col_widths@.len() == cfg.num_columns
            },
    {
        let n = self.data.len();
        if n == 0 {
            return Err(ConfigError::EmptyData);
        }
        let ghost widths = item_widths(self.data@);
        let ghost mll = self.max_line_length as int;
        let ghost o = self.orientation;
        let ghost upper = max_columns_for(mll, n as int, MIN_COLUMN_WIDTH as int);
        let mut configs = init_column_configs(self.max_line_length, n, MIN_COLUMN_WIDTH);
        proof {
            assert(forall|i: int| 0 <= i < n ==> #[trigger] widths[i] == self.data@[i].width_spec());
            assert forall|j: int| 0 <= j < upper implies config_tracks(
                configs@[j],
                widths,
                0,
                j + 1,
                mll,
                o,
            ) by {
                assert(config_is_init(configs@[j], j + 1, MIN_COLUMN_WIDTH as int));
                assert(scan(widths, 0, j + 1, mll, o) == init_state(j + 1, MIN_COLUMN_WIDTH as int));
            }
        }
        let mut file_idx: usize = 0;
        while file_idx < n
            invariant
                n == self.data@.len(),
                1 <= n,
                file_idx <= n,
                widths == item_widths(self.data@),
                widths.len() == n,
                mll == self.max_line_length as int,
                mll >= 1,
                o == self.orientation,
                widths_in_range(self.data@, mll),
                upper == max_columns_for(mll, n as int, MIN_COLUMN_WIDTH as int),
                1 <= upper <= n,
                configs@.len() == upper,
                forall|j: int| 0 <= j < upper ==> config_tracks(
                    #[trigger] configs@[j],
                    widths,
                    file_idx as int,
                    j + 1,
                    mll,
                    o,
                ),
            decreases n - file_idx,
        {
            let entry_w = self.data[file_idx].characters_long();
            proof {
                assert(widths[file_idx as int] == self.data@[file_idx as int].width_spec());
            }
            let mut ci: usize = 0;
            while ci < configs.len()
                invariant
                    n == self.data@.len(),
                    1 <= n,
                    file_idx < n,
                    widths.len() == n,
                    mll >= 1,
                    widths_in_range(self.data@, mll),
                    widths == item_widths(self.data@),
                    entry_w == widths[file_idx as int],
                    configs@.len() == upper,
                    upper == max_columns_for(mll, n as int, MIN_COLUMN_WIDTH as int),
                    1 <= upper <= n,
                    ci <= upper,
                    self.max_line_length as int == mll,
                    self.orientation == o,
                    forall|j: int| 0 <= j < ci ==> config_tracks(
                        #[trigger] configs@[j],
                        widths,
                        file_idx + 1,
                        j + 1,
                        mll,
                        o,
                    ),
                    forall|j: int| ci <= j < upper ==> config_tracks(
                        #[trigger] configs@[j],
                        widths,
                        file_idx as int,
                        j + 1,
                        mll,
                        o,
                    ),
                decreases upper - ci,
            {
                let ghost c_int = ci as int + 1;
                let ghost s_before = scan(widths, file_idx as int, c_int, mll, o);
                proof {
                    lemma_scan_wf(widths, file_idx as int, c_int, mll, o);
                    assert(scan(widths, file_idx + 1, c_int, mll, o) == scan_step(
                        s_before,
                        widths[file_idx as int],
                        file_idx as int,
                        n as int,
                        c_int,
                        mll,
                        o,
                    ));
                }
                if configs[ci].valid {
                    let c = configs[ci].num_columns;
                    let col_idx: usize = match self.orientation {
                        TabulateOrientation::Rows => file_idx % c,
                        TabulateOrientation::Columns => file_idx / rows_exec(n, c),
                    };
                    proof {
                        lemma_col_in_range(file_idx as int, n as int, c as int, o);
                        assert(col_idx as int == col_of_index(file_idx as int, n as int, c as int, o));
                    }
                    let needed = entry_w + if col_idx == c - 1 {
                        0
                    } else {
                        COLUMN_SEPARATOR_WIDTH
                    };
                    let cur = configs[ci].col_widths[col_idx];
                    proof {
                        assert(cur as int == s_before.col_widths[col_idx as int]);
                        assert(needed as int == real_len_of(
                            entry_w as int,
                            col_idx as int,
                            c as int,
                        ));
                    }
                    if cur < needed {
                        proof {
                            assert(s_before.valid);
                            assert(s_before.line_len < mll || s_before.line_len == c_int
                                * MIN_COLUMN_WIDTH as int);
                            if c_int >= 2 {
                                vstd::arithmetic::div_mod::lemma_fundamental_div_mod(
                                    mll,
                                    MIN_COLUMN_WIDTH as int,
                                );
                                vstd::arithmetic::mul::lemma_mul_inequality(
                                    c_int,
                                    mll / (MIN_COLUMN_WIDTH as int),
                                    MIN_COLUMN_WIDTH as int,
                                );
                            } else {
                                assert(c_int * MIN_COLUMN_WIDTH as int == MIN_COLUMN_WIDTH as int)
                                    by (nonlinear_arith)
                                    requires
                                        c_int == 1,
                                ;
                            }
                        }
                        proof {
                            assert(self.data@[file_idx as int].width_spec() + mll
                                + COLUMN_SEPARATOR_WIDTH <= usize::MAX);
                            assert(s_before.line_len + needed - cur <= usize::MAX);
                        }
                        let delta = needed - cur;
                        let ghost pre = configs@;
                        let mut cfg = configs.remove(ci);
                        cfg.line_len = cfg.line_len + delta;
                        cfg.col_widths[col_idx] = needed;
                        cfg.valid = cfg.line_len < self.max_line_length;
                        configs.insert(ci, cfg);
                        proof {
                            let s_after = scan(widths, file_idx + 1, c_int, mll, o);
                            assert(cfg.col_widths@.map_values(|w: usize| w as int)
                                =~= s_after.col_widths);
                            assert(configs@ =~= pre.update(ci as int, cfg));
                            assert(config_tracks(configs@[ci as int], widths, file_idx + 1, c_int, mll, o));
                        }
                    }
                }
                ci = ci + 1;
            }
            file_idx = file_idx + 1;
        }
        let ghost full = n as int;
        let mut position: usize = 0;
        let mut i: usize = 0;
        while i < configs.len()
            invariant
                configs@.len() == upper,
                1 <= upper <= n,
                n == widths.len(),
                i <= upper,
                forall|j: int| 0 <= j < upper ==> config_tracks(
                    #[trigger] configs@[j],
                    widths,
                    widths.len() as int,
                    j + 1,
                    mll,
                    o,
                ),
                ({
                    let b = best_valid_upto(widths, i as int, mll, o);
                    position as int == if b == 0 {
                        0int
                    } else {
                        b - 1
                    }
                }),
                position < upper,
            decreases upper - i,
        {
            if configs[i].valid {
                position = i;
            }
            i = i + 1;
        }
        let config = configs.remove(position);
        proof {
            let b = best_valid_upto(widths, upper, mll, o);
            assert(config.num_columns as int == chosen_columns(widths, mll, o));
        }
        Ok(config)
    }
}

/// A run of `w` spaces (none when `w` is not positive): the padding
/// that fills a cell up to its column's width.
pub open spec fn pad_spaces(w: int) -> Seq<char> {
    if w <= 0 {
        Seq::empty()
    } else {
        Seq::new(w as nat, |i: int| ' ')
    }
}

/// The text one grid cell renders to: the item's text padded with
/// spaces up to the column's width, or nothing when the cell holds no
/// item. Padding counts the item's declared display width, not its
/// character count.
pub open spec fn cell_text<T: CharacterLength>(
    data: Seq<T>,
    cw: Seq<int>,
    rows: int,
    c: int,
    o: TabulateOrientation,
    row: int,
    col: int,
) -> Seq<char> {
    let idx = index_of_cell(row, col, rows, c, o);
    if 0 <= idx < data.len() {
        data[idx].text_spec() + pad_spaces(cw[col] - data[idx].width_spec())
    } else {
        Seq::empty()
    }
}

/// The first `upto` cells of one grid row, concatenated.
pub open spec fn row_cells<T: CharacterLength>(
    data: Seq<T>,
    cw: Seq<int>,
    rows: int,
    c: int,
    o: TabulateOrientation,
    row: int,
    upto: int,
) -> Seq<char>
    decreases upto,
{
    if upto <= 0 {
        Seq::empty()
    } else {
        row_cells(data, cw, rows, c, o, row, upto - 1) + cell_text(
            data,
            cw,
            rows,
            c,
            o,
            row,
            upto - 1,
        )
    }
}

/// The first `upto` rows of the grid, separated by single newlines,
/// with no newline after the last.
pub open spec fn grid_rows<T: CharacterLength>(
    data: Seq<T>,
    cw: Seq<int>,
    rows: int,
    c: int,
    o: TabulateOrientation,
    upto: int,
) -> Seq<char>
    decreases upto,
{
    if upto <= 0 {
        Seq::empty()
    } else if upto == 1 {
        row_cells(data, cw, rows, c, o, 0, c)
    } else {
        grid_rows(data, cw, rows, c, o, upto - 1) + seq!['\n'] + row_cells(
            data,
            cw,
            rows,
            c,
            o,
            upto - 1,
            c,
        )
    }
}

/// The full text the engine renders a sequence of items to: the empty
/// text for no items, else the grid of the configuration the search
/// selects, row by row.
pub open spec fn spec_render<T: CharacterLength>(
    data: Seq<T>,
    mll: int,
    o: TabulateOrientation,
) -> Seq<char> {
    if data.len() == 0 {
        Seq::empty()
    } else {
        let widths = item_widths(data);
        let c = chosen_columns(widths, mll, o);
        let s = scan(widths, widths.len() as int, c, mll, o);
        grid_rows(data, s.col_widths, rows_for(data.len() as int, c), c, o, rows_for(
            data.len() as int,
            c,
        ))
    }
}

/// Append `count` spaces to the text under construction.
fn append_spaces(s: &mut String, count: usize)
    ensures
        final(s)@ == old(s)@ + pad_spaces(count as int),
{
    let mut i: usize = 0;
    while i < count
        invariant
            i <= count,
            s@ == old(s)@ + pad_spaces(i as int),
        decreases count - i,
    {
        s.append(" ");
        proof {
            reveal_strlit(" ");
            assert(" "@ =~= seq![' ']);
            assert(pad_spaces(i + 1) =~= pad_spaces(i as int) + seq![' ']);
            assert(s@ =~= old(s)@ + pad_spaces(i + 1));
        }
        i = i + 1;
    }
    proof {
        assert(s@ =~= old(s)@ + pad_spaces(count as int));
    }
}

impl<'a, T> Tabulator<'a, T> {
    /// Render the items into the grid the search selects: each item
    /// padded to its column's width, rows separated by single newlines,
    /// no newline after the last row, and the empty text for no items.
    pub fn render(&self) -> (out: String) where T: CharacterLength
        requires
            self.max_line_length >= 1,
            widths_in_range(self.data@, self.max_line_length as int),
        ensures
            out@ == spec_render(self.data@, self.max_line_length as int, self.orientation),
    {
        let config = match self.get_column_config() {
            Err(_) => {
                return String::new();
            },
            Ok(config) => config,
        };
        let n = self.data.len();
        let c = config.num_columns;
        let rows = rows_exec(n, c);
        let ghost widths = item_widths(self.data@);
        let ghost mll = self.max_line_length as int;
        let ghost o = self.orientation;
        let ghost cw = scan(widths, n as int, c as int, mll, o).col_widths;
        proof {
            assert(rows >= 1);
        }
        let mut out = String::new();
        let mut row: usize = 0;
        while row < rows
            invariant
                n == self.data@.len(),
                1 <= n,
                widths == item_widths(self.data@),
                widths.len() == n,
                o == self.orientation,
                mll == self.max_line_length as int,
                c == chosen_columns(widths, mll, o),
                1 <= c <= n,
                cw == scan(widths, n as int, c as int, mll, o).col_widths,
                config.num_columns == c,
                config.col_widths@.len() == c,
                config.col_widths@.map_values(|w: usize| w as int) == cw,
                rows == rows_for(n as int, c as int),
                1 <= rows,
                row <= rows,
                out@ == grid_rows(self.data@, cw, rows as int, c as int, o, row as int),
            decreases rows - row,
        {
            if row > 0 {
                out.append("\n");
                proof {
                    reveal_strlit("\n");
                    assert("\n"@ =~= seq!['\n']);
                }
            }
            let ghost row_prefix = out@;
            let mut col: usize = 0;
            while col < c
                invariant
                    n == self.data@.len(),
                    1 <= n,
                    widths == item_widths(self.data@),
                    widths.len() == n,
                    o == self.orientation,
                    cw == scan(widths, n as int, c as int, mll, o).col_widths,
                    config.num_columns == c,
                    config.col_widths@.len() == c,
                    config.col_widths@.map_values(|w: usize| w as int) == cw,
                    rows == rows_for(n as int, c as int),
                    1 <= c,
                    1 <= rows,
                    row < rows,
                    col <= c,
                    out@ == row_prefix + row_cells(
                        self.data@,
                        cw,
                        rows as int,
                        c as int,
                        o,
                        row as int,
                        col as int,
                    ),
                decreases c - col,
            {
                proof {
                    let m64 = u64::MAX as int;
                    assert(row as int <= m64 && c as int <= m64 && col as int <= m64 && rows as int
                        <= m64);
                    assert(row as int * c as int <= m64 * m64 && row as int * c as int >= 0)
                        by (nonlinear_arith)
                        requires
                            0 <= row as int <= m64,
                            0 <= c as int <= m64,
                            m64 == u64::MAX as int,
                    ;
                    assert(col as int * rows as int <= m64 * m64 && col as int * rows as int >= 0)
                        by (nonlinear_arith)
                        requires
                            0 <= col as int <= m64,
                            0 <= rows as int <= m64,
                            m64 == u64::MAX as int,
                    ;
                    assert(m64 * m64 + m64 + m64 <= u128::MAX as int) by (nonlinear_arith)
                        requires
                            m64 == u64::MAX as int,
                    ;
                }
                let idx128: u128 = match self.orientation {
                    TabulateOrientation::Rows => (row as u128) * (c as u128) + (col as u128),
                    TabulateOrientation::Columns => (row as u128) + (col as u128) * (rows as u128),
                };
                proof {
                    assert(idx128 as int == index_of_cell(
                        row as int,
                        col as int,
                        rows as int,
                        c as int,
                        o,
                    ));
                }
                if idx128 < n as u128 {
                    let idx = idx128 as usize;
                    let entry = &self.data[idx];
                    let text = entry.rendered_text();
                    out.append(text.as_str());
                    let w = entry.characters_long();
                    let cwc = config.col_widths[col];
                    if w < cwc {
                        append_spaces(&mut out, cwc - w);
                    }
                    proof {
                        assert(cwc as int == cw[col as int]);
                        assert(out@ =~= row_prefix + row_cells(
                            self.data@,
                            cw,
                            rows as int,
                            c as int,
                            o,
                            row as int,
                            col + 1,
                        ));
                    }
                } else {
                    proof {
                        assert(cell_text(
                            self.data@,
                            cw,
                            rows as int,
                            c as int,
                            o,
                            row as int,
                            col as int,
                        ) =~= Seq::<char>::empty());
                        assert(out@ =~= row_prefix + row_cells(
                            self.data@,
                            cw,
                            rows as int,
                            c as int,
                            o,
                            row as int,
                            col + 1,
                        ));
                    }
                }
                col = col + 1;
            }
            proof {
                assert(out@ =~= grid_rows(self.data@, cw, rows as int, c as int, o, row + 1));
            }
            row = row + 1;
        }
        out
    }
}

/// The sum of a sequence of integers.
pub open spec fn seq_sum(s: Seq<int>) -> int
    decreases s.len(),
{
    if s.len() == 0 {
        0
    } else {
        seq_sum(s.drop_last()) + s.last()
    }
}

proof fn lemma_sum_const(c: int, v: int)
    requires
        0 <= c,
    ensures
        seq_sum(Seq::new(c as nat, |j: int| v)) == c * v,
    decreases c,
{
    if c == 0 {
        assert(c * v == 0) by (nonlinear_arith)
            requires
                c == 0,
        ;
    } else {
        lemma_sum_const(c - 1, v);
        assert(Seq::new(c as nat, |j: int| v).drop_last() =~= Seq::new((c - 1) as nat, |j: int| v));
        assert((c - 1) * v + v == c * v) by (nonlinear_arith);
    }
}

proof fn lemma_sum_update(s: Seq<int>, i: int, v: int)
    requires
        0 <= i < s.len(),
    ensures
        seq_sum(s.update(i, v)) == seq_sum(s) - s[i] + v,
    decreases s.len(),
{
    if i == s.len() - 1 {
        assert(s.update(i, v).drop_last() =~= s.drop_last());
    } else {
        assert(s.update(i, v).drop_last() =~= s.drop_last().update(i, v));
        lemma_sum_update(s.drop_last(), i, v);
    }
}

/// The line length a candidate tracks is at every step exactly the
/// sum of its column widths.
pub proof fn lemma_line_len_is_sum(widths: Seq<int>, k: int, c: int, mll: int, o: TabulateOrientation)
    requires
        1 <= c,
        0 <= k <= widths.len(),
        forall|i: int| 0 <= i < widths.len() ==> #[trigger] widths[i] >= 0,
    ensures
        scan(widths, k, c, mll, o).line_len == seq_sum(scan(widths, k, c, mll, o).col_widths),
    decreases k,
{
    if k <= 0 {
        lemma_sum_const(c, MIN_COLUMN_WIDTH as int);
    } else {
        lemma_line_len_is_sum(widths, k - 1, c, mll, o);
        let s = scan(widths, k - 1, c, mll, o);
        if s.valid {
            lemma_scan_wf(widths, k - 1, c, mll, o);
            let col = col_of_index(k - 1, widths.len() as int, c, o);
            let needed = real_len_of(widths[k - 1], col, c);
            lemma_col_in_range(k - 1, widths.len() as int, c, o);
            if s.col_widths[col] < needed {
                lemma_sum_update(s.col_widths, col, needed);
            }
        }
    }
}

/// Rendering is deterministic: the text depends on the items, their
/// widths, the budget and the orientation alone, so equal inputs
/// always render to equal text.
pub proof fn lemma_render_deterministic<T: CharacterLength>(
    a: Seq<T>,
    b: Seq<T>,
    mll: int,
    o: TabulateOrientation,
)
    requires
        a == b,
    ensures
        spec_render(a, mll, o) == spec_render(b, mll, o),
{
}

/// The search never selects fewer columns than one: the fallback is
/// the single-column arrangement.
pub proof fn lemma_chosen_columns_pos(widths: Seq<int>, mll: int, o: TabulateOrientation)
    ensures
        chosen_columns(widths, mll, o) >= 1,
{
    lemma_best_valid_upto_nonneg(
        widths,
        max_columns_for(mll, widths.len() as int, MIN_COLUMN_WIDTH as int),
        mll,
        o,
    );
}

proof fn lemma_best_valid_upto_nonneg(widths: Seq<int>, c: int, mll: int, o: TabulateOrientation)
    ensures
        best_valid_upto(widths, c, mll, o) >= 0,
    decreases c,
{
    if c > 0 && !scan(widths, widths.len() as int, c, mll, o).valid {
        lemma_best_valid_upto_nonneg(widths, c - 1, mll, o);
    }
}

/// Width bound: when the selected configuration's candidate survived
/// the scan and the budget exceeds the untouched minimum-width line,
/// the selected line length lies strictly below the budget.
pub proof fn lemma_width_bound(widths: Seq<int>, mll: int, o: TabulateOrientation)
    requires
        forall|i: int| 0 <= i < widths.len() ==> #[trigger] widths[i] >= 0,
        scan(widths, widths.len() as int, chosen_columns(widths, mll, o), mll, o).valid,
        mll > MIN_COLUMN_WIDTH as int * chosen_columns(widths, mll, o),
    ensures
        scan(widths, widths.len() as int, chosen_columns(widths, mll, o), mll, o).line_len < mll,
{
    let c = chosen_columns(widths, mll, o);
    lemma_chosen_columns_pos(widths, mll, o);
    lemma_scan_wf(widths, widths.len() as int, c, mll, o);
    assert(c * MIN_COLUMN_WIDTH as int == MIN_COLUMN_WIDTH as int * c) by (nonlinear_arith);
}

/// Monotonic column preference: the search never selects fewer
/// columns than some other candidate that also survived the scan.
pub proof fn lemma_monotonic_column_preference(
    widths: Seq<int>,
    mll: int,
    o: TabulateOrientation,
    c: int,
)
    requires
        1 <= c <= max_columns_for(mll, widths.len() as int, MIN_COLUMN_WIDTH as int),
        scan(widths, widths.len() as int, c, mll, o).valid,
    ensures
        c <= chosen_columns(widths, mll, o),
{
    lemma_best_valid_upto_ge(
        widths,
        c,
        max_columns_for(mll, widths.len() as int, MIN_COLUMN_WIDTH as int),
        mll,
        o,
    );
}

proof fn lemma_best_valid_upto_ge(widths: Seq<int>, c: int, u: int, mll: int, o: TabulateOrientation)
    requires
        1 <= c <= u,
        scan(widths, widths.len() as int, c, mll, o).valid,
    ensures
        best_valid_upto(widths, u, mll, o) >= c,
    decreases u,
{
    if !scan(widths, widths.len() as int, u, mll, o).valid {
        lemma_best_valid_upto_ge(widths, c, u - 1, mll, o);
    }
}

/// Every item has exactly one grid cell: the row and column computed
/// from its linear index lie inside the grid, and the cell maps back
/// to the item. Together with `lemma_cells_distinct` this says each
/// item appears exactly once in the rendered grid.
pub proof fn lemma_each_item_has_cell(i: int, n: int, c: int, o: TabulateOrientation)
    requires
        0 <= i < n,
        1 <= c,
    ensures
        ({
            let rows = rows_for(n, c);
            let row = row_of_index(i, n, c, o);
            let col = col_of_index(i, n, c, o);
            &&& 0 <= row < rows
            &&& 0 <= col < c
            &&& index_of_cell(row, col, rows, c, o) == i
        }),
{
    let rows = rows_for(n, c);
    lemma_grid_covers(n, c);
    lemma_col_in_range(i, n, c, o);
    match o {
        TabulateOrientation::Rows => {
            vstd::arithmetic::div_mod::lemma_fundamental_div_mod(i, c);
            assert(c * (i / c) == (i / c) * c) by (nonlinear_arith);
            assert(i < c * rows) by (nonlinear_arith)
                requires
                    i < n,
                    n <= c * rows,
            ;
            vstd::arithmetic::div_mod::lemma_multiply_divide_lt(i, c, rows);
        }
        TabulateOrientation::Columns => {
            vstd::arithmetic::div_mod::lemma_fundamental_div_mod(i, rows);
            assert(rows * (i / rows) == (i / rows) * rows) by (nonlinear_arith);
        }
    }
}

/// Distinct populated cells hold distinct items: the grid never shows
/// an item twice.
pub proof fn lemma_cells_distinct(
    r1: int,
    c1: int,
    r2: int,
    c2: int,
    n: int,
    c: int,
    o: TabulateOrientation,
)
    requires
        1 <= c,
        0 <= r1 < rows_for(n, c),
        0 <= c1 < c,
        0 <= r2 < rows_for(n, c),
        0 <= c2 < c,
        (r1, c1) != (r2, c2),
    ensures
        index_of_cell(r1, c1, rows_for(n, c), c, o) != index_of_cell(r2, c2, rows_for(n, c), c, o),
{
    let rows = rows_for(n, c);
    match o {
        TabulateOrientation::Rows => {
            let x1 = r1 * c + c1;
            let x2 = r2 * c + c2;
            vstd::arithmetic::div_mod::lemma_fundamental_div_mod_converse_div(x1, c, r1, c1);
            vstd::arithmetic::div_mod::lemma_fundamental_div_mod_converse_mod(x1, c, r1, c1);
            vstd::arithmetic::div_mod::lemma_fundamental_div_mod_converse_div(x2, c, r2, c2);
            vstd::arithmetic::div_mod::lemma_fundamental_div_mod_converse_mod(x2, c, r2, c2);
        }
        TabulateOrientation::Columns => {
            let x1 = r1 + c1 * rows;
            let x2 = r2 + c2 * rows;
            vstd::arithmetic::div_mod::lemma_fundamental_div_mod_converse_div(x1, rows, c1, r1);
            vstd::arithmetic::div_mod::lemma_fundamental_div_mod_converse_mod(x1, rows, c1, r1);
            vstd::arithmetic::div_mod::lemma_fundamental_div_mod_converse_div(x2, rows, c2, r2);
            vstd::arithmetic::div_mod::lemma_fundamental_div_mod_converse_mod(x2, rows, c2, r2);
        }
    }
}

/// Row-major adjacency: when item `i + 1` does not start a new row,
/// it sits in the same row as item `i`, one column to the right.
pub proof fn lemma_rowmajor_adjacent(i: int, n: int, c: int)
    requires
        0 <= i,
        i + 1 < n,
        1 <= c,
        (i + 1) % c != 0,
    ensures
        row_of_index(i + 1, n, c, TabulateOrientation::Rows) == row_of_index(
            i,
            n,
            c,
            TabulateOrientation::Rows,
        ),
        col_of_index(i + 1, n, c, TabulateOrientation::Rows) == col_of_index(
            i,
            n,
            c,
            TabulateOrientation::Rows,
        ) + 1,
{
    let q = i / c;
    let r = i % c;
    vstd::arithmetic::div_mod::lemma_fundamental_div_mod(i, c);
    if r == c - 1 {
        assert(i + 1 == (q + 1) * c + 0) by (nonlinear_arith)
            requires
                i == c * q + r,
                r == c - 1,
        ;
        vstd::arithmetic::div_mod::lemma_fundamental_div_mod_converse_mod(i + 1, c, q + 1, 0);
        assert(false);
    }
    assert(i + 1 == q * c + (r + 1)) by (nonlinear_arith)
        requires
            i == c * q + r,
    ;
    vstd::arithmetic::div_mod::lemma_fundamental_div_mod_converse_div(i + 1, c, q, r + 1);
    vstd::arithmetic::div_mod::lemma_fundamental_div_mod_converse_mod(i + 1, c, q, r + 1);
}

/// Column-major adjacency: when item `i + 1` still falls in the same
/// column as item `i`, it sits directly below it.
pub proof fn lemma_colmajor_adjacent(i: int, n: int, c: int)
    requires
        0 <= i,
        i + 1 < n,
        1 <= c,
        1 <= n,
        col_of_index(i + 1, n, c, TabulateOrientation::Columns) == col_of_index(
            i,
            n,
            c,
            TabulateOrientation::Columns,
        ),
    ensures
        row_of_index(i + 1, n, c, TabulateOrientation::Columns) == row_of_index(
            i,
            n,
            c,
            TabulateOrientation::Columns,
        ) + 1,
{
    let rows = rows_for(n, c);
    lemma_grid_covers(n, c);
    vstd::arithmetic::div_mod::lemma_fundamental_div_mod(i, rows);
    vstd::arithmetic::div_mod::lemma_fundamental_div_mod(i + 1, rows);
    assert(rows * ((i + 1) / rows) == rows * (i / rows)) by (nonlinear_arith)
        requires
            (i + 1) / rows == i / rows,
    ;
}

/// A plain displayable item: a text together with its declared display
/// width. The width is normally the text's character count, but may be
/// declared differently when the text carries cells the count does not
/// see, such as invisible markup.
pub struct TextItem {
    /// The text a grid cell shows for this item.
    pub text: String,
    /// The number of character cells the text occupies on screen.
    pub width: usize,
}

impl TextItem {
    /// Package a text with its declared display width.
    pub fn new(text: String, width: usize) -> (item: TextItem)
        ensures
            item.text == text,
            item.width == width,
    {
        TextItem { text, width }
    }
}

impl CharacterLength for TextItem {
    open spec fn width_spec(&self) -> nat {
        self.width as nat
    }

    open spec fn text_spec(&self) -> Seq<char> {
        self.text@
    }

    fn characters_long(&self) -> (n: usize) {
        self.width
    }

    fn rendered_text(&self) -> (s: String) {
        self.text.clone()
    }
}

} // verus!
